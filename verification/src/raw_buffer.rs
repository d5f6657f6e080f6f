use vstd::prelude::*;
use vstd::slice::slice_subrange;

verus! {

// ---------------------------------------------------------------------------
// Mathematical readings of fixed-width fields inside a byte sequence.
//
// Every probe contract in this crate is stated over these functions, so that
// a caller can see exactly which bytes a returned dimension came from.
// ---------------------------------------------------------------------------

/// Unsigned 16-bit little-endian value at byte offset `i`.
pub open spec fn u16_le_of(s: Seq<u8>, i: int) -> u16 {
    (s[i] + 0x100 * s[i + 1]) as u16
}

/// Unsigned 16-bit big-endian value at byte offset `i`.
pub open spec fn u16_be_of(s: Seq<u8>, i: int) -> u16 {
    (0x100 * s[i] + s[i + 1]) as u16
}

/// Unsigned 32-bit little-endian value at byte offset `i`.
pub open spec fn u32_le_of(s: Seq<u8>, i: int) -> u32 {
    (s[i] + 0x100 * s[i + 1] + 0x1_0000 * s[i + 2] + 0x100_0000 * s[i + 3]) as u32
}

/// Unsigned 32-bit big-endian value at byte offset `i`.
pub open spec fn u32_be_of(s: Seq<u8>, i: int) -> u32 {
    (0x100_0000 * s[i] + 0x1_0000 * s[i + 1] + 0x100 * s[i + 2] + s[i + 3]) as u32
}

/// Unsigned 64-bit little-endian value at byte offset `i`.
pub open spec fn u64_le_of(s: Seq<u8>, i: int) -> u64 {
    (u32_le_of(s, i) + 0x1_0000_0000 * u32_le_of(s, i + 4)) as u64
}

/// Unsigned 64-bit big-endian value at byte offset `i`.
pub open spec fn u64_be_of(s: Seq<u8>, i: int) -> u64 {
    (0x1_0000_0000 * u32_be_of(s, i) + u32_be_of(s, i + 4)) as u64
}

/// Reinterpretation of an unsigned value `u < 2^bits` as two's-complement.
pub open spec fn as_signed(u: int, half: int) -> int {
    if u < half {
        u
    } else {
        u - 2 * half
    }
}

/// Signed 8-bit value at byte offset `i`.
pub open spec fn i8_of(s: Seq<u8>, i: int) -> int {
    as_signed(s[i] as int, 0x80)
}

/// Signed 16-bit little-endian value at byte offset `i`.
pub open spec fn i16_le_of(s: Seq<u8>, i: int) -> int {
    as_signed(u16_le_of(s, i) as int, 0x8000)
}

/// Signed 16-bit big-endian value at byte offset `i`.
pub open spec fn i16_be_of(s: Seq<u8>, i: int) -> int {
    as_signed(u16_be_of(s, i) as int, 0x8000)
}

/// Signed 32-bit little-endian value at byte offset `i`.
pub open spec fn i32_le_of(s: Seq<u8>, i: int) -> int {
    as_signed(u32_le_of(s, i) as int, 0x8000_0000)
}

/// Signed 32-bit big-endian value at byte offset `i`.
pub open spec fn i32_be_of(s: Seq<u8>, i: int) -> int {
    as_signed(u32_be_of(s, i) as int, 0x8000_0000)
}

/// Signed 64-bit little-endian value at byte offset `i`.
pub open spec fn i64_le_of(s: Seq<u8>, i: int) -> int {
    as_signed(u64_le_of(s, i) as int, 0x8000_0000_0000_0000)
}

/// Signed 64-bit big-endian value at byte offset `i`.
pub open spec fn i64_be_of(s: Seq<u8>, i: int) -> int {
    as_signed(u64_be_of(s, i) as int, 0x8000_0000_0000_0000)
}

/// The bytes `[offset, offset + length)` of `s` equal `b` (and the range is
/// in bounds). Used by the byte-comparison helpers and every signature check.
pub open spec fn range_eq(s: Seq<u8>, offset: int, length: int, b: Seq<u8>) -> bool {
    &&& 0 <= offset
    &&& offset + length <= s.len()
    &&& b.len() == length
    &&& s.subrange(offset, offset + length) == b
}

/// A byte comparison made against a window `sub` cut out of `s` at `base`
/// answers the same question as one made against `s` itself, as long as the
/// compared range lies inside the window.
pub proof fn lemma_range_eq_in_window(
    s: Seq<u8>,
    base: int,
    sub: Seq<u8>,
    offset: int,
    length: int,
    b: Seq<u8>,
)
    requires
        0 <= base,
        base + sub.len() <= s.len(),
        sub == s.subrange(base, base + sub.len()),
        0 <= offset,
        0 <= length,
        offset + length <= sub.len(),
    ensures
        range_eq(sub, offset, length, b) == range_eq(s, base + offset, length, b),
{
    assert(sub.subrange(offset, offset + length) =~= s.subrange(
        base + offset,
        base + offset + length,
    ));
}

/// Some probes read a window that is the whole stream clipped to a fixed
/// size. For a comparison that would fit inside the clip, the clipped window
/// and the full stream answer alike: if the window is shorter than the
/// compared range, so is the stream.
pub proof fn lemma_range_eq_in_clipped(
    s: Seq<u8>,
    sub: Seq<u8>,
    clip: int,
    offset: int,
    length: int,
    b: Seq<u8>,
)
    requires
        sub == s.subrange(0, sub.len() as int),
        sub.len() == if s.len() < clip {
            s.len() as int
        } else {
            clip
        },
        0 <= offset,
        0 <= length,
        offset + length <= clip,
    ensures
        range_eq(sub, offset, length, b) == range_eq(s, offset, length, b),
{
    if offset + length <= sub.len() {
        lemma_range_eq_in_window(s, 0, sub, offset, length, b);
    }
}

/// What `String::from_utf8_lossy` makes of a byte sequence. The full decoding
/// rules are not restated here; `read_str` below relies on the standard
/// library for them.
pub uninterp spec fn lossy_text_of(s: Seq<u8>) -> Seq<char>;

/// A fully in-memory window of bytes handed out by the reader; all typed
/// decoding happens here.
pub struct RawBuffer {
    pub data: Vec<u8>,
}

impl View for RawBuffer {
    type V = Seq<u8>;

    open spec fn view(&self) -> Seq<u8> {
        self.data@
    }
}

impl RawBuffer {
    /// A zero-filled buffer of the requested length.
    pub fn new(length: usize) -> (r: RawBuffer)
        ensures
            r@ == Seq::new(length as nat, |i: int| 0u8),
    {
        let mut data: Vec<u8> = Vec::new();
        let mut i: usize = 0;
        while i < length
            invariant
                i <= length,
                data@ == Seq::new(i as nat, |j: int| 0u8),
            decreases length - i,
        {
            data.push(0u8);
            proof {
                assert(data@ =~= Seq::new((i + 1) as nat, |j: int| 0u8));
            }
            i = i + 1;
        }
        RawBuffer { data }
    }

    /// The raw bytes `[offset, offset + length)`.
    pub fn piece(&self, offset: usize, length: usize) -> (r: &[u8])
        requires
            offset + length <= self@.len(),
        ensures
            r@ == self@.subrange(offset as int, offset + length),
    {
        let n = self.data.len();
        assert(offset + length <= n);
        slice_subrange(self.data.as_slice(), offset, offset + length)
    }

    pub fn len(&self) -> (r: usize)
        ensures
            r == self@.len(),
    {
        self.data.len()
    }

    pub fn read_u8(&self, offset: usize) -> (r: u8)
        requires
            offset + 1 <= self@.len(),
        ensures
            r == self@[offset as int],
    {
        self.data[offset]
    }

    pub fn read_i8(&self, offset: usize) -> (r: i8)
        requires
            offset + 1 <= self@.len(),
        ensures
            r as int == i8_of(self@, offset as int),
    {
        let u = self.data[offset];
        if u < 0x80 {
            u as i8
        } else {
            ((u as i16) - 0x100) as i8
        }
    }

    pub fn read_u16_le(&self, offset: usize) -> (r: u16)
        requires
            offset + 2 <= self@.len(),
        ensures
            r == u16_le_of(self@, offset as int),
    {
        let n = self.data.len();
        assert(offset + 2 <= n);
        (self.data[offset] as u16) + 0x100 * (self.data[offset + 1] as u16)
    }

    pub fn read_u16_be(&self, offset: usize) -> (r: u16)
        requires
            offset + 2 <= self@.len(),
        ensures
            r == u16_be_of(self@, offset as int),
    {
        let n = self.data.len();
        assert(offset + 2 <= n);
        0x100 * (self.data[offset] as u16) + (self.data[offset + 1] as u16)
    }

    pub fn read_i16_le(&self, offset: usize) -> (r: i16)
        requires
            offset + 2 <= self@.len(),
        ensures
            r as int == i16_le_of(self@, offset as int),
    {
        let u = self.read_u16_le(offset);
        if u < 0x8000 {
            u as i16
        } else {
            ((u as i32) - 0x1_0000) as i16
        }
    }

    pub fn read_i16_be(&self, offset: usize) -> (r: i16)
        requires
            offset + 2 <= self@.len(),
        ensures
            r as int == i16_be_of(self@, offset as int),
    {
        let u = self.read_u16_be(offset);
        if u < 0x8000 {
            u as i16
        } else {
            ((u as i32) - 0x1_0000) as i16
        }
    }

    pub fn read_u32_le(&self, offset: usize) -> (r: u32)
        requires
            offset + 4 <= self@.len(),
        ensures
            r == u32_le_of(self@, offset as int),
    {
        let n = self.data.len();
        assert(offset + 4 <= n);
        (self.data[offset] as u32) + 0x100 * (self.data[offset + 1] as u32) + 0x1_0000 * (
        self.data[offset + 2] as u32) + 0x100_0000 * (self.data[offset + 3] as u32)
    }

    pub fn read_u32_be(&self, offset: usize) -> (r: u32)
        requires
            offset + 4 <= self@.len(),
        ensures
            r == u32_be_of(self@, offset as int),
    {
        let n = self.data.len();
        assert(offset + 4 <= n);
        0x100_0000 * (self.data[offset] as u32) + 0x1_0000 * (self.data[offset + 1] as u32) + 0x100
            * (self.data[offset + 2] as u32) + (self.data[offset + 3] as u32)
    }

    pub fn read_i32_le(&self, offset: usize) -> (r: i32)
        requires
            offset + 4 <= self@.len(),
        ensures
            r as int == i32_le_of(self@, offset as int),
    {
        let u = self.read_u32_le(offset);
        if u < 0x8000_0000 {
            u as i32
        } else {
            ((u as i64) - 0x1_0000_0000) as i32
        }
    }

    pub fn read_i32_be(&self, offset: usize) -> (r: i32)
        requires
            offset + 4 <= self@.len(),
        ensures
            r as int == i32_be_of(self@, offset as int),
    {
        let u = self.read_u32_be(offset);
        if u < 0x8000_0000 {
            u as i32
        } else {
            ((u as i64) - 0x1_0000_0000) as i32
        }
    }

    pub fn read_u64_le(&self, offset: usize) -> (r: u64)
        requires
            offset + 8 <= self@.len(),
        ensures
            r == u64_le_of(self@, offset as int),
    {
        let n = self.data.len();
        assert(offset + 8 <= n);
        let lo = self.read_u32_le(offset);
        let hi = self.read_u32_le(offset + 4);
        (lo as u64) + 0x1_0000_0000 * (hi as u64)
    }

    pub fn read_u64_be(&self, offset: usize) -> (r: u64)
        requires
            offset + 8 <= self@.len(),
        ensures
            r == u64_be_of(self@, offset as int),
    {
        let n = self.data.len();
        assert(offset + 8 <= n);
        let hi = self.read_u32_be(offset);
        let lo = self.read_u32_be(offset + 4);
        0x1_0000_0000 * (hi as u64) + (lo as u64)
    }

    pub fn read_i64_le(&self, offset: usize) -> (r: i64)
        requires
            offset + 8 <= self@.len(),
        ensures
            r as int == i64_le_of(self@, offset as int),
    {
        let u = self.read_u64_le(offset);
        if u < 0x8000_0000_0000_0000 {
            u as i64
        } else {
            (((u - 0x8000_0000_0000_0000) as i64) - 0x4000_0000_0000_0000) - 0x4000_0000_0000_0000
        }
    }

    pub fn read_i64_be(&self, offset: usize) -> (r: i64)
        requires
            offset + 8 <= self@.len(),
        ensures
            r as int == i64_be_of(self@, offset as int),
    {
        let u = self.read_u64_be(offset);
        if u < 0x8000_0000_0000_0000 {
            u as i64
        } else {
            (((u - 0x8000_0000_0000_0000) as i64) - 0x4000_0000_0000_0000) - 0x4000_0000_0000_0000
        }
    }

    /// Lossy text decoding of the bytes `[offset, offset + length)`.
    ///
    /// Relies on `String::from_utf8_lossy`: the decoded text is a function of
    /// the bytes alone, named `lossy_text_of`.
    #[verifier::external_body]
    pub fn read_str(&self, offset: usize, length: usize) -> (r: String)
        requires
            offset + length <= self@.len(),
        ensures
            r@ == lossy_text_of(self@.subrange(offset as int, offset + length)),
    {
        String::from_utf8_lossy(&self.data[offset..(offset + length)]).to_string()
    }

    /// Do the bytes `[offset, offset + length)` equal `buf`? A range that
    /// reaches past the end of the buffer compares unequal instead of
    /// faulting, so a truncated header can never cause an out-of-bounds read.
    pub fn cmp(&self, offset: usize, length: usize, buf: &[u8]) -> (r: bool)
        ensures
            r == range_eq(self@, offset as int, length as int, buf@),
    {
        if length > self.data.len() || offset > self.data.len() - length {
            return false;
        }
        if buf.len() != length {
            return false;
        }
        let dlen = self.data.len();
        let mut i: usize = 0;
        while i < length
            invariant
                i <= length,
                dlen == self@.len(),
                offset + length <= dlen,
                buf@.len() == length,
                forall|j: int| 0 <= j < i ==> self@[offset + j] == buf@[j],
            decreases length - i,
        {
            if self.data[offset + i] != buf[i] {
                assert(self@.subrange(offset as int, offset + length)[i as int] != buf@[i as int]);
                return false;
            }
            i = i + 1;
        }
        proof {
            assert(self@.subrange(offset as int, offset + length) =~= buf@);
        }
        true
    }

    /// Do the bytes `[offset, offset + length)` equal any entry of `buf_list`?
    pub fn cmp_any_of(&self, offset: usize, length: usize, buf_list: Vec<&[u8]>) -> (r: bool)
        ensures
            r == exists|k: int|
                0 <= k < buf_list@.len() && range_eq(
                    self@,
                    offset as int,
                    length as int,
                    buf_list@[k]@,
                ),
    {
        let mut k: usize = 0;
        while k < buf_list.len()
            invariant
                k <= buf_list@.len(),
                forall|j: int|
                    0 <= j < k ==> !range_eq(self@, offset as int, length as int, buf_list@[j]@),
            decreases buf_list@.len() - k,
        {
            if self.cmp(offset, length, buf_list[k]) {
                return true;
            }
            k = k + 1;
        }
        false
    }
}

} // verus!
