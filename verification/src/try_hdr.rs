use crate::defs::{ImageInfoError, ImageInfoResult, ImageSize};
use crate::raw_buffer::{lemma_range_eq_in_window, range_eq};
use crate::read_interface::ReadInterface;
use crate::{ImageFormat, ImageInfo, SpecImage};
use vstd::prelude::*;
use vstd::slice::{slice_index_get, slice_subrange};

verus! {

pub open spec fn hdr_rgbe_sig() -> Seq<u8> {
    seq![0x23u8, 0x3Fu8, 0x52u8, 0x47u8, 0x42u8, 0x45u8]
}

pub open spec fn hdr_xyze_sig() -> Seq<u8> {
    seq![0x23u8, 0x3Fu8, 0x58u8, 0x59u8, 0x5Au8, 0x45u8]
}

pub open spec fn hdr_radiance_sig() -> Seq<u8> {
    seq![0x23u8, 0x3Fu8, 0x52u8, 0x41u8, 0x44u8, 0x49u8, 0x41u8, 0x4Eu8, 0x43u8, 0x45u8]
}

/// The position of the first blank line: the least `i >= from` where two
/// newline bytes stand next to each other.
pub open spec fn hdr_find_blank(s: Seq<u8>, from: int) -> Option<int>
    decreases s.len() - from,
{
    if from < 0 || from + 2 > s.len() {
        None
    } else if s[from] == 0x0A && s[from + 1] == 0x0A {
        Some(from)
    } else {
        hdr_find_blank(s, from + 1)
    }
}

/// The position of the first newline byte at or after `from`.
pub open spec fn hdr_find_nl(s: Seq<u8>, from: int) -> Option<int>
    decreases s.len() - from,
{
    if from < 0 || from + 1 > s.len() {
        None
    } else if s[from] == 0x0A {
        Some(from)
    } else {
        hdr_find_nl(s, from + 1)
    }
}

/// The position of the first space byte at or after `from`, or the line's
/// length when there is none.
pub open spec fn hdr_first_sp(line: Seq<u8>, from: int) -> int
    decreases line.len() - from,
{
    if from < 0 || from >= line.len() {
        line.len() as int
    } else if line[from] == 0x20 {
        from
    } else {
        hdr_first_sp(line, from + 1)
    }
}

/// The line split at space bytes, keeping empty fragments, from `from` on.
pub open spec fn hdr_split(line: Seq<u8>, from: int) -> Seq<Seq<u8>>
    decreases line.len() - from,
{
    if from < 0 || from > line.len() {
        Seq::empty()
    } else {
        let p = hdr_first_sp(line, from);
        if p >= line.len() || p < from {
            seq![line.subrange(from, line.len() as int)]
        } else {
            seq![line.subrange(from, p)] + hdr_split(line, p + 1)
        }
    }
}

/// The unsigned decimal value of `tok[i..]` folded onto `acc`, or nothing
/// if any byte is not a digit.
pub open spec fn hdr_digits(tok: Seq<u8>, i: int, acc: int) -> Option<int>
    decreases tok.len() - i,
{
    if i < 0 || i > tok.len() {
        None
    } else if i == tok.len() {
        Some(acc)
    } else if 0x30 <= tok[i] <= 0x39 {
        hdr_digits(tok, i + 1, 10 * acc + (tok[i] - 0x30))
    } else {
        None
    }
}

/// A decimal value only grows as more digits are folded in.
proof fn lemma_hdr_digits_lb(tok: Seq<u8>, i: int, acc: int)
    requires
        acc >= 0,
    ensures
        hdr_digits(tok, i, acc) matches Some(v) ==> v >= acc,
    decreases tok.len() - i,
{
    if 0 <= i < tok.len() && 0x30 <= tok[i] <= 0x39 {
        lemma_hdr_digits_lb(tok, i + 1, 10 * acc + (tok[i] - 0x30));
    }
}

/// The signed 64-bit integer a token denotes: an optional sign, then one or
/// more decimal digits, within the representable range.
pub open spec fn hdr_parse_i64(tok: Seq<u8>) -> Option<int> {
    if tok.len() == 0 {
        None
    } else if tok[0] == 0x2B || tok[0] == 0x2D {
        if tok.len() == 1 {
            None
        } else {
            match hdr_digits(tok, 1, 0) {
                None => None,
                Some(v) => {
                    if tok[0] == 0x2D {
                        if v <= 0x8000_0000_0000_0000 {
                            Some(-v)
                        } else {
                            None
                        }
                    } else {
                        if v <= 0x7FFF_FFFF_FFFF_FFFF {
                            Some(v)
                        } else {
                            None
                        }
                    }
                },
            }
        }
    } else {
        match hdr_digits(tok, 0, 0) {
            None => None,
            Some(v) => {
                if v <= 0x7FFF_FFFF_FFFF_FFFF {
                    Some(v)
                } else {
                    None
                }
            },
        }
    }
}

/// Executable counterpart of `hdr_parse_i64`.
#[verifier::loop_isolation(false)]
pub(crate) fn hdr_parse_exec(tok: &[u8]) -> (r: Option<i64>)
    ensures
        r is Some <==> hdr_parse_i64(tok@) is Some,
        r matches Some(v) ==> hdr_parse_i64(tok@) == Some(v as int),
{
    let n = tok.len();
    if n == 0 {
        return None;
    }
    let c0 = *slice_index_get(tok, 0);
    let neg = c0 == 0x2D;
    let plus = c0 == 0x2B;
    if (neg || plus) && n == 1 {
        return None;
    }
    let start: usize = if neg || plus {
        1
    } else {
        0
    };
    let mut acc: u64 = 0;
    let mut i: usize = start;
    while i < n
        invariant
            start <= i <= n,
            n == tok@.len(),
            hdr_digits(tok@, start as int, 0) == hdr_digits(tok@, i as int, acc as int),
        decreases n - i,
    {
        let c = *slice_index_get(tok, i);
        if c < 0x30 || c > 0x39 {
            proof {
                assert(hdr_digits(tok@, i as int, acc as int) is None);
                assert(hdr_digits(tok@, start as int, 0) is None);
                assert(hdr_parse_i64(tok@) is None);
            }
            return None;
        }
        let d = (c - 0x30) as u64;
        if acc > (0xFFFF_FFFF_FFFF_FFFFu64 - d) / 10 {
            // the digits already exceed any 64-bit magnitude
            proof {
                lemma_hdr_digits_lb(tok@, i as int + 1, 10 * (acc as int) + (tok@[i as int] - 0x30));
                assert(hdr_digits(tok@, i as int, acc as int) == hdr_digits(
                    tok@,
                    i as int + 1,
                    10 * (acc as int) + (tok@[i as int] - 0x30),
                ));
                assert(10 * (acc as int) + (tok@[i as int] - 0x30) > 0xFFFF_FFFF_FFFF_FFFF);
                assert(hdr_parse_i64(tok@) is None);
            }
            return None;
        }
        acc = acc * 10 + d;
        i = i + 1;
    }
    proof {
        assert(hdr_digits(tok@, start as int, 0) == Some(acc as int));
    }
    if neg {
        if acc > 0x8000_0000_0000_0000 {
            return None;
        }
        if acc == 0x8000_0000_0000_0000 {
            return Some(i64::MIN);
        }
        return Some(-(acc as i64));
    }
    if acc > 0x7FFF_FFFF_FFFF_FFFF {
        return None;
    }
    Some(acc as i64)
}

/// The position of the first space at or after `from`, executable form.
pub(crate) fn hdr_first_sp_exec(line: &[u8], from: usize) -> (p: usize)
    requires
        from <= line@.len(),
    ensures
        p as int == hdr_first_sp(line@, from as int),
        from <= p <= line@.len(),
{
    let n = line.len();
    let mut i: usize = from;
    while i < n
        invariant
            from <= i <= n,
            n == line@.len(),
            hdr_first_sp(line@, from as int) == hdr_first_sp(line@, i as int),
        decreases n - i,
    {
        if *slice_index_get(line, i) == 0x20 {
            return i;
        }
        i = i + 1;
    }
    n
}

/// An HDR (Radiance) file: one of the text signatures, then a header that
/// ends at the first blank line, then a resolution line of exactly four
/// space-separated tokens whose second and fourth are the height and width.
pub open spec fn hdr_model(s: Seq<u8>) -> Option<SpecImage> {
    if s.len() < 6 {
        None
    } else if !(range_eq(s, 0, 6, hdr_rgbe_sig()) || range_eq(s, 0, 6, hdr_xyze_sig()) || (s.len()
        >= 10 && range_eq(s, 0, 10, hdr_radiance_sig()))) {
        None
    } else {
        match hdr_find_blank(s, 0) {
            None => None,
            Some(p) => match hdr_find_nl(s, p + 2) {
                None => None,
                Some(q) => {
                    let toks = hdr_split(s.subrange(p + 2, q), 0);
                    if toks.len() != 4 {
                        None
                    } else {
                        match hdr_parse_i64(toks[3]) {
                            None => None,
                            Some(w) => match hdr_parse_i64(toks[1]) {
                                None => None,
                                Some(h) => Some(
                                    SpecImage {
                                        format: ImageFormat::HDR,
                                        width: w,
                                        height: h,
                                        entries: Seq::empty(),
                                    },
                                ),
                            },
                        }
                    }
                },
            },
        }
    }
}

#[verifier::rlimit(100)]
#[verifier::loop_isolation(false)]
pub fn try_hdr(ri: &mut ReadInterface, length: usize) -> (r: ImageInfoResult<ImageInfo>)
    requires
        old(ri).wf(),
        length == old(ri).length,
    ensures
        final(ri).wf(),
        final(ri).content() == old(ri).content(),
        final(ri).length == old(ri).length,
        crate::probe_post(r, hdr_model(old(ri).content())),
{
    let ghost s: Seq<u8> = old(ri).content();
    if length < 6 {
        return Err(ImageInfoError::UnrecognizedFormat);
    }
    let buffer = match ri.read(0, 6) {
        Ok(b) => b,
        Err(e) => return Err(e),
    };
    let rgbe: [u8; 6] = [0x23, 0x3F, 0x52, 0x47, 0x42, 0x45];
    let xyze: [u8; 6] = [0x23, 0x3F, 0x58, 0x59, 0x5A, 0x45];
    proof {
        assert(rgbe@ =~= hdr_rgbe_sig());
        assert(xyze@ =~= hdr_xyze_sig());
        lemma_range_eq_in_window(s, 0, buffer@, 0, 6, hdr_rgbe_sig());
        lemma_range_eq_in_window(s, 0, buffer@, 0, 6, hdr_xyze_sig());
    }
    if !buffer.cmp(0, 6, rgbe.as_slice()) && !buffer.cmp(0, 6, xyze.as_slice()) {
        if length < 10 {
            return Err(ImageInfoError::UnrecognizedFormat);
        }
        let buffer = match ri.read(0, 10) {
            Ok(b) => b,
            Err(e) => return Err(e),
        };
        let radiance: [u8; 10] = [0x23, 0x3F, 0x52, 0x41, 0x44, 0x49, 0x41, 0x4E, 0x43, 0x45];
        proof {
            assert(radiance@ =~= hdr_radiance_sig());
            lemma_range_eq_in_window(s, 0, buffer@, 0, 10, hdr_radiance_sig());
        }
        if !buffer.cmp(0, 10, radiance.as_slice()) {
            return Err(ImageInfoError::UnrecognizedFormat);
        }
    }
    let all = match ri.read(0, length) {
        Ok(b) => b,
        Err(e) => return Err(e),
    };
    proof {
        assert(all@ =~= s);
    }

    // The header ends at the first blank line.
    let mut p: usize = 0;
    let mut blank_found = false;
    while !blank_found && length - p >= 2
        invariant
            p <= length,
            !blank_found ==> hdr_find_blank(s, 0) == hdr_find_blank(s, p as int),
            blank_found ==> p + 2 <= length && hdr_find_blank(s, 0) == Some(p as int),
        decreases length - p, (if blank_found {
            0int
        } else {
            1int
        }),
    {
        if all.read_u8(p) == 0x0A && all.read_u8(p + 1) == 0x0A {
            blank_found = true;
        } else {
            p = p + 1;
        }
    }
    if !blank_found {
        return Err(ImageInfoError::UnrecognizedFormat);
    }
    let rs = p + 2;

    // The resolution line runs to the next newline.
    let mut q: usize = rs;
    let mut nl_found = false;
    while !nl_found && q < length
        invariant
            rs <= q <= length,
            !nl_found ==> hdr_find_nl(s, rs as int) == hdr_find_nl(s, q as int),
            nl_found ==> q < length && hdr_find_nl(s, rs as int) == Some(q as int),
        decreases length - q, (if nl_found {
            0int
        } else {
            1int
        }),
    {
        if all.read_u8(q) == 0x0A {
            nl_found = true;
        } else {
            q = q + 1;
        }
    }
    if !nl_found {
        return Err(ImageInfoError::UnrecognizedFormat);
    }

    let line = all.piece(rs, q - rs);
    let ghost l: Seq<u8> = s.subrange(rs as int, q as int);
    proof {
        assert(line@ =~= l);
    }
    let llen = line.len();

    // The line must split into exactly four space-separated tokens.
    let sp1 = hdr_first_sp_exec(line, 0);
    if sp1 >= llen {
        proof {
            assert(hdr_split(l, 0).len() == 1);
        }
        return Err(ImageInfoError::UnrecognizedFormat);
    }
    let sp2 = hdr_first_sp_exec(line, sp1 + 1);
    proof {
        assert(hdr_split(l, 0) == seq![l.subrange(0, sp1 as int)] + hdr_split(l, sp1 as int + 1));
    }
    if sp2 >= llen {
        proof {
            assert(hdr_split(l, sp1 as int + 1).len() == 1);
        }
        return Err(ImageInfoError::UnrecognizedFormat);
    }
    let sp3 = hdr_first_sp_exec(line, sp2 + 1);
    proof {
        assert(hdr_split(l, sp1 as int + 1) == seq![l.subrange(sp1 as int + 1, sp2 as int)]
            + hdr_split(l, sp2 as int + 1));
    }
    if sp3 >= llen {
        proof {
            assert(hdr_split(l, sp2 as int + 1).len() == 1);
        }
        return Err(ImageInfoError::UnrecognizedFormat);
    }
    let sp4 = hdr_first_sp_exec(line, sp3 + 1);
    proof {
        assert(hdr_split(l, sp2 as int + 1) == seq![l.subrange(sp2 as int + 1, sp3 as int)]
            + hdr_split(l, sp3 as int + 1));
    }
    if sp4 < llen {
        proof {
            assert(hdr_split(l, sp3 as int + 1) == seq![l.subrange(sp3 as int + 1, sp4 as int)]
                + hdr_split(l, sp4 as int + 1));
            assert(hdr_split(l, 0).len() >= 5);
        }
        return Err(ImageInfoError::UnrecognizedFormat);
    }
    proof {
        assert(hdr_split(l, sp3 as int + 1) == seq![l.subrange(sp3 as int + 1, l.len() as int)]);
        assert(hdr_split(l, 0).len() == 4);
        assert(hdr_split(l, 0)[1] == l.subrange(sp1 as int + 1, sp2 as int));
        assert(hdr_split(l, 0)[3] == l.subrange(sp3 as int + 1, l.len() as int));
    }
    let y_tok = slice_subrange(line, sp1 + 1, sp2);
    let x_tok = slice_subrange(line, sp3 + 1, llen);
    let width = match hdr_parse_exec(x_tok) {
        Some(v) => v,
        None => {
            return Err(ImageInfoError::UnrecognizedFormat);
        },
    };
    let height = match hdr_parse_exec(y_tok) {
        Some(v) => v,
        None => {
            return Err(ImageInfoError::UnrecognizedFormat);
        },
    };
    let ret = ImageInfo {
        format: ImageFormat::HDR,
        ext: "hdr",
        full_ext: "hdr",
        mimetype: "image/vnd.radiance",
        size: ImageSize { width, height },
        entry_sizes: Vec::new(),
    };
    proof {
        assert(ret@ =~= hdr_model(s)->Some_0);
    }
    Ok(ret)
}

} // verus!
