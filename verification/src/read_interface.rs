use crate::defs::{ImageInfoError, ImageInfoResult};
use crate::raw_buffer::RawBuffer;
use vstd::prelude::*;

verus! {

/// How many leading bytes the reader caches on first use.
pub const HEADER_CACHE_SIZE: usize = 1024;

/// Windowed-cache reader over a byte source.
///
/// Probes re-read overlapping header regions many times, most of them
/// starting at offset 0, so the reader keeps the first
/// `min(length, HEADER_CACHE_SIZE)` bytes in a cache that is filled lazily on
/// the first read. A request fully inside the cache is served from it; one
/// that starts inside the cache and runs past its end is served by combining
/// the cached prefix with a fresh read of the remainder, unless the uncached
/// remainder is at least a quarter of the cache's size, in which case the
/// whole request bypasses the cache.
///
/// `read` is proved to hand back exactly the requested byte range whichever
/// path serves it.
pub struct ReadInterface {
    pub reader: Vec<u8>,
    pub length: usize,
    pub header_cache: Vec<u8>,
    pub header_cache_ok: bool,
}

impl ReadInterface {
    /// The bytes of the underlying source.
    pub open spec fn content(&self) -> Seq<u8> {
        self.reader@
    }

    pub open spec fn cache_len_spec(&self) -> int {
        if self.length < HEADER_CACHE_SIZE {
            self.length as int
        } else {
            HEADER_CACHE_SIZE as int
        }
    }

    pub open spec fn wf(&self) -> bool {
        &&& self.length == self.reader@.len()
        &&& self.header_cache_ok ==> self.header_cache@ == self.reader@.take(
            self.cache_len_spec(),
        )
    }

    pub fn from_reader(reader: Vec<u8>, length: usize) -> (r: ReadInterface)
        requires
            length == reader@.len(),
        ensures
            r.wf(),
            r.content() == reader@,
            r.length == length,
    {
        ReadInterface { reader, length, header_cache: Vec::new(), header_cache_ok: false }
    }

    /// One fresh read against the underlying source: the bytes
    /// `[offset, offset + size)`, bypassing the cache.
    fn source_read(&self, offset: usize, size: usize) -> (r: Vec<u8>)
        requires
            offset + size <= self.reader@.len(),
        ensures
            r@ == self.reader@.subrange(offset as int, offset + size),
    {
        let n = self.reader.len();
        let mut out: Vec<u8> = Vec::new();
        let mut i: usize = 0;
        while i < size
            invariant
                i <= size,
                n == self.reader@.len(),
                offset + size <= n,
                out@ == self.reader@.subrange(offset as int, offset + i),
            decreases size - i,
        {
            out.push(self.reader[offset + i]);
            proof {
                assert(out@ =~= self.reader@.subrange(offset as int, offset + i + 1));
            }
            i = i + 1;
        }
        out
    }

    /// Read exactly `size` bytes starting at `offset`. The caller must stay
    /// inside the known total length; within it, the read always succeeds and
    /// returns exactly the requested range.
    pub fn read(&mut self, offset: usize, size: usize) -> (r: ImageInfoResult<RawBuffer>)
        requires
            old(self).wf(),
            offset + size <= old(self).length,
        ensures
            final(self).wf(),
            final(self).content() == old(self).content(),
            final(self).length == old(self).length,
            r matches Ok(b) ==> b@ == old(self).content().subrange(offset as int, offset + size),
            r is Ok,
    {
        if !self.header_cache_ok {
            let cache_len = if self.length < HEADER_CACHE_SIZE {
                self.length
            } else {
                HEADER_CACHE_SIZE
            };
            self.header_cache = self.source_read(0, cache_len);
            proof {
                assert(self.header_cache@ =~= self.reader@.take(self.cache_len_spec()));
            }
            self.header_cache_ok = true;
        }
        let cache_len = self.header_cache.len();
        if size <= cache_len && offset <= cache_len - size {
            // Served wholly from the cache.
            let mut data: Vec<u8> = Vec::new();
            let mut i: usize = 0;
            while i < size
                invariant
                    i <= size,
                    cache_len == self.header_cache@.len(),
                    offset + size <= cache_len,
                    data@ == self.header_cache@.subrange(offset as int, offset + i),
                decreases size - i,
            {
                data.push(self.header_cache[offset + i]);
                proof {
                    assert(data@ =~= self.header_cache@.subrange(offset as int, offset + i + 1));
                }
                i = i + 1;
            }
            proof {
                assert(data@ =~= self.reader@.subrange(offset as int, offset + size));
            }
            Ok(RawBuffer { data })
        } else if offset < cache_len && (offset + size) - cache_len < cache_len / 4 {
            // The request starts inside the cache and runs past it, and the
            // uncached remainder is small: combine the cached prefix with a
            // fresh read of the tail.
            let head = cache_len - offset;
            let mut data: Vec<u8> = Vec::new();
            let mut i: usize = 0;
            while i < head
                invariant
                    i <= head,
                    cache_len == self.header_cache@.len(),
                    offset + head <= cache_len,
                    data@ == self.header_cache@.subrange(offset as int, offset + i),
                decreases head - i,
            {
                data.push(self.header_cache[offset + i]);
                proof {
                    assert(data@ =~= self.header_cache@.subrange(offset as int, offset + i + 1));
                }
                i = i + 1;
            }
            let mut tail = self.source_read(offset + head, size - head);
            data.append(&mut tail);
            proof {
                assert(data@ =~= self.reader@.subrange(offset as int, offset + size));
            }
            Ok(RawBuffer { data })
        } else {
            // Large tail: the whole request bypasses the cache.
            let data = self.source_read(offset, size);
            Ok(RawBuffer { data })
        }
    }
}

} // verus!
