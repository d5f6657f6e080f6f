use crate::defs::{ImageInfoError, ImageInfoResult, ImageSize};
use crate::raw_buffer::{
    lemma_range_eq_in_window, range_eq, u16_be_of, u16_le_of, u32_be_of, u32_le_of, u64_be_of,
    u64_le_of,
};
use crate::read_interface::ReadInterface;
use crate::{ImageFormat, ImageInfo, SpecImage};
use vstd::prelude::*;

verus! {

pub open spec fn tiff_le_sig() -> Seq<u8> {
    seq![0x49u8, 0x49u8]
}

pub open spec fn tiff_be_sig() -> Seq<u8> {
    seq![0x4Du8, 0x4Du8]
}

/// A 16-bit field in the file's byte order.
pub open spec fn tiff_u16(s: Seq<u8>, le: bool, i: int) -> u16 {
    if le {
        u16_le_of(s, i)
    } else {
        u16_be_of(s, i)
    }
}

/// A 32-bit field in the file's byte order.
pub open spec fn tiff_u32(s: Seq<u8>, le: bool, i: int) -> u32 {
    if le {
        u32_le_of(s, i)
    } else {
        u32_be_of(s, i)
    }
}

/// A 64-bit field in the file's byte order.
pub open spec fn tiff_u64(s: Seq<u8>, le: bool, i: int) -> u64 {
    if le {
        u64_le_of(s, i)
    } else {
        u64_be_of(s, i)
    }
}

/// The entry count of a classic IFD is read as a signed 16-bit value and
/// then used as an unsigned loop bound, so a negative count acts as a bound
/// larger than any entry table the stream could hold.
pub open spec fn tiff_entry_bound(raw: u16) -> int {
    if raw < 0x8000 {
        raw as int
    } else {
        0xFFFF_FFFF_FFFF_FFFFu64 as int
    }
}

/// One pass over the entries of a classic IFD: 12-byte entries from
/// `offset`, stopping at the entry bound, once both dimensions are set, or
/// where the stream ends. Tag 256 carries the width and tag 257 the height,
/// each as a 16-bit (field type 3) or 32-bit (field type 4) value at entry
/// offset 8; `-1` marks a dimension not yet seen.
pub open spec fn tiff_scan(s: Seq<u8>, le: bool, offset: int, i: int, num: int, w: int, h: int) -> (
    int,
    int,
)
    decreases num - i,
{
    if i >= num || (w != -1 && h != -1) {
        (w, h)
    } else if offset < 0 || s.len() < offset + 12 {
        (w, h)
    } else {
        let tag = tiff_u16(s, le, offset);
        let t = tiff_u16(s, le, offset + 2);
        let w2 = if tag == 256 {
            if t == 3 {
                tiff_u16(s, le, offset + 8) as int
            } else if t == 4 {
                tiff_u32(s, le, offset + 8) as int
            } else {
                w
            }
        } else {
            w
        };
        let h2 = if tag == 257 {
            if t == 3 {
                tiff_u16(s, le, offset + 8) as int
            } else if t == 4 {
                tiff_u32(s, le, offset + 8) as int
            } else {
                h
            }
        } else {
            h
        };
        tiff_scan(s, le, offset + 12, i + 1, num, w2, h2)
    }
}

/// One pass over the entries of a BigTIFF IFD: 20-byte entries, the value at
/// entry offset 12, with field type 16 carrying a 64-bit value. A 64-bit
/// dimension beyond the signed range rejects the file (`None`).
pub open spec fn tiff_big_scan(
    s: Seq<u8>,
    le: bool,
    offset: int,
    i: int,
    num: int,
    w: int,
    h: int,
) -> Option<(int, int)>
    decreases num - i,
{
    if i >= num || (w != -1 && h != -1) {
        Some((w, h))
    } else if offset < 0 || s.len() < offset + 20 {
        Some((w, h))
    } else {
        let tag = tiff_u16(s, le, offset);
        let t = tiff_u16(s, le, offset + 2);
        if tag == 256 && t == 16 && tiff_u64(s, le, offset + 12) > 0x7FFF_FFFF_FFFF_FFFF {
            None
        } else if tag == 257 && t == 16 && tiff_u64(s, le, offset + 12) > 0x7FFF_FFFF_FFFF_FFFF {
            None
        } else {
            let w2 = if tag == 256 {
                if t == 3 {
                    tiff_u16(s, le, offset + 12) as int
                } else if t == 4 {
                    tiff_u32(s, le, offset + 12) as int
                } else if t == 16 {
                    tiff_u64(s, le, offset + 12) as int
                } else {
                    w
                }
            } else {
                w
            };
            let h2 = if tag == 257 {
                if t == 3 {
                    tiff_u16(s, le, offset + 12) as int
                } else if t == 4 {
                    tiff_u32(s, le, offset + 12) as int
                } else if t == 16 {
                    tiff_u64(s, le, offset + 12) as int
                } else {
                    h
                }
            } else {
                h
            };
            tiff_big_scan(s, le, offset + 20, i + 1, num, w2, h2)
        }
    }
}

/// A TIFF header: a byte-order mark, then version 42 (classic, 32-bit IFD
/// offset) or 43 (BigTIFF, 64-bit IFD offset), then the first IFD's entries
/// scanned for the width and height tags. The file is recognized only when
/// both dimensions are found.
pub open spec fn tiff_model(s: Seq<u8>) -> Option<SpecImage> {
    if s.len() < 8 {
        None
    } else if !range_eq(s, 0, 2, tiff_le_sig()) && !range_eq(s, 0, 2, tiff_be_sig()) {
        None
    } else {
        let le = s[0] == 0x49;
        let version = tiff_u16(s, le, 2);
        if version == 0x2A {
            let offset = tiff_u32(s, le, 4) as int;
            if s.len() < offset + 2 {
                None
            } else {
                let num = tiff_entry_bound(tiff_u16(s, le, offset));
                let dims = tiff_scan(s, le, offset + 2, 0, num, -1, -1);
                if dims.0 != -1 && dims.1 != -1 {
                    Some(
                        SpecImage {
                            format: ImageFormat::TIFF,
                            width: dims.0,
                            height: dims.1,
                            entries: Seq::empty(),
                        },
                    )
                } else {
                    None
                }
            }
        } else if version == 0x2B {
            if s.len() < 16 {
                None
            } else if tiff_u16(s, le, 4) != 8 || tiff_u16(s, le, 6) != 0 {
                None
            } else {
                let offset = tiff_u64(s, le, 8) as int;
                if s.len() < offset + 8 {
                    None
                } else {
                    let num = tiff_u64(s, le, offset) as int;
                    match tiff_big_scan(s, le, offset + 8, 0, num, -1, -1) {
                        None => None,
                        Some(dims) => {
                            if dims.0 != -1 && dims.1 != -1 {
                                Some(
                                    SpecImage {
                                        format: ImageFormat::TIFF,
                                        width: dims.0,
                                        height: dims.1,
                                        entries: Seq::empty(),
                                    },
                                )
                            } else {
                                None
                            }
                        },
                    }
                }
            }
        } else {
            None
        }
    }
}

#[verifier::rlimit(60)]
#[verifier::loop_isolation(false)]
pub fn try_tiff(ri: &mut ReadInterface, length: usize) -> (r: ImageInfoResult<ImageInfo>)
    requires
        old(ri).wf(),
        length == old(ri).length,
    ensures
        final(ri).wf(),
        final(ri).content() == old(ri).content(),
        final(ri).length == old(ri).length,
        crate::probe_post(r, tiff_model(old(ri).content())),
{
    let ghost s: Seq<u8> = old(ri).content();
    if length < 8 {
        return Err(ImageInfoError::UnrecognizedFormat);
    }
    let buffer = match ri.read(0, 8) {
        Ok(b) => b,
        Err(e) => return Err(e),
    };
    let le_sig: [u8; 2] = [0x49, 0x49];
    let be_sig: [u8; 2] = [0x4D, 0x4D];
    proof {
        assert(le_sig@ =~= tiff_le_sig());
        assert(be_sig@ =~= tiff_be_sig());
        lemma_range_eq_in_window(s, 0, buffer@, 0, 2, tiff_le_sig());
        lemma_range_eq_in_window(s, 0, buffer@, 0, 2, tiff_be_sig());
    }
    let is_le = buffer.cmp(0, 2, le_sig.as_slice());
    if !is_le && !buffer.cmp(0, 2, be_sig.as_slice()) {
        return Err(ImageInfoError::UnrecognizedFormat);
    }
    let little_endian = buffer.read_u8(0) == 0x49;
    proof {
        assert(little_endian == (s[0] == 0x49));
    }
    let tiff_version = if little_endian {
        buffer.read_u16_le(2)
    } else {
        buffer.read_u16_be(2)
    };
    if tiff_version == 0x2A {
        let first = if little_endian {
            buffer.read_u32_le(4)
        } else {
            buffer.read_u32_be(4)
        };
        if (length as u64) < (first as u64) + 2 {
            return Err(ImageInfoError::UnrecognizedFormat);
        }
        let mut offset: usize = first as usize;
        let buffer = match ri.read(offset, 2) {
            Ok(b) => b,
            Err(e) => return Err(e),
        };
        let raw = if little_endian {
            buffer.read_u16_le(0)
        } else {
            buffer.read_u16_be(0)
        };
        let num: u64 = if raw < 0x8000 {
            raw as u64
        } else {
            0xFFFF_FFFF_FFFF_FFFF
        };
        offset = offset + 2;
        let ghost start: int = offset as int;
        let mut w: i64 = -1;
        let mut h: i64 = -1;
        let mut i: u64 = 0;
        let mut done = false;
        while !done && i < num && (w == -1 || h == -1)
            invariant
                ri.wf(),
                s == old(ri).content(),
                ri.content() == s,
                ri.length == length,
                length == old(ri).length,
                length == s.len(),
                offset <= length,
                little_endian == (s[0] == 0x49),
                i <= num,
                !done ==> tiff_scan(s, little_endian, start, 0, num as int, -1, -1) == tiff_scan(
                    s,
                    little_endian,
                    offset as int,
                    i as int,
                    num as int,
                    w as int,
                    h as int,
                ),
                done ==> tiff_scan(s, little_endian, start, 0, num as int, -1, -1) == (
                w as int,
                h as int,
                ),
            decreases num - i, (if done {
                0int
            } else {
                1int
            }),
        {
            if length - offset < 12 {
                done = true;
            } else {
                let buffer = match ri.read(offset, 12) {
                    Ok(b) => b,
                    Err(e) => return Err(e),
                };
                let tag = if little_endian {
                    buffer.read_u16_le(0)
                } else {
                    buffer.read_u16_be(0)
                };
                let t = if little_endian {
                    buffer.read_u16_le(2)
                } else {
                    buffer.read_u16_be(2)
                };
                if tag == 256 {
                    if t == 3 {
                        w = if little_endian {
                            buffer.read_u16_le(8) as i64
                        } else {
                            buffer.read_u16_be(8) as i64
                        };
                    } else if t == 4 {
                        w = if little_endian {
                            buffer.read_u32_le(8) as i64
                        } else {
                            buffer.read_u32_be(8) as i64
                        };
                    }
                } else if tag == 257 {
                    if t == 3 {
                        h = if little_endian {
                            buffer.read_u16_le(8) as i64
                        } else {
                            buffer.read_u16_be(8) as i64
                        };
                    } else if t == 4 {
                        h = if little_endian {
                            buffer.read_u32_le(8) as i64
                        } else {
                            buffer.read_u32_be(8) as i64
                        };
                    }
                }
                i = i + 1;
                offset = offset + 12;
            }
        }
        if w != -1 && h != -1 {
            let ret = ImageInfo {
                format: ImageFormat::TIFF,
                ext: "tif",
                full_ext: "tiff",
                mimetype: "image/tiff",
                size: ImageSize { width: w, height: h },
                entry_sizes: Vec::new(),
            };
            proof {
                assert(ret@ =~= tiff_model(s)->Some_0);
            }
            Ok(ret)
        } else {
            Err(ImageInfoError::UnrecognizedFormat)
        }
    } else if tiff_version == 0x2B {
        if length < 16 {
            return Err(ImageInfoError::UnrecognizedFormat);
        }
        let byte_size = if little_endian {
            buffer.read_u16_le(4)
        } else {
            buffer.read_u16_be(4)
        };
        let zero = if little_endian {
            buffer.read_u16_le(6)
        } else {
            buffer.read_u16_be(6)
        };
        if byte_size != 8 || zero != 0 {
            return Err(ImageInfoError::UnrecognizedFormat);
        }
        let buffer = match ri.read(8, 8) {
            Ok(b) => b,
            Err(e) => return Err(e),
        };
        let first = if little_endian {
            buffer.read_u64_le(0)
        } else {
            buffer.read_u64_be(0)
        };
        if (length as u64) < 8 || (length as u64) - 8 < first {
            return Err(ImageInfoError::UnrecognizedFormat);
        }
        let mut offset: usize = first as usize;
        let buffer = match ri.read(offset, 8) {
            Ok(b) => b,
            Err(e) => return Err(e),
        };
        let num = if little_endian {
            buffer.read_u64_le(0)
        } else {
            buffer.read_u64_be(0)
        };
        offset = offset + 8;
        let ghost start: int = offset as int;
        let mut w: i64 = -1;
        let mut h: i64 = -1;
        let mut i: u64 = 0;
        let mut done = false;
        while !done && i < num && (w == -1 || h == -1)
            invariant
                ri.wf(),
                s == old(ri).content(),
                ri.content() == s,
                ri.length == length,
                length == old(ri).length,
                length == s.len(),
                offset <= length,
                little_endian == (s[0] == 0x49),
                i <= num,
                !done ==> tiff_big_scan(s, little_endian, start, 0, num as int, -1, -1)
                    == tiff_big_scan(
                    s,
                    little_endian,
                    offset as int,
                    i as int,
                    num as int,
                    w as int,
                    h as int,
                ),
                done ==> tiff_big_scan(s, little_endian, start, 0, num as int, -1, -1) == Some(
                    (w as int, h as int),
                ),
            decreases num - i, (if done {
                0int
            } else {
                1int
            }),
        {
            if length - offset < 20 {
                done = true;
            } else {
                let buffer = match ri.read(offset, 20) {
                    Ok(b) => b,
                    Err(e) => return Err(e),
                };
                let tag = if little_endian {
                    buffer.read_u16_le(0)
                } else {
                    buffer.read_u16_be(0)
                };
                let t = if little_endian {
                    buffer.read_u16_le(2)
                } else {
                    buffer.read_u16_be(2)
                };
                if tag == 256 {
                    if t == 3 {
                        w = if little_endian {
                            buffer.read_u16_le(12) as i64
                        } else {
                            buffer.read_u16_be(12) as i64
                        };
                    } else if t == 4 {
                        w = if little_endian {
                            buffer.read_u32_le(12) as i64
                        } else {
                            buffer.read_u32_be(12) as i64
                        };
                    } else if t == 16 {
                        let v = if little_endian {
                            buffer.read_u64_le(12)
                        } else {
                            buffer.read_u64_be(12)
                        };
                        if v > 0x7FFF_FFFF_FFFF_FFFF {
                            return Err(ImageInfoError::UnrecognizedFormat);
                        }
                        w = v as i64;
                    }
                } else if tag == 257 {
                    if t == 3 {
                        h = if little_endian {
                            buffer.read_u16_le(12) as i64
                        } else {
                            buffer.read_u16_be(12) as i64
                        };
                    } else if t == 4 {
                        h = if little_endian {
                            buffer.read_u32_le(12) as i64
                        } else {
                            buffer.read_u32_be(12) as i64
                        };
                    } else if t == 16 {
                        let v = if little_endian {
                            buffer.read_u64_le(12)
                        } else {
                            buffer.read_u64_be(12)
                        };
                        if v > 0x7FFF_FFFF_FFFF_FFFF {
                            return Err(ImageInfoError::UnrecognizedFormat);
                        }
                        h = v as i64;
                    }
                }
                i = i + 1;
                offset = offset + 20;
            }
        }
        if w != -1 && h != -1 {
            let ret = ImageInfo {
                format: ImageFormat::TIFF,
                ext: "tif",
                full_ext: "tiff",
                mimetype: "image/tiff",
                size: ImageSize { width: w, height: h },
                entry_sizes: Vec::new(),
            };
            proof {
                assert(ret@ =~= tiff_model(s)->Some_0);
            }
            Ok(ret)
        } else {
            Err(ImageInfoError::UnrecognizedFormat)
        }
    } else {
        Err(ImageInfoError::UnrecognizedFormat)
    }
}

} // verus!
