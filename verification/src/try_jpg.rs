use crate::defs::{ImageInfoError, ImageInfoResult, ImageSize};
use crate::raw_buffer::{lemma_range_eq_in_window, range_eq, u16_be_of, u16_le_of, u32_be_of, u32_le_of};
use crate::read_interface::ReadInterface;
use crate::{ImageFormat, ImageInfo, SpecImage};
use vstd::prelude::*;

verus! {

pub open spec fn jpg_soi_sig() -> Seq<u8> {
    seq![0xFFu8, 0xD8u8]
}

pub open spec fn jpg_exif_sig() -> Seq<u8> {
    seq![0x45u8, 0x78u8, 0x69u8, 0x66u8, 0x00u8]
}

/// A 16-bit EXIF field in the byte order the TIFF header inside the APP1
/// segment declared.
pub open spec fn jpg_u16(s: Seq<u8>, be: bool, i: int) -> u16 {
    if be {
        u16_be_of(s, i)
    } else {
        u16_le_of(s, i)
    }
}

/// A 32-bit EXIF field in the declared byte order.
pub open spec fn jpg_u32(s: Seq<u8>, be: bool, i: int) -> u32 {
    if be {
        u32_be_of(s, i)
    } else {
        u32_le_of(s, i)
    }
}

/// Folds the remaining `n` IFD entries at window-relative offset `t` over
/// the orientation: the last entry with tag 274 wins. An entry that would
/// read past the segment rejects the file.
pub open spec fn jpg_exif_entries(
    s: Seq<u8>,
    base: int,
    be: bool,
    t: int,
    n: int,
    sec_end: int,
    orient: int,
) -> Option<int>
    decreases n,
{
    if n <= 0 {
        Some(orient)
    } else if t + 12 > sec_end {
        None
    } else {
        let tag = jpg_u16(s, be, base + t);
        let o2 = if tag == 274 {
            jpg_u16(s, be, base + t + 8) as int
        } else {
            orient
        };
        jpg_exif_entries(s, base, be, t + 12, n - 1, sec_end, o2)
    }
}

/// What an APP1 segment starting at `base` does to the orientation. A
/// segment that does not announce EXIF data leaves it unchanged; one that
/// does but is too short for the TIFF header, or whose IFD offset or
/// entries run out of the segment, rejects the file.
pub open spec fn jpg_exif(s: Seq<u8>, base: int, section_size: int, orient: int) -> Option<int> {
    let sec_end = section_size + 2;
    if !(sec_end >= 9 && range_eq(s, base + 4, 5, jpg_exif_sig())) {
        Some(orient)
    } else if sec_end < 18 {
        None
    } else {
        let be = s[base + 10] != 0x49;
        let fio = jpg_u32(s, be, base + 14) as int;
        if fio < 8 || fio + 12 > sec_end {
            None
        } else {
            let n = jpg_u16(s, be, base + fio + 10) as int;
            jpg_exif_entries(s, base, be, fio + 12, n, sec_end, orient)
        }
    }
}

/// The scan over JPEG marker segments from `offset`: bytes that are not a
/// marker are skipped one at a time; an APP1 segment may update the
/// orientation; the first start-of-frame segment (baseline, optimized or
/// progressive) carries the dimensions, swapped when the EXIF orientation
/// denotes a quarter turn. Running out of stream without a start-of-frame
/// leaves the file unrecognized.
pub open spec fn jpg_scan(s: Seq<u8>, offset: int, orient: int) -> Option<(int, int)>
    decreases s.len() - offset,
{
    if offset < 0 || offset + 9 > s.len() {
        None
    } else if s[offset] != 0xFF {
        jpg_scan(s, offset + 1, orient)
    } else {
        let section_size = u16_be_of(s, offset + 2) as int;
        if s[offset + 1] == 0xE1 {
            if offset + section_size + 2 > s.len() {
                None
            } else {
                match jpg_exif(s, offset, section_size, orient) {
                    None => None,
                    Some(o2) => jpg_scan(s, offset + section_size + 2, o2),
                }
            }
        } else if s[offset + 1] == 0xC0 || s[offset + 1] == 0xC1 || s[offset + 1] == 0xC2 {
            let w = u16_be_of(s, offset + 7) as int;
            let h = u16_be_of(s, offset + 5) as int;
            if orient == 5 || orient == 6 || orient == 7 || orient == 8 {
                Some((h, w))
            } else {
                Some((w, h))
            }
        } else if offset + section_size + 2 > s.len() {
            None
        } else {
            jpg_scan(s, offset + section_size + 2, orient)
        }
    }
}

/// A JPEG file: the start-of-image marker, then whatever dimensions the
/// marker-segment scan resolves, with the EXIF orientation (default 1)
/// applied.
pub open spec fn jpg_model(s: Seq<u8>) -> Option<SpecImage> {
    if s.len() < 2 || !range_eq(s, 0, 2, jpg_soi_sig()) {
        None
    } else {
        match jpg_scan(s, 2, 1) {
            None => None,
            Some(dims) => Some(
                SpecImage {
                    format: ImageFormat::JPEG,
                    width: dims.0,
                    height: dims.1,
                    entries: Seq::empty(),
                },
            ),
        }
    }
}

#[verifier::rlimit(100)]
#[verifier::loop_isolation(false)]
pub fn try_jpg(ri: &mut ReadInterface, length: usize) -> (r: ImageInfoResult<ImageInfo>)
    requires
        old(ri).wf(),
        length == old(ri).length,
    ensures
        final(ri).wf(),
        final(ri).content() == old(ri).content(),
        final(ri).length == old(ri).length,
        crate::probe_post(r, jpg_model(old(ri).content())),
{
    let ghost s: Seq<u8> = old(ri).content();
    if length < 2 {
        return Err(ImageInfoError::UnrecognizedFormat);
    }
    let buffer = match ri.read(0, 2) {
        Ok(b) => b,
        Err(e) => return Err(e),
    };
    let soi: [u8; 2] = [0xFF, 0xD8];
    proof {
        assert(soi@ =~= jpg_soi_sig());
        lemma_range_eq_in_window(s, 0, buffer@, 0, 2, jpg_soi_sig());
    }
    if !buffer.cmp(0, 2, soi.as_slice()) {
        return Err(ImageInfoError::UnrecognizedFormat);
    }
    let mut orientation: u16 = 1;
    let mut offset: usize = 2;
    while length - offset >= 9
        invariant
            ri.wf(),
            ri.content() == s,
            ri.length == length,
            2 <= offset <= length,
            jpg_scan(s, 2, 1) == jpg_scan(s, offset as int, orientation as int),
        decreases length - offset,
    {
        let buffer = match ri.read(offset, 9) {
            Ok(b) => b,
            Err(e) => return Err(e),
        };
        let section_size = buffer.read_u16_be(2) as usize;
        if buffer.read_u8(0) != 0xFF {
            // skip garbage bytes
            offset = offset + 1;
            continue ;
        }
        let marker = buffer.read_u8(1);
        if marker == 0xE1 {
            // APP1, which may carry the EXIF orientation
            if length - offset < 2 || (length - offset) - 2 < section_size {
                return Err(ImageInfoError::UnrecognizedFormat);
            }
            let sec_end = section_size + 2;
            let exif_buffer = match ri.read(offset, sec_end) {
                Ok(b) => b,
                Err(e) => return Err(e),
            };
            let exif_sig: [u8; 5] = [0x45, 0x78, 0x69, 0x66, 0x00];
            proof {
                assert(exif_sig@ =~= jpg_exif_sig());
                if sec_end >= 9 {
                    lemma_range_eq_in_window(s, offset as int, exif_buffer@, 4, 5, jpg_exif_sig());
                }
            }
            if exif_buffer.cmp(4, 5, exif_sig.as_slice()) {
                if sec_end < 18 {
                    return Err(ImageInfoError::UnrecognizedFormat);
                }
                let big_endian = exif_buffer.read_u8(10) != 0x49;
                let first_ifd_offset = if big_endian {
                    exif_buffer.read_u32_be(14)
                } else {
                    exif_buffer.read_u32_le(14)
                } as usize;
                if first_ifd_offset < 8 || first_ifd_offset > sec_end - 12 {
                    return Err(ImageInfoError::UnrecognizedFormat);
                }
                let n = if big_endian {
                    exif_buffer.read_u16_be(first_ifd_offset + 10)
                } else {
                    exif_buffer.read_u16_le(first_ifd_offset + 10)
                } as usize;
                let ghost goal = jpg_exif_entries(
                    s,
                    offset as int,
                    big_endian,
                    first_ifd_offset + 12,
                    n as int,
                    sec_end as int,
                    orientation as int,
                );
                proof {
                    assert(jpg_exif(s, offset as int, section_size as int, orientation as int)
                        == goal);
                }
                let mut t: usize = first_ifd_offset + 12;
                let mut e: usize = 0;
                while e < n
                    invariant
                        first_ifd_offset + 12 <= t,
                        e <= n,
                        t == first_ifd_offset + 12 + 12 * e,
                        goal == jpg_exif_entries(
                            s,
                            offset as int,
                            big_endian,
                            t as int,
                            (n - e) as int,
                            sec_end as int,
                            orientation as int,
                        ),
                    decreases n - e,
                {
                    if t > sec_end || sec_end - t < 12 {
                        return Err(ImageInfoError::UnrecognizedFormat);
                    }
                    let tag = if big_endian {
                        exif_buffer.read_u16_be(t)
                    } else {
                        exif_buffer.read_u16_le(t)
                    };
                    if tag == 274 {
                        orientation = if big_endian {
                            exif_buffer.read_u16_be(t + 8)
                        } else {
                            exif_buffer.read_u16_le(t + 8)
                        };
                    }
                    t = t + 12;
                    e = e + 1;
                }
                proof {
                    assert(goal == Some(orientation as int));
                }
            }
            offset = offset + section_size + 2;
            continue ;
        }
        if marker == 0xC0 || marker == 0xC1 || marker == 0xC2 {
            // A start-of-frame segment carries the dimensions.
            let raw_w = buffer.read_u16_be(7);
            let raw_h = buffer.read_u16_be(5);
            let swap = orientation == 5 || orientation == 6 || orientation == 7 || orientation
                == 8;
            let width: i64 = if swap {
                raw_h as i64
            } else {
                raw_w as i64
            };
            let height: i64 = if swap {
                raw_w as i64
            } else {
                raw_h as i64
            };
            let ret = ImageInfo {
                format: ImageFormat::JPEG,
                ext: "jpg",
                full_ext: "jpeg",
                mimetype: "image/jpeg",
                size: ImageSize { width, height },
                entry_sizes: Vec::new(),
            };
            proof {
                assert(ret@ =~= jpg_model(s)->Some_0);
            }
            return Ok(ret);
        }
        if length - offset < 2 || (length - offset) - 2 < section_size {
            // The segment runs past the stream; no later segment can start.
            proof {
                assert(jpg_scan(s, (offset + section_size + 2) as int, orientation as int)
                    is None);
            }
            offset = length;
        } else {
            offset = offset + section_size + 2;
        }
    }
    Err(ImageInfoError::UnrecognizedFormat)
}

} // verus!
