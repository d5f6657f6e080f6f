use crate::defs::{ImageInfoError, ImageInfoResult, ImageSize};
use crate::raw_buffer::{lemma_range_eq_in_window, range_eq, u32_be_of};
use crate::read_interface::ReadInterface;
use crate::{ImageFormat, ImageInfo, SpecImage};
use vstd::prelude::*;

verus! {

pub open spec fn jp2_signature_tag() -> Seq<u8> {
    seq![0x6Au8, 0x50u8, 0x20u8, 0x20u8]
}

pub open spec fn jp2_ftyp_tag() -> Seq<u8> {
    seq![0x66u8, 0x74u8, 0x79u8, 0x70u8]
}

pub open spec fn jp2_brand_jp2() -> Seq<u8> {
    seq![0x6Au8, 0x70u8, 0x32u8, 0x20u8]
}

pub open spec fn jp2_brand_jpx() -> Seq<u8> {
    seq![0x6Au8, 0x70u8, 0x78u8, 0x20u8]
}

pub open spec fn jp2_jp2h_tag() -> Seq<u8> {
    seq![0x6Au8, 0x70u8, 0x32u8, 0x68u8]
}

pub open spec fn jp2_ihdr_tag() -> Seq<u8> {
    seq![0x69u8, 0x68u8, 0x64u8, 0x72u8]
}

/// The dimensions found by scanning boxes from `offset` for a `jp2h` header
/// box: the first `jp2h` box ends the scan, yielding its `ihdr` dimensions
/// if one sits at its front and zeros otherwise. A zero box length (which
/// could never advance) or running out of stream also ends the scan with
/// zeros.
pub open spec fn jp2_scan(s: Seq<u8>, offset: int) -> (int, int)
    decreases s.len() - offset,
{
    if offset < 0 || offset + 24 > s.len() {
        (0, 0)
    } else if range_eq(s, offset + 4, 4, jp2_jp2h_tag()) {
        if range_eq(s, offset + 12, 4, jp2_ihdr_tag()) {
            (u32_be_of(s, offset + 20) as int, u32_be_of(s, offset + 16) as int)
        } else {
            (0, 0)
        }
    } else {
        let box_length = u32_be_of(s, offset) as int;
        if box_length == 0 {
            (0, 0)
        } else if offset + box_length + 24 > s.len() {
            (0, 0)
        } else {
            jp2_scan(s, offset + box_length)
        }
    }
}

/// A JP2/JPX container: a signature box whose declared length leads to an
/// `ftyp` box carrying the deciding brand, then a box scan for the `jp2h`
/// header box with the dimensions.
pub open spec fn jp2_jpx_model(s: Seq<u8>) -> Option<SpecImage> {
    if s.len() >= 8 && range_eq(s, 4, 4, jp2_signature_tag()) {
        let sig_len = u32_be_of(s, 0) as int;
        if s.len() < sig_len + 12 {
            None
        } else if !range_eq(s, sig_len + 4, 4, jp2_ftyp_tag()) {
            None
        } else if !range_eq(s, sig_len + 8, 4, jp2_brand_jp2()) && !range_eq(
            s,
            sig_len + 8,
            4,
            jp2_brand_jpx(),
        ) {
            None
        } else {
            let dims = jp2_scan(s, sig_len + u32_be_of(s, sig_len));
            Some(
                SpecImage {
                    format: if range_eq(s, sig_len + 8, 4, jp2_brand_jp2()) {
                        ImageFormat::JP2
                    } else {
                        ImageFormat::JPX
                    },
                    width: dims.0,
                    height: dims.1,
                    entries: Seq::empty(),
                },
            )
        }
    } else {
        None
    }
}

pub fn try_jp2_jpx(ri: &mut ReadInterface, length: usize) -> (r: ImageInfoResult<ImageInfo>)
    requires
        old(ri).wf(),
        length == old(ri).length,
    ensures
        final(ri).wf(),
        final(ri).content() == old(ri).content(),
        final(ri).length == old(ri).length,
        crate::probe_post(r, jp2_jpx_model(old(ri).content())),
{
    let ghost s: Seq<u8> = old(ri).content();
    if length < 8 {
        return Err(ImageInfoError::UnrecognizedFormat);
    }
    let buffer = match ri.read(0, 8) {
        Ok(b) => b,
        Err(e) => return Err(e),
    };
    let jp_tag: [u8; 4] = [0x6A, 0x50, 0x20, 0x20];
    proof {
        assert(jp_tag@ =~= jp2_signature_tag());
        lemma_range_eq_in_window(s, 0, buffer@, 4, 4, jp2_signature_tag());
    }
    if !buffer.cmp(4, 4, jp_tag.as_slice()) {
        return Err(ImageInfoError::UnrecognizedFormat);
    }
    let signature_length = buffer.read_u32_be(0) as usize;
    let mut offset: usize = signature_length;
    if length < 12 || length - 12 < offset {
        return Err(ImageInfoError::UnrecognizedFormat);
    }
    let buffer = match ri.read(offset, 12) {
        Ok(b) => b,
        Err(e) => return Err(e),
    };
    let ftyp: [u8; 4] = [0x66, 0x74, 0x79, 0x70];
    let jp2_brand: [u8; 4] = [0x6A, 0x70, 0x32, 0x20];
    let jpx_brand: [u8; 4] = [0x6A, 0x70, 0x78, 0x20];
    proof {
        assert(ftyp@ =~= jp2_ftyp_tag());
        assert(jp2_brand@ =~= jp2_brand_jp2());
        assert(jpx_brand@ =~= jp2_brand_jpx());
        lemma_range_eq_in_window(s, offset as int, buffer@, 4, 4, jp2_ftyp_tag());
        lemma_range_eq_in_window(s, offset as int, buffer@, 8, 4, jp2_brand_jp2());
        lemma_range_eq_in_window(s, offset as int, buffer@, 8, 4, jp2_brand_jpx());
    }
    if !buffer.cmp(4, 4, ftyp.as_slice()) {
        return Err(ImageInfoError::UnrecognizedFormat);
    }
    let is_jp2 = buffer.cmp(8, 4, jp2_brand.as_slice());
    let is_jpx = !is_jp2 && buffer.cmp(8, 4, jpx_brand.as_slice());
    if !is_jp2 && !is_jpx {
        return Err(ImageInfoError::UnrecognizedFormat);
    }
    let ftyp_length = buffer.read_u32_be(0) as usize;
    let ghost start: int = offset + ftyp_length;
    let mut width: i64 = 0;
    let mut height: i64 = 0;
    let mut done = false;
    if length - offset < ftyp_length {
        // The declared box length runs past the stream: no further box fits.
        done = true;
        proof {
            assert(jp2_scan(s, start) == (0int, 0int));
        }
    } else {
        offset = offset + ftyp_length;
    }
    while !done && length - offset >= 24
        invariant
            ri.wf(),
            s == old(ri).content(),
            ri.content() == s,
            ri.length == length,
            length == old(ri).length,
            length == s.len(),
            offset <= length,
            !done ==> jp2_scan(s, start) == jp2_scan(s, offset as int),
            done ==> jp2_scan(s, start) == (width as int, height as int),
            !done ==> width == 0 && height == 0,
        decreases length - offset, (if done { 0int } else { 1int }),
    {
        let buffer = match ri.read(offset, 24) {
            Ok(b) => b,
            Err(e) => return Err(e),
        };
        let jp2h: [u8; 4] = [0x6A, 0x70, 0x32, 0x68];
        let ihdr: [u8; 4] = [0x69, 0x68, 0x64, 0x72];
        proof {
            assert(jp2h@ =~= jp2_jp2h_tag());
            assert(ihdr@ =~= jp2_ihdr_tag());
            lemma_range_eq_in_window(s, offset as int, buffer@, 4, 4, jp2_jp2h_tag());
            lemma_range_eq_in_window(s, offset as int, buffer@, 12, 4, jp2_ihdr_tag());
        }
        if buffer.cmp(4, 4, jp2h.as_slice()) {
            if buffer.cmp(12, 4, ihdr.as_slice()) {
                width = buffer.read_u32_be(20) as i64;
                height = buffer.read_u32_be(16) as i64;
            }
            done = true;
        } else {
            let box_length = buffer.read_u32_be(0) as usize;
            if box_length == 0 {
                done = true;
            } else if length - offset < box_length || (length - offset) - box_length < 24 {
                done = true;
            } else {
                offset = offset + box_length;
            }
        }
    }
    proof {
        if !done {
            assert(jp2_scan(s, offset as int) == (0int, 0int));
        }
    }
    let ret = ImageInfo {
        format: if is_jp2 {
            ImageFormat::JP2
        } else {
            ImageFormat::JPX
        },
        ext: if is_jp2 {
            "jp2"
        } else {
            "jpx"
        },
        full_ext: if is_jp2 {
            "jp2"
        } else {
            "jpx"
        },
        mimetype: if is_jp2 {
            "image/jp2"
        } else {
            "image/jpx"
        },
        size: ImageSize { width, height },
        entry_sizes: Vec::new(),
    };
    proof {
        assert(ret@ =~= jp2_jpx_model(s)->Some_0);
    }
    Ok(ret)
}

} // verus!
