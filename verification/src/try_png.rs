use crate::defs::{ImageInfoError, ImageInfoResult, ImageSize};
use crate::raw_buffer::{lemma_range_eq_in_clipped, range_eq, u32_be_of};
use crate::read_interface::ReadInterface;
use crate::{ImageFormat, ImageInfo, SpecImage};
use vstd::prelude::*;

verus! {

pub open spec fn png_sig() -> Seq<u8> {
    seq![0x89u8, 0x50u8, 0x4Eu8, 0x47u8]
}

pub open spec fn png_ihdr_tag() -> Seq<u8> {
    seq![0x49u8, 0x48u8, 0x44u8, 0x52u8]
}

pub open spec fn png_cgbi_tag() -> Seq<u8> {
    seq![0x43u8, 0x67u8, 0x42u8, 0x49u8]
}

/// A PNG header: the signature, then the IHDR chunk's big-endian 32-bit
/// width and height — either directly at offsets 16 and 20, or shifted by a
/// leading CgBI chunk to offsets 32 and 36.
pub open spec fn png_model(s: Seq<u8>) -> Option<SpecImage> {
    if s.len() >= 4 && range_eq(s, 0, 4, png_sig()) {
        if range_eq(s, 12, 4, png_ihdr_tag()) && s.len() >= 24 {
            Some(
                SpecImage {
                    format: ImageFormat::PNG,
                    width: u32_be_of(s, 16) as int,
                    height: u32_be_of(s, 20) as int,
                    entries: Seq::empty(),
                },
            )
        } else if range_eq(s, 12, 4, png_cgbi_tag()) && range_eq(s, 28, 4, png_ihdr_tag())
            && s.len() >= 40 {
            Some(
                SpecImage {
                    format: ImageFormat::PNG,
                    width: u32_be_of(s, 32) as int,
                    height: u32_be_of(s, 36) as int,
                    entries: Seq::empty(),
                },
            )
        } else {
            None
        }
    } else {
        None
    }
}

pub fn try_png(ri: &mut ReadInterface, length: usize) -> (r: ImageInfoResult<ImageInfo>)
    requires
        old(ri).wf(),
        length == old(ri).length,
    ensures
        final(ri).wf(),
        final(ri).content() == old(ri).content(),
        final(ri).length == old(ri).length,
        crate::probe_post(r, png_model(old(ri).content())),
{
    let ghost s: Seq<u8> = old(ri).content();
    if length < 4 {
        return Err(ImageInfoError::UnrecognizedFormat);
    }
    let window: usize = if length < 40 {
        length
    } else {
        40
    };
    let buffer = match ri.read(0, window) {
        Ok(b) => b,
        Err(e) => return Err(e),
    };
    let sig: [u8; 4] = [0x89, 0x50, 0x4E, 0x47];
    let ihdr: [u8; 4] = [0x49, 0x48, 0x44, 0x52];
    let cgbi: [u8; 4] = [0x43, 0x67, 0x42, 0x49];
    proof {
        assert(sig@ =~= png_sig());
        assert(ihdr@ =~= png_ihdr_tag());
        assert(cgbi@ =~= png_cgbi_tag());
        lemma_range_eq_in_clipped(s, buffer@, 40, 0, 4, png_sig());
        lemma_range_eq_in_clipped(s, buffer@, 40, 12, 4, png_ihdr_tag());
        lemma_range_eq_in_clipped(s, buffer@, 40, 12, 4, png_cgbi_tag());
        lemma_range_eq_in_clipped(s, buffer@, 40, 28, 4, png_ihdr_tag());
    }
    if !buffer.cmp(0, 4, sig.as_slice()) {
        return Err(ImageInfoError::UnrecognizedFormat);
    }
    if buffer.cmp(12, 4, ihdr.as_slice()) && buffer.len() >= 24 {
        let ret = ImageInfo {
            format: ImageFormat::PNG,
            ext: "png",
            full_ext: "png",
            mimetype: "image/png",
            size: ImageSize {
                width: buffer.read_u32_be(16) as i64,
                height: buffer.read_u32_be(20) as i64,
            },
            entry_sizes: Vec::new(),
        };
        proof {
            assert(ret@ =~= png_model(s)->Some_0);
        }
        return Ok(ret);
    }
    if buffer.cmp(12, 4, cgbi.as_slice()) && buffer.cmp(28, 4, ihdr.as_slice()) && buffer.len()
        >= 40 {
        let ret = ImageInfo {
            format: ImageFormat::PNG,
            ext: "png",
            full_ext: "png",
            mimetype: "image/png",
            size: ImageSize {
                width: buffer.read_u32_be(32) as i64,
                height: buffer.read_u32_be(36) as i64,
            },
            entry_sizes: Vec::new(),
        };
        proof {
            assert(ret@ =~= png_model(s)->Some_0);
        }
        return Ok(ret);
    }
    Err(ImageInfoError::UnrecognizedFormat)
}

} // verus!
