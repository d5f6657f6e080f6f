use crate::defs::{ImageInfoError, ImageInfoResult, ImageSize};
use crate::raw_buffer::{lemma_range_eq_in_window, range_eq, u16_le_of};
use crate::read_interface::ReadInterface;
use crate::{ImageFormat, ImageInfo, SpecImage};
use vstd::prelude::*;

verus! {

pub open spec fn gif87_sig() -> Seq<u8> {
    seq![0x47u8, 0x49u8, 0x46u8, 0x38u8, 0x37u8, 0x61u8]
}

pub open spec fn gif89_sig() -> Seq<u8> {
    seq![0x47u8, 0x49u8, 0x46u8, 0x38u8, 0x39u8, 0x61u8]
}

/// A GIF header: either six-byte version signature, then the logical screen
/// width and height as little-endian 16-bit fields at offsets 6 and 8.
pub open spec fn gif_model(s: Seq<u8>) -> Option<SpecImage> {
    if s.len() >= 10 && (range_eq(s, 0, 6, gif87_sig()) || range_eq(s, 0, 6, gif89_sig())) {
        Some(
            SpecImage {
                format: ImageFormat::GIF,
                width: u16_le_of(s, 6) as int,
                height: u16_le_of(s, 8) as int,
                entries: Seq::empty(),
            },
        )
    } else {
        None
    }
}

pub fn try_gif(ri: &mut ReadInterface, length: usize) -> (r: ImageInfoResult<ImageInfo>)
    requires
        old(ri).wf(),
        length == old(ri).length,
    ensures
        final(ri).wf(),
        final(ri).content() == old(ri).content(),
        final(ri).length == old(ri).length,
        crate::probe_post(r, gif_model(old(ri).content())),
{
    let ghost s: Seq<u8> = old(ri).content();
    if length < 10 {
        return Err(ImageInfoError::UnrecognizedFormat);
    }
    let buffer = match ri.read(0, 10) {
        Ok(b) => b,
        Err(e) => return Err(e),
    };
    let sig87: [u8; 6] = [0x47, 0x49, 0x46, 0x38, 0x37, 0x61];
    let sig89: [u8; 6] = [0x47, 0x49, 0x46, 0x38, 0x39, 0x61];
    proof {
        assert(sig87@ =~= gif87_sig());
        assert(sig89@ =~= gif89_sig());
        lemma_range_eq_in_window(s, 0, buffer@, 0, 6, gif87_sig());
        lemma_range_eq_in_window(s, 0, buffer@, 0, 6, gif89_sig());
    }
    if !buffer.cmp(0, 6, sig87.as_slice()) && !buffer.cmp(0, 6, sig89.as_slice()) {
        return Err(ImageInfoError::UnrecognizedFormat);
    }
    let ret = ImageInfo {
        format: ImageFormat::GIF,
        ext: "gif",
        full_ext: "gif",
        mimetype: "image/gif",
        size: ImageSize {
            width: buffer.read_u16_le(6) as i64,
            height: buffer.read_u16_le(8) as i64,
        },
        entry_sizes: Vec::new(),
    };
    proof {
        assert(ret@ =~= gif_model(s)->Some_0);
    }
    Ok(ret)
}

} // verus!
