use crate::defs::{ImageInfoError, ImageInfoResult, ImageSize};
use crate::raw_buffer::{lemma_range_eq_in_window, range_eq, u32_le_of};
use crate::read_interface::ReadInterface;
use crate::{ImageFormat, ImageInfo, SpecImage};
use vstd::prelude::*;

verus! {

pub open spec fn ktx_sig() -> Seq<u8> {
    seq![
        0xABu8,
        0x4Bu8,
        0x54u8,
        0x58u8,
        0x20u8,
        0x31u8,
        0x31u8,
        0xBBu8,
        0x0Du8,
        0x0Au8,
        0x1Au8,
        0x0Au8,
    ]
}

/// A KTX header: the twelve-byte identifier, then pixel width and height as
/// little-endian 32-bit fields at offsets 36 and 40.
pub open spec fn ktx_model(s: Seq<u8>) -> Option<SpecImage> {
    if s.len() >= 44 && range_eq(s, 0, 12, ktx_sig()) {
        Some(
            SpecImage {
                format: ImageFormat::KTX,
                width: u32_le_of(s, 36) as int,
                height: u32_le_of(s, 40) as int,
                entries: Seq::empty(),
            },
        )
    } else {
        None
    }
}

pub fn try_ktx(ri: &mut ReadInterface, length: usize) -> (r: ImageInfoResult<ImageInfo>)
    requires
        old(ri).wf(),
        length == old(ri).length,
    ensures
        final(ri).wf(),
        final(ri).content() == old(ri).content(),
        final(ri).length == old(ri).length,
        crate::probe_post(r, ktx_model(old(ri).content())),
{
    let ghost s: Seq<u8> = old(ri).content();
    if length < 44 {
        return Err(ImageInfoError::UnrecognizedFormat);
    }
    let buffer = match ri.read(0, 44) {
        Ok(b) => b,
        Err(e) => return Err(e),
    };
    let sig: [u8; 12] = [0xAB, 0x4B, 0x54, 0x58, 0x20, 0x31, 0x31, 0xBB, 0x0D, 0x0A, 0x1A, 0x0A];
    proof {
        assert(sig@ =~= ktx_sig());
        lemma_range_eq_in_window(s, 0, buffer@, 0, 12, ktx_sig());
    }
    if !buffer.cmp(0, 12, sig.as_slice()) {
        return Err(ImageInfoError::UnrecognizedFormat);
    }
    let ret = ImageInfo {
        format: ImageFormat::KTX,
        ext: "ktx",
        full_ext: "ktx",
        mimetype: "image/ktx",
        size: ImageSize {
            width: buffer.read_u32_le(36) as i64,
            height: buffer.read_u32_le(40) as i64,
        },
        entry_sizes: Vec::new(),
    };
    proof {
        assert(ret@ =~= ktx_model(s)->Some_0);
    }
    Ok(ret)
}

} // verus!
