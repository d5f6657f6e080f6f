use crate::defs::{ImageInfoError, ImageInfoResult, ImageSize};
use crate::raw_buffer::{lemma_range_eq_in_window, range_eq, u32_le_of};
use crate::read_interface::ReadInterface;
use crate::{ImageFormat, ImageInfo, SpecImage};
use vstd::prelude::*;

verus! {

pub open spec fn dds_sig() -> Seq<u8> {
    seq![0x44u8, 0x44u8, 0x53u8, 0x20u8]
}

/// A DDS header: the four-byte signature, then the height and width as
/// little-endian 32-bit fields at offsets 12 and 16.
pub open spec fn dds_model(s: Seq<u8>) -> Option<SpecImage> {
    if s.len() >= 20 && range_eq(s, 0, 4, dds_sig()) {
        Some(
            SpecImage {
                format: ImageFormat::DDS,
                width: u32_le_of(s, 16) as int,
                height: u32_le_of(s, 12) as int,
                entries: Seq::empty(),
            },
        )
    } else {
        None
    }
}

pub fn try_dds(ri: &mut ReadInterface, length: usize) -> (r: ImageInfoResult<ImageInfo>)
    requires
        old(ri).wf(),
        length == old(ri).length,
    ensures
        final(ri).wf(),
        final(ri).content() == old(ri).content(),
        final(ri).length == old(ri).length,
        crate::probe_post(r, dds_model(old(ri).content())),
{
    let ghost s: Seq<u8> = old(ri).content();
    if length < 20 {
        return Err(ImageInfoError::UnrecognizedFormat);
    }
    let buffer = match ri.read(0, 20) {
        Ok(b) => b,
        Err(e) => return Err(e),
    };
    let sig: [u8; 4] = [0x44, 0x44, 0x53, 0x20];
    proof {
        assert(sig@ =~= dds_sig());
        lemma_range_eq_in_window(s, 0, buffer@, 0, 4, dds_sig());
    }
    if !buffer.cmp(0, 4, sig.as_slice()) {
        return Err(ImageInfoError::UnrecognizedFormat);
    }
    let ret = ImageInfo {
        format: ImageFormat::DDS,
        ext: "dds",
        full_ext: "dds",
        mimetype: "image/dds",
        size: ImageSize {
            width: buffer.read_u32_le(16) as i64,
            height: buffer.read_u32_le(12) as i64,
        },
        entry_sizes: Vec::new(),
    };
    proof {
        assert(ret@ =~= dds_model(s)->Some_0);
    }
    Ok(ret)
}

} // verus!
