use crate::defs::{ImageInfoError, ImageInfoResult, ImageSize};
use crate::raw_buffer::{lemma_range_eq_in_window, range_eq, u32_be_of};
use crate::read_interface::ReadInterface;
use crate::{ImageFormat, ImageInfo, SpecImage};
use vstd::prelude::*;

verus! {

pub open spec fn qoi_sig() -> Seq<u8> {
    seq![0x71u8, 0x6Fu8, 0x69u8, 0x66u8]
}

/// A QOI header: the four-byte signature, then width and height as
/// big-endian 32-bit fields at offsets 4 and 8.
pub open spec fn qoi_model(s: Seq<u8>) -> Option<SpecImage> {
    if s.len() >= 12 && range_eq(s, 0, 4, qoi_sig()) {
        Some(
            SpecImage {
                format: ImageFormat::QOI,
                width: u32_be_of(s, 4) as int,
                height: u32_be_of(s, 8) as int,
                entries: Seq::empty(),
            },
        )
    } else {
        None
    }
}

pub fn try_qoi(ri: &mut ReadInterface, length: usize) -> (r: ImageInfoResult<ImageInfo>)
    requires
        old(ri).wf(),
        length == old(ri).length,
    ensures
        final(ri).wf(),
        final(ri).content() == old(ri).content(),
        final(ri).length == old(ri).length,
        crate::probe_post(r, qoi_model(old(ri).content())),
{
    let ghost s: Seq<u8> = old(ri).content();
    if length < 12 {
        return Err(ImageInfoError::UnrecognizedFormat);
    }
    let buffer = match ri.read(0, 12) {
        Ok(b) => b,
        Err(e) => return Err(e),
    };
    let sig: [u8; 4] = [0x71, 0x6F, 0x69, 0x66];
    proof {
        assert(sig@ =~= qoi_sig());
        lemma_range_eq_in_window(s, 0, buffer@, 0, 4, qoi_sig());
    }
    if !buffer.cmp(0, 4, sig.as_slice()) {
        return Err(ImageInfoError::UnrecognizedFormat);
    }
    let ret = ImageInfo {
        format: ImageFormat::QOI,
        ext: "qoi",
        full_ext: "qoi",
        mimetype: "image/qoi",
        size: ImageSize {
            width: buffer.read_u32_be(4) as i64,
            height: buffer.read_u32_be(8) as i64,
        },
        entry_sizes: Vec::new(),
    };
    proof {
        assert(ret@ =~= qoi_model(s)->Some_0);
    }
    Ok(ret)
}

} // verus!
