use crate::defs::{ImageInfoError, ImageInfoResult, ImageSize};
use crate::raw_buffer::{lemma_range_eq_in_window, range_eq, u32_be_of};
use crate::read_interface::ReadInterface;
use crate::{ImageFormat, ImageInfo, SpecImage};
use vstd::prelude::*;

verus! {

pub open spec fn psd_sig() -> Seq<u8> {
    seq![0x38u8, 0x42u8, 0x50u8, 0x53u8, 0x00u8, 0x01u8]
}

/// A PSD header: the signature and version, then height and width as
/// big-endian 32-bit fields at offsets 14 and 18.
pub open spec fn psd_model(s: Seq<u8>) -> Option<SpecImage> {
    if s.len() >= 22 && range_eq(s, 0, 6, psd_sig()) {
        Some(
            SpecImage {
                format: ImageFormat::PSD,
                width: u32_be_of(s, 18) as int,
                height: u32_be_of(s, 14) as int,
                entries: Seq::empty(),
            },
        )
    } else {
        None
    }
}

pub fn try_psd(ri: &mut ReadInterface, length: usize) -> (r: ImageInfoResult<ImageInfo>)
    requires
        old(ri).wf(),
        length == old(ri).length,
    ensures
        final(ri).wf(),
        final(ri).content() == old(ri).content(),
        final(ri).length == old(ri).length,
        crate::probe_post(r, psd_model(old(ri).content())),
{
    let ghost s: Seq<u8> = old(ri).content();
    if length < 22 {
        return Err(ImageInfoError::UnrecognizedFormat);
    }
    let buffer = match ri.read(0, 22) {
        Ok(b) => b,
        Err(e) => return Err(e),
    };
    let sig: [u8; 6] = [0x38, 0x42, 0x50, 0x53, 0x00, 0x01];
    proof {
        assert(sig@ =~= psd_sig());
        lemma_range_eq_in_window(s, 0, buffer@, 0, 6, psd_sig());
    }
    if !buffer.cmp(0, 6, sig.as_slice()) {
        return Err(ImageInfoError::UnrecognizedFormat);
    }
    let ret = ImageInfo {
        format: ImageFormat::PSD,
        ext: "psd",
        full_ext: "psd",
        mimetype: "image/psd",
        size: ImageSize {
            width: buffer.read_u32_be(18) as i64,
            height: buffer.read_u32_be(14) as i64,
        },
        entry_sizes: Vec::new(),
    };
    proof {
        assert(ret@ =~= psd_model(s)->Some_0);
    }
    Ok(ret)
}

} // verus!
