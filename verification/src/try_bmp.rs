use crate::defs::{ImageInfoError, ImageInfoResult, ImageSize};
use crate::raw_buffer::{i32_le_of, lemma_range_eq_in_window, range_eq};
use crate::read_interface::ReadInterface;
use crate::{ImageFormat, ImageInfo, SpecImage};
use vstd::math::abs;
use vstd::prelude::*;

verus! {

pub open spec fn bmp_sig() -> Seq<u8> {
    seq![0x42u8, 0x4Du8]
}

/// A BMP header: the two-byte signature followed by little-endian 32-bit
/// dimensions at fixed offsets. A negative stored height only flips the
/// row order, so the reported height is its magnitude.
pub open spec fn bmp_model(s: Seq<u8>) -> Option<SpecImage> {
    if s.len() >= 26 && range_eq(s, 0, 2, bmp_sig()) {
        Some(
            SpecImage {
                format: ImageFormat::BMP,
                width: i32_le_of(s, 18),
                height: abs(i32_le_of(s, 22)) as int,
                entries: Seq::empty(),
            },
        )
    } else {
        None
    }
}

pub fn try_bmp(ri: &mut ReadInterface, length: usize) -> (r: ImageInfoResult<ImageInfo>)
    requires
        old(ri).wf(),
        length == old(ri).length,
    ensures
        final(ri).wf(),
        final(ri).content() == old(ri).content(),
        final(ri).length == old(ri).length,
        crate::probe_post(r, bmp_model(old(ri).content())),
{
    let ghost s: Seq<u8> = old(ri).content();
    if length < 26 {
        return Err(ImageInfoError::UnrecognizedFormat);
    }
    let buffer = match ri.read(0, 26) {
        Ok(b) => b,
        Err(e) => return Err(e),
    };
    let sig: [u8; 2] = [0x42, 0x4D];
    proof {
        assert(sig@ =~= bmp_sig());
        lemma_range_eq_in_window(s, 0, buffer@, 0, 2, bmp_sig());
    }
    if !buffer.cmp(0, 2, sig.as_slice()) {
        return Err(ImageInfoError::UnrecognizedFormat);
    }
    let width: i64 = buffer.read_i32_le(18) as i64;
    // A negative height means a top-down row order; report its magnitude.
    let height_raw: i64 = buffer.read_i32_le(22) as i64;
    let height: i64 = if height_raw < 0 {
        -height_raw
    } else {
        height_raw
    };
    let ret = ImageInfo {
        format: ImageFormat::BMP,
        ext: "bmp",
        full_ext: "bmp",
        mimetype: "image/bmp",
        size: ImageSize { width, height },
        entry_sizes: Vec::new(),
    };
    proof {
        assert(ret@ =~= bmp_model(s)->Some_0);
    }
    Ok(ret)
}

} // verus!
