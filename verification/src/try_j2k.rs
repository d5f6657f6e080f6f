use crate::defs::{ImageInfoError, ImageInfoResult, ImageSize};
use crate::raw_buffer::{lemma_range_eq_in_window, range_eq, u16_be_of, u32_be_of};
use crate::read_interface::ReadInterface;
use crate::{ImageFormat, ImageInfo, SpecImage};
use vstd::prelude::*;

verus! {

pub open spec fn j2k_soc_sig() -> Seq<u8> {
    seq![0xFFu8, 0x4Fu8]
}

pub open spec fn j2k_marker_sig() -> Seq<u8> {
    seq![0x00u8, 0x2Fu8, 0x00u8, 0x00u8]
}

/// A raw JPEG 2000 codestream: the start-of-codestream marker, a declared
/// segment length the stream must cover, a fixed marker word, then width and
/// height as big-endian 32-bit fields at offsets 8 and 12.
pub open spec fn j2k_model(s: Seq<u8>) -> Option<SpecImage> {
    if s.len() >= 16 && range_eq(s, 0, 2, j2k_soc_sig()) {
        if s.len() < u16_be_of(s, 2) + 2 {
            None
        } else if !range_eq(s, 4, 4, j2k_marker_sig()) {
            None
        } else {
            Some(
                SpecImage {
                    format: ImageFormat::J2K,
                    width: u32_be_of(s, 8) as int,
                    height: u32_be_of(s, 12) as int,
                    entries: Seq::empty(),
                },
            )
        }
    } else {
        None
    }
}

pub fn try_j2k(ri: &mut ReadInterface, length: usize) -> (r: ImageInfoResult<ImageInfo>)
    requires
        old(ri).wf(),
        length == old(ri).length,
    ensures
        final(ri).wf(),
        final(ri).content() == old(ri).content(),
        final(ri).length == old(ri).length,
        crate::probe_post(r, j2k_model(old(ri).content())),
{
    let ghost s: Seq<u8> = old(ri).content();
    if length < 16 {
        return Err(ImageInfoError::UnrecognizedFormat);
    }
    let buffer = match ri.read(0, 16) {
        Ok(b) => b,
        Err(e) => return Err(e),
    };
    let soc: [u8; 2] = [0xFF, 0x4F];
    let marker: [u8; 4] = [0x00, 0x2F, 0x00, 0x00];
    proof {
        assert(soc@ =~= j2k_soc_sig());
        assert(marker@ =~= j2k_marker_sig());
        lemma_range_eq_in_window(s, 0, buffer@, 0, 2, j2k_soc_sig());
        lemma_range_eq_in_window(s, 0, buffer@, 4, 4, j2k_marker_sig());
    }
    if buffer.cmp(0, 2, soc.as_slice()) {
        let soc_length = buffer.read_u16_be(2);
        if length < soc_length as usize + 2 {
            return Err(ImageInfoError::UnrecognizedFormat);
        }
        if !buffer.cmp(4, 4, marker.as_slice()) {
            return Err(ImageInfoError::UnrecognizedFormat);
        }
        let ret = ImageInfo {
            format: ImageFormat::J2K,
            ext: "j2k",
            full_ext: "j2k",
            mimetype: "image/j2k",
            size: ImageSize {
                width: buffer.read_u32_be(8) as i64,
                height: buffer.read_u32_be(12) as i64,
            },
            entry_sizes: Vec::new(),
        };
        proof {
            assert(ret@ =~= j2k_model(s)->Some_0);
        }
        return Ok(ret);
    }
    Err(ImageInfoError::UnrecognizedFormat)
}

} // verus!
