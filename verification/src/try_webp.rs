use crate::defs::{ImageInfoError, ImageInfoResult, ImageSize};
use crate::raw_buffer::{lemma_range_eq_in_clipped, range_eq, u16_le_of, u32_le_of};
use crate::read_interface::ReadInterface;
use crate::{ImageFormat, ImageInfo, SpecImage};
use vstd::prelude::*;

verus! {

pub open spec fn webp_riff_sig() -> Seq<u8> {
    seq![0x52u8, 0x49u8, 0x46u8, 0x46u8]
}

pub open spec fn webp_webp_sig() -> Seq<u8> {
    seq![0x57u8, 0x45u8, 0x42u8, 0x50u8]
}

pub open spec fn webp_vp8_tag() -> Seq<u8> {
    seq![0x56u8, 0x50u8, 0x38u8, 0x20u8]
}

pub open spec fn webp_vp8l_tag() -> Seq<u8> {
    seq![0x56u8, 0x50u8, 0x38u8, 0x4Cu8]
}

pub open spec fn webp_vp8x_tag() -> Seq<u8> {
    seq![0x56u8, 0x50u8, 0x38u8, 0x58u8]
}

/// The dimensions a WEBP container advertises, by chunk kind at offset 12:
/// a lossy `VP8 ` chunk holds 14-bit fields, a lossless `VP8L` chunk packs
/// both dimensions minus one into one 32-bit word, and an extended `VP8X`
/// chunk holds 24-bit fields minus one behind a flag byte. A container whose
/// chunk is absent, truncated, or flagged invalid keeps zero dimensions.
pub open spec fn webp_dims(s: Seq<u8>) -> (int, int) {
    let window = if s.len() < 30 {
        s.len() as int
    } else {
        30
    };
    if range_eq(s, 12, 4, webp_vp8_tag()) && window >= 30 {
        (((u16_le_of(s, 26) & 0x3FFF) as int), ((u16_le_of(s, 28) & 0x3FFF) as int))
    } else if range_eq(s, 12, 4, webp_vp8l_tag()) && window >= 25 {
        let n = u32_le_of(s, 21);
        (((n & 0x3FFF) + 1) as int, (((n >> 14) & 0x3FFF) + 1) as int)
    } else if range_eq(s, 12, 4, webp_vp8x_tag()) && window >= 30 {
        let extended_header = s[20];
        if extended_header & 0xC0 == 0 && extended_header & 0x01 == 0 {
            (
                ((u32_le_of(s, 24) & 0x00FF_FFFF) + 1) as int,
                (((u32_le_of(s, 26) & 0xFFFF_FF00) >> 8u32) + 1) as int,
            )
        } else {
            (0, 0)
        }
    } else {
        (0, 0)
    }
}

/// A WEBP header: a RIFF (or bare WEBP) signature, then whatever dimensions
/// the chunk at offset 12 advertises.
pub open spec fn webp_model(s: Seq<u8>) -> Option<SpecImage> {
    if s.len() >= 16 && (range_eq(s, 0, 4, webp_riff_sig()) || range_eq(s, 0, 4, webp_webp_sig())) {
        Some(
            SpecImage {
                format: ImageFormat::WEBP,
                width: webp_dims(s).0,
                height: webp_dims(s).1,
                entries: Seq::empty(),
            },
        )
    } else {
        None
    }
}

pub fn try_webp(ri: &mut ReadInterface, length: usize) -> (r: ImageInfoResult<ImageInfo>)
    requires
        old(ri).wf(),
        length == old(ri).length,
    ensures
        final(ri).wf(),
        final(ri).content() == old(ri).content(),
        final(ri).length == old(ri).length,
        crate::probe_post(r, webp_model(old(ri).content())),
{
    let ghost s: Seq<u8> = old(ri).content();
    if length < 16 {
        return Err(ImageInfoError::UnrecognizedFormat);
    }
    let window: usize = if length < 30 {
        length
    } else {
        30
    };
    let buffer = match ri.read(0, window) {
        Ok(b) => b,
        Err(e) => return Err(e),
    };
    let riff: [u8; 4] = [0x52, 0x49, 0x46, 0x46];
    let webp: [u8; 4] = [0x57, 0x45, 0x42, 0x50];
    let vp8: [u8; 4] = [0x56, 0x50, 0x38, 0x20];
    let vp8l: [u8; 4] = [0x56, 0x50, 0x38, 0x4C];
    let vp8x: [u8; 4] = [0x56, 0x50, 0x38, 0x58];
    proof {
        assert(riff@ =~= webp_riff_sig());
        assert(webp@ =~= webp_webp_sig());
        assert(vp8@ =~= webp_vp8_tag());
        assert(vp8l@ =~= webp_vp8l_tag());
        assert(vp8x@ =~= webp_vp8x_tag());
        lemma_range_eq_in_clipped(s, buffer@, 30, 0, 4, webp_riff_sig());
        lemma_range_eq_in_clipped(s, buffer@, 30, 0, 4, webp_webp_sig());
        lemma_range_eq_in_clipped(s, buffer@, 30, 12, 4, webp_vp8_tag());
        lemma_range_eq_in_clipped(s, buffer@, 30, 12, 4, webp_vp8l_tag());
        lemma_range_eq_in_clipped(s, buffer@, 30, 12, 4, webp_vp8x_tag());
    }
    if !buffer.cmp(0, 4, riff.as_slice()) && !buffer.cmp(0, 4, webp.as_slice()) {
        return Err(ImageInfoError::UnrecognizedFormat);
    }
    let mut width: i64 = 0;
    let mut height: i64 = 0;
    if buffer.cmp(12, 4, vp8.as_slice()) && buffer.len() >= 30 {
        width = (buffer.read_u16_le(26) & 0x3FFF) as i64;
        height = (buffer.read_u16_le(28) & 0x3FFF) as i64;
    } else if buffer.cmp(12, 4, vp8l.as_slice()) && buffer.len() >= 25 {
        let n = buffer.read_u32_le(21);
        proof {
            assert(n & 0x3FFF <= 0x3FFF) by (bit_vector);
            assert((n >> 14u32) & 0x3FFF <= 0x3FFF) by (bit_vector);
        }
        width = ((n & 0x3FFF) + 1) as i64;
        height = (((n >> 14u32) & 0x3FFF) + 1) as i64;
    } else if buffer.cmp(12, 4, vp8x.as_slice()) && buffer.len() >= 30 {
        let extended_header = buffer.read_u8(20);
        let valid_start = (extended_header & 0xC0) == 0;
        let valid_end = (extended_header & 0x01) == 0;
        if valid_start && valid_end {
            let wraw = buffer.read_u32_le(24);
            let hraw = buffer.read_u32_le(26);
            proof {
                assert(wraw & 0x00FF_FFFF <= 0x00FF_FFFF) by (bit_vector);
                assert((hraw & 0xFFFF_FF00) >> 8u32 <= 0x00FF_FFFF) by (bit_vector);
            }
            width = ((wraw & 0x00FF_FFFF) + 1) as i64;
            height = (((hraw & 0xFFFF_FF00) >> 8u32) + 1) as i64;
        }
    }
    let ret = ImageInfo {
        format: ImageFormat::WEBP,
        ext: "webp",
        full_ext: "webp",
        mimetype: "image/webp",
        size: ImageSize { width, height },
        entry_sizes: Vec::new(),
    };
    proof {
        assert(ret@ =~= webp_model(s)->Some_0);
    }
    Ok(ret)
}

} // verus!
