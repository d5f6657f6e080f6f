use crate::defs::{ImageInfoError, ImageInfoResult, ImageSize};
use crate::raw_buffer::{lemma_range_eq_in_window, range_eq, u16_le_of};
use crate::read_interface::ReadInterface;
use crate::{ImageFormat, ImageInfo, SpecImage};
use vstd::prelude::*;

verus! {

/// The eighteen-byte trailer that closes a "new-style" TGA file.
pub open spec fn tga_footer_sig() -> Seq<u8> {
    seq![
        0x54u8,
        0x52u8,
        0x55u8,
        0x45u8,
        0x56u8,
        0x49u8,
        0x53u8,
        0x49u8,
        0x4Fu8,
        0x4Eu8,
        0x2Du8,
        0x58u8,
        0x46u8,
        0x49u8,
        0x4Cu8,
        0x45u8,
        0x2Eu8,
        0x00u8,
    ]
}

/// Image-type codes accepted for a TGA file without a colour map. Type 0
/// (no image data) is not accepted: a buffer of zeros carries no signal at
/// all and must stay unrecognized.
pub open spec fn tga_unmapped_type(t: u8) -> bool {
    t == 2 || t == 3 || t == 10 || t == 11 || t == 32 || t == 33
}

/// TGA has no magic number at the front; the probe accepts either the
/// trailing signature of new-style files, or a header whose colour-map and
/// image-type fields form one of the two consistent combinations. Width and
/// height are the little-endian 16-bit fields at offsets 12 and 14.
pub open spec fn tga_model(s: Seq<u8>) -> Option<SpecImage> {
    if s.len() < 18 {
        None
    } else if range_eq(s, s.len() - 18, 18, tga_footer_sig()) {
        if s.len() < 34 {
            None
        } else {
            Some(
                SpecImage {
                    format: ImageFormat::TGA,
                    width: u16_le_of(s, 12) as int,
                    height: u16_le_of(s, 14) as int,
                    entries: Seq::empty(),
                },
            )
        }
    } else if s.len() < s[0] + 18 {
        None
    } else {
        let color_map_type = s[1];
        let image_type = s[2];
        if color_map_type == 0 && tga_unmapped_type(image_type) && u16_le_of(s, 3) == 0
            && u16_le_of(s, 5) == 0 && s[7] == 0 {
            Some(
                SpecImage {
                    format: ImageFormat::TGA,
                    width: u16_le_of(s, 12) as int,
                    height: u16_le_of(s, 14) as int,
                    entries: Seq::empty(),
                },
            )
        } else if color_map_type == 1 && (image_type == 1 || image_type == 9) {
            Some(
                SpecImage {
                    format: ImageFormat::TGA,
                    width: u16_le_of(s, 12) as int,
                    height: u16_le_of(s, 14) as int,
                    entries: Seq::empty(),
                },
            )
        } else {
            None
        }
    }
}

pub fn try_tga(ri: &mut ReadInterface, length: usize) -> (r: ImageInfoResult<ImageInfo>)
    requires
        old(ri).wf(),
        length == old(ri).length,
    ensures
        final(ri).wf(),
        final(ri).content() == old(ri).content(),
        final(ri).length == old(ri).length,
        crate::probe_post(r, tga_model(old(ri).content())),
{
    let ghost s: Seq<u8> = old(ri).content();
    if length < 18 {
        return Err(ImageInfoError::UnrecognizedFormat);
    }
    let footer_buf = match ri.read(length - 18, 18) {
        Ok(b) => b,
        Err(e) => return Err(e),
    };
    let footer: [u8; 18] = [
        0x54,
        0x52,
        0x55,
        0x45,
        0x56,
        0x49,
        0x53,
        0x49,
        0x4F,
        0x4E,
        0x2D,
        0x58,
        0x46,
        0x49,
        0x4C,
        0x45,
        0x2E,
        0x00,
    ];
    proof {
        assert(footer@ =~= tga_footer_sig());
        lemma_range_eq_in_window(s, s.len() - 18, footer_buf@, 0, 18, tga_footer_sig());
    }
    if footer_buf.cmp(0, 18, footer.as_slice()) {
        if length < 18 + 16 {
            return Err(ImageInfoError::UnrecognizedFormat);
        }
        let buffer = match ri.read(0, 18) {
            Ok(b) => b,
            Err(e) => return Err(e),
        };
        let ret = ImageInfo {
            format: ImageFormat::TGA,
            ext: "tga",
            full_ext: "tga",
            mimetype: "image/tga",
            size: ImageSize {
                width: buffer.read_u16_le(12) as i64,
                height: buffer.read_u16_le(14) as i64,
            },
            entry_sizes: Vec::new(),
        };
        proof {
            assert(ret@ =~= tga_model(s)->Some_0);
        }
        return Ok(ret);
    }
    let buffer = match ri.read(0, 18) {
        Ok(b) => b,
        Err(e) => return Err(e),
    };
    let id_len = buffer.read_u8(0);
    if length < id_len as usize + 18 {
        return Err(ImageInfoError::UnrecognizedFormat);
    }
    let color_map_type = buffer.read_u8(1);
    let image_type = buffer.read_u8(2);
    let first_color_map_entry_index = buffer.read_u16_le(3);
    let color_map_length = buffer.read_u16_le(5);
    let color_map_entry_size = buffer.read_u8(7);
    let width = buffer.read_u16_le(12) as i64;
    let height = buffer.read_u16_le(14) as i64;

    if color_map_type == 0 {
        if (image_type == 2 || image_type == 3 || image_type == 10 || image_type == 11
            || image_type == 32 || image_type == 33) && first_color_map_entry_index == 0
            && color_map_length == 0 && color_map_entry_size == 0 {
            let ret = ImageInfo {
                format: ImageFormat::TGA,
                ext: "tga",
                full_ext: "tga",
                mimetype: "image/tga",
                size: ImageSize { width, height },
                entry_sizes: Vec::new(),
            };
            proof {
                assert(ret@ =~= tga_model(s)->Some_0);
            }
            return Ok(ret);
        }
    } else if color_map_type == 1 {
        if image_type == 1 || image_type == 9 {
            let ret = ImageInfo {
                format: ImageFormat::TGA,
                ext: "tga",
                full_ext: "tga",
                mimetype: "image/tga",
                size: ImageSize { width, height },
                entry_sizes: Vec::new(),
            };
            proof {
                assert(ret@ =~= tga_model(s)->Some_0);
            }
            return Ok(ret);
        }
    }
    Err(ImageInfoError::UnrecognizedFormat)
}

} // verus!
