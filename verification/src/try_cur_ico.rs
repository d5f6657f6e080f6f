use crate::defs::{ImageInfoError, ImageInfoResult, ImageSize};
use crate::raw_buffer::{lemma_range_eq_in_window, range_eq, u16_le_of};
use crate::read_interface::ReadInterface;
use crate::{ImageFormat, ImageInfo, SpecImage};
use vstd::prelude::*;

verus! {

pub open spec fn ico_sig() -> Seq<u8> {
    seq![0x00u8, 0x00u8, 0x01u8, 0x00u8]
}

pub open spec fn cur_sig() -> Seq<u8> {
    seq![0x00u8, 0x00u8, 0x02u8, 0x00u8]
}

/// One directory entry's width or height byte; a stored zero means 256.
pub open spec fn cur_ico_dim(b: u8) -> int {
    if b == 0 {
        256
    } else {
        b as int
    }
}

/// The dimensions of directory entry `i`: its first two bytes, with zero
/// standing for 256.
pub open spec fn cur_ico_entry(s: Seq<u8>, i: int) -> (int, int) {
    (cur_ico_dim(s[6 + 16 * i]), cur_ico_dim(s[6 + 16 * i + 1]))
}

/// A CUR or ICO header: a four-byte type signature, a non-zero entry count,
/// and a 16-byte directory entry per image; the first entry's dimensions
/// stand as the primary size.
pub open spec fn cur_ico_model(s: Seq<u8>) -> Option<SpecImage> {
    if s.len() >= 6 && (range_eq(s, 0, 4, ico_sig()) || range_eq(s, 0, 4, cur_sig())) {
        let count = u16_le_of(s, 4) as int;
        if count == 0 || s.len() < 6 + 16 * count {
            None
        } else {
            let entries = Seq::new(count as nat, |i: int| cur_ico_entry(s, i));
            Some(
                SpecImage {
                    format: if range_eq(s, 0, 4, ico_sig()) {
                        ImageFormat::ICO
                    } else {
                        ImageFormat::CUR
                    },
                    width: entries[0].0,
                    height: entries[0].1,
                    entries: entries,
                },
            )
        }
    } else {
        None
    }
}

pub fn try_cur_ico(ri: &mut ReadInterface, length: usize) -> (r: ImageInfoResult<ImageInfo>)
    requires
        old(ri).wf(),
        length == old(ri).length,
    ensures
        final(ri).wf(),
        final(ri).content() == old(ri).content(),
        final(ri).length == old(ri).length,
        crate::probe_post(r, cur_ico_model(old(ri).content())),
{
    let ghost s: Seq<u8> = old(ri).content();
    if length < 6 {
        return Err(ImageInfoError::UnrecognizedFormat);
    }
    let buffer = match ri.read(0, 6) {
        Ok(b) => b,
        Err(e) => return Err(e),
    };
    let ico: [u8; 4] = [0x00, 0x00, 0x01, 0x00];
    let cur: [u8; 4] = [0x00, 0x00, 0x02, 0x00];
    proof {
        assert(ico@ =~= ico_sig());
        assert(cur@ =~= cur_sig());
        lemma_range_eq_in_window(s, 0, buffer@, 0, 4, ico_sig());
        lemma_range_eq_in_window(s, 0, buffer@, 0, 4, cur_sig());
    }
    let is_ico = buffer.cmp(0, 4, ico.as_slice());
    let is_cur = !is_ico && buffer.cmp(0, 4, cur.as_slice());
    if !is_ico && !is_cur {
        return Err(ImageInfoError::UnrecognizedFormat);
    }
    let entry_count = buffer.read_u16_le(4) as usize;
    if entry_count == 0 {
        return Err(ImageInfoError::UnrecognizedFormat);
    }
    let entry_size: usize = 16;
    let entry_total_size = entry_count * entry_size;
    if length < 6 + entry_total_size {
        return Err(ImageInfoError::UnrecognizedFormat);
    }
    let buffer = match ri.read(6, entry_total_size) {
        Ok(b) => b,
        Err(e) => return Err(e),
    };
    let mut entry_sizes: Vec<ImageSize> = Vec::new();
    let mut i: usize = 0;
    while i < entry_count
        invariant
            i <= entry_count,
            entry_count <= 0xFFFF,
            entry_size == 16,
            entry_count * 16 <= buffer@.len(),
            buffer@ == s.subrange(6, 6 + entry_count * 16),
            6 + entry_count * 16 <= s.len(),
            entry_sizes@.len() == i,
            forall|j: int|
                0 <= j < i ==> ((#[trigger] entry_sizes@[j]).width as int,
                entry_sizes@[j].height as int) == cur_ico_entry(s, j),
        decreases entry_count - i,
    {
        proof {
            assert(i * 16 + 16 <= entry_count * 16) by (nonlinear_arith)
                requires
                    i < entry_count,
            ;
        }
        let wb = buffer.read_u8(i * entry_size);
        let hb = buffer.read_u8(i * entry_size + 1);
        let width: i64 = if wb == 0 {
            256
        } else {
            wb as i64
        };
        let height: i64 = if hb == 0 {
            256
        } else {
            hb as i64
        };
        entry_sizes.push(ImageSize { width, height });
        i = i + 1;
    }
    let width = entry_sizes[0].width;
    let height = entry_sizes[0].height;
    let ret = ImageInfo {
        format: if is_ico {
            ImageFormat::ICO
        } else {
            ImageFormat::CUR
        },
        ext: if is_ico {
            "ico"
        } else {
            "cur"
        },
        full_ext: if is_ico {
            "ico"
        } else {
            "cur"
        },
        mimetype: if is_ico {
            "image/ico"
        } else {
            "image/cur"
        },
        size: ImageSize { width, height },
        entry_sizes,
    };
    proof {
        assert(ret@ =~= cur_ico_model(s)->Some_0);
    }
    Ok(ret)
}

} // verus!
