use crate::defs::{ImageInfoError, ImageInfoResult, ImageSize};
use crate::raw_buffer::{lemma_range_eq_in_window, range_eq, u32_be_of};
use crate::read_interface::ReadInterface;
use crate::{ImageFormat, ImageInfo, SpecImage};
use vstd::prelude::*;

verus! {

pub open spec fn icns_sig() -> Seq<u8> {
    seq![0x69u8, 0x63u8, 0x6Eu8, 0x73u8]
}

/// The square pixel size an ICNS entry type stands for, or `None` for a type
/// outside the published table.
pub open spec fn icns_type_size(t: Seq<u8>) -> Option<int> {
    if false {
        None
    } else if t == seq![0x49u8, 0x43u8, 0x4Fu8, 0x4Eu8] {
        Some(32)
    } else if t == seq![0x49u8, 0x43u8, 0x4Eu8, 0x23u8] {
        Some(32)
    } else if t == seq![0x69u8, 0x63u8, 0x6Du8, 0x23u8] {
        Some(16)
    } else if t == seq![0x69u8, 0x63u8, 0x6Du8, 0x34u8] {
        Some(16)
    } else if t == seq![0x69u8, 0x63u8, 0x6Du8, 0x38u8] {
        Some(16)
    } else if t == seq![0x69u8, 0x63u8, 0x73u8, 0x23u8] {
        Some(16)
    } else if t == seq![0x69u8, 0x63u8, 0x73u8, 0x34u8] {
        Some(16)
    } else if t == seq![0x69u8, 0x63u8, 0x73u8, 0x38u8] {
        Some(16)
    } else if t == seq![0x69u8, 0x73u8, 0x33u8, 0x32u8] {
        Some(16)
    } else if t == seq![0x73u8, 0x38u8, 0x6Du8, 0x6Bu8] {
        Some(16)
    } else if t == seq![0x69u8, 0x63u8, 0x6Cu8, 0x34u8] {
        Some(32)
    } else if t == seq![0x69u8, 0x63u8, 0x6Cu8, 0x38u8] {
        Some(32)
    } else if t == seq![0x69u8, 0x6Cu8, 0x33u8, 0x32u8] {
        Some(32)
    } else if t == seq![0x6Cu8, 0x38u8, 0x6Du8, 0x6Bu8] {
        Some(32)
    } else if t == seq![0x69u8, 0x63u8, 0x68u8, 0x23u8] {
        Some(48)
    } else if t == seq![0x69u8, 0x63u8, 0x68u8, 0x34u8] {
        Some(48)
    } else if t == seq![0x69u8, 0x63u8, 0x68u8, 0x38u8] {
        Some(48)
    } else if t == seq![0x69u8, 0x68u8, 0x33u8, 0x32u8] {
        Some(48)
    } else if t == seq![0x68u8, 0x38u8, 0x6Du8, 0x6Bu8] {
        Some(48)
    } else if t == seq![0x69u8, 0x74u8, 0x33u8, 0x32u8] {
        Some(128)
    } else if t == seq![0x74u8, 0x38u8, 0x6Du8, 0x6Bu8] {
        Some(128)
    } else if t == seq![0x69u8, 0x63u8, 0x70u8, 0x34u8] {
        Some(16)
    } else if t == seq![0x69u8, 0x63u8, 0x70u8, 0x35u8] {
        Some(32)
    } else if t == seq![0x69u8, 0x63u8, 0x70u8, 0x36u8] {
        Some(64)
    } else if t == seq![0x69u8, 0x63u8, 0x30u8, 0x37u8] {
        Some(128)
    } else if t == seq![0x69u8, 0x63u8, 0x30u8, 0x38u8] {
        Some(256)
    } else if t == seq![0x69u8, 0x63u8, 0x30u8, 0x39u8] {
        Some(512)
    } else if t == seq![0x69u8, 0x63u8, 0x31u8, 0x30u8] {
        Some(1024)
    } else if t == seq![0x69u8, 0x63u8, 0x31u8, 0x31u8] {
        Some(32)
    } else if t == seq![0x69u8, 0x63u8, 0x31u8, 0x32u8] {
        Some(64)
    } else if t == seq![0x69u8, 0x63u8, 0x31u8, 0x33u8] {
        Some(256)
    } else if t == seq![0x69u8, 0x63u8, 0x31u8, 0x34u8] {
        Some(512)
    } else if t == seq![0x69u8, 0x63u8, 0x30u8, 0x34u8] {
        Some(16)
    } else if t == seq![0x69u8, 0x63u8, 0x30u8, 0x35u8] {
        Some(32)
    } else if t == seq![0x69u8, 0x63u8, 0x73u8, 0x42u8] {
        Some(36)
    } else if t == seq![0x69u8, 0x63u8, 0x73u8, 0x62u8] {
        Some(18)
    } else {
        None
    }
}

/// Executable counterpart of `icns_type_size` over a four-byte tag.
fn icns_type_size_of(t: &[u8]) -> (r: Option<i64>)
    requires
        t@.len() == 4,
    ensures
        r matches Some(v) ==> icns_type_size(t@) == Some(v as int) && 0 < v <= 1024,
        r is Some <==> icns_type_size(t@) is Some,
{
    proof {
        assert(t@ =~= seq![t@[0], t@[1], t@[2], t@[3]]);
    }
    if t[0] == 0x49 && t[1] == 0x43 && t[2] == 0x4F && t[3] == 0x4E {
        proof {
            assert(t@ =~= seq![0x49u8, 0x43u8, 0x4Fu8, 0x4Eu8]);
        }
        return Some(32);
    }
    if t[0] == 0x49 && t[1] == 0x43 && t[2] == 0x4E && t[3] == 0x23 {
        proof {
            assert(t@ =~= seq![0x49u8, 0x43u8, 0x4Eu8, 0x23u8]);
        }
        return Some(32);
    }
    if t[0] == 0x69 && t[1] == 0x63 && t[2] == 0x6D && t[3] == 0x23 {
        proof {
            assert(t@ =~= seq![0x69u8, 0x63u8, 0x6Du8, 0x23u8]);
        }
        return Some(16);
    }
    if t[0] == 0x69 && t[1] == 0x63 && t[2] == 0x6D && t[3] == 0x34 {
        proof {
            assert(t@ =~= seq![0x69u8, 0x63u8, 0x6Du8, 0x34u8]);
        }
        return Some(16);
    }
    if t[0] == 0x69 && t[1] == 0x63 && t[2] == 0x6D && t[3] == 0x38 {
        proof {
            assert(t@ =~= seq![0x69u8, 0x63u8, 0x6Du8, 0x38u8]);
        }
        return Some(16);
    }
    if t[0] == 0x69 && t[1] == 0x63 && t[2] == 0x73 && t[3] == 0x23 {
        proof {
            assert(t@ =~= seq![0x69u8, 0x63u8, 0x73u8, 0x23u8]);
        }
        return Some(16);
    }
    if t[0] == 0x69 && t[1] == 0x63 && t[2] == 0x73 && t[3] == 0x34 {
        proof {
            assert(t@ =~= seq![0x69u8, 0x63u8, 0x73u8, 0x34u8]);
        }
        return Some(16);
    }
    if t[0] == 0x69 && t[1] == 0x63 && t[2] == 0x73 && t[3] == 0x38 {
        proof {
            assert(t@ =~= seq![0x69u8, 0x63u8, 0x73u8, 0x38u8]);
        }
        return Some(16);
    }
    if t[0] == 0x69 && t[1] == 0x73 && t[2] == 0x33 && t[3] == 0x32 {
        proof {
            assert(t@ =~= seq![0x69u8, 0x73u8, 0x33u8, 0x32u8]);
        }
        return Some(16);
    }
    if t[0] == 0x73 && t[1] == 0x38 && t[2] == 0x6D && t[3] == 0x6B {
        proof {
            assert(t@ =~= seq![0x73u8, 0x38u8, 0x6Du8, 0x6Bu8]);
        }
        return Some(16);
    }
    if t[0] == 0x69 && t[1] == 0x63 && t[2] == 0x6C && t[3] == 0x34 {
        proof {
            assert(t@ =~= seq![0x69u8, 0x63u8, 0x6Cu8, 0x34u8]);
        }
        return Some(32);
    }
    if t[0] == 0x69 && t[1] == 0x63 && t[2] == 0x6C && t[3] == 0x38 {
        proof {
            assert(t@ =~= seq![0x69u8, 0x63u8, 0x6Cu8, 0x38u8]);
        }
        return Some(32);
    }
    if t[0] == 0x69 && t[1] == 0x6C && t[2] == 0x33 && t[3] == 0x32 {
        proof {
            assert(t@ =~= seq![0x69u8, 0x6Cu8, 0x33u8, 0x32u8]);
        }
        return Some(32);
    }
    if t[0] == 0x6C && t[1] == 0x38 && t[2] == 0x6D && t[3] == 0x6B {
        proof {
            assert(t@ =~= seq![0x6Cu8, 0x38u8, 0x6Du8, 0x6Bu8]);
        }
        return Some(32);
    }
    if t[0] == 0x69 && t[1] == 0x63 && t[2] == 0x68 && t[3] == 0x23 {
        proof {
            assert(t@ =~= seq![0x69u8, 0x63u8, 0x68u8, 0x23u8]);
        }
        return Some(48);
    }
    if t[0] == 0x69 && t[1] == 0x63 && t[2] == 0x68 && t[3] == 0x34 {
        proof {
            assert(t@ =~= seq![0x69u8, 0x63u8, 0x68u8, 0x34u8]);
        }
        return Some(48);
    }
    if t[0] == 0x69 && t[1] == 0x63 && t[2] == 0x68 && t[3] == 0x38 {
        proof {
            assert(t@ =~= seq![0x69u8, 0x63u8, 0x68u8, 0x38u8]);
        }
        return Some(48);
    }
    if t[0] == 0x69 && t[1] == 0x68 && t[2] == 0x33 && t[3] == 0x32 {
        proof {
            assert(t@ =~= seq![0x69u8, 0x68u8, 0x33u8, 0x32u8]);
        }
        return Some(48);
    }
    if t[0] == 0x68 && t[1] == 0x38 && t[2] == 0x6D && t[3] == 0x6B {
        proof {
            assert(t@ =~= seq![0x68u8, 0x38u8, 0x6Du8, 0x6Bu8]);
        }
        return Some(48);
    }
    if t[0] == 0x69 && t[1] == 0x74 && t[2] == 0x33 && t[3] == 0x32 {
        proof {
            assert(t@ =~= seq![0x69u8, 0x74u8, 0x33u8, 0x32u8]);
        }
        return Some(128);
    }
    if t[0] == 0x74 && t[1] == 0x38 && t[2] == 0x6D && t[3] == 0x6B {
        proof {
            assert(t@ =~= seq![0x74u8, 0x38u8, 0x6Du8, 0x6Bu8]);
        }
        return Some(128);
    }
    if t[0] == 0x69 && t[1] == 0x63 && t[2] == 0x70 && t[3] == 0x34 {
        proof {
            assert(t@ =~= seq![0x69u8, 0x63u8, 0x70u8, 0x34u8]);
        }
        return Some(16);
    }
    if t[0] == 0x69 && t[1] == 0x63 && t[2] == 0x70 && t[3] == 0x35 {
        proof {
            assert(t@ =~= seq![0x69u8, 0x63u8, 0x70u8, 0x35u8]);
        }
        return Some(32);
    }
    if t[0] == 0x69 && t[1] == 0x63 && t[2] == 0x70 && t[3] == 0x36 {
        proof {
            assert(t@ =~= seq![0x69u8, 0x63u8, 0x70u8, 0x36u8]);
        }
        return Some(64);
    }
    if t[0] == 0x69 && t[1] == 0x63 && t[2] == 0x30 && t[3] == 0x37 {
        proof {
            assert(t@ =~= seq![0x69u8, 0x63u8, 0x30u8, 0x37u8]);
        }
        return Some(128);
    }
    if t[0] == 0x69 && t[1] == 0x63 && t[2] == 0x30 && t[3] == 0x38 {
        proof {
            assert(t@ =~= seq![0x69u8, 0x63u8, 0x30u8, 0x38u8]);
        }
        return Some(256);
    }
    if t[0] == 0x69 && t[1] == 0x63 && t[2] == 0x30 && t[3] == 0x39 {
        proof {
            assert(t@ =~= seq![0x69u8, 0x63u8, 0x30u8, 0x39u8]);
        }
        return Some(512);
    }
    if t[0] == 0x69 && t[1] == 0x63 && t[2] == 0x31 && t[3] == 0x30 {
        proof {
            assert(t@ =~= seq![0x69u8, 0x63u8, 0x31u8, 0x30u8]);
        }
        return Some(1024);
    }
    if t[0] == 0x69 && t[1] == 0x63 && t[2] == 0x31 && t[3] == 0x31 {
        proof {
            assert(t@ =~= seq![0x69u8, 0x63u8, 0x31u8, 0x31u8]);
        }
        return Some(32);
    }
    if t[0] == 0x69 && t[1] == 0x63 && t[2] == 0x31 && t[3] == 0x32 {
        proof {
            assert(t@ =~= seq![0x69u8, 0x63u8, 0x31u8, 0x32u8]);
        }
        return Some(64);
    }
    if t[0] == 0x69 && t[1] == 0x63 && t[2] == 0x31 && t[3] == 0x33 {
        proof {
            assert(t@ =~= seq![0x69u8, 0x63u8, 0x31u8, 0x33u8]);
        }
        return Some(256);
    }
    if t[0] == 0x69 && t[1] == 0x63 && t[2] == 0x31 && t[3] == 0x34 {
        proof {
            assert(t@ =~= seq![0x69u8, 0x63u8, 0x31u8, 0x34u8]);
        }
        return Some(512);
    }
    if t[0] == 0x69 && t[1] == 0x63 && t[2] == 0x30 && t[3] == 0x34 {
        proof {
            assert(t@ =~= seq![0x69u8, 0x63u8, 0x30u8, 0x34u8]);
        }
        return Some(16);
    }
    if t[0] == 0x69 && t[1] == 0x63 && t[2] == 0x30 && t[3] == 0x35 {
        proof {
            assert(t@ =~= seq![0x69u8, 0x63u8, 0x30u8, 0x35u8]);
        }
        return Some(32);
    }
    if t[0] == 0x69 && t[1] == 0x63 && t[2] == 0x73 && t[3] == 0x42 {
        proof {
            assert(t@ =~= seq![0x69u8, 0x63u8, 0x73u8, 0x42u8]);
        }
        return Some(36);
    }
    if t[0] == 0x69 && t[1] == 0x63 && t[2] == 0x73 && t[3] == 0x62 {
        proof {
            assert(t@ =~= seq![0x69u8, 0x63u8, 0x73u8, 0x62u8]);
        }
        return Some(18);
    }

    None
}

/// The entry sizes listed from `offset` to the end of the stream: each entry
/// is a four-byte type, a four-byte big-endian length that also covers the
/// entry header, and the payload. A type outside the table, or a zero entry
/// length (which could never advance), rejects the file.
pub open spec fn icns_entry_sizes(s: Seq<u8>, offset: int) -> Option<Seq<int>>
    decreases s.len() - offset,
{
    if offset < 0 || offset + 8 > s.len() {
        Some(Seq::empty())
    } else {
        let esize = u32_be_of(s, offset + 4) as int;
        match icns_type_size(s.subrange(offset, offset + 4)) {
            None => None,
            Some(ts) => {
                if esize == 0 {
                    None
                } else if offset + esize + 8 > s.len() {
                    Some(seq![ts])
                } else {
                    match icns_entry_sizes(s, offset + esize) {
                        None => None,
                        Some(rest) => Some(seq![ts] + rest),
                    }
                }
            },
        }
    }
}

/// The largest entry size of the list, or zero for an empty list.
pub open spec fn icns_max_size(sizes: Seq<int>) -> int
    decreases sizes.len(),
{
    if sizes.len() == 0 {
        0
    } else if icns_max_size(sizes.drop_last()) >= sizes.last() {
        icns_max_size(sizes.drop_last())
    } else {
        sizes.last()
    }
}

/// An ICNS header: the signature and a file length the stream must cover,
/// then one entry per icon; every entry is square, and the primary size is
/// the largest one.
pub open spec fn icns_model(s: Seq<u8>) -> Option<SpecImage> {
    if s.len() >= 8 && range_eq(s, 0, 4, icns_sig()) && s.len() >= u32_be_of(s, 4) {
        match icns_entry_sizes(s, 8) {
            None => None,
            Some(sizes) => Some(
                SpecImage {
                    format: ImageFormat::ICNS,
                    width: icns_max_size(sizes),
                    height: icns_max_size(sizes),
                    entries: sizes.map_values(|sz: int| (sz, sz)),
                },
            ),
        }
    } else {
        None
    }
}

pub fn try_icns(ri: &mut ReadInterface, length: usize) -> (r: ImageInfoResult<ImageInfo>)
    requires
        old(ri).wf(),
        length == old(ri).length,
    ensures
        final(ri).wf(),
        final(ri).content() == old(ri).content(),
        final(ri).length == old(ri).length,
        crate::probe_post(r, icns_model(old(ri).content())),
{
    let ghost s: Seq<u8> = old(ri).content();
    if length < 8 {
        return Err(ImageInfoError::UnrecognizedFormat);
    }
    let buffer = match ri.read(0, 8) {
        Ok(b) => b,
        Err(e) => return Err(e),
    };
    let sig: [u8; 4] = [0x69, 0x63, 0x6E, 0x73];
    proof {
        assert(sig@ =~= icns_sig());
        lemma_range_eq_in_window(s, 0, buffer@, 0, 4, icns_sig());
    }
    let file_length = buffer.read_u32_be(4) as usize;
    if !buffer.cmp(0, 4, sig.as_slice()) || length < file_length {
        return Err(ImageInfoError::UnrecognizedFormat);
    }
    let mut entry_sizes: Vec<ImageSize> = Vec::new();
    let ghost mut acc: Seq<int> = Seq::empty();
    let mut max_size: i64 = 0;
    let mut offset: usize = 8;
    let mut done = false;
    while !done && length - offset >= 8
        invariant
            ri.wf(),
            s == old(ri).content(),
            ri.content() == s,
            ri.length == length,
            length == old(ri).length,
            length == s.len(),
            8 <= offset <= length,
            max_size == icns_max_size(acc),
            entry_sizes@.len() == acc.len(),
            forall|j: int|
                0 <= j < acc.len() ==> ((#[trigger] entry_sizes@[j]).width as int,
                entry_sizes@[j].height as int) == (acc[j], acc[j]),
            !done ==> icns_entry_sizes(s, 8) == (match icns_entry_sizes(s, offset as int) {
                Some(rest) => Some(acc + rest),
                None => None::<Seq<int>>,
            }),
            done ==> icns_entry_sizes(s, 8) == Some(acc),
        decreases length - offset, (if done { 0int } else { 1int }),
    {
        let buffer = match ri.read(offset, 8) {
            Ok(b) => b,
            Err(e) => return Err(e),
        };
        let tag = buffer.piece(0, 4);
        let entry_size = buffer.read_u32_be(4) as usize;
        proof {
            assert(tag@ =~= s.subrange(offset as int, offset + 4));
        }
        let ts = match icns_type_size_of(tag) {
            Some(v) => v,
            None => {
                proof {
                    assert(icns_entry_sizes(s, offset as int) is None);
                }
                return Err(ImageInfoError::UnrecognizedFormat);
            },
        };
        if entry_size == 0 {
            proof {
                assert(icns_entry_sizes(s, offset as int) is None);
            }
            return Err(ImageInfoError::UnrecognizedFormat);
        }
        entry_sizes.push(ImageSize { width: ts, height: ts });
        if max_size < ts {
            max_size = ts;
        }
        let ghost acc0 = acc;
        proof {
            acc = acc + seq![ts as int];
            assert(acc.drop_last() =~= acc0);
            assert(acc.last() == ts as int);
        }
        if length - offset < entry_size || length - (offset + entry_size) < 8 {
            proof {
                assert(icns_entry_sizes(s, offset as int) == Some(seq![ts as int]));
                assert(acc0 + seq![ts as int] =~= acc);
            }
            done = true;
        } else {
            proof {
                let rest = icns_entry_sizes(s, offset + entry_size);
                assert(icns_entry_sizes(s, offset as int) == (match rest {
                    Some(r2) => Some(seq![ts as int] + r2),
                    None => None::<Seq<int>>,
                }));
                if rest is Some {
                    assert(acc0 + (seq![ts as int] + rest->Some_0) =~= acc + rest->Some_0);
                }
            }
            offset = offset + entry_size;
        }
    }
    proof {
        if !done {
            assert(icns_entry_sizes(s, offset as int) == Some(Seq::<int>::empty()));
            assert(acc + Seq::<int>::empty() =~= acc);
        }
    }
    let ret = ImageInfo {
        format: ImageFormat::ICNS,
        ext: "icns",
        full_ext: "icns",
        mimetype: "image/icns",
        size: ImageSize { width: max_size, height: max_size },
        entry_sizes,
    };
    proof {
        let m = icns_model(s)->Some_0;
        assert(ret@.entries =~= m.entries);
        assert(ret@ =~= m);
    }
    Ok(ret)
}

} // verus!
