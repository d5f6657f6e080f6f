use crate::defs::{ImageInfoError, ImageInfoResult, ImageSize};
use crate::raw_buffer::{lemma_range_eq_in_window, range_eq, u16_be_of, u32_be_of, RawBuffer};
use crate::read_interface::ReadInterface;
use crate::{ImageFormat, ImageInfo, SpecImage};
use vstd::prelude::*;

verus! {

// ---------------------------------------------------------------------------
// Box type tags and brands.
// ---------------------------------------------------------------------------

pub open spec fn ah_ftyp_tag() -> Seq<u8> {
    seq![0x66u8, 0x74u8, 0x79u8, 0x70u8]
}

pub open spec fn ah_meta_tag() -> Seq<u8> {
    seq![0x6Du8, 0x65u8, 0x74u8, 0x61u8]
}

pub open spec fn ah_pitm_tag() -> Seq<u8> {
    seq![0x70u8, 0x69u8, 0x74u8, 0x6Du8]
}

pub open spec fn ah_ipma_tag() -> Seq<u8> {
    seq![0x69u8, 0x70u8, 0x6Du8, 0x61u8]
}

pub open spec fn ah_iprp_tag() -> Seq<u8> {
    seq![0x69u8, 0x70u8, 0x72u8, 0x70u8]
}

pub open spec fn ah_ipco_tag() -> Seq<u8> {
    seq![0x69u8, 0x70u8, 0x63u8, 0x6Fu8]
}

pub open spec fn ah_ispe_tag() -> Seq<u8> {
    seq![0x69u8, 0x73u8, 0x70u8, 0x65u8]
}

pub open spec fn ah_irot_tag() -> Seq<u8> {
    seq![0x69u8, 0x72u8, 0x6Fu8, 0x74u8]
}

pub open spec fn brand_avif() -> Seq<u8> {
    seq![0x61u8, 0x76u8, 0x69u8, 0x66u8]
}

pub open spec fn brand_avis() -> Seq<u8> {
    seq![0x61u8, 0x76u8, 0x69u8, 0x73u8]
}

pub open spec fn brand_mif1() -> Seq<u8> {
    seq![0x6Du8, 0x69u8, 0x66u8, 0x31u8]
}

pub open spec fn brand_msf1() -> Seq<u8> {
    seq![0x6Du8, 0x73u8, 0x66u8, 0x31u8]
}

pub open spec fn brand_heic() -> Seq<u8> {
    seq![0x68u8, 0x65u8, 0x69u8, 0x63u8]
}

pub open spec fn brand_heix() -> Seq<u8> {
    seq![0x68u8, 0x65u8, 0x69u8, 0x78u8]
}

pub open spec fn brand_hevc() -> Seq<u8> {
    seq![0x68u8, 0x65u8, 0x76u8, 0x63u8]
}

pub open spec fn brand_hevx() -> Seq<u8> {
    seq![0x68u8, 0x65u8, 0x76u8, 0x78u8]
}

/// The major brand at offset 8 is one of the accepted AVIF/HEIF/HEIC brands.
pub open spec fn ah_major_ok(s: Seq<u8>) -> bool {
    ||| range_eq(s, 8, 4, brand_avif())
    ||| range_eq(s, 8, 4, brand_avis())
    ||| range_eq(s, 8, 4, brand_mif1())
    ||| range_eq(s, 8, 4, brand_msf1())
    ||| range_eq(s, 8, 4, brand_heic())
    ||| range_eq(s, 8, 4, brand_heix())
    ||| range_eq(s, 8, 4, brand_hevc())
    ||| range_eq(s, 8, 4, brand_hevx())
}

/// Compatible-brand chunk `j` of the `ftyp` box: the four bytes starting at
/// offset `16 + 4 * j`.
pub open spec fn ah_brand_at(s: Seq<u8>, j: int) -> Seq<u8> {
    s.subrange(16 + 4 * j, 20 + 4 * j)
}

/// The compatible-brands list in `[16, ftyp_len)` contains `b` as one of its
/// four-byte chunks.
pub open spec fn ah_has_brand(s: Seq<u8>, ftyp_len: int, b: Seq<u8>) -> bool {
    exists|j: int| 0 <= j < (ftyp_len - 16) / 4 && #[trigger] ah_brand_at(s, j) == b
}

/// Which format the brands resolve to: a compatible brand takes precedence
/// over the major brand, and `avif` over `heic`.
pub open spec fn ah_format(s: Seq<u8>, ftyp_len: int) -> Option<ImageFormat> {
    if ah_has_brand(s, ftyp_len, brand_avif()) {
        Some(ImageFormat::AVIF)
    } else if ah_has_brand(s, ftyp_len, brand_heic()) {
        Some(ImageFormat::HEIC)
    } else if range_eq(s, 8, 4, brand_avif()) {
        Some(ImageFormat::AVIF)
    } else if range_eq(s, 8, 4, brand_heic()) {
        Some(ImageFormat::HEIC)
    } else {
        None
    }
}

// ---------------------------------------------------------------------------
// The walk over the meta box's children.
// ---------------------------------------------------------------------------

/// Everything the walk accumulates: the primary item id, the
/// item-to-property-slot association list in arrival order (a later entry for
/// the same item supersedes an earlier one), the byte range of the indexed
/// property container, the next slot index, and the spatial-extents and
/// rotation records in arrival order keyed by slot index.
#[verifier::ext_equal]
pub ghost struct BoxWalk {
    pub pitm_id: u16,
    pub assoc: Seq<(u16, Seq<u8>)>,
    pub ipco_start: int,
    pub ipco_end: int,
    pub slot: int,
    pub ispes: Seq<(int, (u32, u32))>,
    pub irots: Seq<(int, u8)>,
}

impl BoxWalk {
    /// The state before any child box is seen: the primary item defaults to
    /// 1, no container is recorded, and the first slot index is 1.
    pub open spec fn init() -> BoxWalk {
        BoxWalk {
            pitm_id: 1,
            assoc: Seq::empty(),
            ipco_start: 0,
            ipco_end: 0,
            slot: 1,
            ispes: Seq::empty(),
            irots: Seq::empty(),
        }
    }
}

/// The masked property-slot indices of one `ipma` entry: `cnt` bytes from
/// `t`, each reduced to its low four bits as the wire format prescribes.
pub open spec fn ipma_index_bytes(m: Seq<u8>, t: int, cnt: int) -> Seq<u8> {
    Seq::new(cnt as nat, |k: int| m[t + k] & 0x0F)
}

/// Folds the `n` remaining `ipma` entries starting at `t` into the
/// association list. An entry is the item id, an index count, and that many
/// index bytes; a field that would read past the declared box end rejects
/// the file rather than truncating silently.
pub open spec fn ipma_entries(
    m: Seq<u8>,
    t: int,
    box_end: int,
    n: int,
    assoc: Seq<(u16, Seq<u8>)>,
) -> Option<Seq<(u16, Seq<u8>)>>
    decreases n,
{
    if n <= 0 {
        Some(assoc)
    } else if t + 2 > box_end {
        None
    } else if t + 3 > box_end {
        None
    } else if t + 3 + m[t + 2] > box_end {
        None
    } else {
        ipma_entries(
            m,
            t + 3 + m[t + 2],
            box_end,
            n - 1,
            assoc.push((u16_be_of(m, t), ipma_index_bytes(m, t + 3, m[t + 2] as int))),
        )
    }
}

/// One pass over the children of the meta box, starting at `offset` in the
/// walked window `m` with state `st`. A box too small to exist or running
/// past the window stops the walk without failing; a recognized box shorter
/// than its own mandatory fields rejects the file (`None`).
pub open spec fn ah_walk(m: Seq<u8>, offset: int, st: BoxWalk) -> Option<BoxWalk>
    decreases m.len() - offset,
{
    if offset < 0 || offset + 8 > m.len() {
        Some(st)
    } else {
        let box_size = u32_be_of(m, offset) as int;
        if box_size < 8 || offset + box_size > m.len() {
            Some(st)
        } else if range_eq(m, offset + 4, 4, ah_pitm_tag()) {
            if box_size < 14 {
                None
            } else {
                ah_walk(
                    m,
                    offset + box_size,
                    BoxWalk { pitm_id: u16_be_of(m, offset + 12), ..st },
                )
            }
        } else if range_eq(m, offset + 4, 4, ah_ipma_tag()) {
            if box_size < 16 {
                None
            } else {
                match ipma_entries(
                    m,
                    offset + 16,
                    offset + box_size,
                    u16_be_of(m, offset + 14) as int,
                    st.assoc,
                ) {
                    None => None,
                    Some(assoc2) => ah_walk(
                        m,
                        offset + box_size,
                        BoxWalk { assoc: assoc2, ..st },
                    ),
                }
            }
        } else if range_eq(m, offset + 4, 4, ah_iprp_tag()) {
            // Transparent: step past the header and treat its children as
            // part of this walk.
            ah_walk(m, offset + 8, st)
        } else if range_eq(m, offset + 4, 4, ah_ipco_tag()) {
            // The indexed property container: record its bounds and restart
            // slot numbering at 1 for its children.
            ah_walk(
                m,
                offset + 8,
                BoxWalk { ipco_start: offset, ipco_end: offset + box_size, slot: 1, ..st },
            )
        } else if range_eq(m, offset + 4, 4, ah_ispe_tag()) {
            if box_size < 20 {
                None
            } else {
                ah_walk(
                    m,
                    offset + box_size,
                    BoxWalk {
                        ispes: st.ispes.push(
                            (st.slot, (u32_be_of(m, offset + 12), u32_be_of(m, offset + 16))),
                        ),
                        slot: st.slot + 1,
                        ..st
                    },
                )
            }
        } else if range_eq(m, offset + 4, 4, ah_irot_tag()) {
            if box_size < 9 {
                None
            } else {
                ah_walk(
                    m,
                    offset + box_size,
                    BoxWalk {
                        irots: st.irots.push((st.slot, m[offset + 8])),
                        slot: st.slot + 1,
                        ..st
                    },
                )
            }
        } else {
            // Any other box type still consumes a slot index while inside
            // the recorded property container.
            let st2 = if st.ipco_start < offset && offset < st.ipco_end {
                BoxWalk { slot: st.slot + 1, ..st }
            } else {
                st
            };
            ah_walk(m, offset + box_size, st2)
        }
    }
}

// ---------------------------------------------------------------------------
// Resolution of the walked state.
// ---------------------------------------------------------------------------

/// The property-slot indices associated with item `k`: the latest `ipma`
/// entry for that item wins.
pub open spec fn assoc_lookup(a: Seq<(u16, Seq<u8>)>, k: u16) -> Option<Seq<u8>>
    decreases a.len(),
{
    if a.len() == 0 {
        None
    } else if a.last().0 == k {
        Some(a.last().1)
    } else {
        assoc_lookup(a.drop_last(), k)
    }
}

/// Does slot index `slot` answer to the masked wire index `idx`? The wire
/// carries only the low byte of the running counter.
pub open spec fn slot_matches(slot: int, idx: u8) -> bool {
    slot % 256 == idx
}

/// The rotation code of the first recorded rotation whose slot is among
/// `indices`, or 0 when none is.
pub open spec fn find_irot(irots: Seq<(int, u8)>, indices: Seq<u8>) -> u8
    decreases irots.len(),
{
    if irots.len() == 0 {
        0
    } else if exists|k: int| 0 <= k < indices.len() && slot_matches(irots.first().0, indices[k]) {
        irots.first().1
    } else {
        find_irot(irots.drop_first(), indices)
    }
}

/// The dimensions of the first recorded spatial-extents box whose slot is
/// among `indices`, if any.
pub open spec fn find_ispe(ispes: Seq<(int, (u32, u32))>, indices: Seq<u8>) -> Option<(u32, u32)>
    decreases ispes.len(),
{
    if ispes.len() == 0 {
        None
    } else if exists|k: int| 0 <= k < indices.len() && slot_matches(ispes.first().0, indices[k]) {
        Some(ispes.first().1)
    } else {
        find_ispe(ispes.drop_first(), indices)
    }
}

/// Rotation codes 1, 3, 6 and 7 stand for quarter-turn orientations
/// (including mirrored ones) and swap the reported width and height; every
/// other code leaves them as stored.
pub open spec fn oriented(w: int, h: int, rot: u8) -> (int, int) {
    if rot == 1 || rot == 3 || rot == 6 || rot == 7 {
        (h, w)
    } else {
        (w, h)
    }
}

/// What the walked state says about the primary item: its association set
/// must exist and contain a spatial-extents slot; a rotation slot is
/// optional and defaults to code 0.
pub open spec fn ah_resolve(fmt: ImageFormat, st: BoxWalk) -> Option<SpecImage> {
    match assoc_lookup(st.assoc, st.pitm_id) {
        None => None,
        Some(indices) => {
            let rot = find_irot(st.irots, indices);
            match find_ispe(st.ispes, indices) {
                None => None,
                Some(dims) => Some(
                    SpecImage {
                        format: fmt,
                        width: oriented(dims.0 as int, dims.1 as int, rot).0,
                        height: oriented(dims.0 as int, dims.1 as int, rot).1,
                        entries: Seq::empty(),
                    },
                ),
            }
        },
    }
}

/// Applies `ah_resolve` to a finished walk; a rejected walk resolves to
/// nothing.
pub open spec fn ah_after_walk(fmt: ImageFormat, w: Option<BoxWalk>) -> Option<SpecImage> {
    match w {
        None => None,
        Some(st) => ah_resolve(fmt, st),
    }
}

/// An AVIF or HEIC file: an `ftyp` box with an accepted major brand and a
/// well-formed compatible-brands list that resolves the format, a `meta` box
/// directly after it that the stream covers, and inside the meta box's
/// window a property table that gives the primary item its dimensions.
pub open spec fn avif_heic_model(s: Seq<u8>) -> Option<SpecImage> {
    if s.len() < 4 {
        None
    } else {
        let ftyp_len = u32_be_of(s, 0) as int;
        if s.len() < ftyp_len + 12 {
            None
        } else if !range_eq(s, 4, 4, ah_ftyp_tag()) {
            None
        } else if !ah_major_ok(s) {
            None
        } else if ftyp_len < 16 || (ftyp_len - 16) % 4 != 0 {
            None
        } else {
            match ah_format(s, ftyp_len) {
                None => None,
                Some(fmt) => {
                    if !range_eq(s, ftyp_len + 4, 4, ah_meta_tag()) {
                        None
                    } else {
                        let meta_len = u32_be_of(s, ftyp_len) as int;
                        if s.len() < ftyp_len + 12 + meta_len {
                            None
                        } else {
                            let m = s.subrange(ftyp_len + 12, ftyp_len + 12 + meta_len);
                            ah_after_walk(fmt, ah_walk(m, 0, BoxWalk::init()))
                        }
                    }
                },
            }
        }
    }
}

/// A quarter-turn rotation code on the primary item swaps the stored
/// dimensions: if the walk resolved spatial extents `(w, h)` and a rotation
/// code of 1, 3, 6 or 7, the reported size is `(h, w)`.
pub proof fn lemma_quarter_turn_swaps(fmt: ImageFormat, st: BoxWalk)
    requires
        ah_resolve(fmt, st) is Some,
        ({
            let indices = assoc_lookup(st.assoc, st.pitm_id)->Some_0;
            let rot = find_irot(st.irots, indices);
            rot == 1 || rot == 3 || rot == 6 || rot == 7
        }),
    ensures
        ({
            let indices = assoc_lookup(st.assoc, st.pitm_id)->Some_0;
            let dims = find_ispe(st.ispes, indices)->Some_0;
            ah_resolve(fmt, st)->Some_0.width == dims.1 && ah_resolve(fmt, st)->Some_0.height
                == dims.0
        }),
{
}

/// Any other rotation code — including the default 0 that stands when no
/// rotation box is recorded at all — leaves the stored dimensions as they
/// are.
pub proof fn lemma_other_rotation_keeps(fmt: ImageFormat, st: BoxWalk)
    requires
        ah_resolve(fmt, st) is Some,
        ({
            let indices = assoc_lookup(st.assoc, st.pitm_id)->Some_0;
            let rot = find_irot(st.irots, indices);
            !(rot == 1 || rot == 3 || rot == 6 || rot == 7)
        }),
    ensures
        ({
            let indices = assoc_lookup(st.assoc, st.pitm_id)->Some_0;
            let dims = find_ispe(st.ispes, indices)->Some_0;
            ah_resolve(fmt, st)->Some_0.width == dims.0 && ah_resolve(fmt, st)->Some_0.height
                == dims.1
        }),
{
}

/// A file with no rotation box recorded resolves to rotation code 0, so its
/// dimensions are reported exactly as stored.
pub proof fn lemma_no_rotation_box_keeps(fmt: ImageFormat, st: BoxWalk)
    requires
        ah_resolve(fmt, st) is Some,
        st.irots == Seq::<(int, u8)>::empty(),
    ensures
        ({
            let indices = assoc_lookup(st.assoc, st.pitm_id)->Some_0;
            let dims = find_ispe(st.ispes, indices)->Some_0;
            ah_resolve(fmt, st)->Some_0.width == dims.0 && ah_resolve(fmt, st)->Some_0.height
                == dims.1
        }),
{
    let indices = assoc_lookup(st.assoc, st.pitm_id)->Some_0;
    assert(find_irot(st.irots, indices) == 0);
    lemma_other_rotation_keeps(fmt, st);
}

/// A compatible brand `avif` resolves the format to AVIF, whatever the
/// major brand says: compatible-brand membership takes precedence.
pub proof fn lemma_compatible_brand_precedence(s: Seq<u8>, ftyp_len: int)
    requires
        ah_has_brand(s, ftyp_len, brand_avif()),
    ensures
        ah_format(s, ftyp_len) == Some(ImageFormat::AVIF),
{
}

/// The same precedence seen from a whole accepted buffer: whenever the
/// probe accepts a file whose compatible brands include `avif`, the
/// resolved format is AVIF even if the major brand is, say, `mif1`.
pub proof fn lemma_model_brand_precedence(s: Seq<u8>)
    requires
        avif_heic_model(s) is Some,
        ah_has_brand(s, u32_be_of(s, 0) as int, brand_avif()),
    ensures
        avif_heic_model(s)->Some_0.format == ImageFormat::AVIF,
{
}

/// The format claimed by an accepted AVIF/HEIC buffer is one of the two the
/// probe is registered for.
pub proof fn lemma_avif_heic_format(s: Seq<u8>)
    ensures
        avif_heic_model(s) matches Some(m) ==> (m.format == ImageFormat::AVIF || m.format
            == ImageFormat::HEIC),
{
}

// ---------------------------------------------------------------------------
// Executable views of the walk's working structures.
// ---------------------------------------------------------------------------

/// The association list as the walk spec sees it.
pub open spec fn assoc_view(v: Seq<(u16, Vec<u8>)>) -> Seq<(u16, Seq<u8>)> {
    Seq::new(v.len(), |i: int| (v[i].0, v[i].1@))
}

/// The spatial-extents records as the walk spec sees them.
pub open spec fn slots_view(v: Seq<(u64, (u32, u32))>) -> Seq<(int, (u32, u32))> {
    Seq::new(v.len(), |i: int| (v[i].0 as int, v[i].1))
}

/// The rotation records as the walk spec sees them.
pub open spec fn rots_view(v: Seq<(u64, u8)>) -> Seq<(int, u8)> {
    Seq::new(v.len(), |i: int| (v[i].0 as int, v[i].1))
}

/// The walk state the executable loop variables stand for.
pub open spec fn cur_walk(
    pitm_id: u16,
    assoc: Seq<(u16, Vec<u8>)>,
    ipco_start: usize,
    ipco_end: usize,
    slot: u64,
    ispes: Seq<(u64, (u32, u32))>,
    irots: Seq<(u64, u8)>,
) -> BoxWalk {
    BoxWalk {
        pitm_id: pitm_id,
        assoc: assoc_view(assoc),
        ipco_start: ipco_start as int,
        ipco_end: ipco_end as int,
        slot: slot as int,
        ispes: slots_view(ispes),
        irots: rots_view(irots),
    }
}

/// Does the byte vector hold `x`?
fn contains_byte(v: &Vec<u8>, x: u8) -> (r: bool)
    ensures
        r == v@.contains(x),
{
    let mut i: usize = 0;
    while i < v.len()
        invariant
            i <= v@.len(),
            forall|j: int| 0 <= j < i ==> v@[j] != x,
        decreases v@.len() - i,
    {
        if v[i] == x {
            assert(v@[i as int] == x);
            return true;
        }
        i = i + 1;
    }
    false
}

/// Scans the compatible-brands chunks of the `ftyp` box for `brand`.
fn has_brand_exec(
    buffer: &RawBuffer,
    ftyp_len: usize,
    brand: &[u8],
    Ghost(s): Ghost<Seq<u8>>,
) -> (r: bool)
    requires
        brand@.len() == 4,
        16 <= ftyp_len,
        (ftyp_len - 16) % 4 == 0,
        ftyp_len + 12 <= s.len(),
        buffer@ == s.subrange(0, ftyp_len + 12),
    ensures
        r == ah_has_brand(s, ftyp_len as int, brand@),
{
    let count = (ftyp_len - 16) / 4;
    let mut j: usize = 0;
    while j < count
        invariant
            j <= count,
            count == (ftyp_len - 16) / 4,
            16 <= ftyp_len,
            (ftyp_len - 16) % 4 == 0,
            ftyp_len + 12 <= s.len(),
            buffer@ == s.subrange(0, ftyp_len + 12),
            brand@.len() == 4,
            forall|i: int| 0 <= i < j ==> #[trigger] ah_brand_at(s, i) != brand@,
        decreases count - j,
    {
        proof {
            assert(16 + 4 * (j as int) + 4 <= ftyp_len);
            lemma_range_eq_in_window(s, 0, buffer@, 16 + 4 * (j as int), 4, brand@);
        }
        if buffer.cmp(16 + j * 4, 4, brand) {
            proof {
                assert(ah_brand_at(s, j as int) =~= brand@);
            }
            return true;
        }
        proof {
            assert(ah_brand_at(s, j as int) =~= s.subrange(
                16 + 4 * (j as int),
                16 + 4 * (j as int) + 4,
            ));
            assert(ah_brand_at(s, j as int) != brand@);
        }
        j = j + 1;
    }
    false
}

#[verifier::rlimit(100)]
pub fn try_avif_heic(ri: &mut ReadInterface, length: usize) -> (r: ImageInfoResult<ImageInfo>)
    requires
        old(ri).wf(),
        length == old(ri).length,
    ensures
        final(ri).wf(),
        final(ri).content() == old(ri).content(),
        final(ri).length == old(ri).length,
        crate::probe_post(r, avif_heic_model(old(ri).content())),
{
    let ghost s: Seq<u8> = old(ri).content();
    if length < 4 {
        return Err(ImageInfoError::UnrecognizedFormat);
    }
    let buffer = match ri.read(0, 4) {
        Ok(b) => b,
        Err(e) => return Err(e),
    };
    let ftyp_box_length = buffer.read_u32_be(0) as usize;
    if (length as u64) < (ftyp_box_length as u64) + 12u64 {
        return Err(ImageInfoError::UnrecognizedFormat);
    }
    let buffer = match ri.read(0, ftyp_box_length + 12) {
        Ok(b) => b,
        Err(e) => return Err(e),
    };
    let ftyp: [u8; 4] = [0x66, 0x74, 0x79, 0x70];
    proof {
        assert(ftyp@ =~= ah_ftyp_tag());
        lemma_range_eq_in_window(s, 0, buffer@, 4, 4, ah_ftyp_tag());
    }
    if !buffer.cmp(4, 4, ftyp.as_slice()) {
        return Err(ImageInfoError::UnrecognizedFormat);
    }
    let b_avif: [u8; 4] = [0x61, 0x76, 0x69, 0x66];
    let b_avis: [u8; 4] = [0x61, 0x76, 0x69, 0x73];
    let b_mif1: [u8; 4] = [0x6D, 0x69, 0x66, 0x31];
    let b_msf1: [u8; 4] = [0x6D, 0x73, 0x66, 0x31];
    let b_heic: [u8; 4] = [0x68, 0x65, 0x69, 0x63];
    let b_heix: [u8; 4] = [0x68, 0x65, 0x69, 0x78];
    let b_hevc: [u8; 4] = [0x68, 0x65, 0x76, 0x63];
    let b_hevx: [u8; 4] = [0x68, 0x65, 0x76, 0x78];
    proof {
        assert(b_avif@ =~= brand_avif());
        assert(b_avis@ =~= brand_avis());
        assert(b_mif1@ =~= brand_mif1());
        assert(b_msf1@ =~= brand_msf1());
        assert(b_heic@ =~= brand_heic());
        assert(b_heix@ =~= brand_heix());
        assert(b_hevc@ =~= brand_hevc());
        assert(b_hevx@ =~= brand_hevx());
        lemma_range_eq_in_window(s, 0, buffer@, 8, 4, brand_avif());
        lemma_range_eq_in_window(s, 0, buffer@, 8, 4, brand_avis());
        lemma_range_eq_in_window(s, 0, buffer@, 8, 4, brand_mif1());
        lemma_range_eq_in_window(s, 0, buffer@, 8, 4, brand_msf1());
        lemma_range_eq_in_window(s, 0, buffer@, 8, 4, brand_heic());
        lemma_range_eq_in_window(s, 0, buffer@, 8, 4, brand_heix());
        lemma_range_eq_in_window(s, 0, buffer@, 8, 4, brand_hevc());
        lemma_range_eq_in_window(s, 0, buffer@, 8, 4, brand_hevx());
    }
    if !buffer.cmp(8, 4, b_avif.as_slice()) && !buffer.cmp(8, 4, b_avis.as_slice()) && !buffer.cmp(
        8,
        4,
        b_mif1.as_slice(),
    ) && !buffer.cmp(8, 4, b_msf1.as_slice()) && !buffer.cmp(8, 4, b_heic.as_slice())
        && !buffer.cmp(8, 4, b_heix.as_slice()) && !buffer.cmp(8, 4, b_hevc.as_slice())
        && !buffer.cmp(8, 4, b_hevx.as_slice()) {
        return Err(ImageInfoError::UnrecognizedFormat);
    }
    if ftyp_box_length < 16 || (ftyp_box_length - 16) % 4 != 0 {
        return Err(ImageInfoError::UnrecognizedFormat);
    }
    let has_avif = has_brand_exec(&buffer, ftyp_box_length, b_avif.as_slice(), Ghost(s));
    let has_heic = has_brand_exec(&buffer, ftyp_box_length, b_heic.as_slice(), Ghost(s));
    let is_avif: bool;
    if has_avif {
        is_avif = true;
    } else if has_heic {
        is_avif = false;
    } else if buffer.cmp(8, 4, b_avif.as_slice()) {
        is_avif = true;
    } else if buffer.cmp(8, 4, b_heic.as_slice()) {
        is_avif = false;
    } else {
        return Err(ImageInfoError::UnrecognizedFormat);
    }
    let ghost fmt: ImageFormat = if is_avif {
        ImageFormat::AVIF
    } else {
        ImageFormat::HEIC
    };
    proof {
        assert(ah_format(s, ftyp_box_length as int) == Some(fmt));
    }
    let meta: [u8; 4] = [0x6D, 0x65, 0x74, 0x61];
    proof {
        assert(meta@ =~= ah_meta_tag());
        lemma_range_eq_in_window(s, 0, buffer@, ftyp_box_length as int + 4, 4, ah_meta_tag());
    }
    if !buffer.cmp(ftyp_box_length + 4, 4, meta.as_slice()) {
        return Err(ImageInfoError::UnrecognizedFormat);
    }
    let meta_length = buffer.read_u32_be(ftyp_box_length) as usize;
    if (length as u64) < (ftyp_box_length as u64) + 12u64 + (meta_length as u64) {
        return Err(ImageInfoError::UnrecognizedFormat);
    }
    let mbuf = match ri.read(ftyp_box_length + 12, meta_length) {
        Ok(b) => b,
        Err(e) => return Err(e),
    };
    let ghost m: Seq<u8> = mbuf@;
    let ghost w0: Option<BoxWalk> = ah_walk(m, 0, BoxWalk::init());
    proof {
        assert(avif_heic_model(s) == ah_after_walk(fmt, w0));
    }

    let mut offset: usize = 0;
    let mut pitm_id: u16 = 1;
    let mut assoc: Vec<(u16, Vec<u8>)> = Vec::new();
    let mut ipco_start: usize = 0;
    let mut ipco_end: usize = 0;
    let mut slot: u64 = 1;
    let mut ispes: Vec<(u64, (u32, u32))> = Vec::new();
    let mut irots: Vec<(u64, u8)> = Vec::new();
    let mut stopped = false;
    let mut failed = false;
    proof {
        assert(cur_walk(1u16, assoc@, 0, 0, 1u64, ispes@, irots@) =~= BoxWalk::init());
        assert(assoc_view(assoc@) =~= Seq::<(u16, Seq<u8>)>::empty());
        assert(slots_view(ispes@) =~= Seq::<(int, (u32, u32))>::empty());
        assert(rots_view(irots@) =~= Seq::<(int, u8)>::empty());
    }
    while !stopped && !failed && meta_length - offset >= 8
        invariant
            m == mbuf@,
            meta_length == m.len(),
            meta_length <= 0xFFFF_FFFFu64,
            offset <= meta_length,
            slot <= offset as u64 + 1,
            !stopped && !failed ==> w0 == ah_walk(
                m,
                offset as int,
                cur_walk(pitm_id, assoc@, ipco_start, ipco_end, slot, ispes@, irots@),
            ),
            stopped ==> w0 == Some(
                cur_walk(pitm_id, assoc@, ipco_start, ipco_end, slot, ispes@, irots@),
            ),
            failed ==> w0 is None,
        decreases meta_length - offset, (if stopped || failed {
            0int
        } else {
            1int
        }),
    {
        let ghost cur = cur_walk(pitm_id, assoc@, ipco_start, ipco_end, slot, ispes@, irots@);
        let ghost off0: int = offset as int;
        let box_size = mbuf.read_u32_be(offset) as usize;
        if box_size < 8 || meta_length - offset < box_size {
            stopped = true;
        } else {
            let pitm: [u8; 4] = [0x70, 0x69, 0x74, 0x6D];
            let ipma: [u8; 4] = [0x69, 0x70, 0x6D, 0x61];
            let iprp: [u8; 4] = [0x69, 0x70, 0x72, 0x70];
            let ipco: [u8; 4] = [0x69, 0x70, 0x63, 0x6F];
            let ispe: [u8; 4] = [0x69, 0x73, 0x70, 0x65];
            let irot: [u8; 4] = [0x69, 0x72, 0x6F, 0x74];
            proof {
                assert(pitm@ =~= ah_pitm_tag());
                assert(ipma@ =~= ah_ipma_tag());
                assert(iprp@ =~= ah_iprp_tag());
                assert(ipco@ =~= ah_ipco_tag());
                assert(ispe@ =~= ah_ispe_tag());
                assert(irot@ =~= ah_irot_tag());
            }
            if mbuf.cmp(offset + 4, 4, pitm.as_slice()) {
                if box_size < 14 {
                    failed = true;
                } else {
                    pitm_id = mbuf.read_u16_be(offset + 12);
                    offset = offset + box_size;
                    proof {
                        assert(cur_walk(
                            pitm_id,
                            assoc@,
                            ipco_start,
                            ipco_end,
                            slot,
                            ispes@,
                            irots@,
                        ) =~= BoxWalk { pitm_id: pitm_id, ..cur });
                    }
                }
            } else if mbuf.cmp(offset + 4, 4, ipma.as_slice()) {
                if box_size < 16 {
                    failed = true;
                } else {
                    let box_end = offset + box_size;
                    let entry_count = mbuf.read_u16_be(offset + 14) as usize;
                    let ghost a0 = assoc_view(assoc@);
                    let ghost goal = ipma_entries(
                        m,
                        offset + 16,
                        box_end as int,
                        entry_count as int,
                        a0,
                    );
                    let mut t: usize = offset + 16;
                    let mut e: usize = 0;
                    let mut ifailed = false;
                    while !ifailed && e < entry_count
                        invariant
                            m == mbuf@,
                            meta_length == m.len(),
                            offset + 16 <= t,
                            t <= box_end,
                            box_end <= meta_length,
                            e <= entry_count,
                            !ifailed ==> goal == ipma_entries(
                                m,
                                t as int,
                                box_end as int,
                                (entry_count - e) as int,
                                assoc_view(assoc@),
                            ),
                            ifailed ==> goal is None,
                        decreases entry_count - e, (if ifailed {
                            0int
                        } else {
                            1int
                        }),
                    {
                        let ghost av0 = assoc_view(assoc@);
                        if box_end - t < 2 {
                            ifailed = true;
                        } else if box_end - t < 3 {
                            ifailed = true;
                        } else {
                            let cnt = mbuf.read_u8(t + 2) as usize;
                            if (box_end - t) - 3 < cnt {
                                ifailed = true;
                            } else {
                                let item_id = mbuf.read_u16_be(t);
                                let mut idx: Vec<u8> = Vec::new();
                                let mut k: usize = 0;
                                while k < cnt
                                    invariant
                                        m == mbuf@,
                                        meta_length == m.len(),
                                        t + 3 + cnt <= box_end <= meta_length,
                                        k <= cnt,
                                        idx@ == ipma_index_bytes(m, t as int + 3, k as int),
                                    decreases cnt - k,
                                {
                                    idx.push(mbuf.read_u8(t + 3 + k) & 0x0F);
                                    proof {
                                        assert(idx@ =~= ipma_index_bytes(
                                            m,
                                            t as int + 3,
                                            k as int + 1,
                                        ));
                                    }
                                    k = k + 1;
                                }
                                assoc.push((item_id, idx));
                                proof {
                                    assert(assoc_view(assoc@) =~= av0.push(
                                        (item_id, ipma_index_bytes(m, t as int + 3, cnt as int)),
                                    ));
                                }
                                t = t + 3 + cnt;
                                e = e + 1;
                            }
                        }
                    }
                    if ifailed {
                        failed = true;
                    } else {
                        proof {
                            assert(goal == Some(assoc_view(assoc@)));
                        }
                        offset = offset + box_size;
                        proof {
                            assert(cur_walk(
                                pitm_id,
                                assoc@,
                                ipco_start,
                                ipco_end,
                                slot,
                                ispes@,
                                irots@,
                            ) =~= BoxWalk { assoc: assoc_view(assoc@), ..cur });
                        }
                    }
                }
            } else if mbuf.cmp(offset + 4, 4, iprp.as_slice()) {
                offset = offset + 8;
            } else if mbuf.cmp(offset + 4, 4, ipco.as_slice()) {
                ipco_start = offset;
                ipco_end = offset + box_size;
                slot = 1;
                offset = offset + 8;
                proof {
                    assert(cur_walk(
                        pitm_id,
                        assoc@,
                        ipco_start,
                        ipco_end,
                        slot,
                        ispes@,
                        irots@,
                    ) =~= BoxWalk {
                        ipco_start: ipco_start as int,
                        ipco_end: ipco_end as int,
                        slot: 1,
                        ..cur
                    });
                }
            } else if mbuf.cmp(offset + 4, 4, ispe.as_slice()) {
                if box_size < 20 {
                    failed = true;
                } else {
                    let w32 = mbuf.read_u32_be(offset + 12);
                    let h32 = mbuf.read_u32_be(offset + 16);
                    ispes.push((slot, (w32, h32)));
                    proof {
                        assert(slots_view(ispes@) =~= cur.ispes.push((slot as int, (w32, h32))));
                    }
                    slot = slot + 1;
                    offset = offset + box_size;
                    proof {
                        assert(cur_walk(
                            pitm_id,
                            assoc@,
                            ipco_start,
                            ipco_end,
                            slot,
                            ispes@,
                            irots@,
                        ) =~= BoxWalk {
                            ispes: cur.ispes.push((cur.slot, (w32, h32))),
                            slot: cur.slot + 1,
                            ..cur
                        });
                    }
                }
            } else if mbuf.cmp(offset + 4, 4, irot.as_slice()) {
                if box_size < 9 {
                    failed = true;
                } else {
                    let rotv = mbuf.read_u8(offset + 8);
                    irots.push((slot, rotv));
                    proof {
                        assert(rots_view(irots@) =~= cur.irots.push((slot as int, rotv)));
                    }
                    slot = slot + 1;
                    offset = offset + box_size;
                    proof {
                        assert(cur_walk(
                            pitm_id,
                            assoc@,
                            ipco_start,
                            ipco_end,
                            slot,
                            ispes@,
                            irots@,
                        ) =~= BoxWalk {
                            irots: cur.irots.push((cur.slot, rotv)),
                            slot: cur.slot + 1,
                            ..cur
                        });
                    }
                }
            } else {
                if ipco_start < offset && offset < ipco_end {
                    slot = slot + 1;
                }
                offset = offset + box_size;
                proof {
                    assert(cur_walk(
                        pitm_id,
                        assoc@,
                        ipco_start,
                        ipco_end,
                        slot,
                        ispes@,
                        irots@,
                    ) =~= (if cur.ipco_start < off0 && off0 < cur.ipco_end {
                        BoxWalk { slot: cur.slot + 1, ..cur }
                    } else {
                        cur
                    }));
                }
            }
        }
    }
    if failed {
        return Err(ImageInfoError::UnrecognizedFormat);
    }
    let ghost st = cur_walk(pitm_id, assoc@, ipco_start, ipco_end, slot, ispes@, irots@);
    proof {
        assert(w0 == Some(st));
        assert(avif_heic_model(s) == ah_resolve(fmt, st));
    }

    // Look up the association set of the primary item; the latest entry wins.
    let ghost av = assoc_view(assoc@);
    proof {
        assert(av.take(av.len() as int) =~= av);
    }
    let mut ai: usize = assoc.len();
    let mut found = false;
    while !found && ai > 0
        invariant
            ai <= assoc@.len(),
            av == assoc_view(assoc@),
            !found ==> assoc_lookup(av.take(ai as int), pitm_id) == assoc_lookup(av, pitm_id),
            found ==> ai < assoc@.len() && av[ai as int].0 == pitm_id && assoc_lookup(
                av,
                pitm_id,
            ) == Some(av[ai as int].1),
        decreases ai,
    {
        let j = ai - 1;
        if assoc[j].0 == pitm_id {
            proof {
                assert(av.take(j as int + 1).last() == av[j as int]);
                assert(av.take(j as int + 1).drop_last() =~= av.take(j as int));
            }
            ai = j;
            found = true;
        } else {
            proof {
                assert(av.take(j as int + 1).last() == av[j as int]);
                assert(av.take(j as int + 1).drop_last() =~= av.take(j as int));
            }
            ai = j;
        }
    }
    if !found {
        proof {
            assert(av.take(0) =~= Seq::<(u16, Seq<u8>)>::empty());
            assert(assoc_lookup(av, pitm_id) is None);
        }
        return Err(ImageInfoError::UnrecognizedFormat);
    }
    let indices: &Vec<u8> = &assoc[ai].1;
    proof {
        assert(indices@ == av[ai as int].1);
    }

    // The first recorded rotation associated with the primary item, if any.
    let ghost rv = rots_view(irots@);
    proof {
        assert(rv.skip(0) =~= rv);
    }
    let mut rot: u8 = 0;
    let mut k: usize = 0;
    let mut rot_found = false;
    while !rot_found && k < irots.len()
        invariant
            k <= irots@.len(),
            rv == rots_view(irots@),
            indices@ == av[ai as int].1,
            !rot_found ==> rot == 0 && find_irot(rv.skip(k as int), indices@) == find_irot(
                rv,
                indices@,
            ),
            rot_found ==> rot == find_irot(rv, indices@),
        decreases irots@.len() - k, (if rot_found {
            0int
        } else {
            1int
        }),
    {
        let sb = (irots[k].0 % 256) as u8;
        proof {
            assert(rv.skip(k as int).first() == rv[k as int]);
            assert(rv.skip(k as int).drop_first() =~= rv.skip(k as int + 1));
        }
        if contains_byte(indices, sb) {
            rot = irots[k].1;
            rot_found = true;
            proof {
                let kk = choose|kk: int| 0 <= kk < indices@.len() && indices@[kk] == sb;
                assert(slot_matches(rv[k as int].0, indices@[kk]));
            }
        } else {
            proof {
                assert forall|kk: int|
                    0 <= kk < indices@.len() && slot_matches(
                        rv.skip(k as int).first().0,
                        indices@[kk],
                    ) implies false by {
                    assert(indices@[kk] == sb);
                    assert(indices@.contains(sb));
                }
            }
            k = k + 1;
        }
    }

    // The first recorded spatial extents associated with the primary item.
    let ghost sv = slots_view(ispes@);
    proof {
        assert(sv.skip(0) =~= sv);
    }
    let mut w32: u32 = 0;
    let mut h32: u32 = 0;
    let mut q: usize = 0;
    let mut size_found = false;
    while !size_found && q < ispes.len()
        invariant
            q <= ispes@.len(),
            sv == slots_view(ispes@),
            indices@ == av[ai as int].1,
            !size_found ==> find_ispe(sv.skip(q as int), indices@) == find_ispe(sv, indices@),
            size_found ==> find_ispe(sv, indices@) == Some((w32, h32)),
        decreases ispes@.len() - q, (if size_found {
            0int
        } else {
            1int
        }),
    {
        let sb = (ispes[q].0 % 256) as u8;
        proof {
            assert(sv.skip(q as int).first() == sv[q as int]);
            assert(sv.skip(q as int).drop_first() =~= sv.skip(q as int + 1));
        }
        if contains_byte(indices, sb) {
            w32 = ispes[q].1.0;
            h32 = ispes[q].1.1;
            size_found = true;
            proof {
                let kk = choose|kk: int| 0 <= kk < indices@.len() && indices@[kk] == sb;
                assert(slot_matches(sv[q as int].0, indices@[kk]));
            }
        } else {
            proof {
                assert forall|kk: int|
                    0 <= kk < indices@.len() && slot_matches(
                        sv.skip(q as int).first().0,
                        indices@[kk],
                    ) implies false by {
                    assert(indices@[kk] == sb);
                    assert(indices@.contains(sb));
                }
            }
            q = q + 1;
        }
    }
    if !size_found {
        proof {
            assert(find_ispe(sv, indices@) is None);
        }
        return Err(ImageInfoError::UnrecognizedFormat);
    }

    let swap = rot == 1 || rot == 3 || rot == 6 || rot == 7;
    let width: i64 = if swap {
        h32 as i64
    } else {
        w32 as i64
    };
    let height: i64 = if swap {
        w32 as i64
    } else {
        h32 as i64
    };
    let ret = ImageInfo {
        format: if is_avif {
            ImageFormat::AVIF
        } else {
            ImageFormat::HEIC
        },
        ext: if is_avif {
            "avif"
        } else {
            "heic"
        },
        full_ext: if is_avif {
            "avif"
        } else {
            "heic"
        },
        mimetype: if is_avif {
            "image/avif"
        } else {
            "image/heic"
        },
        size: ImageSize { width, height },
        entry_sizes: Vec::new(),
    };
    proof {
        assert(ret@ =~= avif_heic_model(s)->Some_0);
    }
    Ok(ret)
}

} // verus!
