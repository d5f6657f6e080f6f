use crate::defs::{ImageInfoError, ImageInfoResult, ImageSize};
use crate::raw_buffer::{lemma_range_eq_in_window, range_eq};
use crate::read_interface::ReadInterface;
use crate::try_hdr::{hdr_find_nl, hdr_first_sp_exec, hdr_parse_exec, hdr_parse_i64, hdr_split};
use crate::{ImageFormat, ImageInfo, SpecImage};
use vstd::prelude::*;
use vstd::slice::slice_subrange;

verus! {

/// Which portable-anymap family member a two-byte type tag names.
pub open spec fn pnm_kind(s: Seq<u8>) -> Option<ImageFormat> {
    if s[0] != 0x50 {
        None
    } else if s[1] == 0x31 || s[1] == 0x34 {
        Some(ImageFormat::PBM)
    } else if s[1] == 0x32 || s[1] == 0x35 {
        Some(ImageFormat::PGM)
    } else if s[1] == 0x33 || s[1] == 0x36 {
        Some(ImageFormat::PPM)
    } else if s[1] == 0x37 {
        Some(ImageFormat::PAM)
    } else if s[1] == 0x46 {
        Some(ImageFormat::PFM)
    } else {
        None
    }
}

/// Where the line starting at `from` ends: at the next newline, or at the
/// end of the stream.
pub open spec fn pnm_line_end(s: Seq<u8>, from: int) -> int {
    match hdr_find_nl(s, from) {
        Some(q) => q,
        None => s.len() as int,
    }
}

/// A header line that counts: non-empty and not a `#` comment.
pub open spec fn pnm_good_line(l: Seq<u8>) -> bool {
    l.len() > 0 && l[0] != 0x23
}

/// The `n`-th counting header line from `from` on, if the stream holds that
/// many.
pub open spec fn pnm_nth_good_line(s: Seq<u8>, from: int, n: int) -> Option<Seq<u8>>
    decreases s.len() + 1 - from,
{
    if from < 0 || from > s.len() {
        None
    } else {
        let q = pnm_line_end(s, from);
        if q < from || q > s.len() {
            None
        } else {
            let line = s.subrange(from, q);
            if pnm_good_line(line) {
                if n == 0 {
                    Some(line)
                } else {
                    pnm_nth_good_line(s, q + 1, n - 1)
                }
            } else {
                pnm_nth_good_line(s, q + 1, n)
            }
        }
    }
}

pub open spec fn pam_width_tag() -> Seq<u8> {
    seq![0x57u8, 0x49u8, 0x44u8, 0x54u8, 0x48u8, 0x20u8]
}

pub open spec fn pam_height_tag() -> Seq<u8> {
    seq![0x48u8, 0x45u8, 0x49u8, 0x47u8, 0x48u8, 0x54u8, 0x20u8]
}

/// What one PAM header line does to the running `(width, height)` pair: a
/// `WIDTH ` or `HEIGHT ` line must parse as an integer or the file is
/// rejected; any other line changes nothing, and so does a line the stream
/// does not hold.
pub open spec fn pam_fold_line(l: Option<Seq<u8>>, dims: (int, int)) -> Option<(int, int)> {
    match l {
        None => Some(dims),
        Some(line) => {
            if range_eq(line, 0, 6, pam_width_tag()) {
                match hdr_parse_i64(line.subrange(6, line.len() as int)) {
                    None => None,
                    Some(v) => Some((v, dims.1)),
                }
            } else if range_eq(line, 0, 7, pam_height_tag()) {
                match hdr_parse_i64(line.subrange(7, line.len() as int)) {
                    None => None,
                    Some(v) => Some((dims.0, v)),
                }
            } else {
                Some(dims)
            }
        },
    }
}

/// A non-PAM size line: at least two space-separated tokens, the first two
/// being the width and the height.
pub open spec fn pnm_dims_of_line(l: Seq<u8>) -> Option<(int, int)> {
    let toks = hdr_split(l, 0);
    if toks.len() < 2 {
        None
    } else {
        match hdr_parse_i64(toks[0]) {
            None => None,
            Some(w) => match hdr_parse_i64(toks[1]) {
                None => None,
                Some(h) => Some((w, h)),
            },
        }
    }
}

/// A portable-anymap file: a two-byte type tag closed by a newline, then a
/// header read line by line, skipping blank lines and `#` comments. A PAM
/// header carries `WIDTH` and `HEIGHT` lines, both mandatory and
/// non-negative; every other member carries both dimensions on its first
/// counting line.
pub open spec fn pnm_model(s: Seq<u8>) -> Option<SpecImage> {
    if s.len() < 3 || s[2] != 0x0A {
        None
    } else {
        match pnm_kind(s) {
            None => None,
            Some(fmt) => {
                if fmt == ImageFormat::PAM {
                    match pam_fold_line(pnm_nth_good_line(s, 3, 0), (-1, -1)) {
                        None => None,
                        Some(d1) => match pam_fold_line(pnm_nth_good_line(s, 3, 1), d1) {
                            None => None,
                            Some(d2) => {
                                if d2.0 < 0 || d2.1 < 0 {
                                    None
                                } else {
                                    Some(
                                        SpecImage {
                                            format: fmt,
                                            width: d2.0,
                                            height: d2.1,
                                            entries: Seq::empty(),
                                        },
                                    )
                                }
                            },
                        },
                    }
                } else {
                    match pnm_nth_good_line(s, 3, 0) {
                        None => None,
                        Some(line) => match pnm_dims_of_line(line) {
                            None => None,
                            Some(d) => Some(
                                SpecImage {
                                    format: fmt,
                                    width: d.0,
                                    height: d.1,
                                    entries: Seq::empty(),
                                },
                            ),
                        },
                    }
                }
            },
        }
    }
}

/// The byte range `[start, end)` in the stream holding the `n`-th counting
/// header line, executable form.
#[verifier::loop_isolation(false)]
fn nth_good_line_exec(all: &crate::raw_buffer::RawBuffer, n: usize) -> (r: Option<(usize, usize)>)
    requires
        all@.len() >= 3,
    ensures
        r matches Some(p) ==> 3 <= p.0 <= p.1 <= all@.len() && pnm_nth_good_line(all@, 3, n as int)
            == Some(all@.subrange(p.0 as int, p.1 as int)) && pnm_good_line(
            all@.subrange(p.0 as int, p.1 as int),
        ),
        r is None ==> pnm_nth_good_line(all@, 3, n as int) is None,
{
    let ghost s: Seq<u8> = all@;
    let length = all.len();
    let mut from: usize = 3;
    let mut k: usize = n;
    loop
        invariant
            3 <= from <= length + 1,
            k <= n,
            pnm_nth_good_line(s, 3, n as int) == pnm_nth_good_line(s, from as int, k as int),
        decreases length + 1 - from,
    {
        if from > length {
            return None;
        }
        // find the end of this line
        let mut q: usize = from;
        let mut nl_found = false;
        while !nl_found && q < length
            invariant
                from <= q <= length,
                !nl_found ==> hdr_find_nl(s, from as int) == hdr_find_nl(s, q as int),
                nl_found ==> q < length && hdr_find_nl(s, from as int) == Some(q as int),
            decreases length - q, (if nl_found {
                0int
            } else {
                1int
            }),
        {
            if all.read_u8(q) == 0x0A {
                nl_found = true;
            } else {
                q = q + 1;
            }
        }
        proof {
            assert(pnm_line_end(s, from as int) == q as int);
        }
        let good = q > from && all.read_u8(from) != 0x23;
        proof {
            assert(good == pnm_good_line(s.subrange(from as int, q as int)));
        }
        if good {
            if k == 0 {
                return Some((from, q));
            }
            k = k - 1;
        }
        if q >= length {
            proof {
                assert(pnm_nth_good_line(s, q as int + 1, k as int) is None);
            }
            return None;
        }
        from = q + 1;
    }
}

#[verifier::rlimit(60)]
#[verifier::loop_isolation(false)]
pub fn try_pnm(ri: &mut ReadInterface, length: usize) -> (r: ImageInfoResult<ImageInfo>)
    requires
        old(ri).wf(),
        length == old(ri).length,
    ensures
        final(ri).wf(),
        final(ri).content() == old(ri).content(),
        final(ri).length == old(ri).length,
        crate::probe_post(r, pnm_model(old(ri).content())),
{
    let ghost s: Seq<u8> = old(ri).content();
    if length < 3 {
        return Err(ImageInfoError::UnrecognizedFormat);
    }
    let all = match ri.read(0, length) {
        Ok(b) => b,
        Err(e) => return Err(e),
    };
    proof {
        assert(all@ =~= s);
    }
    if all.read_u8(2) != 0x0A {
        return Err(ImageInfoError::UnrecognizedFormat);
    }
    let t0 = all.read_u8(0);
    let t1 = all.read_u8(1);
    if t0 != 0x50 {
        return Err(ImageInfoError::UnrecognizedFormat);
    }
    let is_pam = t1 == 0x37;
    let format: ImageFormat;
    let ext: &'static str;
    let mime: &'static str;
    if t1 == 0x31 || t1 == 0x34 {
        format = ImageFormat::PBM;
        ext = "pbm";
        mime = "image/x-portable-bitmap";
    } else if t1 == 0x32 || t1 == 0x35 {
        format = ImageFormat::PGM;
        ext = "pgm";
        mime = "image/x-portable-graymap";
    } else if t1 == 0x33 || t1 == 0x36 {
        format = ImageFormat::PPM;
        ext = "ppm";
        mime = "image/x-portable-pixmap";
    } else if t1 == 0x37 {
        format = ImageFormat::PAM;
        ext = "pam";
        mime = "image/x-portable-arbitrarymap";
    } else if t1 == 0x46 {
        format = ImageFormat::PFM;
        ext = "pfm";
        mime = "image/x-portable-floatmap";
    } else {
        return Err(ImageInfoError::UnrecognizedFormat);
    }

    if is_pam {
        let mut width: i64 = -1;
        let mut height: i64 = -1;
        let wt: [u8; 6] = [0x57, 0x49, 0x44, 0x54, 0x48, 0x20];
        let ht: [u8; 7] = [0x48, 0x45, 0x49, 0x47, 0x48, 0x54, 0x20];
        proof {
            assert(wt@ =~= pam_width_tag());
            assert(ht@ =~= pam_height_tag());
        }
        let l0 = nth_good_line_exec(&all, 0);
        let ghost d1 = pam_fold_line(pnm_nth_good_line(s, 3, 0), (-1int, -1int));
        match l0 {
            None => {},
            Some((ls, le)) => {
                let ghost line = s.subrange(ls as int, le as int);
                proof {
                    if le - ls >= 6 {
                        lemma_range_eq_in_window(s, ls as int, line, 0, 6, pam_width_tag());
                    }
                    if le - ls >= 7 {
                        lemma_range_eq_in_window(s, ls as int, line, 0, 7, pam_height_tag());
                    }
                }
                if le - ls >= 6 && all.cmp(ls, 6, wt.as_slice()) {
                    let tok = all.piece(ls + 6, le - (ls + 6));
                    proof {
                        assert(tok@ =~= line.subrange(6, line.len() as int));
                    }
                    match hdr_parse_exec(tok) {
                        Some(v) => {
                            width = v;
                        },
                        None => {
                            return Err(ImageInfoError::UnrecognizedFormat);
                        },
                    }
                } else if le - ls >= 7 && all.cmp(ls, 7, ht.as_slice()) {
                    let tok = all.piece(ls + 7, le - (ls + 7));
                    proof {
                        assert(tok@ =~= line.subrange(7, line.len() as int));
                    }
                    match hdr_parse_exec(tok) {
                        Some(v) => {
                            height = v;
                        },
                        None => {
                            return Err(ImageInfoError::UnrecognizedFormat);
                        },
                    }
                }
            },
        }
        proof {
            assert(d1 == Some((width as int, height as int)));
        }
        let l1 = nth_good_line_exec(&all, 1);
        match l1 {
            None => {},
            Some((ls, le)) => {
                let ghost line = s.subrange(ls as int, le as int);
                proof {
                    if le - ls >= 6 {
                        lemma_range_eq_in_window(s, ls as int, line, 0, 6, pam_width_tag());
                    }
                    if le - ls >= 7 {
                        lemma_range_eq_in_window(s, ls as int, line, 0, 7, pam_height_tag());
                    }
                }
                if le - ls >= 6 && all.cmp(ls, 6, wt.as_slice()) {
                    let tok = all.piece(ls + 6, le - (ls + 6));
                    proof {
                        assert(tok@ =~= line.subrange(6, line.len() as int));
                    }
                    match hdr_parse_exec(tok) {
                        Some(v) => {
                            width = v;
                        },
                        None => {
                            return Err(ImageInfoError::UnrecognizedFormat);
                        },
                    }
                } else if le - ls >= 7 && all.cmp(ls, 7, ht.as_slice()) {
                    let tok = all.piece(ls + 7, le - (ls + 7));
                    proof {
                        assert(tok@ =~= line.subrange(7, line.len() as int));
                    }
                    match hdr_parse_exec(tok) {
                        Some(v) => {
                            height = v;
                        },
                        None => {
                            return Err(ImageInfoError::UnrecognizedFormat);
                        },
                    }
                }
            },
        }
        if width < 0 || height < 0 {
            return Err(ImageInfoError::UnrecognizedFormat);
        }
        let ret = ImageInfo {
            format,
            ext,
            full_ext: ext,
            mimetype: mime,
            size: ImageSize { width, height },
            entry_sizes: Vec::new(),
        };
        proof {
            assert(ret@ =~= pnm_model(s)->Some_0);
        }
        return Ok(ret);
    }

    let (ls, le) = match nth_good_line_exec(&all, 0) {
        Some(p) => p,
        None => {
            return Err(ImageInfoError::UnrecognizedFormat);
        },
    };
    let ghost l: Seq<u8> = s.subrange(ls as int, le as int);
    let line = all.piece(ls, le - ls);
    proof {
        assert(line@ =~= l);
    }
    let llen = line.len();
    let sp1 = hdr_first_sp_exec(line, 0);
    if sp1 >= llen {
        proof {
            assert(hdr_split(l, 0).len() == 1);
        }
        return Err(ImageInfoError::UnrecognizedFormat);
    }
    let sp2 = hdr_first_sp_exec(line, sp1 + 1);
    proof {
        assert(hdr_split(l, 0) == seq![l.subrange(0, sp1 as int)] + hdr_split(l, sp1 as int + 1));
        if sp2 >= llen {
            assert(hdr_split(l, sp1 as int + 1) == seq![l.subrange(sp1 as int + 1, l.len() as int)]);
        } else {
            assert(hdr_split(l, sp1 as int + 1) == seq![l.subrange(sp1 as int + 1, sp2 as int)]
                + hdr_split(l, sp2 as int + 1));
        }
        assert(hdr_split(l, 0)[0] == l.subrange(0, sp1 as int));
        assert(hdr_split(l, 0)[1] == l.subrange(sp1 as int + 1, sp2 as int));
    }
    let t0s = slice_subrange(line, 0, sp1);
    let t1s = slice_subrange(line, sp1 + 1, sp2);
    let width = match hdr_parse_exec(t0s) {
        Some(v) => v,
        None => {
            return Err(ImageInfoError::UnrecognizedFormat);
        },
    };
    let height = match hdr_parse_exec(t1s) {
        Some(v) => v,
        None => {
            return Err(ImageInfoError::UnrecognizedFormat);
        },
    };
    let ret = ImageInfo {
        format,
        ext,
        full_ext: ext,
        mimetype: mime,
        size: ImageSize { width, height },
        entry_sizes: Vec::new(),
    };
    proof {
        assert(ret@ =~= pnm_model(s)->Some_0);
    }
    Ok(ret)
}

} // verus!
