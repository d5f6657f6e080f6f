use vstd::prelude::*;

mod defs;
mod raw_buffer;
mod read_interface;
mod try_avif_heic;
mod try_bmp;
mod try_cur_ico;
mod try_dds;
mod try_gif;
mod try_hdr;
mod try_icns;
mod try_j2k;
mod try_jp2_jpx;
mod try_jpeg2000_code_stream;
mod try_jpg;
mod try_ktx;
mod try_png;
mod try_pnm;
mod try_psd;
mod try_qoi;
mod try_tga;
mod try_tiff;
mod try_webp;

pub use defs::ImageInfoError;
pub use defs::ImageInfoResult;
pub use defs::ImageSize;
pub use raw_buffer::RawBuffer;
pub use read_interface::ReadInterface;
pub use try_avif_heic::ah_format;
pub use try_avif_heic::ah_has_brand;
pub use try_avif_heic::ah_resolve;
pub use try_avif_heic::assoc_lookup;
pub use try_avif_heic::avif_heic_model;
pub use try_avif_heic::brand_avif;
pub use try_avif_heic::find_irot;
pub use try_avif_heic::find_ispe;
pub use try_avif_heic::lemma_avif_heic_format;
pub use try_avif_heic::lemma_compatible_brand_precedence;
pub use try_avif_heic::lemma_model_brand_precedence;
pub use try_avif_heic::lemma_no_rotation_box_keeps;
pub use try_avif_heic::lemma_other_rotation_keeps;
pub use try_avif_heic::lemma_quarter_turn_swaps;
pub use try_avif_heic::oriented;
pub use try_avif_heic::try_avif_heic;
pub use try_avif_heic::BoxWalk;
pub use try_bmp::bmp_model;
pub use try_bmp::try_bmp;
pub use try_cur_ico::cur_ico_model;
pub use try_cur_ico::try_cur_ico;
pub use try_dds::dds_model;
pub use try_dds::try_dds;
pub use try_gif::gif_model;
pub use try_gif::try_gif;
pub use try_hdr::hdr_model;
pub use try_hdr::try_hdr;
pub use try_icns::icns_model;
pub use try_icns::try_icns;
pub use try_j2k::j2k_model;
pub use try_j2k::try_j2k;
pub use try_jp2_jpx::jp2_jpx_model;
pub use try_jp2_jpx::try_jp2_jpx;
pub use try_jpeg2000_code_stream::jpeg2000_code_stream_model;
pub use try_jpeg2000_code_stream::try_jpeg2000_code_stream;
pub use try_jpg::jpg_model;
pub use try_jpg::try_jpg;
pub use try_ktx::ktx_model;
pub use try_ktx::try_ktx;
pub use try_png::png_model;
pub use try_png::try_png;
pub use try_pnm::pnm_model;
pub use try_pnm::try_pnm;
pub use try_psd::psd_model;
pub use try_psd::try_psd;
pub use try_qoi::qoi_model;
pub use try_qoi::try_qoi;
pub use try_tga::tga_model;
pub use try_tga::try_tga;
pub use try_tiff::tiff_model;
pub use try_tiff::try_tiff;
pub use try_webp::try_webp;
pub use try_webp::webp_model;

verus! {

/// The closed set of container formats this crate can identify.
#[derive(Debug, Clone, Copy, PartialEq, Eq, Structural)]
pub enum ImageFormat {
    AVIF,
    HEIC,
    BMP,
    CUR,
    ICO,
    DDS,
    GIF,
    HDR,
    ICNS,
    J2K,
    JP2,
    JPX,
    JPEG,
    KTX,
    PNG,
    PSD,
    QOI,
    TIFF,
    WEBP,
    TGA,
    PBM,
    PGM,
    PPM,
    PAM,
    PFM,
}

/// What a successful detection means mathematically: the format together
/// with the primary dimensions and the per-entry dimensions of
/// multi-resolution containers. Probe contracts and the dispatcher contract
/// are stated in terms of this value.
#[verifier::ext_equal]
pub ghost struct SpecImage {
    pub format: ImageFormat,
    pub width: int,
    pub height: int,
    pub entries: Seq<(int, int)>,
}

/// The short file extension conventionally used for a format.
pub open spec fn ext_of(f: ImageFormat) -> Seq<char> {
    match f {
        ImageFormat::AVIF => "avif"@,
        ImageFormat::HEIC => "heic"@,
        ImageFormat::BMP => "bmp"@,
        ImageFormat::CUR => "cur"@,
        ImageFormat::ICO => "ico"@,
        ImageFormat::DDS => "dds"@,
        ImageFormat::GIF => "gif"@,
        ImageFormat::HDR => "hdr"@,
        ImageFormat::ICNS => "icns"@,
        ImageFormat::J2K => "j2k"@,
        ImageFormat::JP2 => "jp2"@,
        ImageFormat::JPX => "jpx"@,
        ImageFormat::JPEG => "jpg"@,
        ImageFormat::KTX => "ktx"@,
        ImageFormat::PNG => "png"@,
        ImageFormat::PSD => "psd"@,
        ImageFormat::QOI => "qoi"@,
        ImageFormat::TIFF => "tif"@,
        ImageFormat::WEBP => "webp"@,
        ImageFormat::TGA => "tga"@,
        ImageFormat::PBM => "pbm"@,
        ImageFormat::PGM => "pgm"@,
        ImageFormat::PPM => "ppm"@,
        ImageFormat::PAM => "pam"@,
        ImageFormat::PFM => "pfm"@,
    }
}

/// The long ("full") file extension for a format; it differs from `ext_of`
/// only where the ecosystem uses both a short and a long spelling.
pub open spec fn full_ext_of(f: ImageFormat) -> Seq<char> {
    match f {
        ImageFormat::JPEG => "jpeg"@,
        ImageFormat::TIFF => "tiff"@,
        _ => ext_of(f),
    }
}

/// The MIME type advertised for a format.
pub open spec fn mimetype_of(f: ImageFormat) -> Seq<char> {
    match f {
        ImageFormat::AVIF => "image/avif"@,
        ImageFormat::HEIC => "image/heic"@,
        ImageFormat::BMP => "image/bmp"@,
        ImageFormat::CUR => "image/cur"@,
        ImageFormat::ICO => "image/ico"@,
        ImageFormat::DDS => "image/dds"@,
        ImageFormat::GIF => "image/gif"@,
        ImageFormat::HDR => "image/vnd.radiance"@,
        ImageFormat::ICNS => "image/icns"@,
        ImageFormat::J2K => "image/j2k"@,
        ImageFormat::JP2 => "image/jp2"@,
        ImageFormat::JPX => "image/jpx"@,
        ImageFormat::JPEG => "image/jpeg"@,
        ImageFormat::KTX => "image/ktx"@,
        ImageFormat::PNG => "image/png"@,
        ImageFormat::PSD => "image/psd"@,
        ImageFormat::QOI => "image/qoi"@,
        ImageFormat::TIFF => "image/tiff"@,
        ImageFormat::WEBP => "image/webp"@,
        ImageFormat::TGA => "image/tga"@,
        ImageFormat::PBM => "image/x-portable-bitmap"@,
        ImageFormat::PGM => "image/x-portable-graymap"@,
        ImageFormat::PPM => "image/x-portable-pixmap"@,
        ImageFormat::PAM => "image/x-portable-arbitrarymap"@,
        ImageFormat::PFM => "image/x-portable-floatmap"@,
    }
}

/// Everything a caller learns about a recognized image: the format, the
/// conventional names for it, the primary dimensions, and the dimensions of
/// every embedded entry for multi-resolution containers.
#[derive(Debug, PartialEq)]
pub struct ImageInfo {
    pub format: ImageFormat,
    pub ext: &'static str,
    pub full_ext: &'static str,
    pub mimetype: &'static str,
    pub size: ImageSize,
    pub entry_sizes: Vec<ImageSize>,
}

impl View for ImageInfo {
    type V = SpecImage;

    open spec fn view(&self) -> SpecImage {
        SpecImage {
            format: self.format,
            width: self.size.width as int,
            height: self.size.height as int,
            entries: Seq::new(
                self.entry_sizes@.len(),
                |i: int| (self.entry_sizes@[i].width as int, self.entry_sizes@[i].height as int),
            ),
        }
    }
}

impl ImageInfo {
    /// The three naming fields carry exactly the names that belong to the
    /// detected format.
    pub open spec fn wf(&self) -> bool {
        &&& self.ext@ == ext_of(self.format)
        &&& self.full_ext@ == full_ext_of(self.format)
        &&& self.mimetype@ == mimetype_of(self.format)
    }
}

/// The common contract of every probe: the outcome `r` agrees exactly with
/// the probe's model `m` of the input bytes. Success if and only if the model
/// accepts; on success the returned record matches the model and carries the
/// format's names; on failure the error is `UnrecognizedFormat` (the
/// in-memory byte source cannot fail).
pub open spec fn probe_post(r: ImageInfoResult<ImageInfo>, m: Option<SpecImage>) -> bool {
    &&& r is Ok <==> m is Some
    &&& (r matches Ok(i) ==> m == Some(i@) && i.wf())
    &&& (r matches Err(e) ==> e is UnrecognizedFormat)
}

/// One identity per distinct probe. Some probes decide between two related
/// formats internally (AVIF/HEIC, CUR/ICO, JP2/JPX), so dispatching by probe
/// identity runs each of them at most once however many format tags it
/// serves.
#[derive(Debug, Clone, Copy, PartialEq, Eq, Structural)]
pub enum ProbeId {
    AvifHeic,
    Bmp,
    CurIco,
    Dds,
    Gif,
    Hdr,
    Icns,
    J2k,
    Jp2Jpx,
    Jpeg,
    Ktx,
    Png,
    Psd,
    Qoi,
    Tiff,
    Webp,
    Tga,
}

/// What the probe with identity `p` makes of the buffer.
pub open spec fn probe_model(p: ProbeId, s: Seq<u8>) -> Option<SpecImage> {
    match p {
        ProbeId::AvifHeic => avif_heic_model(s),
        ProbeId::Bmp => bmp_model(s),
        ProbeId::CurIco => cur_ico_model(s),
        ProbeId::Dds => dds_model(s),
        ProbeId::Gif => gif_model(s),
        ProbeId::Hdr => hdr_model(s),
        ProbeId::Icns => icns_model(s),
        ProbeId::J2k => j2k_model(s),
        ProbeId::Jp2Jpx => jp2_jpx_model(s),
        ProbeId::Jpeg => jpg_model(s),
        ProbeId::Ktx => ktx_model(s),
        ProbeId::Png => png_model(s),
        ProbeId::Psd => psd_model(s),
        ProbeId::Qoi => qoi_model(s),
        ProbeId::Tiff => tiff_model(s),
        ProbeId::Webp => webp_model(s),
        ProbeId::Tga => tga_model(s),
    }
}

/// The order in which the dispatcher tries the distinct probes. The TGA
/// probe, whose acceptance rests on a heuristic rather than a magic number,
/// is deliberately last.
pub open spec fn probe_order() -> Seq<ProbeId> {
    seq![ProbeId::AvifHeic, ProbeId::Bmp, ProbeId::CurIco, ProbeId::Dds, ProbeId::Gif, ProbeId::Hdr, ProbeId::Icns, ProbeId::J2k, ProbeId::Jp2Jpx, ProbeId::Jpeg, ProbeId::Ktx, ProbeId::Png, ProbeId::Psd, ProbeId::Qoi, ProbeId::Tiff, ProbeId::Webp, ProbeId::Tga]
}

/// The first accepting probe's result along `ps`, if any probe accepts.
pub open spec fn detect_from(s: Seq<u8>, ps: Seq<ProbeId>) -> Option<SpecImage>
    decreases ps.len(),
{
    if ps.len() == 0 {
        None
    } else if probe_model(ps.first(), s) is Some {
        probe_model(ps.first(), s)
    } else {
        detect_from(s, ps.drop_first())
    }
}

/// What detection makes of a byte buffer: the result of the first probe in
/// `probe_order()` that accepts it, or nothing.
pub open spec fn spec_detect(s: Seq<u8>) -> Option<SpecImage> {
    detect_from(s, probe_order())
}

/// The probe table is sound as a dispatch order: it tries every one of the
/// distinct probes exactly once, and the heuristic TGA probe comes last, so
/// it can never claim a buffer before a probe with a real signature has
/// seen it.
pub proof fn lemma_probe_order_distinct()
    ensures
        probe_order().len() == 17,
        forall|i: int, j: int|
            0 <= i < j < probe_order().len() ==> probe_order()[i] != probe_order()[j],
        probe_order().last() == ProbeId::Tga,
{
}

/// Detection unrolled: trying the probes in order is the same as asking
/// each model in turn.
#[verifier::rlimit(100)]
pub proof fn lemma_detect_unrolled(s: Seq<u8>)
    ensures
        spec_detect(s) == (    if avif_heic_model(s) is Some {
        avif_heic_model(s)
    } else if bmp_model(s) is Some {
        bmp_model(s)
    } else if cur_ico_model(s) is Some {
        cur_ico_model(s)
    } else if dds_model(s) is Some {
        dds_model(s)
    } else if gif_model(s) is Some {
        gif_model(s)
    } else if hdr_model(s) is Some {
        hdr_model(s)
    } else if icns_model(s) is Some {
        icns_model(s)
    } else if j2k_model(s) is Some {
        j2k_model(s)
    } else if jp2_jpx_model(s) is Some {
        jp2_jpx_model(s)
    } else if jpg_model(s) is Some {
        jpg_model(s)
    } else if ktx_model(s) is Some {
        ktx_model(s)
    } else if png_model(s) is Some {
        png_model(s)
    } else if psd_model(s) is Some {
        psd_model(s)
    } else if qoi_model(s) is Some {
        qoi_model(s)
    } else if tiff_model(s) is Some {
        tiff_model(s)
    } else if webp_model(s) is Some {
        webp_model(s)
    } else if tga_model(s) is Some {
        tga_model(s)
    } else {
        None
    }),
{
    assert(probe_order().skip(0).first() == ProbeId::AvifHeic);
    assert(probe_order().skip(0).drop_first() =~= probe_order().skip(1));
    assert(detect_from(s, probe_order().skip(0)) == (if probe_model(ProbeId::AvifHeic, s) is Some {
        probe_model(ProbeId::AvifHeic, s)
    } else {
        detect_from(s, probe_order().skip(1))
    }));
    assert(probe_order().skip(1).first() == ProbeId::Bmp);
    assert(probe_order().skip(1).drop_first() =~= probe_order().skip(2));
    assert(detect_from(s, probe_order().skip(1)) == (if probe_model(ProbeId::Bmp, s) is Some {
        probe_model(ProbeId::Bmp, s)
    } else {
        detect_from(s, probe_order().skip(2))
    }));
    assert(probe_order().skip(2).first() == ProbeId::CurIco);
    assert(probe_order().skip(2).drop_first() =~= probe_order().skip(3));
    assert(detect_from(s, probe_order().skip(2)) == (if probe_model(ProbeId::CurIco, s) is Some {
        probe_model(ProbeId::CurIco, s)
    } else {
        detect_from(s, probe_order().skip(3))
    }));
    assert(probe_order().skip(3).first() == ProbeId::Dds);
    assert(probe_order().skip(3).drop_first() =~= probe_order().skip(4));
    assert(detect_from(s, probe_order().skip(3)) == (if probe_model(ProbeId::Dds, s) is Some {
        probe_model(ProbeId::Dds, s)
    } else {
        detect_from(s, probe_order().skip(4))
    }));
    assert(probe_order().skip(4).first() == ProbeId::Gif);
    assert(probe_order().skip(4).drop_first() =~= probe_order().skip(5));
    assert(detect_from(s, probe_order().skip(4)) == (if probe_model(ProbeId::Gif, s) is Some {
        probe_model(ProbeId::Gif, s)
    } else {
        detect_from(s, probe_order().skip(5))
    }));
    assert(probe_order().skip(5).first() == ProbeId::Hdr);
    assert(probe_order().skip(5).drop_first() =~= probe_order().skip(6));
    assert(detect_from(s, probe_order().skip(5)) == (if probe_model(ProbeId::Hdr, s) is Some {
        probe_model(ProbeId::Hdr, s)
    } else {
        detect_from(s, probe_order().skip(6))
    }));
    assert(probe_order().skip(6).first() == ProbeId::Icns);
    assert(probe_order().skip(6).drop_first() =~= probe_order().skip(7));
    assert(detect_from(s, probe_order().skip(6)) == (if probe_model(ProbeId::Icns, s) is Some {
        probe_model(ProbeId::Icns, s)
    } else {
        detect_from(s, probe_order().skip(7))
    }));
    assert(probe_order().skip(7).first() == ProbeId::J2k);
    assert(probe_order().skip(7).drop_first() =~= probe_order().skip(8));
    assert(detect_from(s, probe_order().skip(7)) == (if probe_model(ProbeId::J2k, s) is Some {
        probe_model(ProbeId::J2k, s)
    } else {
        detect_from(s, probe_order().skip(8))
    }));
    assert(probe_order().skip(8).first() == ProbeId::Jp2Jpx);
    assert(probe_order().skip(8).drop_first() =~= probe_order().skip(9));
    assert(detect_from(s, probe_order().skip(8)) == (if probe_model(ProbeId::Jp2Jpx, s) is Some {
        probe_model(ProbeId::Jp2Jpx, s)
    } else {
        detect_from(s, probe_order().skip(9))
    }));
    assert(probe_order().skip(9).first() == ProbeId::Jpeg);
    assert(probe_order().skip(9).drop_first() =~= probe_order().skip(10));
    assert(detect_from(s, probe_order().skip(9)) == (if probe_model(ProbeId::Jpeg, s) is Some {
        probe_model(ProbeId::Jpeg, s)
    } else {
        detect_from(s, probe_order().skip(10))
    }));
    assert(probe_order().skip(10).first() == ProbeId::Ktx);
    assert(probe_order().skip(10).drop_first() =~= probe_order().skip(11));
    assert(detect_from(s, probe_order().skip(10)) == (if probe_model(ProbeId::Ktx, s) is Some {
        probe_model(ProbeId::Ktx, s)
    } else {
        detect_from(s, probe_order().skip(11))
    }));
    assert(probe_order().skip(11).first() == ProbeId::Png);
    assert(probe_order().skip(11).drop_first() =~= probe_order().skip(12));
    assert(detect_from(s, probe_order().skip(11)) == (if probe_model(ProbeId::Png, s) is Some {
        probe_model(ProbeId::Png, s)
    } else {
        detect_from(s, probe_order().skip(12))
    }));
    assert(probe_order().skip(12).first() == ProbeId::Psd);
    assert(probe_order().skip(12).drop_first() =~= probe_order().skip(13));
    assert(detect_from(s, probe_order().skip(12)) == (if probe_model(ProbeId::Psd, s) is Some {
        probe_model(ProbeId::Psd, s)
    } else {
        detect_from(s, probe_order().skip(13))
    }));
    assert(probe_order().skip(13).first() == ProbeId::Qoi);
    assert(probe_order().skip(13).drop_first() =~= probe_order().skip(14));
    assert(detect_from(s, probe_order().skip(13)) == (if probe_model(ProbeId::Qoi, s) is Some {
        probe_model(ProbeId::Qoi, s)
    } else {
        detect_from(s, probe_order().skip(14))
    }));
    assert(probe_order().skip(14).first() == ProbeId::Tiff);
    assert(probe_order().skip(14).drop_first() =~= probe_order().skip(15));
    assert(detect_from(s, probe_order().skip(14)) == (if probe_model(ProbeId::Tiff, s) is Some {
        probe_model(ProbeId::Tiff, s)
    } else {
        detect_from(s, probe_order().skip(15))
    }));
    assert(probe_order().skip(15).first() == ProbeId::Webp);
    assert(probe_order().skip(15).drop_first() =~= probe_order().skip(16));
    assert(detect_from(s, probe_order().skip(15)) == (if probe_model(ProbeId::Webp, s) is Some {
        probe_model(ProbeId::Webp, s)
    } else {
        detect_from(s, probe_order().skip(16))
    }));
    assert(probe_order().skip(16).first() == ProbeId::Tga);
    assert(probe_order().skip(16).drop_first() =~= probe_order().skip(17));
    assert(detect_from(s, probe_order().skip(16)) == (if probe_model(ProbeId::Tga, s) is Some {
        probe_model(ProbeId::Tga, s)
    } else {
        detect_from(s, probe_order().skip(17))
    }));
    assert(probe_order().skip(17).len() == 0);
    assert(detect_from(s, probe_order().skip(17)) is None);
    assert(probe_order().skip(0) =~= probe_order());
}

/// The format a probe claims is one of the formats it is registered for; in
/// particular no probe other than the TGA probe ever claims the TGA format.
pub proof fn lemma_probe_format(p: ProbeId, s: Seq<u8>)
    ensures
        probe_model(p, s) matches Some(m) ==> (p == ProbeId::Tga <==> m.format
            == ImageFormat::TGA),
{
    if probe_model(p, s) is Some {
        match p {
            ProbeId::AvifHeic => {
                crate::try_avif_heic::lemma_avif_heic_format(s);
            },
            _ => {},
        }
    }
}

/// The TGA probe never wins against a competing valid signature: if any
/// probe other than TGA accepts the buffer, detection succeeds with a
/// result whose format is not TGA.
pub proof fn lemma_tga_never_preempts(s: Seq<u8>)
    requires
        exists|p: ProbeId| p != ProbeId::Tga && #[trigger] probe_model(p, s) is Some,
    ensures
        spec_detect(s) is Some,
        spec_detect(s)->Some_0.format != ImageFormat::TGA,
{
    lemma_detect_unrolled(s);
    let w = choose|p: ProbeId| p != ProbeId::Tga && #[trigger] probe_model(p, s) is Some;
    assert(spec_detect(s) is Some);
    let m = spec_detect(s)->Some_0;
    if avif_heic_model(s) is Some {
        lemma_probe_format(ProbeId::AvifHeic, s);
    } else if bmp_model(s) is Some {
        lemma_probe_format(ProbeId::Bmp, s);
    } else if cur_ico_model(s) is Some {
        lemma_probe_format(ProbeId::CurIco, s);
    } else if dds_model(s) is Some {
        lemma_probe_format(ProbeId::Dds, s);
    } else if gif_model(s) is Some {
        lemma_probe_format(ProbeId::Gif, s);
    } else if hdr_model(s) is Some {
        lemma_probe_format(ProbeId::Hdr, s);
    } else if icns_model(s) is Some {
        lemma_probe_format(ProbeId::Icns, s);
    } else if j2k_model(s) is Some {
        lemma_probe_format(ProbeId::J2k, s);
    } else if jp2_jpx_model(s) is Some {
        lemma_probe_format(ProbeId::Jp2Jpx, s);
    } else if jpg_model(s) is Some {
        lemma_probe_format(ProbeId::Jpeg, s);
    } else if ktx_model(s) is Some {
        lemma_probe_format(ProbeId::Ktx, s);
    } else if png_model(s) is Some {
        lemma_probe_format(ProbeId::Png, s);
    } else if psd_model(s) is Some {
        lemma_probe_format(ProbeId::Psd, s);
    } else if qoi_model(s) is Some {
        lemma_probe_format(ProbeId::Qoi, s);
    } else if tiff_model(s) is Some {
        lemma_probe_format(ProbeId::Tiff, s);
    } else if webp_model(s) is Some {
        lemma_probe_format(ProbeId::Webp, s);
    } else {
        assert(probe_model(w, s) is None);
        assert(false);
    }
}

/// A buffer shorter than the shortest signature any probe checks is never
/// recognized, and in particular never read out of bounds.
pub proof fn lemma_too_short_unrecognized(s: Seq<u8>)
    requires
        s.len() < 2,
    ensures
        spec_detect(s) is None,
{
    lemma_detect_unrolled(s);
}

impl ImageInfo {
    /// Detects the format and dimensions of an in-memory image, by trying
    /// each distinct probe once in `probe_order()` and returning the first
    /// success. A buffer no probe accepts is `UnrecognizedFormat`; an
    /// in-memory buffer cannot fail with `IoError`.
    pub fn from_raw_data(data: &[u8]) -> (r: ImageInfoResult<ImageInfo>)
        ensures
            r is Ok <==> spec_detect(data@) is Some,
            r matches Ok(i) ==> spec_detect(data@) == Some(i@) && i.wf(),
            r matches Err(e) ==> e is UnrecognizedFormat,
    {
        let ghost s: Seq<u8> = data@;
        proof {
            lemma_detect_unrolled(s);
        }
        let length = data.len();
        let mut ri = ReadInterface::from_reader(vstd::slice::slice_to_vec(data), length);
        match try_avif_heic::try_avif_heic(&mut ri, length) {
            Ok(info) => {
                return Ok(info);
            },
            Err(_) => {},
        }
        match try_bmp::try_bmp(&mut ri, length) {
            Ok(info) => {
                return Ok(info);
            },
            Err(_) => {},
        }
        match try_cur_ico::try_cur_ico(&mut ri, length) {
            Ok(info) => {
                return Ok(info);
            },
            Err(_) => {},
        }
        match try_dds::try_dds(&mut ri, length) {
            Ok(info) => {
                return Ok(info);
            },
            Err(_) => {},
        }
        match try_gif::try_gif(&mut ri, length) {
            Ok(info) => {
                return Ok(info);
            },
            Err(_) => {},
        }
        match try_hdr::try_hdr(&mut ri, length) {
            Ok(info) => {
                return Ok(info);
            },
            Err(_) => {},
        }
        match try_icns::try_icns(&mut ri, length) {
            Ok(info) => {
                return Ok(info);
            },
            Err(_) => {},
        }
        match try_j2k::try_j2k(&mut ri, length) {
            Ok(info) => {
                return Ok(info);
            },
            Err(_) => {},
        }
        match try_jp2_jpx::try_jp2_jpx(&mut ri, length) {
            Ok(info) => {
                return Ok(info);
            },
            Err(_) => {},
        }
        match try_jpg::try_jpg(&mut ri, length) {
            Ok(info) => {
                return Ok(info);
            },
            Err(_) => {},
        }
        match try_ktx::try_ktx(&mut ri, length) {
            Ok(info) => {
                return Ok(info);
            },
            Err(_) => {},
        }
        match try_png::try_png(&mut ri, length) {
            Ok(info) => {
                return Ok(info);
            },
            Err(_) => {},
        }
        match try_psd::try_psd(&mut ri, length) {
            Ok(info) => {
                return Ok(info);
            },
            Err(_) => {},
        }
        match try_qoi::try_qoi(&mut ri, length) {
            Ok(info) => {
                return Ok(info);
            },
            Err(_) => {},
        }
        match try_tiff::try_tiff(&mut ri, length) {
            Ok(info) => {
                return Ok(info);
            },
            Err(_) => {},
        }
        match try_webp::try_webp(&mut ri, length) {
            Ok(info) => {
                return Ok(info);
            },
            Err(_) => {},
        }
        match try_tga::try_tga(&mut ri, length) {
            Ok(info) => {
                return Ok(info);
            },
            Err(_) => {},
        }
        Err(ImageInfoError::UnrecognizedFormat)
    }
}

} // verus!
