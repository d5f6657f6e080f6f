use imageinfo::{ImageFormat, ImageInfo, ImageInfoError, ImageSize};

fn be32(v: u32) -> [u8; 4] {
    v.to_be_bytes()
}

fn le32(v: u32) -> [u8; 4] {
    v.to_le_bytes()
}

fn be16(v: u16) -> [u8; 2] {
    v.to_be_bytes()
}

fn le16(v: u16) -> [u8; 2] {
    v.to_le_bytes()
}

fn set(buf: &mut Vec<u8>, at: usize, bytes: &[u8]) {
    buf[at..at + bytes.len()].copy_from_slice(bytes);
}

fn expect(
    buf: &[u8],
    format: ImageFormat,
    ext: &str,
    full_ext: &str,
    mimetype: &str,
    width: i64,
    height: i64,
) {
    let info = ImageInfo::from_raw_data(buf).unwrap();
    assert_eq!(info.format, format);
    assert_eq!(info.ext, ext);
    assert_eq!(info.full_ext, full_ext);
    assert_eq!(info.mimetype, mimetype);
    assert_eq!(info.size, ImageSize { width, height });
}

fn expect_unrecognized(buf: &[u8]) {
    match ImageInfo::from_raw_data(buf) {
        Err(ImageInfoError::UnrecognizedFormat) => {},
        _ => panic!(),
    }
}

fn bmp_bytes(width: i32, height: i32) -> Vec<u8> {
    let mut b = vec![0u8; 26];
    set(&mut b, 0, b"BM");
    set(&mut b, 18, &width.to_le_bytes());
    set(&mut b, 22, &height.to_le_bytes());
    b
}

#[test]
fn test_bmp() {
    expect(&bmp_bytes(123, 456), ImageFormat::BMP, "bmp", "bmp", "image/bmp", 123, 456);
    // a negative stored height only flips the row order
    expect(&bmp_bytes(123, -456), ImageFormat::BMP, "bmp", "bmp", "image/bmp", 123, 456);
    expect_unrecognized(&bmp_bytes(123, 456)[..25]);
}

fn dds_bytes() -> Vec<u8> {
    let mut b = vec![0u8; 20];
    set(&mut b, 0, b"DDS ");
    set(&mut b, 12, &le32(456));
    set(&mut b, 16, &le32(123));
    b
}

#[test]
fn test_dds() {
    expect(&dds_bytes(), ImageFormat::DDS, "dds", "dds", "image/dds", 123, 456);
    expect_unrecognized(&dds_bytes()[..19]);
}

fn gif_bytes() -> Vec<u8> {
    let mut b = vec![0u8; 10];
    set(&mut b, 0, b"GIF89a");
    set(&mut b, 6, &le16(123));
    set(&mut b, 8, &le16(456));
    b
}

#[test]
fn test_gif() {
    expect(&gif_bytes(), ImageFormat::GIF, "gif", "gif", "image/gif", 123, 456);
    let mut b87 = gif_bytes();
    set(&mut b87, 0, b"GIF87a");
    expect(&b87, ImageFormat::GIF, "gif", "gif", "image/gif", 123, 456);
    expect_unrecognized(&gif_bytes()[..9]);
}

fn ktx_bytes() -> Vec<u8> {
    let mut b = vec![0u8; 44];
    set(&mut b, 0, b"\xABKTX 11\xBB\r\n\x1A\n");
    set(&mut b, 36, &le32(123));
    set(&mut b, 40, &le32(456));
    b
}

#[test]
fn test_ktx() {
    expect(&ktx_bytes(), ImageFormat::KTX, "ktx", "ktx", "image/ktx", 123, 456);
    expect_unrecognized(&ktx_bytes()[..43]);
}

fn png_bytes() -> Vec<u8> {
    let mut b = vec![0u8; 24];
    set(&mut b, 0, b"\x89PNG\r\n\x1A\n");
    set(&mut b, 12, b"IHDR");
    set(&mut b, 16, &be32(123));
    set(&mut b, 20, &be32(456));
    b
}

#[test]
fn test_png() {
    expect(&png_bytes(), ImageFormat::PNG, "png", "png", "image/png", 123, 456);
    // the iPhone variant shifts IHDR behind a CgBI chunk
    let mut b = vec![0u8; 40];
    set(&mut b, 0, b"\x89PNG\r\n\x1A\n");
    set(&mut b, 12, b"CgBI");
    set(&mut b, 28, b"IHDR");
    set(&mut b, 32, &be32(128));
    set(&mut b, 36, &be32(68));
    expect(&b, ImageFormat::PNG, "png", "png", "image/png", 128, 68);
    expect_unrecognized(&png_bytes()[..23]);
}

fn psd_bytes() -> Vec<u8> {
    let mut b = vec![0u8; 22];
    set(&mut b, 0, b"8BPS\x00\x01");
    set(&mut b, 14, &be32(456));
    set(&mut b, 18, &be32(123));
    b
}

#[test]
fn test_psd() {
    expect(&psd_bytes(), ImageFormat::PSD, "psd", "psd", "image/psd", 123, 456);
    expect_unrecognized(&psd_bytes()[..21]);
}

fn qoi_bytes() -> Vec<u8> {
    let mut b = vec![0u8; 12];
    set(&mut b, 0, b"qoif");
    set(&mut b, 4, &be32(123));
    set(&mut b, 8, &be32(456));
    b
}

#[test]
fn test_qoi() {
    expect(&qoi_bytes(), ImageFormat::QOI, "qoi", "qoi", "image/qoi", 123, 456);
    expect_unrecognized(&qoi_bytes()[..11]);
}

fn j2k_bytes() -> Vec<u8> {
    let mut b = vec![0u8; 16];
    set(&mut b, 0, b"\xFF\x4F");
    set(&mut b, 2, &be16(14));
    set(&mut b, 4, b"\x00\x2F\x00\x00");
    set(&mut b, 8, &be32(123));
    set(&mut b, 12, &be32(456));
    b
}

#[test]
fn test_j2k() {
    expect(&j2k_bytes(), ImageFormat::J2K, "j2k", "j2k", "image/j2k", 123, 456);
    expect_unrecognized(&j2k_bytes()[..15]);
}

#[test]
fn test_jpeg2000_code_stream() {
    // this probe is not registered with the dispatcher; call it directly
    let mut b = vec![0u8; 16];
    set(&mut b, 0, b"\xFF\x4F\xFF\x51");
    set(&mut b, 4, &be16(12));
    set(&mut b, 8, &be32(123));
    set(&mut b, 12, &be32(456));
    let len = b.len();
    let mut ri = imageinfo::ReadInterface::from_reader(b.clone(), len);
    let info = imageinfo::try_jpeg2000_code_stream(&mut ri, len).unwrap();
    assert_eq!(info.format, ImageFormat::J2K);
    assert_eq!(info.size, ImageSize { width: 123, height: 456 });
    let mut short = b.clone();
    short.truncate(15);
    let mut ri = imageinfo::ReadInterface::from_reader(short, 15);
    assert!(imageinfo::try_jpeg2000_code_stream(&mut ri, 15).is_err());
}

fn tga_bytes() -> Vec<u8> {
    let mut b = vec![0u8; 18];
    b[2] = 2;
    set(&mut b, 12, &le16(123));
    set(&mut b, 14, &le16(456));
    b
}

#[test]
fn test_tga() {
    expect(&tga_bytes(), ImageFormat::TGA, "tga", "tga", "image/tga", 123, 456);
    // the colour-mapped form
    let mut m = tga_bytes();
    m[1] = 1;
    m[2] = 1;
    expect(&m, ImageFormat::TGA, "tga", "tga", "image/tga", 123, 456);
    // the new-style form carries a trailing signature
    let mut f = vec![0u8; 34];
    set(&mut f, 12, &le16(12));
    set(&mut f, 14, &le16(34));
    f.extend_from_slice(b"TRUEVISION-XFILE.\x00");
    expect(&f, ImageFormat::TGA, "tga", "tga", "image/tga", 12, 34);
    expect_unrecognized(&tga_bytes()[..17]);
}

fn webp_vp8_bytes() -> Vec<u8> {
    let mut b = vec![0u8; 30];
    set(&mut b, 0, b"RIFF");
    set(&mut b, 8, b"WEBP");
    set(&mut b, 12, b"VP8 ");
    set(&mut b, 26, &le16(123));
    set(&mut b, 28, &le16(456));
    b
}

#[test]
fn test_webp() {
    expect(&webp_vp8_bytes(), ImageFormat::WEBP, "webp", "webp", "image/webp", 123, 456);
    // lossless: both dimensions minus one packed into one little-endian word
    let mut l = vec![0u8; 25];
    set(&mut l, 0, b"RIFF");
    set(&mut l, 8, b"WEBP");
    set(&mut l, 12, b"VP8L");
    let packed: u32 = (123 - 1) | ((456 - 1) << 14);
    set(&mut l, 21, &le32(packed));
    expect(&l, ImageFormat::WEBP, "webp", "webp", "image/webp", 123, 456);
    // extended: 24-bit fields minus one behind a flag byte
    let mut x = vec![0u8; 30];
    set(&mut x, 0, b"RIFF");
    set(&mut x, 8, b"WEBP");
    set(&mut x, 12, b"VP8X");
    x[20] = 0;
    x[24] = 122;
    let h1: u32 = 455;
    x[27] = (h1 & 0xFF) as u8;
    x[28] = ((h1 >> 8) & 0xFF) as u8;
    x[29] = ((h1 >> 16) & 0xFF) as u8;
    expect(&x, ImageFormat::WEBP, "webp", "webp", "image/webp", 123, 456);
    expect_unrecognized(&webp_vp8_bytes()[..15]);
}

fn tiff_le_bytes() -> Vec<u8> {
    let mut b = vec![0u8; 34];
    set(&mut b, 0, b"II");
    set(&mut b, 2, &le16(0x2A));
    set(&mut b, 4, &le32(8));
    set(&mut b, 8, &le16(2));
    // entry 1: tag 256 (width), field type 3, value 123
    set(&mut b, 10, &le16(256));
    set(&mut b, 12, &le16(3));
    set(&mut b, 18, &le16(123));
    // entry 2: tag 257 (height), field type 4, value 456
    set(&mut b, 22, &le16(257));
    set(&mut b, 24, &le16(4));
    set(&mut b, 30, &le32(456));
    b
}

#[test]
fn test_tiff() {
    expect(&tiff_le_bytes(), ImageFormat::TIFF, "tif", "tiff", "image/tiff", 123, 456);
    // big-endian variant
    let mut b = vec![0u8; 34];
    set(&mut b, 0, b"MM");
    set(&mut b, 2, &be16(0x2A));
    set(&mut b, 4, &be32(8));
    set(&mut b, 8, &be16(2));
    set(&mut b, 10, &be16(256));
    set(&mut b, 12, &be16(3));
    set(&mut b, 18, &be16(123));
    set(&mut b, 22, &be16(257));
    set(&mut b, 24, &be16(4));
    set(&mut b, 30, &be32(456));
    expect(&b, ImageFormat::TIFF, "tif", "tiff", "image/tiff", 123, 456);
    // a table without both dimension tags stays unrecognized
    let mut missing = tiff_le_bytes();
    set(&mut missing, 22, &le16(258));
    expect_unrecognized(&missing);
    expect_unrecognized(&tiff_le_bytes()[..7]);
}

#[test]
fn test_tiff_big() {
    // BigTIFF: version 43, 64-bit offsets and entry values
    let mut b = vec![0u8; 64];
    set(&mut b, 0, b"II");
    set(&mut b, 2, &le16(0x2B));
    set(&mut b, 4, &le16(8));
    set(&mut b, 6, &le16(0));
    set(&mut b, 8, &16u64.to_le_bytes());
    set(&mut b, 16, &2u64.to_le_bytes());
    // entry 1 at 24: tag 256, field type 16, 64-bit value 123
    set(&mut b, 24, &le16(256));
    set(&mut b, 26, &le16(16));
    set(&mut b, 36, &123u64.to_le_bytes());
    // entry 2 at 44: tag 257, field type 3, 16-bit value 456
    set(&mut b, 44, &le16(257));
    set(&mut b, 46, &le16(3));
    set(&mut b, 56, &le16(456));
    expect(&b, ImageFormat::TIFF, "tif", "tiff", "image/tiff", 123, 456);
}

fn cur_ico_bytes(kind: u8, entries: &[(u8, u8)]) -> Vec<u8> {
    let mut b = vec![0u8, 0u8, kind, 0u8];
    b.extend_from_slice(&le16(entries.len() as u16));
    for (w, h) in entries {
        let mut e = [0u8; 16];
        e[0] = *w;
        e[1] = *h;
        b.extend_from_slice(&e);
    }
    b
}

#[test]
fn test_cur() {
    let b = cur_ico_bytes(2, &[(32, 32)]);
    expect(&b, ImageFormat::CUR, "cur", "cur", "image/cur", 32, 32);
}

#[test]
fn test_ico() {
    // a stored zero means 256; the first entry is the primary size
    let b = cur_ico_bytes(1, &[(0, 0), (128, 64)]);
    let info = ImageInfo::from_raw_data(&b).unwrap();
    assert_eq!(info.format, ImageFormat::ICO);
    assert_eq!(info.size, ImageSize { width: 256, height: 256 });
    assert_eq!(
        info.entry_sizes,
        vec![ImageSize { width: 256, height: 256 }, ImageSize { width: 128, height: 64 }],
    );
    // an empty directory is not an icon
    expect_unrecognized(&cur_ico_bytes(1, &[]));
    // a directory the stream cannot hold is not an icon
    expect_unrecognized(&cur_ico_bytes(1, &[(32, 32)])[..21]);
}

fn icns_bytes(entries: &[(&[u8; 4], u32)]) -> Vec<u8> {
    let mut b = Vec::new();
    b.extend_from_slice(b"icns");
    b.extend_from_slice(&be32(0));
    for (tag, extra) in entries {
        b.extend_from_slice(&tag[..]);
        b.extend_from_slice(&be32(8 + extra));
        b.extend_from_slice(&vec![0u8; *extra as usize]);
    }
    let total = b.len() as u32;
    set(&mut b, 4, &be32(total));
    b
}

#[test]
fn test_icns() {
    let b = icns_bytes(&[(b"is32", 4), (b"ic07", 0), (b"ic04", 2)]);
    let info = ImageInfo::from_raw_data(&b).unwrap();
    assert_eq!(info.format, ImageFormat::ICNS);
    assert_eq!(info.ext, "icns");
    assert_eq!(info.mimetype, "image/icns");
    // entries are square; the primary size is the largest
    assert_eq!(info.size, ImageSize { width: 128, height: 128 });
    assert_eq!(
        info.entry_sizes,
        vec![
            ImageSize { width: 16, height: 16 },
            ImageSize { width: 128, height: 128 },
            ImageSize { width: 16, height: 16 },
        ],
    );
    // an entry type outside the table rejects the file
    let bad = icns_bytes(&[(b"zzzz", 0)]);
    expect_unrecognized(&bad);
}

fn hdr_bytes(header: &[u8]) -> Vec<u8> {
    header.to_vec()
}

#[test]
fn test_hdr() {
    let b = hdr_bytes(b"#?RADIANCE\nFORMAT=32-bit_rle_rgbe\n\n-Y 456 +X 123\n");
    expect(&b, ImageFormat::HDR, "hdr", "hdr", "image/vnd.radiance", 123, 456);
    let b = hdr_bytes(b"#?RGBE\n\n-Y 2 +X 3\n");
    expect(&b, ImageFormat::HDR, "hdr", "hdr", "image/vnd.radiance", 3, 2);
    // a resolution line that is not four tokens stays unrecognized
    expect_unrecognized(&hdr_bytes(b"#?RGBE\n\n-Y 2\n"));
    // no blank line, no resolution
    expect_unrecognized(&hdr_bytes(b"#?RGBE\n-Y 2 +X 3\n"));
}

fn jp2_bytes(brand: &[u8; 4]) -> Vec<u8> {
    let mut b = vec![0u8; 56];
    set(&mut b, 0, &be32(12));
    set(&mut b, 4, b"jP  ");
    set(&mut b, 8, b"\r\n\x87\n");
    set(&mut b, 12, &be32(20));
    set(&mut b, 16, b"ftyp");
    set(&mut b, 20, brand);
    // the jp2h box with an ihdr box at its front
    set(&mut b, 32, &be32(24));
    set(&mut b, 36, b"jp2h");
    set(&mut b, 40, &be32(16));
    set(&mut b, 44, b"ihdr");
    set(&mut b, 48, &be32(456));
    set(&mut b, 52, &be32(123));
    b
}

#[test]
fn test_jp2() {
    expect(&jp2_bytes(b"jp2 "), ImageFormat::JP2, "jp2", "jp2", "image/jp2", 123, 456);
    expect_unrecognized(&jp2_bytes(b"jp2 ")[..7]);
}

#[test]
fn test_jpx() {
    expect(&jp2_bytes(b"jpx "), ImageFormat::JPX, "jpx", "jpx", "image/jpx", 123, 456);
}

fn jpg_plain_bytes() -> Vec<u8> {
    let mut b = vec![0u8; 11];
    set(&mut b, 0, b"\xFF\xD8");
    set(&mut b, 2, b"\xFF\xC0");
    set(&mut b, 4, &be16(17));
    b[6] = 8;
    set(&mut b, 7, &be16(456));
    set(&mut b, 9, &be16(123));
    b
}

#[test]
fn test_jpg() {
    expect(&jpg_plain_bytes(), ImageFormat::JPEG, "jpg", "jpeg", "image/jpeg", 123, 456);
    // progressive start-of-frame
    let mut prog = jpg_plain_bytes();
    prog[3] = 0xC2;
    expect(&prog, ImageFormat::JPEG, "jpg", "jpeg", "image/jpeg", 123, 456);
    expect_unrecognized(&jpg_plain_bytes()[..10]);
}

fn jpg_exif_bytes(orientation: u16) -> Vec<u8> {
    let mut b = vec![0u8; 43];
    set(&mut b, 0, b"\xFF\xD8");
    // APP1 of 30 payload bytes (32 with the marker) carrying EXIF data
    set(&mut b, 2, b"\xFF\xE1");
    set(&mut b, 4, &be16(30));
    set(&mut b, 6, b"Exif\x00\x00");
    set(&mut b, 12, b"II");
    set(&mut b, 14, &le16(0x2A));
    set(&mut b, 16, &le32(8));
    set(&mut b, 20, &le16(1));
    // one IFD entry: tag 274 (orientation)
    set(&mut b, 22, &le16(274));
    set(&mut b, 24, &le16(3));
    set(&mut b, 30, &le16(orientation));
    // start of frame after the APP1 segment
    set(&mut b, 34, b"\xFF\xC0");
    set(&mut b, 36, &be16(17));
    b[38] = 8;
    set(&mut b, 39, &be16(456));
    set(&mut b, 41, &be16(123));
    b
}

#[test]
fn test_jpg_exif_orientation() {
    // a sideways orientation swaps the stored dimensions
    let info = ImageInfo::from_raw_data(&jpg_exif_bytes(6)).unwrap();
    assert_eq!(info.size, ImageSize { width: 456, height: 123 });
    // the upright orientation keeps them
    let info = ImageInfo::from_raw_data(&jpg_exif_bytes(1)).unwrap();
    assert_eq!(info.size, ImageSize { width: 123, height: 456 });
}

fn pnm_probe(buf: &[u8]) -> Result<ImageInfo, ImageInfoError> {
    // this probe is not registered with the dispatcher; call it directly
    let len = buf.len();
    let mut ri = imageinfo::ReadInterface::from_reader(buf.to_vec(), len);
    imageinfo::try_pnm(&mut ri, len)
}

#[test]
fn test_pnm_plain() {
    let info = pnm_probe(b"P2\n# a comment\n123 456\n255\n").unwrap();
    assert_eq!(info.format, ImageFormat::PGM);
    assert_eq!(info.ext, "pgm");
    assert_eq!(info.mimetype, "image/x-portable-graymap");
    assert_eq!(info.size, ImageSize { width: 123, height: 456 });
    let info = pnm_probe(b"P6\n7 9\n").unwrap();
    assert_eq!(info.format, ImageFormat::PPM);
    assert_eq!(info.size, ImageSize { width: 7, height: 9 });
    assert!(pnm_probe(b"P2\n123\n").is_err());
    assert!(pnm_probe(b"P9\n1 2\n").is_err());
    assert!(pnm_probe(b"P2 1 2\n").is_err());
}

#[test]
fn test_pnm_pam() {
    let info = pnm_probe(b"P7\nWIDTH 123\nHEIGHT 456\nDEPTH 4\n").unwrap();
    assert_eq!(info.format, ImageFormat::PAM);
    assert_eq!(info.ext, "pam");
    assert_eq!(info.size, ImageSize { width: 123, height: 456 });
    // both dimensions are mandatory
    assert!(pnm_probe(b"P7\nWIDTH 123\nDEPTH 4\n").is_err());
    assert!(pnm_probe(b"P7\nWIDTH x\nHEIGHT 1\n").is_err());
}

#[test]
fn test_pnm_pfm() {
    let info = pnm_probe(b"PF\n5 6\n-1.0\n").unwrap();
    assert_eq!(info.format, ImageFormat::PFM);
    assert_eq!(info.size, ImageSize { width: 5, height: 6 });
}
