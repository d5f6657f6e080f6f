use imageinfo::{ImageFormat, ImageInfo, ImageInfoError, ImageSize};

fn be32(v: u32) -> [u8; 4] {
    v.to_be_bytes()
}

fn be16(v: u16) -> [u8; 2] {
    v.to_be_bytes()
}

/// A minimal ISOBMFF file: an `ftyp` box with the given major brand and
/// compatible brands, then a `meta` box whose children are a `pitm`, an
/// `iprp`/`ipco` pair holding an `ispe` (and optionally an `irot`), and an
/// `ipma` associating the primary item with those property slots.
fn isobmff_bytes(
    major: &[u8; 4],
    compatible: &[&[u8; 4]],
    width: u32,
    height: u32,
    irot: Option<u8>,
) -> Vec<u8> {
    let ftyp_len = 16 + 4 * compatible.len() as u32;
    let mut b = Vec::new();
    b.extend_from_slice(&be32(ftyp_len));
    b.extend_from_slice(b"ftyp");
    b.extend_from_slice(major);
    b.extend_from_slice(&be32(0));
    for c in compatible {
        b.extend_from_slice(&c[..]);
    }

    // the meta box's walked window starts 12 bytes into the box
    let mut w = Vec::new();
    // pitm: the primary item is item 1
    w.extend_from_slice(&be32(14));
    w.extend_from_slice(b"pitm");
    w.extend_from_slice(&be32(0));
    w.extend_from_slice(&be16(1));
    // iprp wrapping an ipco
    let ipco_len = 8 + 20 + if irot.is_some() { 9 } else { 0 };
    let iprp_len = 8 + ipco_len;
    w.extend_from_slice(&be32(iprp_len));
    w.extend_from_slice(b"iprp");
    w.extend_from_slice(&be32(ipco_len));
    w.extend_from_slice(b"ipco");
    // ispe: property slot 1
    w.extend_from_slice(&be32(20));
    w.extend_from_slice(b"ispe");
    w.extend_from_slice(&be32(0));
    w.extend_from_slice(&be32(width));
    w.extend_from_slice(&be32(height));
    // irot: property slot 2
    if let Some(code) = irot {
        w.extend_from_slice(&be32(9));
        w.extend_from_slice(b"irot");
        w.push(code);
    }
    // ipma: item 1 owns slots 1 and 2
    let indices: &[u8] = if irot.is_some() { &[1, 2] } else { &[1] };
    let ipma_len = 16 + 3 + indices.len() as u32;
    w.extend_from_slice(&be32(ipma_len));
    w.extend_from_slice(b"ipma");
    w.extend_from_slice(&be32(0));
    w.extend_from_slice(&[0, 0]);
    w.extend_from_slice(&be16(1));
    w.extend_from_slice(&be16(1));
    w.push(indices.len() as u8);
    w.extend_from_slice(indices);

    let meta_len = w.len() as u32;
    b.extend_from_slice(&be32(meta_len));
    b.extend_from_slice(b"meta");
    b.extend_from_slice(&be32(0));
    b.extend_from_slice(&w);
    b
}

#[test]
fn test_avif() {
    let b = isobmff_bytes(b"avif", &[], 123, 456, None);
    let info = ImageInfo::from_raw_data(&b).unwrap();
    assert_eq!(info.format, ImageFormat::AVIF);
    assert_eq!(info.ext, "avif");
    assert_eq!(info.full_ext, "avif");
    assert_eq!(info.mimetype, "image/avif");
    assert_eq!(info.size, ImageSize { width: 123, height: 456 });
    assert_eq!(info.entry_sizes, vec![]);
}

#[test]
fn test_heic() {
    let b = isobmff_bytes(b"heic", &[], 122, 456, None);
    let info = ImageInfo::from_raw_data(&b).unwrap();
    assert_eq!(info.format, ImageFormat::HEIC);
    assert_eq!(info.ext, "heic");
    assert_eq!(info.mimetype, "image/heic");
    assert_eq!(info.size, ImageSize { width: 122, height: 456 });
    // a compatible brand `heic` also resolves to HEIC
    let b = isobmff_bytes(b"msf1", &[b"heic"], 1440, 960, None);
    let info = ImageInfo::from_raw_data(&b).unwrap();
    assert_eq!(info.format, ImageFormat::HEIC);
    assert_eq!(info.size, ImageSize { width: 1440, height: 960 });
}

#[test]
fn rotation_code_six_swaps_dimensions() {
    // a primary item with an ispe of 800x533 and an irot of code 6 reports
    // the swapped size
    let b = isobmff_bytes(b"avif", &[], 800, 533, Some(6));
    let info = ImageInfo::from_raw_data(&b).unwrap();
    assert_eq!(info.format, ImageFormat::AVIF);
    assert_eq!(info.size, ImageSize { width: 533, height: 800 });
}

#[test]
fn rotation_code_zero_keeps_dimensions() {
    let b = isobmff_bytes(b"avif", &[], 800, 533, Some(0));
    let info = ImageInfo::from_raw_data(&b).unwrap();
    assert_eq!(info.size, ImageSize { width: 800, height: 533 });
}

#[test]
fn no_rotation_box_keeps_dimensions() {
    let b = isobmff_bytes(b"avif", &[], 800, 533, None);
    let info = ImageInfo::from_raw_data(&b).unwrap();
    assert_eq!(info.size, ImageSize { width: 800, height: 533 });
}

#[test]
fn compatible_brand_beats_major_brand() {
    // compatible brands contain `avif` while the major brand is `mif1`
    let b = isobmff_bytes(b"mif1", &[b"mif1", b"avif"], 123, 456, None);
    let info = ImageInfo::from_raw_data(&b).unwrap();
    assert_eq!(info.format, ImageFormat::AVIF);
    assert_eq!(info.size, ImageSize { width: 123, height: 456 });
}

#[test]
fn major_brand_alone_rejected_without_image_brand() {
    // an accepted major brand that is neither avif nor heic, with no
    // deciding compatible brand, stays unrecognized
    let b = isobmff_bytes(b"mif1", &[b"mif1"], 123, 456, None);
    match ImageInfo::from_raw_data(&b) {
        Err(ImageInfoError::UnrecognizedFormat) => {},
        _ => panic!(),
    }
}

#[test]
fn missing_spatial_extents_rejected() {
    // associate the primary item with a slot that has no ispe record
    let mut b = isobmff_bytes(b"avif", &[], 123, 456, None);
    let n = b.len();
    b[n - 1] = 9;
    match ImageInfo::from_raw_data(&b) {
        Err(ImageInfoError::UnrecognizedFormat) => {},
        _ => panic!(),
    }
}

#[test]
fn truncated_isobmff_rejected() {
    let b = isobmff_bytes(b"avif", &[], 123, 456, None);
    // below the ftyp+meta minimum the file is never recognized, nor read
    // out of bounds
    for cut in [0usize, 3, 8, 15, 27] {
        match ImageInfo::from_raw_data(&b[..cut]) {
            Err(ImageInfoError::UnrecognizedFormat) => {},
            _ => panic!(),
        }
    }
}

#[test]
fn ipma_entry_running_past_box_rejected() {
    let mut b = isobmff_bytes(b"avif", &[], 123, 456, None);
    // claim more index bytes than the ipma box holds
    let n = b.len();
    b[n - 2] = 200;
    match ImageInfo::from_raw_data(&b) {
        Err(ImageInfoError::UnrecognizedFormat) => {},
        _ => panic!(),
    }
}
