use imageinfo::{ImageFormat, ImageInfo, ImageInfoError, ImageSize, ReadInterface};

#[test]
fn test_unrecognized() {
    // a buffer with no recognizable magic is turned down by every probe
    let zeros = vec![0u8; 64];
    match ImageInfo::from_raw_data(&zeros) {
        Err(ImageInfoError::UnrecognizedFormat) => {},
        _ => panic!(),
    }
    match ImageInfo::from_raw_data(&[]) {
        Err(ImageInfoError::UnrecognizedFormat) => {},
        _ => panic!(),
    }
}

#[test]
fn tga_never_wins_against_real_signature() {
    // a valid PNG with a TRUEVISION trailer appended is claimed by the PNG
    // probe, even though the TGA probe would accept the same bytes
    let mut b = vec![0u8; 24];
    b[0..8].copy_from_slice(b"\x89PNG\r\n\x1A\n");
    b[12..16].copy_from_slice(b"IHDR");
    b[16..20].copy_from_slice(&123u32.to_be_bytes());
    b[20..24].copy_from_slice(&456u32.to_be_bytes());
    b.resize(40, 0);
    b.extend_from_slice(b"TRUEVISION-XFILE.\x00");

    // the TGA probe alone accepts this buffer
    let len = b.len();
    let mut ri = ReadInterface::from_reader(b.clone(), len);
    let tga = imageinfo::try_tga(&mut ri, len).unwrap();
    assert_eq!(tga.format, ImageFormat::TGA);

    // but detection resolves it as PNG
    let info = ImageInfo::from_raw_data(&b).unwrap();
    assert_eq!(info.format, ImageFormat::PNG);
    assert_eq!(info.size, ImageSize { width: 123, height: 456 });
}

#[test]
fn probes_map_every_failure_to_unrecognized() {
    // structurally inconsistent inputs of several formats: each maps to
    // UnrecognizedFormat rather than faulting
    let cases: Vec<Vec<u8>> = vec![
        b"BM".to_vec(),
        b"\x89PNG".to_vec(),
        b"qoif".to_vec(),
        b"\xFF\xD8".to_vec(),
        b"II\x2A\x00".to_vec(),
        b"icns\x00\x00\x00\x0Czz".to_vec(),
        b"#?RGBE".to_vec(),
        vec![0xFF; 64],
    ];
    for c in cases {
        match ImageInfo::from_raw_data(&c) {
            Err(ImageInfoError::UnrecognizedFormat) => {},
            _ => panic!(),
        }
    }
}

#[test]
fn test_io_error() {
    // an underlying I/O fault is wrapped, keeping the original condition
    let cause = std::io::Error::from(std::io::ErrorKind::NotFound);
    match ImageInfoError::from(cause) {
        ImageInfoError::IoError(inner) => {
            assert_eq!(inner.kind(), std::io::ErrorKind::NotFound);
        },
        _ => panic!(),
    }
}

#[test]
fn whole_record_comparison() {
    let mut gif = vec![0u8; 10];
    gif[0..6].copy_from_slice(b"GIF89a");
    gif[6..8].copy_from_slice(&123u16.to_le_bytes());
    gif[8..10].copy_from_slice(&456u16.to_le_bytes());
    let info = ImageInfo::from_raw_data(&gif).unwrap();
    assert_eq!(
        info,
        ImageInfo {
            format: ImageFormat::GIF,
            ext: "gif",
            full_ext: "gif",
            mimetype: "image/gif",
            size: ImageSize { width: 123, height: 456 },
            entry_sizes: vec![],
        },
    );
}
