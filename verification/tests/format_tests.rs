use dtar::format::{choose_format, determine_format, format_from_extension, DetectError, Format, HEADER_LEN};

fn header() -> Vec<u8> {
    vec![0u8; HEADER_LEN]
}

fn chars(s: &str) -> Vec<char> {
    s.chars().collect()
}

#[test]
fn detects_gzip() {
    let mut h = header();
    h[0] = 0x1f;
    h[1] = 0x8b;
    assert_eq!(determine_format(&h), Ok(Format::Gzip));
}

#[test]
fn detects_xz() {
    let mut h = header();
    h[..6].copy_from_slice(&[0xfd, 0x37, 0x7a, 0x58, 0x5a, 0x00]);
    assert_eq!(determine_format(&h), Ok(Format::Xz));
}

#[test]
fn detects_tar_by_ustar_marker() {
    let mut h = header();
    h[257..262].copy_from_slice(b"ustar");
    assert_eq!(determine_format(&h), Ok(Format::Tar));
}

#[test]
fn detects_zstd() {
    let mut h = header();
    h[..4].copy_from_slice(&[0x28, 0xb5, 0x2f, 0xfd]);
    assert_eq!(determine_format(&h), Ok(Format::Zstd));
}

#[test]
fn gzip_signature_wins_over_ustar_marker() {
    let mut h = header();
    h[0] = 0x1f;
    h[1] = 0x8b;
    h[257..262].copy_from_slice(b"ustar");
    assert_eq!(determine_format(&h), Ok(Format::Gzip));
}

#[test]
fn ustar_marker_wins_over_zstd_signature() {
    let mut h = header();
    h[..4].copy_from_slice(&[0x28, 0xb5, 0x2f, 0xfd]);
    h[257..262].copy_from_slice(b"ustar");
    assert_eq!(determine_format(&h), Ok(Format::Tar));
}

#[test]
fn unknown_bytes_are_rejected() {
    let h = header();
    assert_eq!(determine_format(&h), Err(DetectError::UnknownFormat));
}

#[test]
fn short_input_is_rejected() {
    let mut h = vec![0u8; HEADER_LEN - 1];
    h[0] = 0x1f;
    h[1] = 0x8b;
    assert_eq!(determine_format(&h), Err(DetectError::TooShort));
}

#[test]
fn longer_input_is_accepted() {
    let mut h = vec![0u8; 4096];
    h[0] = 0x1f;
    h[1] = 0x8b;
    assert_eq!(determine_format(&h), Ok(Format::Gzip));
}

#[test]
fn error_texts() {
    assert_eq!(DetectError::UnknownFormat.message(), "Unknown file format");
    assert_eq!(DetectError::TooShort.message(), "failed to fill whole buffer");
}

#[test]
fn bzip2_files_are_not_detected() {
    let mut h = header();
    h[..3].copy_from_slice(b"BZh");
    assert_eq!(determine_format(&h), Err(DetectError::UnknownFormat));
}

#[test]
fn descriptions() {
    assert_eq!(Format::Tar.description(), "Tar Archive");
    assert_eq!(Format::Gzip.description(), "GZip Data");
    assert_eq!(Format::Bzip2.description(), "BZip2 Data");
    assert_eq!(Format::Xz.description(), "XZ Data");
    assert_eq!(Format::Zstd.description(), "Zstandard Data");
}

#[test]
fn extensions_map_to_formats() {
    for e in ["gz", "tgz", "gzip", "tgzip"] {
        assert_eq!(format_from_extension(&chars(e)), Format::Gzip, "{}", e);
    }
    for e in ["bz2", "tbz2", "bzip2", "tbzip2"] {
        assert_eq!(format_from_extension(&chars(e)), Format::Bzip2, "{}", e);
    }
    for e in ["xz", "txz", "lzma", "tlzma", "lzma2", "tlzma2"] {
        assert_eq!(format_from_extension(&chars(e)), Format::Xz, "{}", e);
    }
    for e in ["zst", "tzst", "zstd", "tzstd"] {
        assert_eq!(format_from_extension(&chars(e)), Format::Zstd, "{}", e);
    }
    for e in ["tar", "", "GZ", "txt", "gzz"] {
        assert_eq!(format_from_extension(&chars(e)), Format::Tar, "{}", e);
    }
}

#[test]
fn explicit_format_wins_over_extension() {
    let e = chars("gz");
    assert_eq!(choose_format(Some(Format::Xz), Some(&e)), Format::Xz);
    assert_eq!(choose_format(None, Some(&e)), Format::Gzip);
    assert_eq!(choose_format(None, None), Format::Tar);
    assert_eq!(choose_format(Some(Format::Zstd), None), Format::Zstd);
}
