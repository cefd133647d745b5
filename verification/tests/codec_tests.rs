use dtar::codec::{decoder_for, encoder_for, Codec, CodecError, Encoder};
use dtar::format::Format;

#[test]
fn decoders() {
    assert_eq!(decoder_for(Format::Tar), Codec::Plain);
    assert_eq!(decoder_for(Format::Gzip), Codec::Gzip);
    assert_eq!(decoder_for(Format::Bzip2), Codec::Bzip2);
    assert_eq!(decoder_for(Format::Xz), Codec::Xz);
    assert_eq!(decoder_for(Format::Zstd), Codec::Zstd);
}

#[test]
fn default_levels() {
    assert_eq!(encoder_for(Format::Gzip, None), Ok(Encoder::Gzip { level: 6 }));
    assert_eq!(encoder_for(Format::Xz, None), Ok(Encoder::Xz { level: 6 }));
    assert_eq!(encoder_for(Format::Zstd, None), Ok(Encoder::Zstd { level: 3 }));
    assert_eq!(encoder_for(Format::Bzip2, None), Ok(Encoder::Bzip2 { level: 6 }));
    assert_eq!(encoder_for(Format::Tar, None), Ok(Encoder::Plain));
}

#[test]
fn explicit_levels() {
    assert_eq!(encoder_for(Format::Gzip, Some(0)), Ok(Encoder::Gzip { level: 0 }));
    assert_eq!(encoder_for(Format::Gzip, Some(9)), Ok(Encoder::Gzip { level: 9 }));
    assert_eq!(encoder_for(Format::Xz, Some(1)), Ok(Encoder::Xz { level: 1 }));
    assert_eq!(encoder_for(Format::Zstd, Some(1)), Ok(Encoder::Zstd { level: 1 }));
    assert_eq!(encoder_for(Format::Zstd, Some(22)), Ok(Encoder::Zstd { level: 22 }));
    assert_eq!(encoder_for(Format::Tar, Some(-5)), Ok(Encoder::Plain));
}

#[test]
fn out_of_range_levels() {
    assert_eq!(encoder_for(Format::Gzip, Some(10)), Err(CodecError::LevelOutOfRange));
    assert_eq!(encoder_for(Format::Gzip, Some(-1)), Err(CodecError::LevelOutOfRange));
    assert_eq!(encoder_for(Format::Xz, Some(10)), Err(CodecError::LevelOutOfRange));
    assert_eq!(encoder_for(Format::Zstd, Some(0)), Err(CodecError::LevelOutOfRange));
    assert_eq!(encoder_for(Format::Zstd, Some(23)), Err(CodecError::LevelOutOfRange));
}

#[test]
fn bzip2_levels() {
    assert_eq!(encoder_for(Format::Bzip2, Some(1)), Ok(Encoder::Bzip2 { level: 1 }));
    assert_eq!(encoder_for(Format::Bzip2, Some(5)), Ok(Encoder::Bzip2 { level: 5 }));
    assert_eq!(encoder_for(Format::Bzip2, Some(9)), Ok(Encoder::Bzip2 { level: 9 }));
    assert_eq!(encoder_for(Format::Bzip2, Some(0)), Err(CodecError::LevelOutOfRange));
    assert_eq!(encoder_for(Format::Bzip2, Some(10)), Err(CodecError::LevelOutOfRange));
    assert_eq!(encoder_for(Format::Bzip2, Some(-3)), Err(CodecError::LevelOutOfRange));
}

#[test]
fn every_format_has_a_default_encoder() {
    for f in [Format::Tar, Format::Gzip, Format::Bzip2, Format::Xz, Format::Zstd] {
        assert!(encoder_for(f, None).is_ok());
    }
}

#[test]
fn error_text() {
    assert_eq!(CodecError::LevelOutOfRange.message(), "Compression level out of range for this format");
}
