use vstd::prelude::*;
use crate::format::Format;

verus! {

/// The stream transformation between an archive file and its tar stream.
#[derive(Clone, Copy, Debug, PartialEq, Eq, Structural)]
pub enum Codec {
    Plain,
    Gzip,
    Bzip2,
    Xz,
    Zstd,
}

/// An encoder together with the compression level handed to it.
#[derive(Clone, Copy, Debug, PartialEq, Eq, Structural)]
#[allow(inconsistent_fields)]
pub enum Encoder {
    Plain,
    Gzip { level: u32 },
    Bzip2 { level: u32 },
    Xz { level: u32 },
    Zstd { level: i32 },
}

/// Why no encoder can be set up.
#[derive(Clone, Copy, Debug, PartialEq, Eq, Structural)]
pub enum CodecError {
    /// The compression level lies outside the range of the format.
    LevelOutOfRange,
}

impl CodecError {
    /// The text that reports the error.
    pub open spec fn spec_message(self) -> Seq<char> {
        match self {
            CodecError::LevelOutOfRange => "Compression level out of range for this format"@,
        }
    }

    /// The text that reports the error.
    pub fn message(&self) -> (s: &'static str)
        ensures
            s@ == self.spec_message(),
    {
        match self {
            CodecError::LevelOutOfRange => "Compression level out of range for this format",
        }
    }
}

/// Default preset of xz (liblzma's `LZMA_PRESET_DEFAULT`).
pub const XZ_DEFAULT_LEVEL: u32 = 6;

/// Calls `flate2::Compression::default` and `flate2::Compression::level`;
/// flate2's source defines the default as `Compression(6)`.
#[verifier::external_body]
fn gzip_default_level() -> (level: u32)
    ensures
        level == 6,
{
    flate2::Compression::default().level()
}

/// Calls `bzip2::Compression::default` and `bzip2::Compression::level`;
/// bzip2's source defines the default as `Self(6)`.
#[verifier::external_body]
fn bzip2_default_level() -> (level: u32)
    ensures
        level == 6,
{
    bzip2::Compression::default().level()
}

/// Calls `bzip2::Compression::try_new`, which in bzip2's source accepts
/// exactly the levels 1 to 9, and reads the accepted level back with
/// `bzip2::Compression::level`.
#[verifier::external_body]
fn bzip2_level(level: u32) -> (r: Option<u32>)
    ensures
        1 <= level <= 9 ==> r == Some(level),
        !(1 <= level <= 9) ==> r is None,
{
    match bzip2::Compression::try_new(level) {
        Some(c) => Some(c.level()),
        None => None,
    }
}

/// Reads `zstd::DEFAULT_COMPRESSION_LEVEL`, which zstd's sources define as
/// `ZSTD_CLEVEL_DEFAULT`, that is 3.
#[verifier::external_body]
fn zstd_default_level() -> (level: i32)
    ensures
        level == 3,
{
    zstd::DEFAULT_COMPRESSION_LEVEL
}

/// The codec that turns a file of the given format into a tar stream.
pub open spec fn spec_decoder(fm: Format) -> Codec {
    match fm {
        Format::Tar => Codec::Plain,
        Format::Gzip => Codec::Gzip,
        Format::Bzip2 => Codec::Bzip2,
        Format::Xz => Codec::Xz,
        Format::Zstd => Codec::Zstd,
    }
}

/// The codec to read an archive of the given format with.
pub fn decoder_for(fm: Format) -> (c: Codec)
    ensures
        c == spec_decoder(fm),
{
    match fm {
        Format::Tar => Codec::Plain,
        Format::Gzip => Codec::Gzip,
        Format::Bzip2 => Codec::Bzip2,
        Format::Xz => Codec::Xz,
        Format::Zstd => Codec::Zstd,
    }
}

/// The encoder for writing an archive of the given format: gzip and xz take
/// levels 0 to 9 (default 6), bzip2 takes 1 to 9 (default 6), zstd takes 1 to
/// 22 (default 3), and a plain tar archive ignores the level.
pub open spec fn spec_encoder(fm: Format, level: Option<i32>) -> Result<Encoder, CodecError> {
    match fm {
        Format::Tar => Ok(Encoder::Plain),
        Format::Bzip2 => match level {
            None => Ok(Encoder::Bzip2 { level: 6 }),
            Some(l) => if 1 <= l <= 9 {
                Ok(Encoder::Bzip2 { level: l as u32 })
            } else {
                Err(CodecError::LevelOutOfRange)
            },
        },
        Format::Gzip => match level {
            None => Ok(Encoder::Gzip { level: 6 }),
            Some(l) => if 0 <= l <= 9 {
                Ok(Encoder::Gzip { level: l as u32 })
            } else {
                Err(CodecError::LevelOutOfRange)
            },
        },
        Format::Xz => match level {
            None => Ok(Encoder::Xz { level: 6 }),
            Some(l) => if 0 <= l <= 9 {
                Ok(Encoder::Xz { level: l as u32 })
            } else {
                Err(CodecError::LevelOutOfRange)
            },
        },
        Format::Zstd => match level {
            None => Ok(Encoder::Zstd { level: 3 }),
            Some(l) => if 1 <= l <= 22 {
                Ok(Encoder::Zstd { level: l })
            } else {
                Err(CodecError::LevelOutOfRange)
            },
        },
    }
}

/// The encoder to write an archive of the given format with, at the given
/// compression level or the format's default.
pub fn encoder_for(fm: Format, level: Option<i32>) -> (r: Result<Encoder, CodecError>)
    ensures
        r == spec_encoder(fm, level),
{
    match fm {
        Format::Tar => Ok(Encoder::Plain),
        Format::Bzip2 => match level {
            None => Ok(Encoder::Bzip2 { level: bzip2_default_level() }),
            Some(l) => if l < 1 {
                Err(CodecError::LevelOutOfRange)
            } else {
                match bzip2_level(l as u32) {
                    Some(b) => Ok(Encoder::Bzip2 { level: b }),
                    None => Err(CodecError::LevelOutOfRange),
                }
            },
        },
        Format::Gzip => match level {
            None => Ok(Encoder::Gzip { level: gzip_default_level() }),
            Some(l) => if 0 <= l && l <= 9 {
                Ok(Encoder::Gzip { level: l as u32 })
            } else {
                Err(CodecError::LevelOutOfRange)
            },
        },
        Format::Xz => match level {
            None => Ok(Encoder::Xz { level: XZ_DEFAULT_LEVEL }),
            Some(l) => if 0 <= l && l <= 9 {
                Ok(Encoder::Xz { level: l as u32 })
            } else {
                Err(CodecError::LevelOutOfRange)
            },
        },
        Format::Zstd => match level {
            None => Ok(Encoder::Zstd { level: zstd_default_level() }),
            Some(l) => if 1 <= l && l <= 22 {
                Ok(Encoder::Zstd { level: l })
            } else {
                Err(CodecError::LevelOutOfRange)
            },
        },
    }
}

/// The codec that reads back what an encoder writes.
pub open spec fn encoder_codec(e: Encoder) -> Codec {
    match e {
        Encoder::Plain => Codec::Plain,
        Encoder::Gzip { .. } => Codec::Gzip,
        Encoder::Bzip2 { .. } => Codec::Bzip2,
        Encoder::Xz { .. } => Codec::Xz,
        Encoder::Zstd { .. } => Codec::Zstd,
    }
}

/// Every archive is read back with the codec it was written with.
pub proof fn law_written_formats_are_readable(fm: Format, level: Option<i32>)
    ensures
        spec_encoder(fm, level) is Ok ==> spec_decoder(fm) == encoder_codec(
            spec_encoder(fm, level)->Ok_0,
        ),
{
}

/// Every format has an encoder at its default level.
pub proof fn law_default_level_always_works(fm: Format)
    ensures
        spec_encoder(fm, None) is Ok,
{
}

/// Gzip and xz accept every level from 0 to 9 as given, and no other.
pub proof fn law_gzip_xz_levels(l: i32)
    ensures
        0 <= l <= 9 ==> spec_encoder(Format::Gzip, Some(l)) == Ok::<Encoder, CodecError>(
            Encoder::Gzip { level: l as u32 },
        ),
        0 <= l <= 9 ==> spec_encoder(Format::Xz, Some(l)) == Ok::<Encoder, CodecError>(
            Encoder::Xz { level: l as u32 },
        ),
        !(0 <= l <= 9) ==> spec_encoder(Format::Gzip, Some(l)) == Err::<Encoder, CodecError>(
            CodecError::LevelOutOfRange,
        ),
        !(0 <= l <= 9) ==> spec_encoder(Format::Xz, Some(l)) == Err::<Encoder, CodecError>(
            CodecError::LevelOutOfRange,
        ),
{
}

/// Bzip2 accepts every level from 1 to 9 as given, and no other.
pub proof fn law_bzip2_levels(l: i32)
    ensures
        1 <= l <= 9 ==> spec_encoder(Format::Bzip2, Some(l)) == Ok::<Encoder, CodecError>(
            Encoder::Bzip2 { level: l as u32 },
        ),
        !(1 <= l <= 9) ==> spec_encoder(Format::Bzip2, Some(l)) == Err::<Encoder, CodecError>(
            CodecError::LevelOutOfRange,
        ),
{
}

/// Zstd accepts every level from 1 to 22 as given, and no other.
pub proof fn law_zstd_levels(l: i32)
    ensures
        1 <= l <= 22 ==> spec_encoder(Format::Zstd, Some(l)) == Ok::<Encoder, CodecError>(
            Encoder::Zstd { level: l },
        ),
        !(1 <= l <= 22) ==> spec_encoder(Format::Zstd, Some(l)) == Err::<Encoder, CodecError>(
            CodecError::LevelOutOfRange,
        ),
{
}

/// A plain tar archive takes any level and ignores it.
pub proof fn law_tar_ignores_level(level: Option<i32>)
    ensures
        spec_encoder(Format::Tar, level) == Ok::<Encoder, CodecError>(Encoder::Plain),
{
}

/// Without a level, each format uses its default: 6 for gzip, bzip2 and xz,
/// 3 for zstd.
pub proof fn law_default_levels()
    ensures
        spec_encoder(Format::Gzip, None) == Ok::<Encoder, CodecError>(Encoder::Gzip { level: 6 }),
        spec_encoder(Format::Bzip2, None) == Ok::<Encoder, CodecError>(Encoder::Bzip2 { level: 6 }),
        spec_encoder(Format::Xz, None) == Ok::<Encoder, CodecError>(Encoder::Xz { level: 6 }),
        spec_encoder(Format::Zstd, None) == Ok::<Encoder, CodecError>(Encoder::Zstd { level: 3 }),
{
}

} // verus!
