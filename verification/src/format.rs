use vstd::prelude::*;

verus! {

/// The archive and compression formats the tool knows about.
#[derive(Clone, Copy, Debug, PartialEq, Eq, Structural)]
pub enum Format {
    Tar,
    Gzip,
    Bzip2,
    Xz,
    Zstd,
}

/// Why the leading bytes of a file name no known format.
#[derive(Clone, Copy, Debug, PartialEq, Eq, Structural)]
pub enum DetectError {
    /// Fewer than `HEADER_LEN` bytes were available: the file ends before
    /// the header that detection reads, which is reported as the unexpected
    /// end of file that an exact read of `HEADER_LEN` bytes gives.
    TooShort,
    /// No known signature was found.
    UnknownFormat,
}

impl DetectError {
    /// The text that reports the error.
    pub open spec fn spec_message(self) -> Seq<char> {
        match self {
            DetectError::TooShort => "failed to fill whole buffer"@,
            DetectError::UnknownFormat => "Unknown file format"@,
        }
    }

    /// The text that reports the error.
    pub fn message(&self) -> (s: &'static str)
        ensures
            s@ == self.spec_message(),
    {
        match self {
            DetectError::TooShort => "failed to fill whole buffer",
            DetectError::UnknownFormat => "Unknown file format",
        }
    }
}

/// Number of leading bytes that format detection inspects.
pub const HEADER_LEN: usize = 300;

pub open spec fn gzip_magic(h: Seq<u8>) -> bool {
    h[0] == 0x1fu8 && h[1] == 0x8bu8
}

pub open spec fn xz_magic(h: Seq<u8>) -> bool {
    h[0] == 0xfdu8 && h[1] == 0x37u8 && h[2] == 0x7au8 && h[3] == 0x58u8 && h[4] == 0x5au8
        && h[5] == 0x00u8
}

/// The POSIX "ustar" marker at offset 257 of a tar header.
pub open spec fn ustar_magic(h: Seq<u8>) -> bool {
    h[257] == 0x75u8 && h[258] == 0x73u8 && h[259] == 0x74u8 && h[260] == 0x61u8 && h[261]
        == 0x72u8
}

pub open spec fn zstd_magic(h: Seq<u8>) -> bool {
    h[0] == 0x28u8 && h[1] == 0xb5u8 && h[2] == 0x2fu8 && h[3] == 0xfdu8
}

/// The format named by a header of at least `HEADER_LEN` bytes; signatures are
/// tried in the order gzip, xz, tar, zstd.
pub open spec fn spec_detect(h: Seq<u8>) -> Option<Format> {
    if gzip_magic(h) {
        Some(Format::Gzip)
    } else if xz_magic(h) {
        Some(Format::Xz)
    } else if ustar_magic(h) {
        Some(Format::Tar)
    } else if zstd_magic(h) {
        Some(Format::Zstd)
    } else {
        None
    }
}

/// Determines the format of a file from its first bytes.
pub fn determine_format(header: &[u8]) -> (res: Result<Format, DetectError>)
    ensures
        header@.len() < HEADER_LEN ==> res == Err::<Format, DetectError>(DetectError::TooShort),
        header@.len() >= HEADER_LEN ==> match spec_detect(header@) {
            Some(f) => res == Ok::<Format, DetectError>(f),
            None => res == Err::<Format, DetectError>(DetectError::UnknownFormat),
        },
{
    if header.len() < HEADER_LEN {
        return Err(DetectError::TooShort);
    }
    if header[0] == 0x1f && header[1] == 0x8b {
        Ok(Format::Gzip)
    } else if header[0] == 0xfd && header[1] == 0x37 && header[2] == 0x7a && header[3] == 0x58
        && header[4] == 0x5a && header[5] == 0x00 {
        Ok(Format::Xz)
    } else if header[257] == 0x75 && header[258] == 0x73 && header[259] == 0x74 && header[260]
        == 0x61 && header[261] == 0x72 {
        Ok(Format::Tar)
    } else if header[0] == 0x28 && header[1] == 0xb5 && header[2] == 0x2f && header[3] == 0xfd {
        Ok(Format::Zstd)
    } else {
        Err(DetectError::UnknownFormat)
    }
}


/// Only the first `HEADER_LEN` bytes of a file decide its format.
pub proof fn law_detection_reads_only_the_header(h1: Seq<u8>, h2: Seq<u8>)
    requires
        h1.len() >= HEADER_LEN,
        h2.len() >= HEADER_LEN,
        h1.take(HEADER_LEN as int) == h2.take(HEADER_LEN as int),
    ensures
        spec_detect(h1) == spec_detect(h2),
{
    assert forall|k: int| 0 <= k < HEADER_LEN implies h1[k] == h2[k] by {
        assert(h1.take(HEADER_LEN as int)[k] == h1[k]);
        assert(h2.take(HEADER_LEN as int)[k] == h2[k]);
    }
}

/// Every header that starts with the gzip signature `1f 8b` is gzip, whatever
/// its later bytes hold.
pub proof fn law_gzip_signature_is_gzip(h: Seq<u8>)
    requires
        h.len() >= HEADER_LEN,
        h[0] == 0x1fu8,
        h[1] == 0x8bu8,
    ensures
        spec_detect(h) == Some(Format::Gzip),
{
}

/// Every header that starts with the xz signature `fd 37 7a 58 5a 00` is xz.
pub proof fn law_xz_signature_is_xz(h: Seq<u8>)
    requires
        h.len() >= HEADER_LEN,
        h[0] == 0xfdu8,
        h[1] == 0x37u8,
        h[2] == 0x7au8,
        h[3] == 0x58u8,
        h[4] == 0x5au8,
        h[5] == 0x00u8,
    ensures
        spec_detect(h) == Some(Format::Xz),
{
}

/// A header with the five bytes "ustar" at offset 257 and no gzip or xz
/// signature is tar, whatever follows the marker (POSIX "ustar\0" and GNU
/// "ustar  " alike) and whatever else it holds.
pub proof fn law_ustar_marker_is_tar(h: Seq<u8>)
    requires
        h.len() >= HEADER_LEN,
        !(h[0] == 0x1fu8 && h[1] == 0x8bu8),
        !(h[0] == 0xfdu8 && h[1] == 0x37u8 && h[2] == 0x7au8 && h[3] == 0x58u8 && h[4] == 0x5au8
            && h[5] == 0x00u8),
        h[257] == 0x75u8,
        h[258] == 0x73u8,
        h[259] == 0x74u8,
        h[260] == 0x61u8,
        h[261] == 0x72u8,
    ensures
        spec_detect(h) == Some(Format::Tar),
{
}

/// A header with the zstd signature `28 b5 2f fd` and none of the earlier
/// markers is zstd.
pub proof fn law_zstd_signature_is_zstd(h: Seq<u8>)
    requires
        h.len() >= HEADER_LEN,
        !(h[0] == 0x1fu8 && h[1] == 0x8bu8),
        !(h[257] == 0x75u8 && h[258] == 0x73u8 && h[259] == 0x74u8 && h[260] == 0x61u8 && h[261]
            == 0x72u8),
        h[0] == 0x28u8,
        h[1] == 0xb5u8,
        h[2] == 0x2fu8,
        h[3] == 0xfdu8,
    ensures
        spec_detect(h) == Some(Format::Zstd),
{
}

/// A header with none of the signatures names no format.
pub proof fn law_no_signature_no_format(h: Seq<u8>)
    requires
        h.len() >= HEADER_LEN,
        !(h[0] == 0x1fu8 && h[1] == 0x8bu8),
        !(h[0] == 0xfdu8 && h[1] == 0x37u8 && h[2] == 0x7au8 && h[3] == 0x58u8 && h[4] == 0x5au8
            && h[5] == 0x00u8),
        !(h[257] == 0x75u8 && h[258] == 0x73u8 && h[259] == 0x74u8 && h[260] == 0x61u8 && h[261]
            == 0x72u8),
        !(h[0] == 0x28u8 && h[1] == 0xb5u8 && h[2] == 0x2fu8 && h[3] == 0xfdu8),
    ensures
        spec_detect(h) is None,
{
}

/// Detection depends only on the first six bytes and the five marker bytes
/// at offset 257: two headers that agree there are detected alike.
pub proof fn law_detection_reads_only_signatures(h1: Seq<u8>, h2: Seq<u8>)
    requires
        h1.len() >= HEADER_LEN,
        h2.len() >= HEADER_LEN,
        forall|k: int| 0 <= k < 6 ==> h1[k] == h2[k],
        forall|k: int| 257 <= k < 262 ==> h1[k] == h2[k],
    ensures
        spec_detect(h1) == spec_detect(h2),
{
    assert(h1[0] == h2[0] && h1[1] == h2[1] && h1[2] == h2[2] && h1[3] == h2[3] && h1[4] == h2[4]
        && h1[5] == h2[5]);
    assert(h1[257] == h2[257] && h1[258] == h2[258] && h1[259] == h2[259] && h1[260] == h2[260]
        && h1[261] == h2[261]);
}

/// An explicit format always wins over the extension, whatever the format
/// (tar included) and whatever the extension.
pub proof fn law_explicit_format_wins(f: Format, ext: Option<Seq<char>>)
    ensures
        spec_choose_format(Some(f), ext) == f,
{
}

/// Without an explicit format, the extension decides, and without an
/// extension the archive is plain tar.
pub proof fn law_extension_decides_otherwise(e: Seq<char>)
    ensures
        spec_choose_format(None, Some(e)) == spec_format_from_extension(e),
        spec_choose_format(None, None) == Format::Tar,
{
}

/// Detection never names bzip2: of the formats the tool knows, it recognises
/// gzip, xz, tar and zstd only.
pub proof fn law_detection_never_yields_bzip2(h: Seq<u8>)
    ensures
        spec_detect(h) != Some(Format::Bzip2),
{
}

impl Format {
    /// The human-readable name of the format, as shown by format detection.
    pub open spec fn spec_description(self) -> Seq<char> {
        match self {
            Format::Tar => "Tar Archive"@,
            Format::Gzip => "GZip Data"@,
            Format::Bzip2 => "BZip2 Data"@,
            Format::Xz => "XZ Data"@,
            Format::Zstd => "Zstandard Data"@,
        }
    }

    /// The human-readable name of the format.
    pub fn description(&self) -> (s: &'static str)
        ensures
            s@ == self.spec_description(),
    {
        match self {
            Format::Tar => "Tar Archive",
            Format::Gzip => "GZip Data",
            Format::Bzip2 => "BZip2 Data",
            Format::Xz => "XZ Data",
            Format::Zstd => "Zstandard Data",
        }
    }
}

/// Character-wise equality of two slices.
pub fn chars_equal(a: &[char], b: &[char]) -> (r: bool)
    ensures
        r == (a@ == b@),
{
    if a.len() != b.len() {
        return false;
    }
    let mut i: usize = 0;
    while i < a.len()
        invariant
            a@.len() == b@.len(),
            i <= a@.len(),
            a@.take(i as int) == b@.take(i as int),
        decreases a@.len() - i,
    {
        if a[i] != b[i] {
            assert(a@[i as int] != b@[i as int]);
            return false;
        }
        assert(a@.take(i + 1) == a@.take(i as int).push(a@[i as int]));
        assert(b@.take(i + 1) == b@.take(i as int).push(b@[i as int]));
        i = i + 1;
    }
    assert(a@.take(i as int) == a@);
    assert(b@.take(i as int) == b@);
    true
}

/// The format that a file extension (without the dot) names when no format is
/// given explicitly; unknown extensions fall back to a plain tar archive.
pub open spec fn spec_format_from_extension(e: Seq<char>) -> Format {
    if e == "gz"@ || e == "tgz"@ || e == "gzip"@ || e == "tgzip"@ {
        Format::Gzip
    } else if e == "bz2"@ || e == "tbz2"@ || e == "bzip2"@ || e == "tbzip2"@ {
        Format::Bzip2
    } else if e == "xz"@ || e == "txz"@ || e == "lzma"@ || e == "tlzma"@ || e == "lzma2"@ || e
        == "tlzma2"@ {
        Format::Xz
    } else if e == "zst"@ || e == "tzst"@ || e == "zstd"@ || e == "tzstd"@ {
        Format::Zstd
    } else {
        Format::Tar
    }
}

/// The format to write for an archive: the explicit choice if there is one,
/// otherwise the one that the file's extension names, otherwise tar.
pub open spec fn spec_choose_format(explicit: Option<Format>, ext: Option<Seq<char>>) -> Format {
    match explicit {
        Some(f) => f,
        None => match ext {
            Some(e) => spec_format_from_extension(e),
            None => Format::Tar,
        },
    }
}

/// Maps a file extension (without the dot) to the format it names.
pub fn format_from_extension(ext: &[char]) -> (f: Format)
    ensures
        f == spec_format_from_extension(ext@),
{
    proof {
        reveal_strlit("gz");
        reveal_strlit("tgz");
        reveal_strlit("gzip");
        reveal_strlit("tgzip");
        reveal_strlit("bz2");
        reveal_strlit("tbz2");
        reveal_strlit("bzip2");
        reveal_strlit("tbzip2");
        reveal_strlit("xz");
        reveal_strlit("txz");
        reveal_strlit("lzma");
        reveal_strlit("tlzma");
        reveal_strlit("lzma2");
        reveal_strlit("tlzma2");
        reveal_strlit("zst");
        reveal_strlit("tzst");
        reveal_strlit("zstd");
        reveal_strlit("tzstd");
    }
    let gz: [char; 2] = ['g', 'z'];
    let tgz: [char; 3] = ['t', 'g', 'z'];
    let gzip: [char; 4] = ['g', 'z', 'i', 'p'];
    let tgzip: [char; 5] = ['t', 'g', 'z', 'i', 'p'];
    let bz2: [char; 3] = ['b', 'z', '2'];
    let tbz2: [char; 4] = ['t', 'b', 'z', '2'];
    let bzip2: [char; 5] = ['b', 'z', 'i', 'p', '2'];
    let tbzip2: [char; 6] = ['t', 'b', 'z', 'i', 'p', '2'];
    let xz: [char; 2] = ['x', 'z'];
    let txz: [char; 3] = ['t', 'x', 'z'];
    let lzma: [char; 4] = ['l', 'z', 'm', 'a'];
    let tlzma: [char; 5] = ['t', 'l', 'z', 'm', 'a'];
    let lzma2: [char; 5] = ['l', 'z', 'm', 'a', '2'];
    let tlzma2: [char; 6] = ['t', 'l', 'z', 'm', 'a', '2'];
    let zst: [char; 3] = ['z', 's', 't'];
    let tzst: [char; 4] = ['t', 'z', 's', 't'];
    let zstd: [char; 4] = ['z', 's', 't', 'd'];
    let tzstd: [char; 5] = ['t', 'z', 's', 't', 'd'];
    assert(gz@ =~= "gz"@);
    assert(tgz@ =~= "tgz"@);
    assert(gzip@ =~= "gzip"@);
    assert(tgzip@ =~= "tgzip"@);
    assert(bz2@ =~= "bz2"@);
    assert(tbz2@ =~= "tbz2"@);
    assert(bzip2@ =~= "bzip2"@);
    assert(tbzip2@ =~= "tbzip2"@);
    assert(xz@ =~= "xz"@);
    assert(txz@ =~= "txz"@);
    assert(lzma@ =~= "lzma"@);
    assert(tlzma@ =~= "tlzma"@);
    assert(lzma2@ =~= "lzma2"@);
    assert(tlzma2@ =~= "tlzma2"@);
    assert(zst@ =~= "zst"@);
    assert(tzst@ =~= "tzst"@);
    assert(zstd@ =~= "zstd"@);
    assert(tzstd@ =~= "tzstd"@);
    if chars_equal(ext, &gz) || chars_equal(ext, &tgz) || chars_equal(ext, &gzip) || chars_equal(
        ext,
        &tgzip,
    ) {
        Format::Gzip
    } else if chars_equal(ext, &bz2) || chars_equal(ext, &tbz2) || chars_equal(ext, &bzip2)
        || chars_equal(ext, &tbzip2) {
        Format::Bzip2
    } else if chars_equal(ext, &xz) || chars_equal(ext, &txz) || chars_equal(ext, &lzma)
        || chars_equal(ext, &tlzma) || chars_equal(ext, &lzma2) || chars_equal(ext, &tlzma2) {
        Format::Xz
    } else if chars_equal(ext, &zst) || chars_equal(ext, &tzst) || chars_equal(ext, &zstd)
        || chars_equal(ext, &tzstd) {
        Format::Zstd
    } else {
        Format::Tar
    }
}

/// Chooses the format of an archive to create from an explicit choice and the
/// extension of the archive's file name.
pub fn choose_format(explicit: Option<Format>, ext: Option<&[char]>) -> (f: Format)
    ensures
        f == spec_choose_format(
            explicit,
            match ext {
                Some(e) => Some(e@),
                None => None,
            },
        ),
{
    match explicit {
        Some(f) => f,
        None => match ext {
            Some(e) => format_from_extension(e),
            None => Format::Tar,
        },
    }
}

/// The extensions that name each format; every other extension, `"tar"`
/// and the empty one included, names a plain tar archive.
pub proof fn law_extension_table(e: Seq<char>)
    ensures
        (e == "gz"@ || e == "tgz"@ || e == "gzip"@ || e == "tgzip"@) ==> spec_format_from_extension(e)
            == Format::Gzip,
        (e == "bz2"@ || e == "tbz2"@ || e == "bzip2"@ || e == "tbzip2"@) ==> spec_format_from_extension(
            e,
        ) == Format::Bzip2,
        (e == "xz"@ || e == "txz"@ || e == "lzma"@ || e == "tlzma"@ || e == "lzma2"@ || e
            == "tlzma2"@) ==> spec_format_from_extension(e) == Format::Xz,
        (e == "zst"@ || e == "tzst"@ || e == "zstd"@ || e == "tzstd"@) ==> spec_format_from_extension(e)
            == Format::Zstd,
        spec_format_from_extension(e) == Format::Gzip ==> (e == "gz"@ || e == "tgz"@ || e == "gzip"@
            || e == "tgzip"@),
        spec_format_from_extension(e) == Format::Bzip2 ==> (e == "bz2"@ || e == "tbz2"@ || e
            == "bzip2"@ || e == "tbzip2"@),
        spec_format_from_extension(e) == Format::Xz ==> (e == "xz"@ || e == "txz"@ || e == "lzma"@
            || e == "tlzma"@ || e == "lzma2"@ || e == "tlzma2"@),
        spec_format_from_extension(e) == Format::Zstd ==> (e == "zst"@ || e == "tzst"@ || e
            == "zstd"@ || e == "tzstd"@),
{
    reveal_strlit("gz");
    reveal_strlit("tgz");
    reveal_strlit("gzip");
    reveal_strlit("tgzip");
    reveal_strlit("bz2");
    reveal_strlit("tbz2");
    reveal_strlit("bzip2");
    reveal_strlit("tbzip2");
    reveal_strlit("xz");
    reveal_strlit("txz");
    reveal_strlit("lzma");
    reveal_strlit("tlzma");
    reveal_strlit("lzma2");
    reveal_strlit("tlzma2");
    reveal_strlit("zst");
    reveal_strlit("tzst");
    reveal_strlit("zstd");
    reveal_strlit("tzstd");
    if e == "gz"@ {
        assert(e.len() == 2);
    }
    if e == "tgz"@ {
        assert(e.len() == 3);
    }
    if e == "gzip"@ {
        assert(e.len() == 4);
    }
    if e == "tgzip"@ {
        assert(e.len() == 5);
    }
    if e == "bz2"@ {
        assert(e.len() == 3);
        assert("gz"@.len() == 2);
        assert(e[0] == 'b' && "tgz"@[0] == 't');
        assert("gzip"@.len() == 4);
        assert("tgzip"@.len() == 5);
    }
    if e == "tbz2"@ {
        assert(e.len() == 4);
        assert("gz"@.len() == 2);
        assert("tgz"@.len() == 3);
        assert(e[0] == 't' && "gzip"@[0] == 'g');
        assert("tgzip"@.len() == 5);
    }
    if e == "bzip2"@ {
        assert(e.len() == 5);
        assert("gz"@.len() == 2);
        assert("tgz"@.len() == 3);
        assert("gzip"@.len() == 4);
        assert(e[0] == 'b' && "tgzip"@[0] == 't');
    }
    if e == "tbzip2"@ {
        assert(e.len() == 6);
        assert("gz"@.len() == 2);
        assert("tgz"@.len() == 3);
        assert("gzip"@.len() == 4);
        assert("tgzip"@.len() == 5);
    }
    if e == "xz"@ {
        assert(e.len() == 2);
        assert(e[0] == 'x' && "gz"@[0] == 'g');
        assert("tgz"@.len() == 3);
        assert("gzip"@.len() == 4);
        assert("tgzip"@.len() == 5);
        assert("bz2"@.len() == 3);
        assert("tbz2"@.len() == 4);
        assert("bzip2"@.len() == 5);
        assert("tbzip2"@.len() == 6);
    }
    if e == "txz"@ {
        assert(e.len() == 3);
        assert("gz"@.len() == 2);
        assert(e[1] == 'x' && "tgz"@[1] == 'g');
        assert("gzip"@.len() == 4);
        assert("tgzip"@.len() == 5);
        assert(e[0] == 't' && "bz2"@[0] == 'b');
        assert("tbz2"@.len() == 4);
        assert("bzip2"@.len() == 5);
        assert("tbzip2"@.len() == 6);
    }
    if e == "lzma"@ {
        assert(e.len() == 4);
        assert("gz"@.len() == 2);
        assert("tgz"@.len() == 3);
        assert(e[0] == 'l' && "gzip"@[0] == 'g');
        assert("tgzip"@.len() == 5);
        assert("bz2"@.len() == 3);
        assert(e[0] == 'l' && "tbz2"@[0] == 't');
        assert("bzip2"@.len() == 5);
        assert("tbzip2"@.len() == 6);
    }
    if e == "tlzma"@ {
        assert(e.len() == 5);
        assert("gz"@.len() == 2);
        assert("tgz"@.len() == 3);
        assert("gzip"@.len() == 4);
        assert(e[1] == 'l' && "tgzip"@[1] == 'g');
        assert("bz2"@.len() == 3);
        assert("tbz2"@.len() == 4);
        assert(e[0] == 't' && "bzip2"@[0] == 'b');
        assert("tbzip2"@.len() == 6);
    }
    if e == "lzma2"@ {
        assert(e.len() == 5);
        assert("gz"@.len() == 2);
        assert("tgz"@.len() == 3);
        assert("gzip"@.len() == 4);
        assert(e[0] == 'l' && "tgzip"@[0] == 't');
        assert("bz2"@.len() == 3);
        assert("tbz2"@.len() == 4);
        assert(e[0] == 'l' && "bzip2"@[0] == 'b');
        assert("tbzip2"@.len() == 6);
    }
    if e == "tlzma2"@ {
        assert(e.len() == 6);
        assert("gz"@.len() == 2);
        assert("tgz"@.len() == 3);
        assert("gzip"@.len() == 4);
        assert("tgzip"@.len() == 5);
        assert("bz2"@.len() == 3);
        assert("tbz2"@.len() == 4);
        assert("bzip2"@.len() == 5);
        assert(e[1] == 'l' && "tbzip2"@[1] == 'b');
    }
    if e == "zst"@ {
        assert(e.len() == 3);
        assert("gz"@.len() == 2);
        assert(e[0] == 'z' && "tgz"@[0] == 't');
        assert("gzip"@.len() == 4);
        assert("tgzip"@.len() == 5);
        assert(e[0] == 'z' && "bz2"@[0] == 'b');
        assert("tbz2"@.len() == 4);
        assert("bzip2"@.len() == 5);
        assert("tbzip2"@.len() == 6);
        assert("xz"@.len() == 2);
        assert(e[0] == 'z' && "txz"@[0] == 't');
        assert("lzma"@.len() == 4);
        assert("tlzma"@.len() == 5);
        assert("lzma2"@.len() == 5);
        assert("tlzma2"@.len() == 6);
    }
    if e == "tzst"@ {
        assert(e.len() == 4);
        assert("gz"@.len() == 2);
        assert("tgz"@.len() == 3);
        assert(e[0] == 't' && "gzip"@[0] == 'g');
        assert("tgzip"@.len() == 5);
        assert("bz2"@.len() == 3);
        assert(e[1] == 'z' && "tbz2"@[1] == 'b');
        assert("bzip2"@.len() == 5);
        assert("tbzip2"@.len() == 6);
        assert("xz"@.len() == 2);
        assert("txz"@.len() == 3);
        assert(e[0] == 't' && "lzma"@[0] == 'l');
        assert("tlzma"@.len() == 5);
        assert("lzma2"@.len() == 5);
        assert("tlzma2"@.len() == 6);
    }
    if e == "zstd"@ {
        assert(e.len() == 4);
        assert("gz"@.len() == 2);
        assert("tgz"@.len() == 3);
        assert(e[0] == 'z' && "gzip"@[0] == 'g');
        assert("tgzip"@.len() == 5);
        assert("bz2"@.len() == 3);
        assert(e[0] == 'z' && "tbz2"@[0] == 't');
        assert("bzip2"@.len() == 5);
        assert("tbzip2"@.len() == 6);
        assert("xz"@.len() == 2);
        assert("txz"@.len() == 3);
        assert(e[0] == 'z' && "lzma"@[0] == 'l');
        assert("tlzma"@.len() == 5);
        assert("lzma2"@.len() == 5);
        assert("tlzma2"@.len() == 6);
    }
    if e == "tzstd"@ {
        assert(e.len() == 5);
        assert("gz"@.len() == 2);
        assert("tgz"@.len() == 3);
        assert("gzip"@.len() == 4);
        assert(e[1] == 'z' && "tgzip"@[1] == 'g');
        assert("bz2"@.len() == 3);
        assert("tbz2"@.len() == 4);
        assert(e[0] == 't' && "bzip2"@[0] == 'b');
        assert("tbzip2"@.len() == 6);
        assert("xz"@.len() == 2);
        assert("txz"@.len() == 3);
        assert("lzma"@.len() == 4);
        assert(e[1] == 'z' && "tlzma"@[1] == 'l');
        assert(e[0] == 't' && "lzma2"@[0] == 'l');
        assert("tlzma2"@.len() == 6);
    }
}

/// The names the formats are shown by.
pub proof fn law_description_table()
    ensures
        Format::Tar.spec_description() == "Tar Archive"@,
        Format::Gzip.spec_description() == "GZip Data"@,
        Format::Bzip2.spec_description() == "BZip2 Data"@,
        Format::Xz.spec_description() == "XZ Data"@,
        Format::Zstd.spec_description() == "Zstandard Data"@,
        DetectError::UnknownFormat.spec_message() == "Unknown file format"@,
        DetectError::TooShort.spec_message() == "failed to fill whole buffer"@,
{
}

} // verus!
