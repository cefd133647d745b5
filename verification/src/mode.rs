use vstd::prelude::*;

verus! {

/// How an archive is read during extraction so that a progress bar can be
/// shown.
#[derive(Clone, Copy, Debug, PartialEq, Eq, Structural)]
pub enum ExtractMode {
    /// Track how much of the file has been read.
    Direct,
    /// Count the entries in a second reader while extracting.
    Processor,
    /// Decompress into memory, count, then extract.
    Memory,
    /// Decompress into a file on disk, count, extract, then delete it.
    Storage,
    /// Like `Storage`, but keep the decompressed file.
    StorageKeep,
    /// Read the file to count its entries, then read it again to extract.
    Sync,
}

/// What the extraction progress bar measures.
#[derive(Clone, Copy, Debug, PartialEq, Eq, Structural)]
pub enum Progress {
    /// Bytes of the archive file read so far, out of the file's size.
    Bytes,
    /// Entries processed so far, out of the number of entries.
    Entries,
    /// No progress bar.
    Hidden,
}

/// Where the entries are read from.
#[derive(Clone, Copy, Debug, PartialEq, Eq, Structural)]
pub enum Source {
    /// Straight from the archive file.
    Stream,
    /// From the archive file, while another reader counts its entries.
    CountAlongside,
    /// From the archive file, after a first complete pass counted them.
    CountFirst,
    /// From the decompressed tar stream held in memory.
    Memory,
    /// From the decompressed tar stream written to a file.
    TempFile { keep: bool },
}

/// How an extraction proceeds.
#[derive(Clone, Copy, Debug, PartialEq, Eq, Structural)]
pub struct ExtractStrategy {
    pub progress: Progress,
    pub source: Source,
}

/// Without a progress bar every mode is dropped and the archive is read
/// once, straight through; otherwise each mode reads as it describes, and all
/// but the direct mode count entries.
pub open spec fn spec_strategy(mode: ExtractMode, no_progress: bool) -> ExtractStrategy {
    if no_progress {
        ExtractStrategy { progress: Progress::Hidden, source: Source::Stream }
    } else {
        match mode {
            ExtractMode::Direct => ExtractStrategy { progress: Progress::Bytes, source: Source::Stream },
            ExtractMode::Processor => ExtractStrategy {
                progress: Progress::Entries,
                source: Source::CountAlongside,
            },
            ExtractMode::Memory => ExtractStrategy { progress: Progress::Entries, source: Source::Memory },
            ExtractMode::Storage => ExtractStrategy {
                progress: Progress::Entries,
                source: Source::TempFile { keep: false },
            },
            ExtractMode::StorageKeep => ExtractStrategy {
                progress: Progress::Entries,
                source: Source::TempFile { keep: true },
            },
            ExtractMode::Sync => ExtractStrategy {
                progress: Progress::Entries,
                source: Source::CountFirst,
            },
        }
    }
}

/// Chooses how to extract from the mode and the no-progress flag.
pub fn extract_strategy(mode: ExtractMode, no_progress: bool) -> (s: ExtractStrategy)
    ensures
        s == spec_strategy(mode, no_progress),
{
    if no_progress {
        return ExtractStrategy { progress: Progress::Hidden, source: Source::Stream };
    }
    match mode {
        ExtractMode::Direct => ExtractStrategy { progress: Progress::Bytes, source: Source::Stream },
        ExtractMode::Processor => ExtractStrategy {
            progress: Progress::Entries,
            source: Source::CountAlongside,
        },
        ExtractMode::Memory => ExtractStrategy { progress: Progress::Entries, source: Source::Memory },
        ExtractMode::Storage => ExtractStrategy {
            progress: Progress::Entries,
            source: Source::TempFile { keep: false },
        },
        ExtractMode::StorageKeep => ExtractStrategy {
            progress: Progress::Entries,
            source: Source::TempFile { keep: true },
        },
        ExtractMode::Sync => ExtractStrategy { progress: Progress::Entries, source: Source::CountFirst },
    }
}

/// The no-progress flag overrides every mode, and with a progress bar only
/// the direct mode measures bytes; every other mode counts entries.
pub proof fn law_no_progress_overrides_modes(mode: ExtractMode)
    ensures
        spec_strategy(mode, true) == (ExtractStrategy { progress: Progress::Hidden, source: Source::Stream }),
        (spec_strategy(mode, false).progress == Progress::Bytes) == (mode == ExtractMode::Direct),
        spec_strategy(mode, false).progress != Progress::Hidden,
{
}

/// With a progress bar, each mode reads the archive its own way: each
/// source belongs to exactly one mode.
pub proof fn law_each_mode_its_source(mode: ExtractMode)
    ensures
        (spec_strategy(mode, false).source == Source::Stream) == (mode == ExtractMode::Direct),
        (spec_strategy(mode, false).source == Source::CountAlongside) == (mode
            == ExtractMode::Processor),
        (spec_strategy(mode, false).source == Source::Memory) == (mode == ExtractMode::Memory),
        (spec_strategy(mode, false).source == (Source::TempFile { keep: false })) == (mode
            == ExtractMode::Storage),
        (spec_strategy(mode, false).source == (Source::TempFile { keep: true })) == (mode
            == ExtractMode::StorageKeep),
        (spec_strategy(mode, false).source == Source::CountFirst) == (mode == ExtractMode::Sync),
{
}

} // verus!
