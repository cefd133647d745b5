use dtar::mode::{extract_strategy, ExtractMode, ExtractStrategy, Progress, Source};

const MODES: [ExtractMode; 6] = [
    ExtractMode::Direct,
    ExtractMode::Processor,
    ExtractMode::Memory,
    ExtractMode::Storage,
    ExtractMode::StorageKeep,
    ExtractMode::Sync,
];

#[test]
fn direct_mode_tracks_bytes() {
    assert_eq!(
        extract_strategy(ExtractMode::Direct, false),
        ExtractStrategy { progress: Progress::Bytes, source: Source::Stream }
    );
}

#[test]
fn counting_modes() {
    assert_eq!(
        extract_strategy(ExtractMode::Processor, false),
        ExtractStrategy { progress: Progress::Entries, source: Source::CountAlongside }
    );
    assert_eq!(
        extract_strategy(ExtractMode::Memory, false),
        ExtractStrategy { progress: Progress::Entries, source: Source::Memory }
    );
    assert_eq!(
        extract_strategy(ExtractMode::Storage, false),
        ExtractStrategy { progress: Progress::Entries, source: Source::TempFile { keep: false } }
    );
    assert_eq!(
        extract_strategy(ExtractMode::StorageKeep, false),
        ExtractStrategy { progress: Progress::Entries, source: Source::TempFile { keep: true } }
    );
    assert_eq!(
        extract_strategy(ExtractMode::Sync, false),
        ExtractStrategy { progress: Progress::Entries, source: Source::CountFirst }
    );
}

#[test]
fn no_progress_overrides_every_mode() {
    for m in MODES {
        assert_eq!(
            extract_strategy(m, true),
            ExtractStrategy { progress: Progress::Hidden, source: Source::Stream }
        );
    }
}
