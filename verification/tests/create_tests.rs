use dtar::create::{
    add_steps, existing_file_action, overwrite_confirmed, size_sources, total_size, AddStep,
    ExistingFile, PathKind,
};

#[test]
fn steps_follow_path_kinds() {
    let kinds = vec![PathKind::Directory, PathKind::Other, PathKind::File, PathKind::Directory];
    assert_eq!(
        add_steps(&kinds, false),
        vec![AddStep::Directory(0), AddStep::File(2), AddStep::Directory(3)]
    );
}

#[test]
fn content_directory_replaces_paths() {
    let kinds = vec![PathKind::Directory, PathKind::File];
    assert_eq!(add_steps(&kinds, true), vec![AddStep::Contents]);
    assert_eq!(add_steps(&Vec::new(), true), vec![AddStep::Contents]);
}

#[test]
fn no_paths_no_steps() {
    assert_eq!(add_steps(&Vec::new(), false), Vec::<AddStep>::new());
    assert_eq!(add_steps(&vec![PathKind::Other], false), Vec::<AddStep>::new());
}

#[test]
fn what_is_measured() {
    let kinds = vec![PathKind::File, PathKind::Other, PathKind::Directory];
    assert_eq!(size_sources(&kinds, true, false), vec![AddStep::Contents]);
    assert_eq!(size_sources(&kinds, true, true), vec![AddStep::Contents]);
    assert_eq!(size_sources(&kinds, false, true), vec![AddStep::File(0), AddStep::Directory(2)]);
    assert_eq!(size_sources(&kinds, false, false), Vec::<AddStep>::new());
}

#[test]
fn totals() {
    assert_eq!(total_size(&vec![]), Some(0));
    assert_eq!(total_size(&vec![1, 2, 3]), Some(6));
    assert_eq!(total_size(&vec![u64::MAX]), Some(u64::MAX));
    assert_eq!(total_size(&vec![u64::MAX - 1, 1]), Some(u64::MAX));
    assert_eq!(total_size(&vec![u64::MAX, 1]), None);
    assert_eq!(total_size(&vec![u64::MAX, 1, 0]), None);
}

#[test]
fn existing_files() {
    assert_eq!(existing_file_action(false, true, false), ExistingFile::Write);
    assert_eq!(existing_file_action(false, false, false), ExistingFile::Write);
    assert_eq!(existing_file_action(true, true, true), ExistingFile::Abort);
    assert_eq!(existing_file_action(true, true, false), ExistingFile::Abort);
    assert_eq!(existing_file_action(true, false, false), ExistingFile::Ask);
    assert_eq!(existing_file_action(true, false, true), ExistingFile::Write);
}

#[test]
fn answers() {
    assert!(overwrite_confirmed(Some(true)));
    assert!(!overwrite_confirmed(Some(false)));
    assert!(!overwrite_confirmed(None));
}
