use dtar::extract::{entry_selected, EntryAction, ExtractPlan, HEADER_BLOCK_LEN, TYPE_FLAG_OFFSET};
use dtar::order::{compare_bytes, directory_unpack_order, ByteOrder};

fn header(flag: u8) -> Vec<u8> {
    let mut h = vec![0u8; HEADER_BLOCK_LEN];
    h[TYPE_FLAG_OFFSET] = flag;
    h
}

fn filters(fs: &[&str]) -> Vec<String> {
    fs.iter().map(|s| s.to_string()).collect()
}

#[test]
fn no_filters_select_everything() {
    assert!(entry_selected("a/b/c", &filters(&[])));
    assert!(entry_selected("", &filters(&[])));
}

#[test]
fn filters_match_whole_components() {
    let fs = filters(&["a/b"]);
    assert!(entry_selected("a/b", &fs));
    assert!(entry_selected("a/b/c", &fs));
    assert!(!entry_selected("a/bc", &fs));
    assert!(!entry_selected("x/a/b", &fs));
}

#[test]
fn any_filter_suffices() {
    let fs = filters(&["x", "a"]);
    assert!(entry_selected("a/file", &fs));
    assert!(entry_selected("x", &fs));
    assert!(!entry_selected("y/file", &fs));
}

#[test]
fn adding_filters_selects_more() {
    assert!(!entry_selected("b/f", &filters(&["a"])));
    assert!(entry_selected("b/f", &filters(&["a", "b"])));
    assert!(entry_selected("a/f", &filters(&["a", "b"])));
}

#[test]
fn plan_defers_directories_and_counts() {
    let mut plan = ExtractPlan::new(filters(&[]));
    assert_eq!(plan.next_entry("dir/", b"dir/".to_vec(), &header(b'5')), EntryAction::Defer);
    assert_eq!(plan.next_entry("dir/f", b"dir/f".to_vec(), &header(b'0')), EntryAction::Unpack);
    assert_eq!(plan.next_entry("old", b"old".to_vec(), &header(0)), EntryAction::Unpack);
    assert_eq!(plan.next_entry("ln", b"ln".to_vec(), &header(b'2')), EntryAction::Unpack);
    assert_eq!(plan.extracted(), 4);
    assert_eq!(plan.deferred_len(), 1);
}

#[test]
fn plan_skips_filtered_entries_without_counting() {
    let mut plan = ExtractPlan::new(filters(&["keep"]));
    assert_eq!(plan.next_entry("drop/", b"drop/".to_vec(), &header(b'5')), EntryAction::Skip);
    assert_eq!(plan.next_entry("drop/f", b"drop/f".to_vec(), &header(b'0')), EntryAction::Skip);
    assert_eq!(plan.next_entry("keep/", b"keep/".to_vec(), &header(b'5')), EntryAction::Defer);
    assert_eq!(plan.next_entry("keep/f", b"keep/f".to_vec(), &header(b'0')), EntryAction::Unpack);
    assert_eq!(plan.extracted(), 2);
    assert_eq!(plan.deferred_len(), 1);
}

#[test]
fn plan_orders_deferred_directories() {
    let mut plan = ExtractPlan::new(filters(&[]));
    for p in ["a/", "a/b/", "c/", "a/b/c/"] {
        assert_eq!(plan.next_entry(p, p.as_bytes().to_vec(), &header(b'5')), EntryAction::Defer);
    }
    assert_eq!(plan.unpack_order(), vec![2, 3, 1, 0]);
}

#[test]
fn unpack_order_is_descending_and_stable() {
    let paths: Vec<Vec<u8>> = ["a/", "a/b/", "c/", "a/b/"].iter().map(|s| s.as_bytes().to_vec()).collect();
    assert_eq!(directory_unpack_order(&paths), vec![2, 1, 3, 0]);
}

#[test]
fn unpack_order_of_nothing() {
    assert_eq!(directory_unpack_order(&Vec::new()), Vec::<usize>::new());
}

#[test]
fn contents_come_before_their_directory() {
    let paths: Vec<Vec<u8>> = ["x", "x/y", "x/y/z", "w"].iter().map(|s| s.as_bytes().to_vec()).collect();
    let order = directory_unpack_order(&paths);
    let pos = |i: usize| order.iter().position(|&k| k == i).unwrap();
    assert!(pos(2) < pos(1));
    assert!(pos(1) < pos(0));
    assert_eq!(order, vec![2, 1, 0, 3]);
}

#[test]
fn byte_comparison() {
    assert_eq!(compare_bytes(b"abc", b"abd"), ByteOrder::Less);
    assert_eq!(compare_bytes(b"abd", b"abc"), ByteOrder::Greater);
    assert_eq!(compare_bytes(b"ab", b"abc"), ByteOrder::Less);
    assert_eq!(compare_bytes(b"abc", b"ab"), ByteOrder::Greater);
    assert_eq!(compare_bytes(b"abc", b"abc"), ByteOrder::Equal);
    assert_eq!(compare_bytes(b"", b""), ByteOrder::Equal);
    assert_eq!(compare_bytes(&[0xff], &[0x00, 0x01]), ByteOrder::Greater);
}
