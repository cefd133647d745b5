use dtar::listing::{listing_line, ListingLine};

fn line(s: &str) -> ListingLine {
    let cs: Vec<char> = s.chars().collect();
    listing_line(&cs)
}

#[test]
fn plain_names() {
    assert_eq!(line("file.txt"), ListingLine::Whole);
    assert_eq!(line(""), ListingLine::Whole);
}

#[test]
fn files_in_directories() {
    assert_eq!(line("dir/file"), ListingLine::File { slash: 3 });
    assert_eq!(line("a/b/c"), ListingLine::File { slash: 3 });
    assert_eq!(line("/x"), ListingLine::File { slash: 0 });
    assert_eq!(line("é/ü"), ListingLine::File { slash: 1 });
}

#[test]
fn nested_directories() {
    assert_eq!(line("a/b/"), ListingLine::Directory { slash: 1, end: 3 });
    assert_eq!(line("a/bc/d/"), ListingLine::Directory { slash: 4, end: 6 });
    assert_eq!(line("a//"), ListingLine::Directory { slash: 1, end: 2 });
}

#[test]
fn top_level_directories_are_hidden() {
    assert_eq!(line("top/"), ListingLine::Hidden);
    assert_eq!(line("/"), ListingLine::Hidden);
}
