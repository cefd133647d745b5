use dtar::extract::entry_selected;

/// Components of a Unix path as `std::path::Path::components` documents them.
fn components(p: &str) -> Vec<String> {
    let parts: Vec<&str> = p.split('/').collect();
    let named = |q: &str| !q.is_empty() && q != ".";
    let mut out: Vec<String> = Vec::new();
    let mut rest: &[&str] = &parts;
    if p.starts_with('/') {
        out.push("/".to_string());
    } else if parts[0] == "." {
        out.push(".".to_string());
        rest = &parts[1..];
    }
    for q in rest {
        if named(q) {
            out.push(q.to_string());
        }
    }
    out
}

fn documented_starts_with(path: &str, base: &str) -> bool {
    let pc = components(path);
    let bc = components(base);
    bc.len() <= pc.len() && pc[..bc.len()] == bc[..]
}

const SAMPLES: [&str; 22] = [
    "", ".", "./", "..", "/", "//", "a", "a/", "a//", "a/.", "a/./b", "./a", "./a/b", ".//a",
    "/a", "/./a", "a/b", "a/b/", "a//b", "foo", "foobar/b", "a/../b",
];

#[test]
fn filters_follow_documented_components() {
    for path in SAMPLES {
        for base in SAMPLES {
            let filters = vec![base.to_string()];
            assert_eq!(
                entry_selected(path, &filters),
                documented_starts_with(path, base),
                "path {:?} base {:?}",
                path,
                base
            );
        }
    }
}

#[test]
fn string_prefix_is_not_enough() {
    assert!(!entry_selected("foobar/b", &vec!["foo".to_string()]));
    assert!(entry_selected("foo/bar", &vec!["foo".to_string()]));
    assert!(entry_selected("foo//bar/", &vec!["foo/bar".to_string()]));
    assert!(entry_selected("./foo/bar", &vec!["./foo".to_string()]));
    assert!(!entry_selected("foo/bar", &vec!["./foo".to_string()]));
}
