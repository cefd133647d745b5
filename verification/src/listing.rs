use vstd::prelude::*;

verus! {

/// Index of the last `'/'` in `s`, if any (where `str::rsplit_once('/')` splits).
pub open spec fn last_slash(s: Seq<char>) -> Option<int>
    decreases s.len(),
{
    if s.len() == 0 {
        None
    } else if s.last() == '/' {
        Some(s.len() - 1)
    } else {
        last_slash(s.drop_last())
    }
}

/// How an archive entry's path is shown in a tree listing.
#[derive(Clone, Copy, Debug, PartialEq, Eq, Structural)]
pub enum ListingLine {
    /// A path without any `'/'`, shown as it is.
    Whole,
    /// `path[..slash]` is the directory and `path[slash + 1..]` the file name.
    File { slash: usize },
    /// A path ending in `'/'`: `path[..slash]` is the parent and
    /// `path[slash + 1..end]` the directory's name, where `end` is the index of
    /// the final `'/'`.
    Directory { slash: usize, end: usize },
    /// A top-level directory (one `'/'`, at the end): not shown.
    Hidden,
}

/// The layout of a path in the tree listing, following `rsplit_once('/')`
/// on the path and, for directories, once more on what precedes the final `'/'`.
pub open spec fn spec_listing_line(p: Seq<char>) -> ListingLine {
    match last_slash(p) {
        None => ListingLine::Whole,
        Some(i) => if i + 1 < p.len() {
            ListingLine::File { slash: i as usize }
        } else {
            match last_slash(p.take(i)) {
                Some(j) => ListingLine::Directory { slash: j as usize, end: i as usize },
                None => ListingLine::Hidden,
            }
        },
    }
}

/// Where `last_slash` points: at a `'/'`, with none after it.
pub proof fn lemma_last_slash(s: Seq<char>)
    ensures
        match last_slash(s) {
            Some(i) => 0 <= i < s.len() && s[i] == '/' && forall|k: int|
                i < k < s.len() ==> s[k] != '/',
            None => forall|k: int| 0 <= k < s.len() ==> s[k] != '/',
        },
    decreases s.len(),
{
    if s.len() > 0 && s.last() != '/' {
        let t = s.drop_last();
        lemma_last_slash(t);
        assert(last_slash(s) == last_slash(t));
        match last_slash(t) {
            Some(i) => {
                assert forall|k: int| i < k < s.len() implies s[k] != '/' by {
                    if k < s.len() - 1 {
                        assert(s[k] == t[k]);
                    }
                }
            },
            None => {
                assert forall|k: int| 0 <= k < s.len() implies s[k] != '/' by {
                    if k < s.len() - 1 {
                        assert(s[k] == t[k]);
                    }
                }
            },
        }
    }
}

/// Finds the last `'/'` among the first `len` characters of `s`.
fn find_last_slash(s: &[char], len: usize) -> (r: Option<usize>)
    requires
        len <= s@.len(),
    ensures
        match last_slash(s@.take(len as int)) {
            Some(i) => r == Some(i as usize),
            None => r is None,
        },
{
    let mut k: usize = len;
    while k > 0
        invariant
            k <= len <= s@.len(),
            last_slash(s@.take(len as int)) == last_slash(s@.take(k as int)),
        decreases k,
    {
        assert(s@.take(k as int).last() == s@[k - 1]);
        if s[k - 1] == '/' {
            return Some(k - 1);
        }
        assert(s@.take(k as int).drop_last() =~= s@.take(k - 1));
        k = k - 1;
    }
    None
}

/// Lays out one path of the tree listing.
pub fn listing_line(path: &[char]) -> (line: ListingLine)
    ensures
        line == spec_listing_line(path@),
        match line {
            ListingLine::Whole => forall|k: int| 0 <= k < path@.len() ==> path@[k] != '/',
            ListingLine::File { slash } => {
                &&& slash + 1 < path@.len()
                &&& path@[slash as int] == '/'
                &&& forall|k: int| slash < k < path@.len() ==> path@[k] != '/'
            },
            ListingLine::Directory { slash, end } => {
                &&& slash < end
                &&& end + 1 == path@.len()
                &&& path@[slash as int] == '/'
                &&& path@[end as int] == '/'
                &&& forall|k: int| slash < k < end ==> path@[k] != '/'
            },
            ListingLine::Hidden => {
                &&& path@.len() > 0
                &&& path@.last() == '/'
                &&& forall|k: int| 0 <= k < path@.len() - 1 ==> path@[k] != '/'
            },
        },
{
    assert(path@.take(path@.len() as int) =~= path@);
    proof {
        lemma_last_slash(path@);
    }
    match find_last_slash(path, path.len()) {
        None => ListingLine::Whole,
        Some(i) => {
            if i + 1 < path.len() {
                ListingLine::File { slash: i }
            } else {
                proof {
                    lemma_last_slash(path@.take(i as int));
                }
                match find_last_slash(path, i) {
                    Some(j) => ListingLine::Directory { slash: j, end: i },
                    None => {
                        assert forall|k: int| 0 <= k < path@.len() - 1 implies path@[k] != '/' by {
                            assert(path@.take(i as int)[k] == path@[k]);
                        }
                        ListingLine::Hidden
                    },
                }
            }
        },
    }
}

} // verus!
