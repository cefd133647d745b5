use vstd::prelude::*;

verus! {

/// Strict lexicographic order on byte strings, the order of `[u8]` in Rust:
/// bytes are compared left to right, and a proper prefix comes first.
pub open spec fn lex_lt(a: Seq<u8>, b: Seq<u8>) -> bool
    decreases a.len(),
{
    if b.len() == 0 {
        false
    } else if a.len() == 0 {
        true
    } else if a[0] != b[0] {
        a[0] < b[0]
    } else {
        lex_lt(a.drop_first(), b.drop_first())
    }
}

/// `a` is a proper prefix of `b`.
pub open spec fn is_proper_prefix(a: Seq<u8>, b: Seq<u8>) -> bool {
    a.len() < b.len() && b.take(a.len() as int) == a
}

pub proof fn lemma_lex_irreflexive(a: Seq<u8>)
    ensures
        !lex_lt(a, a),
    decreases a.len(),
{
    if a.len() > 0 {
        lemma_lex_irreflexive(a.drop_first());
    }
}

pub proof fn lemma_lex_asymmetric(a: Seq<u8>, b: Seq<u8>)
    ensures
        !(lex_lt(a, b) && lex_lt(b, a)),
    decreases a.len(),
{
    if a.len() > 0 && b.len() > 0 && a[0] == b[0] {
        lemma_lex_asymmetric(a.drop_first(), b.drop_first());
    }
}

pub proof fn lemma_lex_transitive(a: Seq<u8>, b: Seq<u8>, c: Seq<u8>)
    requires
        lex_lt(a, b),
        lex_lt(b, c),
    ensures
        lex_lt(a, c),
    decreases a.len(),
{
    if a.len() > 0 && b.len() > 0 && c.len() > 0 && a[0] == b[0] && b[0] == c[0] {
        lemma_lex_transitive(a.drop_first(), b.drop_first(), c.drop_first());
    }
}

pub proof fn lemma_lex_total(a: Seq<u8>, b: Seq<u8>)
    ensures
        a == b || lex_lt(a, b) || lex_lt(b, a),
    decreases a.len(),
{
    if a.len() > 0 && b.len() > 0 && a[0] == b[0] {
        lemma_lex_total(a.drop_first(), b.drop_first());
        if a.drop_first() == b.drop_first() {
            assert(a =~= seq![a[0]] + a.drop_first());
            assert(b =~= seq![b[0]] + b.drop_first());
        }
    } else if a.len() == 0 && b.len() == 0 {
        assert(a =~= b);
    }
}

/// A proper prefix sorts before the longer string.
pub proof fn lemma_prefix_is_less(a: Seq<u8>, b: Seq<u8>)
    requires
        is_proper_prefix(a, b),
    ensures
        lex_lt(a, b),
    decreases a.len(),
{
    if a.len() > 0 {
        assert(b[0] == b.take(a.len() as int)[0]);
        assert(b.drop_first().take(a.drop_first().len() as int) =~= a.drop_first()) by {
            assert forall|i: int| 0 <= i < a.len() - 1 implies b.drop_first()[i] == a.drop_first()[i] by {
                assert(b.take(a.len() as int)[i + 1] == a[i + 1]);
            }
        }
        lemma_prefix_is_less(a.drop_first(), b.drop_first());
    }
}

/// Skipping a common prefix does not change the order.
proof fn lemma_lex_skip(a: Seq<u8>, b: Seq<u8>, i: int)
    requires
        0 <= i <= a.len(),
        i <= b.len(),
        a.take(i) == b.take(i),
    ensures
        lex_lt(a, b) == lex_lt(a.skip(i), b.skip(i)),
    decreases i,
{
    if i > 0 {
        assert(a[0] == a.take(i)[0]);
        assert(b[0] == b.take(i)[0]);
        assert(a.drop_first().take(i - 1) =~= b.drop_first().take(i - 1)) by {
            assert forall|k: int| 0 <= k < i - 1 implies a.drop_first()[k] == b.drop_first()[k] by {
                assert(a.take(i)[k + 1] == a[k + 1]);
                assert(b.take(i)[k + 1] == b[k + 1]);
                assert(a.take(i)[k + 1] == b.take(i)[k + 1]);
            }
        }
        lemma_lex_skip(a.drop_first(), b.drop_first(), i - 1);
        assert(a.drop_first().skip(i - 1) =~= a.skip(i));
        assert(b.drop_first().skip(i - 1) =~= b.skip(i));
    } else {
        assert(a.skip(0) =~= a);
        assert(b.skip(0) =~= b);
    }
}

/// The outcome of comparing two byte strings.
#[derive(Clone, Copy, Debug, PartialEq, Eq, Structural)]
pub enum ByteOrder {
    Less,
    Equal,
    Greater,
}

/// Compares two byte strings lexicographically.
pub fn compare_bytes(a: &[u8], b: &[u8]) -> (r: ByteOrder)
    ensures
        r == ByteOrder::Less <==> lex_lt(a@, b@),
        r == ByteOrder::Equal <==> a@ == b@,
        r == ByteOrder::Greater <==> lex_lt(b@, a@),
{
    proof {
        lemma_lex_total(a@, b@);
        lemma_lex_asymmetric(a@, b@);
        lemma_lex_irreflexive(a@);
    }
    let mut i: usize = 0;
    while i < a.len() && i < b.len()
        invariant
            i <= a@.len(),
            i <= b@.len(),
            a@.take(i as int) == b@.take(i as int),
        decreases a@.len() - i,
    {
        if a[i] != b[i] {
            proof {
                lemma_lex_skip(a@, b@, i as int);
                lemma_lex_skip(b@, a@, i as int);
                assert(a@.skip(i as int)[0] == a@[i as int]);
                assert(b@.skip(i as int)[0] == b@[i as int]);
                assert(a@ != b@);
            }
            if a[i] < b[i] {
                return ByteOrder::Less;
            } else {
                return ByteOrder::Greater;
            }
        }
        assert(a@.take(i + 1) == a@.take(i as int).push(a@[i as int]));
        assert(b@.take(i + 1) == b@.take(i as int).push(b@[i as int]));
        i = i + 1;
    }
    proof {
        lemma_lex_skip(a@, b@, i as int);
        lemma_lex_skip(b@, a@, i as int);
    }
    if a.len() == b.len() {
        assert(a@ =~= a@.take(i as int));
        assert(b@ =~= b@.take(i as int));
        ByteOrder::Equal
    } else if a.len() < b.len() {
        assert(a@.len() != b@.len());
        ByteOrder::Less
    } else {
        assert(a@.len() != b@.len());
        ByteOrder::Greater
    }
}


/// Directory `x` is unpacked before directory `y` when its path sorts later,
/// or when both paths are equal and `x` was met first.
pub open spec fn unpacked_before(paths: Seq<Seq<u8>>, x: int, y: int) -> bool {
    lex_lt(paths[y], paths[x]) || (paths[x] == paths[y] && x < y)
}

/// `order` lists every index of `paths` once, in descending order of the
/// paths, keeping equal paths in the order they were met.
pub open spec fn is_unpack_order(paths: Seq<Seq<u8>>, order: Seq<usize>) -> bool {
    &&& order.len() == paths.len()
    &&& forall|i: int| 0 <= i < order.len() ==> #[trigger] order[i] < paths.len()
    &&& forall|i: int, j: int|
        0 <= i < j < order.len() ==> #[trigger] order[i] != #[trigger] order[j]
    &&& forall|i: int, j: int|
        0 <= i < j < order.len() ==> unpacked_before(
            paths,
            #[trigger] order[i] as int,
            #[trigger] order[j] as int,
        )
}

/// The invariant of the insertion: `order` sorts exactly the first `k` paths.
spec fn sorted_prefix(paths: Seq<Seq<u8>>, order: Seq<usize>, k: int) -> bool {
    &&& order.len() == k
    &&& forall|i: int| 0 <= i < order.len() ==> #[trigger] order[i] < k
    &&& forall|i: int, j: int|
        0 <= i < j < order.len() ==> #[trigger] order[i] != #[trigger] order[j]
    &&& forall|i: int, j: int|
        0 <= i < j < order.len() ==> unpacked_before(
            paths,
            #[trigger] order[i] as int,
            #[trigger] order[j] as int,
        )
}

proof fn lemma_insert_keeps_sorted(paths: Seq<Seq<u8>>, order: Seq<usize>, k: int, pos: int)
    requires
        0 <= k < paths.len(),
        k < usize::MAX,
        sorted_prefix(paths, order, k),
        0 <= pos <= order.len(),
        forall|q: int| 0 <= q < pos ==> !lex_lt(paths[#[trigger] order[q] as int], paths[k]),
        pos < order.len() ==> lex_lt(paths[order[pos] as int], paths[k]),
    ensures
        sorted_prefix(paths, order.insert(pos, k as usize), k + 1),
{
    let s2 = order.insert(pos, k as usize);
    assert forall|i: int| 0 <= i < s2.len() implies #[trigger] s2[i] < k + 1 by {
        if i > pos {
            assert(s2[i] == order[i - 1]);
        }
    }
    assert forall|i: int, j: int| 0 <= i < j < s2.len() implies unpacked_before(
        paths,
        #[trigger] s2[i] as int,
        #[trigger] s2[j] as int,
    ) && s2[i] != s2[j] by {
        if j < pos {
            assert(s2[i] == order[i] && s2[j] == order[j]);
        } else if j == pos {
            assert(s2[i] == order[i]);
            lemma_lex_total(paths[order[i] as int], paths[k]);
        } else if i < pos {
            assert(s2[i] == order[i] && s2[j] == order[j - 1]);
        } else if i == pos {
            let y = order[j - 1] as int;
            let p = order[pos] as int;
            assert(s2[j] == order[j - 1]);
            if j - 1 > pos {
                assert(unpacked_before(paths, p, y));
                if lex_lt(paths[y], paths[p]) {
                    lemma_lex_transitive(paths[y], paths[p], paths[k]);
                }
            }
            assert(lex_lt(paths[y], paths[k]));
            lemma_lex_irreflexive(paths[k]);
        } else {
            assert(s2[i] == order[i - 1] && s2[j] == order[j - 1]);
        }
    }
}

/// The order in which directory entries are unpacked once every other entry is
/// in place: descending by path bytes, so that the contents of a directory are
/// unpacked before the directory itself; entries with equal paths keep the
/// order in which they were met.
pub fn directory_unpack_order(paths: &Vec<Vec<u8>>) -> (order: Vec<usize>)
    ensures
        is_unpack_order(paths.deep_view(), order@),
{
    let ghost ps = paths.deep_view();
    let n = paths.len();
    let mut order: Vec<usize> = Vec::new();
    let mut k: usize = 0;
    while k < n
        invariant
            n == paths@.len(),
            ps == paths.deep_view(),
            ps.len() == n,
            k <= n,
            sorted_prefix(ps, order@, k as int),
        decreases n - k,
    {
        let mut pos: usize = 0;
        let mut found = false;
        while pos < order.len() && !found
            invariant
                n == paths@.len(),
                ps == paths.deep_view(),
                ps.len() == n,
                k < n,
                sorted_prefix(ps, order@, k as int),
                pos <= order@.len(),
                forall|q: int| 0 <= q < pos ==> !lex_lt(ps[#[trigger] order@[q] as int], ps[k as int]),
                found ==> pos < order@.len() && lex_lt(ps[order@[pos as int] as int], ps[k as int]),
            decreases order@.len() - pos + (if found { 0int } else { 1int }),
        {
            let idx = order[pos];
            assert(paths[idx as int]@ == ps[idx as int]);
            assert(paths[k as int]@ == ps[k as int]);
            if compare_bytes(paths[idx].as_slice(), paths[k].as_slice()) == ByteOrder::Less {
                found = true;
            } else {
                pos = pos + 1;
            }
        }
        proof {
            lemma_insert_keeps_sorted(ps, order@, k as int, pos as int);
        }
        order.insert(pos, k);
        k = k + 1;
    }
    order
}

/// The contents of a directory are unpacked before the directory: when one
/// deferred path is a proper prefix of another, the longer one comes first.
pub proof fn law_contents_before_directory(paths: Seq<Seq<u8>>, order: Seq<usize>, i: int, j: int)
    requires
        is_unpack_order(paths, order),
        0 <= i < order.len(),
        0 <= j < order.len(),
        is_proper_prefix(paths[order[j] as int], paths[order[i] as int]),
    ensures
        i < j,
{
    let x = order[i] as int;
    let y = order[j] as int;
    lemma_prefix_is_less(paths[y], paths[x]);
    if j < i {
        assert(unpacked_before(paths, y, x));
        lemma_lex_asymmetric(paths[x], paths[y]);
        lemma_lex_irreflexive(paths[x]);
    } else if i == j {
        lemma_lex_irreflexive(paths[x]);
    }
}


proof fn lemma_before_asymmetric(paths: Seq<Seq<u8>>, x: int, y: int)
    ensures
        !(unpacked_before(paths, x, y) && unpacked_before(paths, y, x)),
{
    lemma_lex_asymmetric(paths[x], paths[y]);
    lemma_lex_irreflexive(paths[x]);
}

/// A list of `n` distinct indices below `n` holds every index below `n`.
proof fn lemma_covers_all(order: Seq<usize>, n: int)
    requires
        order.len() == n,
        forall|i: int| 0 <= i < n ==> #[trigger] order[i] < n,
        forall|i: int, j: int| 0 <= i < j < n ==> #[trigger] order[i] != #[trigger] order[j],
    ensures
        forall|k: int| 0 <= k < n ==> #[trigger] order.contains(k as usize),
{
    let t = order.map_values(|x: usize| x as int);
    assert(t.no_duplicates()) by {
        assert forall|i: int, j: int| 0 <= i < t.len() && 0 <= j < t.len() && i != j implies t[i]
            != t[j] by {
            if i < j {
                assert(order[i] != order[j]);
            } else {
                assert(order[j] != order[i]);
            }
        }
    }
    t.unique_seq_to_set();
    vstd::set_lib::lemma_int_range(0, n);
    let r = vstd::set_lib::set_int_range(0, n);
    assert(t.to_set().subset_of(r));
    vstd::set_lib::lemma_subset_equality(t.to_set(), r);
    assert forall|k: int| 0 <= k < n implies #[trigger] order.contains(k as usize) by {
        assert(r.contains(k));
        assert(t.to_set().contains(k));
        let i = choose|i: int| 0 <= i < t.len() && t[i] == k;
        assert(order[i] == k as usize);
    }
}

spec fn sorted_distinct(paths: Seq<Seq<u8>>, s: Seq<usize>) -> bool {
    &&& forall|i: int, j: int| 0 <= i < j < s.len() ==> #[trigger] s[i] != #[trigger] s[j]
    &&& forall|i: int, j: int|
        0 <= i < j < s.len() ==> unpacked_before(paths, #[trigger] s[i] as int, #[trigger] s[j] as int)
}

proof fn lemma_sorted_same_elements_equal(paths: Seq<Seq<u8>>, s1: Seq<usize>, s2: Seq<usize>)
    requires
        s1.len() == s2.len(),
        sorted_distinct(paths, s1),
        sorted_distinct(paths, s2),
        forall|x: usize| s1.contains(x) <==> s2.contains(x),
    ensures
        s1 == s2,
    decreases s1.len(),
{
    if s1.len() > 0 {
        let a = s1[0];
        let b = s2[0];
        if a != b {
            assert(s1.contains(a));
            let p = choose|p: int| 0 <= p < s2.len() && s2[p] == a;
            assert(s2.contains(b));
            let q = choose|q: int| 0 <= q < s1.len() && s1[q] == b;
            assert(p != 0 && q != 0);
            assert(unpacked_before(paths, s2[0] as int, s2[p] as int));
            assert(unpacked_before(paths, s1[0] as int, s1[q] as int));
            lemma_before_asymmetric(paths, a as int, b as int);
        }
        let t1 = s1.drop_first();
        let t2 = s2.drop_first();
        assert forall|x: usize| t1.contains(x) <==> t2.contains(x) by {
            if t1.contains(x) {
                let i = choose|i: int| 0 <= i < t1.len() && t1[i] == x;
                assert(s1[i + 1] == x && x != a);
                assert(s2.contains(x));
                let j = choose|j: int| 0 <= j < s2.len() && s2[j] == x;
                assert(j != 0);
                assert(t2[j - 1] == x);
            }
            if t2.contains(x) {
                let i = choose|i: int| 0 <= i < t2.len() && t2[i] == x;
                assert(s2[i + 1] == x && x != b);
                assert(s1.contains(x));
                let j = choose|j: int| 0 <= j < s1.len() && s1[j] == x;
                assert(j != 0);
                assert(t1[j - 1] == x);
            }
        }
        assert(sorted_distinct(paths, t1)) by {
            assert forall|i: int, j: int| 0 <= i < j < t1.len() implies #[trigger] t1[i] != #[trigger] t1[j]
                && unpacked_before(paths, t1[i] as int, t1[j] as int) by {
                assert(t1[i] == s1[i + 1] && t1[j] == s1[j + 1]);
            }
        }
        assert(sorted_distinct(paths, t2)) by {
            assert forall|i: int, j: int| 0 <= i < j < t2.len() implies #[trigger] t2[i] != #[trigger] t2[j]
                && unpacked_before(paths, t2[i] as int, t2[j] as int) by {
                assert(t2[i] == s2[i + 1] && t2[j] == s2[j + 1]);
            }
        }
        lemma_sorted_same_elements_equal(paths, t1, t2);
        assert(s1 =~= seq![a] + t1);
        assert(s2 =~= seq![b] + t2);
    } else {
        assert(s1 =~= s2);
    }
}

/// The unpack order is determined by the paths alone: any two lists that
/// meet its description are the same (it is the stable descending sort).
pub proof fn law_unpack_order_is_unique(paths: Seq<Seq<u8>>, o1: Seq<usize>, o2: Seq<usize>)
    requires
        is_unpack_order(paths, o1),
        is_unpack_order(paths, o2),
    ensures
        o1 == o2,
{
    let n = paths.len() as int;
    lemma_covers_all(o1, n);
    lemma_covers_all(o2, n);
    assert forall|x: usize| o1.contains(x) <==> o2.contains(x) by {
        if o1.contains(x) {
            let i = choose|i: int| 0 <= i < o1.len() && o1[i] == x;
            assert(o1[i] < n);
            assert(o2.contains(x as int as usize));
        }
        if o2.contains(x) {
            let i = choose|i: int| 0 <= i < o2.len() && o2[i] == x;
            assert(o2[i] < n);
            assert(o1.contains(x as int as usize));
        }
    }
    lemma_sorted_same_elements_equal(paths, o1, o2);
}

} // verus!
