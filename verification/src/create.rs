use vstd::prelude::*;

verus! {

/// What a path given on the command line names on disk.
#[derive(Clone, Copy, Debug, PartialEq, Eq, Structural)]
pub enum PathKind {
    Directory,
    File,
    /// Neither a directory nor a regular file (or nothing at all).
    Other,
}

/// One step of filling an archive; indices refer to the given paths.
#[derive(Clone, Copy, Debug, PartialEq, Eq, Structural)]
pub enum AddStep {
    /// Add the contents of the content directory at the archive's root.
    Contents,
    /// Add the directory at this index, recursively, under its own path.
    Directory(usize),
    /// Add the file at this index under its own path.
    File(usize),
}

/// What to do about the archive file before writing it.
#[derive(Clone, Copy, Debug, PartialEq, Eq, Structural)]
pub enum ExistingFile {
    /// Go ahead and (over)write the file.
    Write,
    /// Leave the file alone and stop.
    Abort,
    /// Ask the user whether to overwrite it.
    Ask,
}

/// The steps for the paths `kinds[0..]`: directories are added recursively,
/// files one by one, anything else is passed over.
pub open spec fn path_steps(kinds: Seq<PathKind>) -> Seq<AddStep>
    decreases kinds.len(),
{
    if kinds.len() == 0 {
        Seq::empty()
    } else {
        let i = (kinds.len() - 1) as usize;
        path_steps(kinds.drop_last()) + match kinds.last() {
            PathKind::Directory => seq![AddStep::Directory(i)],
            PathKind::File => seq![AddStep::File(i)],
            PathKind::Other => Seq::<AddStep>::empty(),
        }
    }
}

/// With a content directory only its contents go into the archive and the
/// paths are ignored; otherwise every path is added by its kind.
pub open spec fn spec_add_steps(kinds: Seq<PathKind>, has_content: bool) -> Seq<AddStep> {
    if has_content {
        seq![AddStep::Contents]
    } else {
        path_steps(kinds)
    }
}

/// The steps that fill a new archive.
pub fn add_steps(kinds: &Vec<PathKind>, has_content: bool) -> (steps: Vec<AddStep>)
    ensures
        steps@ == spec_add_steps(kinds@, has_content),
{
    let mut steps: Vec<AddStep> = Vec::new();
    if has_content {
        steps.push(AddStep::Contents);
        return steps;
    }
    let mut i: usize = 0;
    while i < kinds.len()
        invariant
            i <= kinds@.len(),
            steps@ == path_steps(kinds@.take(i as int)),
        decreases kinds@.len() - i,
    {
        assert(kinds@.take(i + 1).drop_last() =~= kinds@.take(i as int));
        match kinds[i] {
            PathKind::Directory => steps.push(AddStep::Directory(i)),
            PathKind::File => steps.push(AddStep::File(i)),
            PathKind::Other => {
                assert(steps@ =~= steps@ + Seq::<AddStep>::empty());
            },
        }
        i = i + 1;
    }
    assert(kinds@.take(i as int) =~= kinds@);
    steps
}

/// Whose sizes make up the total of the progress bar: the content directory's
/// alone if there is one (whether or not the total is shown), otherwise each
/// directory's and file's when the total is shown, otherwise nothing.
pub open spec fn spec_size_sources(kinds: Seq<PathKind>, has_content: bool, show_total: bool) -> Seq<
    AddStep,
> {
    if has_content {
        seq![AddStep::Contents]
    } else if show_total {
        path_steps(kinds)
    } else {
        Seq::empty()
    }
}

/// The items to measure for the progress total.
pub fn size_sources(kinds: &Vec<PathKind>, has_content: bool, show_total: bool) -> (sources: Vec<
    AddStep,
>)
    ensures
        sources@ == spec_size_sources(kinds@, has_content, show_total),
{
    if has_content || show_total {
        add_steps(kinds, has_content)
    } else {
        Vec::new()
    }
}

pub open spec fn sum_sizes(sizes: Seq<u64>) -> nat
    decreases sizes.len(),
{
    if sizes.len() == 0 {
        0
    } else {
        sum_sizes(sizes.drop_last()) + sizes.last() as nat
    }
}

proof fn lemma_sum_prefix_monotone(sizes: Seq<u64>, i: int, j: int)
    requires
        0 <= i <= j <= sizes.len(),
    ensures
        sum_sizes(sizes.take(i)) <= sum_sizes(sizes.take(j)),
    decreases j - i,
{
    if i < j {
        lemma_sum_prefix_monotone(sizes, i, j - 1);
        assert(sizes.take(j).drop_last() =~= sizes.take(j - 1));
    }
}

/// The total number of bytes of the measured items, or `None` when it does
/// not fit in a `u64`.
pub fn total_size(sizes: &Vec<u64>) -> (total: Option<u64>)
    ensures
        sum_sizes(sizes@) <= u64::MAX ==> total == Some(sum_sizes(sizes@) as u64),
        sum_sizes(sizes@) > u64::MAX ==> total is None,
{
    let mut total: u64 = 0;
    let mut i: usize = 0;
    while i < sizes.len()
        invariant
            i <= sizes@.len(),
            total == sum_sizes(sizes@.take(i as int)),
        decreases sizes@.len() - i,
    {
        assert(sizes@.take(i + 1).drop_last() =~= sizes@.take(i as int));
        if sizes[i] > u64::MAX - total {
            proof {
                lemma_sum_prefix_monotone(sizes@, i + 1, sizes@.len() as int);
                assert(sizes@.take(sizes@.len() as int) =~= sizes@);
            }
            return None;
        }
        total = total + sizes[i];
        i = i + 1;
    }
    assert(sizes@.take(i as int) =~= sizes@);
    Some(total)
}

/// What to do when the archive's file may already exist: stop if clobbering
/// is forbidden, ask unless overwriting was allowed, else write.
pub open spec fn spec_existing_file(exists: bool, no_clobber: bool, overwrite: bool) -> ExistingFile {
    if !exists {
        ExistingFile::Write
    } else if no_clobber {
        ExistingFile::Abort
    } else if !overwrite {
        ExistingFile::Ask
    } else {
        ExistingFile::Write
    }
}

/// Decides whether an archive file may be written.
pub fn existing_file_action(exists: bool, no_clobber: bool, overwrite: bool) -> (a: ExistingFile)
    ensures
        a == spec_existing_file(exists, no_clobber, overwrite),
{
    if exists {
        if no_clobber {
            return ExistingFile::Abort;
        }
        if !overwrite {
            return ExistingFile::Ask;
        }
    }
    ExistingFile::Write
}

/// Whether the answer to the overwrite question allows writing: only an
/// explicit yes does; a no or no answer at all stops.
pub fn overwrite_confirmed(answer: Option<bool>) -> (ok: bool)
    ensures
        ok == (answer == Some(true)),
{
    match answer {
        Some(yes) => yes,
        None => false,
    }
}

/// Forbidding clobbering wins over allowing overwriting: an existing file is
/// never written without asking unless overwriting was allowed and clobbering
/// was not forbidden.
pub proof fn law_no_clobber_wins(overwrite: bool)
    ensures
        spec_existing_file(true, true, overwrite) == ExistingFile::Abort,
        spec_existing_file(true, false, overwrite) == (if overwrite {
            ExistingFile::Write
        } else {
            ExistingFile::Ask
        }),
{
}

/// A file that does not exist yet is always written; an existing one is
/// written without asking only when overwriting is allowed and clobbering is
/// not forbidden.
pub proof fn law_existing_file_cases(exists: bool, no_clobber: bool, overwrite: bool)
    ensures
        !exists ==> spec_existing_file(exists, no_clobber, overwrite) == ExistingFile::Write,
        exists ==> ((spec_existing_file(exists, no_clobber, overwrite) == ExistingFile::Write) == (
        !no_clobber && overwrite)),
        exists ==> ((spec_existing_file(exists, no_clobber, overwrite) == ExistingFile::Abort)
            == no_clobber),
{
}

/// The total of sizes adds up: nothing sums to 0, one size to itself, and
/// the total of two lists joined is the sum of their totals.
pub proof fn law_sum_is_additive(a: Seq<u64>, b: Seq<u64>)
    ensures
        sum_sizes(Seq::<u64>::empty()) == 0,
        sum_sizes(a + b) == sum_sizes(a) + sum_sizes(b),
    decreases b.len(),
{
    if b.len() == 0 {
        assert(a + b =~= a);
    } else {
        law_sum_is_additive(a, b.drop_last());
        assert((a + b).drop_last() =~= a + b.drop_last());
    }
}

/// The size of a single item is its total.
pub proof fn law_sum_of_one(x: u64)
    ensures
        sum_sizes(seq![x]) == x,
{
    assert(seq![x].drop_last() =~= Seq::<u64>::empty());
    assert(seq![x].last() == x);
    assert(sum_sizes(Seq::<u64>::empty()) == 0);
}

/// The kind of path that a step adds, if any.
pub open spec fn step_adds(s: AddStep, kinds: Seq<PathKind>) -> bool {
    match s {
        AddStep::Directory(i) => i < kinds.len() && kinds[i as int] == PathKind::Directory,
        AddStep::File(i) => i < kinds.len() && kinds[i as int] == PathKind::File,
        AddStep::Contents => false,
    }
}

proof fn lemma_path_steps_unfold(kinds: Seq<PathKind>)
    requires
        kinds.len() > 0,
    ensures
        path_steps(kinds) == path_steps(kinds.drop_last()) + match kinds.last() {
            PathKind::Directory => seq![AddStep::Directory((kinds.len() - 1) as usize)],
            PathKind::File => seq![AddStep::File((kinds.len() - 1) as usize)],
            PathKind::Other => Seq::<AddStep>::empty(),
        },
{
}

/// Without a content directory, each step adds a directory or a file path by
/// its own kind: nothing else is added.
pub proof fn law_steps_add_by_kind(kinds: Seq<PathKind>)
    requires
        kinds.len() <= usize::MAX,
    ensures
        forall|k: int|
            0 <= k < path_steps(kinds).len() ==> step_adds(#[trigger] path_steps(kinds)[k], kinds),
    decreases kinds.len(),
{
    if kinds.len() > 0 {
        let init = kinds.drop_last();
        law_steps_add_by_kind(init);
        lemma_path_steps_unfold(kinds);
        let n = kinds.len() - 1;
        let s0 = path_steps(init);
        let s = path_steps(kinds);
        assert forall|k: int| 0 <= k < s.len() implies step_adds(#[trigger] s[k], kinds) by {
            if k < s0.len() {
                assert(s[k] == s0[k]);
                assert(step_adds(s0[k], init));
                match s0[k] {
                    AddStep::Directory(i) => assert(kinds[i as int] == init[i as int]),
                    AddStep::File(i) => assert(kinds[i as int] == init[i as int]),
                    AddStep::Contents => {},
                }
            } else {
                assert(kinds.last() == kinds[n as int]);
                match kinds.last() {
                    PathKind::Directory => assert(s[k] == AddStep::Directory(n as usize)),
                    PathKind::File => assert(s[k] == AddStep::File(n as usize)),
                    PathKind::Other => assert(s.len() == s0.len()),
                }
            }
        }
    }
}

/// Without a content directory, every directory and every file path is
/// added.
pub proof fn law_steps_add_every_path(kinds: Seq<PathKind>)
    requires
        kinds.len() <= usize::MAX,
    ensures
        forall|i: int|
            0 <= i < kinds.len() && #[trigger] kinds[i] == PathKind::Directory ==> path_steps(
                kinds,
            ).contains(AddStep::Directory(i as usize)),
        forall|i: int|
            0 <= i < kinds.len() && #[trigger] kinds[i] == PathKind::File ==> path_steps(
                kinds,
            ).contains(AddStep::File(i as usize)),
    decreases kinds.len(),
{
    if kinds.len() > 0 {
        let init = kinds.drop_last();
        let n = kinds.len() - 1;
        law_steps_add_every_path(init);
        lemma_path_steps_unfold(kinds);
        let s0 = path_steps(init);
        let s = path_steps(kinds);
        assert forall|i: int| 0 <= i < kinds.len() && #[trigger] kinds[i] == PathKind::Directory implies s.contains(
            AddStep::Directory(i as usize),
        ) by {
            if i < n {
                assert(init[i] == kinds[i]);
                let k = choose|k: int| 0 <= k < s0.len() && s0[k] == AddStep::Directory(i as usize);
                assert(s[k] == s0[k]);
            } else {
                assert(s[s0.len() as int] == AddStep::Directory(i as usize));
            }
        }
        assert forall|i: int| 0 <= i < kinds.len() && #[trigger] kinds[i] == PathKind::File implies s.contains(
            AddStep::File(i as usize),
        ) by {
            if i < n {
                assert(init[i] == kinds[i]);
                let k = choose|k: int| 0 <= k < s0.len() && s0[k] == AddStep::File(i as usize);
                assert(s[k] == s0[k]);
            } else {
                assert(s[s0.len() as int] == AddStep::File(i as usize));
            }
        }
    }
}

/// Without a content directory, the paths are added in the order given.
pub proof fn law_steps_keep_path_order(kinds: Seq<PathKind>)
    requires
        kinds.len() <= usize::MAX,
    ensures
        forall|a: int, b: int|
            0 <= a < b < path_steps(kinds).len() ==> step_index(#[trigger] path_steps(kinds)[a])
                < step_index(#[trigger] path_steps(kinds)[b]),
    decreases kinds.len(),
{
    if kinds.len() > 0 {
        let init = kinds.drop_last();
        let n = kinds.len() - 1;
        law_steps_keep_path_order(init);
        law_steps_add_by_kind(init);
        lemma_path_steps_unfold(kinds);
        let s0 = path_steps(init);
        let s = path_steps(kinds);
        assert forall|a: int, b: int| 0 <= a < b < s.len() implies step_index(#[trigger] s[a])
            < step_index(#[trigger] s[b]) by {
            assert(s[a] == s0[a]);
            if b < s0.len() {
                assert(s[b] == s0[b]);
            } else {
                assert(step_adds(s0[a], init));
                match kinds.last() {
                    PathKind::Directory => assert(s[b] == AddStep::Directory(n as usize)),
                    PathKind::File => assert(s[b] == AddStep::File(n as usize)),
                    PathKind::Other => assert(s.len() == s0.len()),
                }
            }
        }
    }
}

/// The path index that a step refers to.
pub open spec fn step_index(s: AddStep) -> int {
    match s {
        AddStep::Contents => -1,
        AddStep::Directory(i) => i as int,
        AddStep::File(i) => i as int,
    }
}

} // verus!
