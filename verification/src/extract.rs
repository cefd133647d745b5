use vstd::prelude::*;
use crate::order::{directory_unpack_order, is_unpack_order};
use crate::listing::{last_slash, lemma_last_slash};

verus! {

/// Length of a tar header block.
pub const HEADER_BLOCK_LEN: usize = 512;

/// Offset of the entry-type byte in a tar header block.
pub const TYPE_FLAG_OFFSET: usize = 156;

/// The `'/'`-separated parts of a path, empty parts included.
pub open spec fn path_parts(p: Seq<char>) -> Seq<Seq<char>>
    decreases p.len(),
{
    match last_slash(p) {
        None => seq![p],
        Some(i) => {
            proof {
                lemma_last_slash(p);
            }
            path_parts(p.take(i)).push(p.skip(i + 1))
        },
    }
}

/// A part that names a component: neither empty nor `"."`.
pub open spec fn names_component(part: Seq<char>) -> bool {
    part.len() > 0 && part != "."@
}

/// The components of a Unix path, as documented for
/// `std::path::Path::components`: a leading `'/'` is the root component
/// (written `"/"`, which no other component can be), repeated and trailing
/// separators are ignored, and `"."` parts are dropped except one at the very
/// beginning of a relative path.
pub open spec fn path_components(p: Seq<char>) -> Seq<Seq<char>> {
    let parts = path_parts(p);
    if p.len() > 0 && p[0] == '/' {
        seq!["/"@] + parts.filter(|q: Seq<char>| names_component(q))
    } else if parts[0] == "."@ {
        seq!["."@] + parts.drop_first().filter(|q: Seq<char>| names_component(q))
    } else {
        parts.filter(|q: Seq<char>| names_component(q))
    }
}

/// What `std::path::Path::starts_with` answers: whether the components of
/// `base` are the first components of `path`, so only whole components match.
pub open spec fn path_starts_with(path: Seq<char>, base: Seq<char>) -> bool {
    let pc = path_components(path);
    let bc = path_components(base);
    bc.len() <= pc.len() && pc.take(bc.len() as int) == bc
}

/// Calls `std::path::Path::starts_with`, whose documentation says that it
/// compares whole components, with components as `Path::components` documents
/// them; the tool runs on Unix, where components are separated by `'/'`.
#[verifier::external_body]
fn path_has_prefix(path: &str, base: &str) -> (r: bool)
    ensures
        r == path_starts_with(path@, base@),
{
    std::path::Path::new(path).starts_with(base)
}

/// Calls `tar::Header::from_byte_slice` and `tar::EntryType::is_dir` on the
/// header's entry type. In tar's source the entry type is read from byte 156
/// of the block, and only the byte `'5'` yields `EntryType::Directory`.
#[verifier::external_body]
fn header_is_directory(header: &[u8]) -> (r: bool)
    requires
        header@.len() == HEADER_BLOCK_LEN,
    ensures
        r == (header@[TYPE_FLAG_OFFSET as int] == 0x35u8),
{
    tar::Header::from_byte_slice(header).entry_type().is_dir()
}

/// An entry passes the filters when there are none, or when its path starts
/// with one of them.
pub open spec fn spec_entry_selected(path: Seq<char>, filters: Seq<Seq<char>>) -> bool {
    filters.len() == 0 || exists|i: int|
        0 <= i < filters.len() && #[trigger] path_starts_with(path, filters[i])
}

pub open spec fn filter_texts(filters: Seq<String>) -> Seq<Seq<char>> {
    filters.map_values(|f: String| f@)
}

/// Whether an archive entry with the given path is to be extracted.
pub fn entry_selected(path: &str, filters: &Vec<String>) -> (r: bool)
    ensures
        r == spec_entry_selected(path@, filter_texts(filters@)),
{
    let ghost fs = filter_texts(filters@);
    if filters.len() == 0 {
        return true;
    }
    let mut pass = false;
    let mut i: usize = 0;
    while i < filters.len()
        invariant
            fs == filter_texts(filters@),
            fs.len() == filters@.len(),
            i <= filters@.len(),
            pass == exists|k: int| 0 <= k < i && #[trigger] path_starts_with(path@, fs[k]),
        decreases filters@.len() - i,
    {
        let hit = path_has_prefix(path, filters[i].as_str());
        proof {
            assert(fs[i as int] == filters@[i as int]@);
            if !pass && !hit {
                assert forall|k: int| 0 <= k < i + 1 implies !#[trigger] path_starts_with(path@, fs[k]) by {
                    if k < i {
                    }
                }
            }
        }
        if hit {
            pass = true;
        }
        i = i + 1;
    }
    pass
}

/// An empty filter list selects every entry.
pub proof fn law_no_filters_select_all(path: Seq<char>)
    ensures
        spec_entry_selected(path, Seq::<Seq<char>>::empty()),
{
}

/// Adding filters to a non-empty list never deselects an entry.
pub proof fn law_more_filters_select_more(path: Seq<char>, fs: Seq<Seq<char>>, more: Seq<Seq<char>>)
    requires
        fs.len() > 0,
        spec_entry_selected(path, fs),
    ensures
        spec_entry_selected(path, fs + more),
{
    let i = choose|i: int| 0 <= i < fs.len() && #[trigger] path_starts_with(path, fs[i]);
    assert((fs + more)[i] == fs[i]);
}

/// What becomes of one archive entry during extraction.
#[derive(Clone, Copy, Debug, PartialEq, Eq, Structural)]
pub enum EntryAction {
    /// The entry does not pass the filters.
    Skip,
    /// The entry is unpacked at once.
    Unpack,
    /// The entry is a directory; it is unpacked after all other entries.
    Defer,
}

/// The abstract state of an extraction.
#[verifier::ext_equal]
pub struct ExtractModel {
    pub filters: Seq<Seq<char>>,
    /// How many entries passed the filters so far.
    pub extracted: nat,
    /// Paths of the directory entries held back, in the order they were met.
    pub deferred: Seq<Seq<u8>>,
}

/// What the extraction reads of one archive entry.
pub struct EntryInfo {
    /// The path as text.
    pub path: Seq<char>,
    /// The path as raw bytes.
    pub path_bytes: Seq<u8>,
    /// The entry-type byte of the header.
    pub type_flag: u8,
}

/// The entry described by its path, its raw path and its header block.
pub open spec fn entry_info(path: Seq<char>, path_bytes: Seq<u8>, header: Seq<u8>) -> EntryInfo {
    EntryInfo { path, path_bytes, type_flag: header[TYPE_FLAG_OFFSET as int] }
}

pub open spec fn is_directory_entry(e: EntryInfo) -> bool {
    e.type_flag == 0x35u8
}

/// The state of an extraction that has not seen any entry yet.
pub open spec fn initial_model(filters: Seq<Seq<char>>) -> ExtractModel {
    ExtractModel { filters, extracted: 0, deferred: Seq::empty() }
}

/// What becomes of entry `e` when the extraction is in state `m`.
pub open spec fn spec_action(m: ExtractModel, e: EntryInfo) -> EntryAction {
    if !spec_entry_selected(e.path, m.filters) {
        EntryAction::Skip
    } else if is_directory_entry(e) {
        EntryAction::Defer
    } else {
        EntryAction::Unpack
    }
}

/// The state after entry `e`: an entry that passes the filters is counted,
/// and held back if it is a directory.
pub open spec fn spec_step(m: ExtractModel, e: EntryInfo) -> ExtractModel {
    if !spec_entry_selected(e.path, m.filters) {
        m
    } else {
        ExtractModel {
            filters: m.filters,
            extracted: m.extracted + 1,
            deferred: if is_directory_entry(e) {
                m.deferred.push(e.path_bytes)
            } else {
                m.deferred
            },
        }
    }
}

/// The action agrees with the change of state: an entry is skipped exactly
/// when it does not pass the filters, and then nothing changes; it is held back
/// exactly when it passes and its type byte is `'5'`, and then its path is
/// appended to the held-back paths; otherwise it is unpacked, and the held-back
/// paths stay as they were. Every entry that passes is counted.
pub proof fn law_action_matches_step(m: ExtractModel, e: EntryInfo)
    ensures
        (spec_action(m, e) == EntryAction::Skip) == !spec_entry_selected(e.path, m.filters),
        (spec_action(m, e) == EntryAction::Defer) == (spec_entry_selected(e.path, m.filters)
            && e.type_flag == 0x35u8),
        (spec_action(m, e) == EntryAction::Unpack) == (spec_entry_selected(e.path, m.filters)
            && e.type_flag != 0x35u8),
        spec_action(m, e) == EntryAction::Skip ==> spec_step(m, e) == m,
        spec_action(m, e) == EntryAction::Defer ==> spec_step(m, e).deferred == m.deferred.push(
            e.path_bytes,
        ),
        spec_action(m, e) == EntryAction::Unpack ==> spec_step(m, e).deferred == m.deferred,
        spec_action(m, e) != EntryAction::Skip ==> spec_step(m, e).extracted == m.extracted + 1,
        spec_step(m, e).filters == m.filters,
{
}

/// The state after the entries `es`, one after another.
pub open spec fn spec_run(m: ExtractModel, es: Seq<EntryInfo>) -> ExtractModel
    decreases es.len(),
{
    if es.len() == 0 {
        m
    } else {
        spec_step(spec_run(m, es.drop_last()), es.last())
    }
}

/// The entries among `es` that pass the filters.
pub open spec fn selected_entries(filters: Seq<Seq<char>>, es: Seq<EntryInfo>) -> Seq<EntryInfo> {
    es.filter(|e: EntryInfo| spec_entry_selected(e.path, filters))
}

/// After any sequence of entries, the count is the number of entries that
/// passed the filters, and the held-back paths are those of the directories
/// among them, in the order they came.
pub proof fn law_run_counts_and_defers(filters: Seq<Seq<char>>, es: Seq<EntryInfo>)
    ensures
        spec_run(initial_model(filters), es) == (ExtractModel {
            filters,
            extracted: selected_entries(filters, es).len(),
            deferred: selected_entries(filters, es).filter(|e: EntryInfo| is_directory_entry(e)).map_values(
                |e: EntryInfo| e.path_bytes,
            ),
        }),
    decreases es.len(),
{
    reveal(Seq::filter);
    let sel = |e: EntryInfo| spec_entry_selected(e.path, filters);
    let dir = |e: EntryInfo| is_directory_entry(e);
    let pb = |e: EntryInfo| e.path_bytes;
    if es.len() == 0 {
        assert(selected_entries(filters, es) =~= Seq::<EntryInfo>::empty());
        assert(Seq::<EntryInfo>::empty().filter(dir) =~= Seq::<EntryInfo>::empty());
        assert(Seq::<EntryInfo>::empty().map_values(pb) =~= Seq::<Seq<u8>>::empty());
    } else {
        let init = es.drop_last();
        let e = es.last();
        law_run_counts_and_defers(filters, init);
        let k0 = init.filter(sel);
        assert(selected_entries(filters, init) == k0);
        assert(selected_entries(filters, es) == if sel(e) { k0.push(e) } else { k0 });
        if sel(e) {
            assert(k0.push(e).drop_last() =~= k0);
            assert(k0.push(e).last() == e);
            let d0 = k0.filter(dir);
            assert(k0.push(e).filter(dir) == if dir(e) { d0.push(e) } else { d0 });
            if dir(e) {
                assert(d0.push(e).map_values(pb) =~= d0.map_values(pb).push(e.path_bytes));
            }
        }
    }
}


/// The decisions of an extraction: which entries pass the filters, which are
/// unpacked at once, and which directories wait until the end.
pub struct ExtractPlan {
    filters: Vec<String>,
    extracted: u64,
    deferred: Vec<Vec<u8>>,
}

impl View for ExtractPlan {
    type V = ExtractModel;

    closed spec fn view(&self) -> ExtractModel {
        ExtractModel {
            filters: filter_texts(self.filters@),
            extracted: self.extracted as nat,
            deferred: self.deferred.deep_view(),
        }
    }
}

impl ExtractPlan {
    /// A plan that extracts the entries passing `filters` (all entries if
    /// `filters` is empty).
    pub fn new(filters: Vec<String>) -> (plan: Self)
        ensures
            plan@ == initial_model(filter_texts(filters@)),
    {
        let plan = ExtractPlan { filters, extracted: 0, deferred: Vec::new() };
        assert(plan.deferred.deep_view() =~= Seq::<Seq<u8>>::empty());
        plan
    }

    /// Number of entries that passed the filters so far.
    pub fn extracted(&self) -> (n: u64)
        ensures
            n == self@.extracted,
    {
        self.extracted
    }

    /// Number of directory entries held back so far.
    pub fn deferred_len(&self) -> (n: usize)
        ensures
            n == self@.deferred.len(),
    {
        self.deferred.len()
    }

    /// Decides what to do with the next entry of the archive, given its path
    /// as text, its path as raw bytes and its header block.
    pub fn next_entry(&mut self, path: &str, path_bytes: Vec<u8>, header: &[u8]) -> (action: EntryAction)
        requires
            header@.len() == HEADER_BLOCK_LEN,
            old(self)@.extracted < u64::MAX,
        ensures
            final(self)@ == spec_step(old(self)@, entry_info(path@, path_bytes@, header@)),
            action == spec_action(old(self)@, entry_info(path@, path_bytes@, header@)),
    {
        if !entry_selected(path, &self.filters) {
            return EntryAction::Skip;
        }
        self.extracted = self.extracted + 1;
        if header_is_directory(header) {
            let ghost before = self.deferred.deep_view();
            let ghost pb = path_bytes@;
            self.deferred.push(path_bytes);
            assert(self.deferred.deep_view() =~= before.push(pb)) by {
                assert forall|i: int| 0 <= i < before.len() implies self.deferred.deep_view()[i]
                    == before[i] by {
                    assert(self.deferred@[i] == old(self).deferred@[i]);
                }
                assert(self.deferred.deep_view()[before.len() as int] == self.deferred@[before.len() as int].deep_view());
                assert(self.deferred@[before.len() as int]@ =~= self.deferred@[before.len() as int].deep_view());
            }
            EntryAction::Defer
        } else {
            EntryAction::Unpack
        }
    }

    /// The order in which the held-back directories are unpacked: indices into
    /// them, by descending path, equal paths in the order they were met.
    pub fn unpack_order(&self) -> (order: Vec<usize>)
        ensures
            is_unpack_order(self@.deferred, order@),
    {
        directory_unpack_order(&self.deferred)
    }
}

} // verus!
