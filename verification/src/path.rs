//! Collision-free output paths: a path that is already taken gets a counter
//! behind its file stem, counted up until a free one is found.

use crate::decimal::{append_decimal, decimal, lemma_decimal_injective};
use crate::format::extension_of;
use crate::text::text_of;
use vstd::prelude::*;
use vstd::string::StringExecFns;

verus! {

/// The directory part of a path, as `std::path::Path::parent` gives it:
/// the path without its final component, `None` where there is none to take
/// off. It is decided by the text of the path alone, never by what is on disk.
pub uninterp spec fn path_parent(path: Seq<char>) -> Option<Seq<char>>;

/// The final component of a path, as `std::path::Path::file_name` gives it,
/// `None` where the path ends in `..` or has no component. It is decided by
/// the text of the path alone.
pub uninterp spec fn path_file_name(path: Seq<char>) -> Option<Seq<char>>;

/// `name` adjoined to the directory `base`, as `std::path::Path::join`
/// gives it. It is decided by the two texts alone.
pub uninterp spec fn path_join(base: Seq<char>, name: Seq<char>) -> Seq<char>;

/// Whether a file name splits into a stem and an extension: it does where a
/// `.` stands in it behind its first character.
pub open spec fn splits_at_dot(name: Seq<char>) -> bool {
    match extension_of(name) {
        Some(ext) => ext.len() + 1 < name.len(),
        None => false,
    }
}

/// The stem of a file name: the part before its last `.`, or all of it where
/// it does not split.
pub open spec fn stem_of(name: Option<Seq<char>>) -> Option<Seq<char>> {
    match name {
        Some(n) => if splits_at_dot(n) {
            Some(n.subrange(0, n.len() - extension_of(n)->0.len() - 1))
        } else {
            Some(n)
        },
        None => None,
    }
}

/// The extension of a file name: the part behind its last `.`, where it
/// splits.
pub open spec fn extension_part_of(name: Option<Seq<char>>) -> Option<Seq<char>> {
    match name {
        Some(n) => if splits_at_dot(n) {
            extension_of(n)
        } else {
            None
        },
        None => None,
    }
}

/// Asks the file system whether anything exists at `path`, through
/// `std::path::Path::exists`. The answer depends on the disk at the moment
/// of the call, so nothing is claimed of it.
#[verifier::external_body]
pub(crate) fn path_exists(path: &str) -> (found: bool) {
    std::path::Path::new(path).exists()
}

/// Calls `std::path::Path::parent`. Claimed: the result is the named
/// directory part of `path`.
#[verifier::external_body]
fn parent_of(path: &str) -> (parent: Option<String>)
    ensures
        text_of(parent) == path_parent(path@),
{
    match std::path::Path::new(path).parent() {
        Some(p) => Some(p.to_string_lossy().into_owned()),
        None => None,
    }
}

/// Calls `std::path::Path::file_stem`. Claimed, as std documents it: `None`
/// where the path has no file name; else the whole file name where it holds
/// no `.` or only one at its start; else the part before its last `.`.
#[verifier::external_body]
fn file_stem_of(path: &str) -> (stem: Option<String>)
    ensures
        text_of(stem) == stem_of(path_file_name(path@)),
{
    match std::path::Path::new(path).file_stem() {
        Some(s) => Some(s.to_string_lossy().into_owned()),
        None => None,
    }
}

/// Calls `std::path::Path::extension`. Claimed, as std documents it: `None`
/// where the path has no file name, or the file name holds no `.` or only
/// one at its start; else the part behind its last `.`.
#[verifier::external_body]
fn file_extension_of(path: &str) -> (extension: Option<String>)
    ensures
        text_of(extension) == extension_part_of(path_file_name(path@)),
{
    match std::path::Path::new(path).extension() {
        Some(e) => Some(e.to_string_lossy().into_owned()),
        None => None,
    }
}

/// Calls `std::path::Path::join`. Claimed: the result is the named joined
/// path of `base` and `name`.
#[verifier::external_body]
fn join_path(base: &str, name: &str) -> (joined: String)
    ensures
        joined@ == path_join(base@, name@),
{
    std::path::Path::new(base).join(name).to_string_lossy().into_owned()
}

/// The stem given to candidates where the desired path has no file name.
pub open spec fn fallback_stem() -> Seq<char> {
    "arquivo"@
}

/// What a desired path is split into before candidates are built from it.
#[derive(Debug)]
pub struct PathParts {
    /// The directory; empty where the path names none.
    pub parent: String,
    /// The file stem, or the fallback stem.
    pub stem: String,
    /// The extension without its `.`, where the file name has one.
    pub extension: Option<String>,
}

/// The texts of a `PathParts`.
pub ghost struct PartsText {
    pub parent: Seq<char>,
    pub stem: Seq<char>,
    pub extension: Option<Seq<char>>,
}

impl View for PathParts {
    type V = PartsText;

    open spec fn view(&self) -> PartsText {
        PartsText { parent: self.parent@, stem: self.stem@, extension: text_of(self.extension) }
    }
}

/// The parts of a desired path.
pub open spec fn parts_of(path: Seq<char>) -> PartsText {
    PartsText {
        parent: match path_parent(path) {
            Some(parent) => parent,
            None => Seq::empty(),
        },
        stem: match stem_of(path_file_name(path)) {
            Some(stem) => stem,
            None => fallback_stem(),
        },
        extension: extension_part_of(path_file_name(path)),
    }
}

/// The file name of the candidate with counter `index`: the stem, the
/// counter in base ten, and the extension behind a `.` where there is one.
pub open spec fn candidate_name(stem: Seq<char>, extension: Option<Seq<char>>, index: nat) -> Seq<
    char,
> {
    match extension {
        Some(ext) => stem + decimal(index) + seq!['.'] + ext,
        None => stem + decimal(index),
    }
}

/// The candidate with counter `index` built from the parts of a path: its
/// file name, alone where the directory is empty, else joined to it.
pub open spec fn candidate_of(parts: PartsText, index: nat) -> Seq<char> {
    let name = candidate_name(parts.stem, parts.extension, index);
    if parts.parent.len() == 0 {
        name
    } else {
        path_join(parts.parent, name)
    }
}

/// The candidate with counter `index` for a desired path.
pub open spec fn candidate(path: Seq<char>, index: nat) -> Seq<char> {
    candidate_of(parts_of(path), index)
}

/// Splits a desired path into directory, stem and extension.
pub fn split_output_path(path: &str) -> (parts: PathParts)
    ensures
        parts@ == parts_of(path@),
{
    let parent = match parent_of(path) {
        Some(parent) => parent,
        None => String::new(),
    };
    let stem = match file_stem_of(path) {
        Some(stem) => stem,
        None => String::from_str("arquivo"),
    };
    let extension = file_extension_of(path);
    PathParts { parent, stem, extension }
}

/// Builds the file name of the candidate with counter `index`.
pub fn candidate_file_name(stem: &str, extension: Option<&str>, index: u64) -> (name: String)
    ensures
        name@ == candidate_name(
            stem@,
            match extension {
                Some(ext) => Some(ext@),
                None => None,
            },
            index as nat,
        ),
{
    let mut name = String::from_str(stem);
    append_decimal(&mut name, index);
    match extension {
        Some(ext) => {
            proof {
                reveal_strlit(".");
            }
            name.append(".");
            name.append(ext);
            assert("."@ =~= seq!['.']);
        },
        None => {},
    }
    name
}

/// Builds the candidate with counter `index` from the parts of a path.
pub fn candidate_path(parts: &PathParts, index: u64) -> (path: String)
    ensures
        path@ == candidate_of(parts@, index as nat),
{
    let extension = match &parts.extension {
        Some(ext) => Some(ext.as_str()),
        None => None,
    };
    let name = candidate_file_name(parts.stem.as_str(), extension, index);
    if parts.parent.as_str().is_empty() {
        name
    } else {
        join_path(parts.parent.as_str(), name.as_str())
    }
}

/// The set of paths that a list of taken paths holds.
pub open spec fn taken_paths(taken: Seq<String>) -> Set<Seq<char>> {
    Set::new(|path: Seq<char>| exists|i: int| 0 <= i < taken.len() && #[trigger] taken[i]@ == path)
}

/// Whether `result` is what the search gives for `desired`, whatever it found
/// taken: `desired` itself, or one of its candidates.
pub open spec fn is_resolution(desired: Seq<char>, result: Seq<char>) -> bool {
    result == desired || exists|k: nat|
        1 <= k <= u64::MAX && result == #[trigger] candidate(desired, k)
}

/// Whether the candidate with counter `k` is where the search among `taken`
/// stops: every candidate before it is taken, and it is free, or it is the
/// last one there is.
pub open spec fn is_first_free(desired: Seq<char>, taken: Set<Seq<char>>, k: nat) -> bool {
    &&& 1 <= k <= u64::MAX
    &&& forall|j: nat| 1 <= j < k ==> taken.contains(#[trigger] candidate(desired, j))
    &&& k < u64::MAX ==> !taken.contains(candidate(desired, k))
}

/// Whether `result` is the unique path for `desired` among `taken`:
/// `desired` itself where it is free, else its first free candidate.
pub open spec fn resolves_among(desired: Seq<char>, taken: Set<Seq<char>>, result: Seq<char>) -> bool {
    if taken.contains(desired) {
        exists|k: nat| #[trigger] is_first_free(desired, taken, k) && result == candidate(desired, k)
    } else {
        result == desired
    }
}

/// Whether the existence test `probe` gave the answer `taken` when it was
/// asked for the path with the text `path`.
pub open spec fn answers<F: Fn(&str) -> bool>(probe: F, path: Seq<char>, taken: bool) -> bool {
    exists|p: &str| p@ == path && #[trigger] call_ensures(probe, (p,), taken)
}

/// Whether the candidate with counter `k` is where a search that asks
/// `probe` stops: the probe answered "taken" for every candidate before it,
/// and "free" for it, unless it is the last one there is.
pub open spec fn stops_at<F: Fn(&str) -> bool>(probe: F, desired: Seq<char>, k: nat) -> bool {
    &&& 1 <= k <= u64::MAX
    &&& forall|j: nat| 1 <= j < k ==> answers(probe, #[trigger] candidate(desired, j), true)
    &&& k < u64::MAX ==> answers(probe, candidate(desired, k), false)
}

/// Whether `result` is what a search that asks `probe` finds for `desired`:
/// `desired` itself, for which the probe answered "free"; or, the probe
/// having answered "taken" for it, the candidate at which the search stops.
pub open spec fn found_by<F: Fn(&str) -> bool>(probe: F, desired: Seq<char>, result: Seq<char>) -> bool {
    ||| result == desired && answers(probe, desired, false)
    ||| answers(probe, desired, true) && exists|k: nat| #[trigger]
        stops_at(probe, desired, k) && result == candidate(desired, k)
}

/// Whether `probe` answers as a fixed set of taken paths does: "taken" for
/// the paths in `taken`, "free" for every other.
pub open spec fn tells<F: Fn(&str) -> bool>(probe: F, taken: Set<Seq<char>>) -> bool {
    forall|p: &str, answer: bool| #[trigger]
        call_ensures(probe, (p,), answer) ==> answer == taken.contains(p@)
}

/// Whether `path` is one of `taken`.
pub fn is_taken(taken: &Vec<String>, path: &str) -> (found: bool)
    ensures
        found == taken_paths(taken@).contains(path@),
{
    let wanted = String::from_str(path);
    let mut i: usize = 0;
    while i < taken.len()
        invariant
            i <= taken.len(),
            wanted@ == path@,
            forall|j: int| 0 <= j < i ==> taken[j]@ != path@,
        decreases taken.len() - i,
    {
        if taken[i] == wanted {
            return true;
        }
        i += 1;
    }
    false
}

/// Searches for a free path, asking `probe` whether a path is taken:
/// first for `output_path` itself, which is kept where the answer is
/// "free"; then for its candidates, counted from 1, none left out, until the
/// answer is "free". Only the last candidate there is, with counter
/// `u64::MAX`, is given without asking.
pub fn unique_path_by<F: Fn(&str) -> bool>(output_path: &str, probe: F) -> (result: String)
    requires
        forall|p: &str| call_requires(probe, (p,)),
    ensures
        found_by(probe, output_path@, result@),
        is_resolution(output_path@, result@),
{
    if !probe(output_path) {
        return String::from_str(output_path);
    }
    let parts = split_output_path(output_path);
    let mut index: u64 = 1;
    loop
        invariant
            1 <= index <= u64::MAX,
            parts@ == parts_of(output_path@),
            forall|p: &str| call_requires(probe, (p,)),
            answers(probe, output_path@, true),
            forall|j: nat|
                1 <= j < index ==> answers(probe, #[trigger] candidate(output_path@, j), true),
        decreases u64::MAX - index,
    {
        let path = candidate_path(&parts, index);
        if index == u64::MAX || !probe(path.as_str()) {
            assert(stops_at(probe, output_path@, index as nat));
            return path;
        }
        index += 1;
    }
}

/// A search that asks a probe which answers as a fixed set of taken paths
/// finds the unique path among that set.
pub proof fn lemma_found_among<F: Fn(&str) -> bool>(
    probe: F,
    desired: Seq<char>,
    taken: Set<Seq<char>>,
    result: Seq<char>,
)
    requires
        found_by(probe, desired, result),
        tells(probe, taken),
    ensures
        resolves_among(desired, taken, result),
{
    if result == desired && answers(probe, desired, false) {
        assert(!taken.contains(desired));
    } else {
        assert(taken.contains(desired));
        let k = choose|k: nat| #[trigger]
            stops_at(probe, desired, k) && result == candidate(desired, k);
        assert forall|j: nat| 1 <= j < k implies taken.contains(
            #[trigger] candidate(desired, j),
        ) by {
            assert(answers(probe, candidate(desired, j), true));
        }
        assert(is_first_free(desired, taken, k));
    }
}

/// Gives a path that is not among `taken`: `output_path` itself where it is
/// free, else the first of its candidates, counted from 1, that is free.
/// Should every counter up to `u64::MAX` be taken, the last candidate is
/// given.
pub fn unique_path_among(output_path: &str, taken: &Vec<String>) -> (result: String)
    ensures
        resolves_among(output_path@, taken_paths(taken@), result@),
        !taken_paths(taken@).contains(output_path@) ==> result@ == output_path@,
        is_resolution(output_path@, result@),
{
    let probe = |path: &str| -> (found: bool)
        ensures
            found == taken_paths(taken@).contains(path@),
        { is_taken(taken, path) };
    let result = unique_path_by(output_path, probe);
    proof {
        lemma_found_among(probe, output_path@, taken_paths(taken@), result@);
    }
    result
}

/// Gives a path at which nothing existed when it was looked at: the search
/// of `unique_path_by`, asking the file system. Nothing is created, removed
/// or locked. What is on disk has no name here, so of the result only its
/// shape is stated; which path it is, by what the disk answered, is the
/// contract of `unique_path_by`.
pub fn get_unique_output_path(output_path: &str) -> (result: String)
    ensures
        is_resolution(output_path@, result@),
{
    unique_path_by(output_path, |path: &str| path_exists(path))
}

/// The search among given paths has one answer: two results for the same
/// desired path and the same taken paths are the same path.
pub proof fn lemma_resolution_is_unique(
    desired: Seq<char>,
    taken: Set<Seq<char>>,
    first: Seq<char>,
    second: Seq<char>,
)
    requires
        resolves_among(desired, taken, first),
        resolves_among(desired, taken, second),
    ensures
        first == second,
{
    if taken.contains(desired) {
        let j = choose|k: nat| #[trigger] is_first_free(desired, taken, k) && first == candidate(desired, k);
        let k = choose|k: nat| #[trigger]
            is_first_free(desired, taken, k) && second == candidate(desired, k);
        if j < k {
            assert(taken.contains(candidate(desired, j)));
        } else if k < j {
            assert(taken.contains(candidate(desired, k)));
        }
    }
}

/// What a search finds is the desired path or one of its candidates.
pub proof fn lemma_found_is_resolution<F: Fn(&str) -> bool>(
    probe: F,
    desired: Seq<char>,
    result: Seq<char>,
)
    requires
        found_by(probe, desired, result),
    ensures
        is_resolution(desired, result),
{
    if !(result == desired && answers(probe, desired, false)) {
        let k = choose|k: nat| #[trigger]
            stops_at(probe, desired, k) && result == candidate(desired, k);
        assert(1 <= k <= u64::MAX && result == candidate(desired, k));
    }
}

/// Two searches for the same desired path that ask probes answering as the
/// same set of taken paths find the same path.
pub proof fn lemma_searches_agree<F: Fn(&str) -> bool, G: Fn(&str) -> bool>(
    first_probe: F,
    second_probe: G,
    taken: Set<Seq<char>>,
    desired: Seq<char>,
    first: Seq<char>,
    second: Seq<char>,
)
    requires
        tells(first_probe, taken),
        tells(second_probe, taken),
        found_by(first_probe, desired, first),
        found_by(second_probe, desired, second),
    ensures
        first == second,
{
    lemma_found_among(first_probe, desired, taken, first);
    lemma_found_among(second_probe, desired, taken, second);
    lemma_resolution_is_unique(desired, taken, first, second);
}

/// No silent overwrite: where the path that a first search found is taken
/// before a second search for the same desired path, the second search
/// finds another path.
pub proof fn lemma_second_search_differs<F: Fn(&str) -> bool, G: Fn(&str) -> bool>(
    first_probe: F,
    second_probe: G,
    taken: Set<Seq<char>>,
    desired: Seq<char>,
    first: Seq<char>,
    second: Seq<char>,
)
    requires
        tells(first_probe, taken),
        tells(second_probe, taken.insert(first)),
        found_by(first_probe, desired, first),
        found_by(second_probe, desired, second),
        second != candidate(desired, u64::MAX as nat),
    ensures
        first != second,
{
    lemma_found_among(first_probe, desired, taken, first);
    lemma_found_among(second_probe, desired, taken.insert(first), second);
    lemma_second_result_differs(desired, taken, first, second);
}

/// A path for which the probe never answers "taken" is kept as it is,
/// character for character.
pub proof fn lemma_found_free_is_kept<F: Fn(&str) -> bool>(
    probe: F,
    desired: Seq<char>,
    result: Seq<char>,
)
    requires
        found_by(probe, desired, result),
        !answers(probe, desired, true),
    ensures
        result == desired,
{
}

/// What the search finds was found free: the probe answered "free" for the
/// result, unless the search ran out of counters and gave the last
/// candidate.
pub proof fn lemma_found_was_free<F: Fn(&str) -> bool>(
    probe: F,
    desired: Seq<char>,
    result: Seq<char>,
)
    requires
        found_by(probe, desired, result),
        result != candidate(desired, u64::MAX as nat),
    ensures
        answers(probe, result, false),
{
    if !(result == desired && answers(probe, desired, false)) {
        let k = choose|k: nat| #[trigger]
            stops_at(probe, desired, k) && result == candidate(desired, k);
        assert(k < u64::MAX);
    }
}

/// A path that the search gave is kept when it is searched for again among
/// the same taken paths.
pub proof fn lemma_resolved_path_is_kept(
    desired: Seq<char>,
    taken: Set<Seq<char>>,
    result: Seq<char>,
    again: Seq<char>,
)
    requires
        resolves_among(desired, taken, result),
        result != candidate(desired, u64::MAX as nat),
        resolves_among(result, taken, again),
    ensures
        again == result,
{
    lemma_result_is_free(desired, taken, result);
}

/// A path at which nothing is taken is kept as it is.
pub proof fn lemma_free_path_is_kept(desired: Seq<char>, taken: Set<Seq<char>>, result: Seq<char>)
    requires
        resolves_among(desired, taken, result),
        !taken.contains(desired),
    ensures
        result == desired,
{
}

/// Counters progress: where the desired path and its candidates below
/// counter `k` are all taken and candidate `k` is free, the search gives
/// candidate `k`.
pub proof fn lemma_counter_progression(
    desired: Seq<char>,
    taken: Set<Seq<char>>,
    result: Seq<char>,
    k: nat,
)
    requires
        resolves_among(desired, taken, result),
        taken.contains(desired),
        1 <= k <= u64::MAX,
        forall|j: nat| 1 <= j < k ==> taken.contains(#[trigger] candidate(desired, j)),
        !taken.contains(candidate(desired, k)),
    ensures
        result == candidate(desired, k),
{
    assert(is_first_free(desired, taken, k));
    lemma_resolution_is_unique(desired, taken, result, candidate(desired, k));
}

/// Nothing taken is ever given out: the result of the search is free,
/// unless the search ran out of counters and gave the last candidate.
pub proof fn lemma_result_is_free(desired: Seq<char>, taken: Set<Seq<char>>, result: Seq<char>)
    requires
        resolves_among(desired, taken, result),
        result != candidate(desired, u64::MAX as nat),
    ensures
        !taken.contains(result),
{
    if taken.contains(desired) {
        let k = choose|k: nat| #[trigger]
            is_first_free(desired, taken, k) && result == candidate(desired, k);
        assert(k < u64::MAX);
    }
}

/// Searching twice for the same desired path, with the first result taken
/// before the second search, gives two different paths.
pub proof fn lemma_second_result_differs(
    desired: Seq<char>,
    taken: Set<Seq<char>>,
    first: Seq<char>,
    second: Seq<char>,
)
    requires
        resolves_among(desired, taken, first),
        resolves_among(desired, taken.insert(first), second),
        second != candidate(desired, u64::MAX as nat),
    ensures
        first != second,
{
    lemma_result_is_free(desired, taken.insert(first), second);
}

/// Different counters give different file names: two candidate names of
/// the same stem and extension are equal only for the same counter.
pub proof fn lemma_candidate_names_differ(
    stem: Seq<char>,
    extension: Option<Seq<char>>,
    i: nat,
    j: nat,
)
    requires
        candidate_name(stem, extension, i) == candidate_name(stem, extension, j),
    ensures
        i == j,
{
    let a = candidate_name(stem, extension, i);
    let b = candidate_name(stem, extension, j);
    let n = stem.len() as int;
    assert(a.len() == b.len());
    assert(decimal(i).len() == decimal(j).len());
    let m = n + decimal(i).len();
    assert(a.subrange(n, m) =~= decimal(i));
    assert(b.subrange(n, m) =~= decimal(j));
    lemma_decimal_injective(i, j);
}

} // verus!
