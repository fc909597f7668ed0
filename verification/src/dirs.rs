use vstd::prelude::*;
use crate::text::{chars_of, contains_chars, is_substring, lemma_substring_is_occurrence, occurs_in};

verus! {

/// Where a command runs: in the process's current directory, or in a configured folder.
#[derive(Clone, Debug, PartialEq, Eq)]
pub enum WorkingDirectory {
    Current,
    Configured(String),
}

/// `dir` holds one of `paths` as a substring. Matching is by substring of the whole path,
/// not by comparing folder names.
pub open spec fn dir_matches(dir: Seq<char>, paths: Seq<String>) -> bool {
    exists|k: int| 0 <= k < paths.len() && is_substring(#[trigger] paths[k]@, dir)
}

/// The directories that match none of `paths`, in their original order.
pub open spec fn without_matches(dirs: Seq<String>, paths: Seq<String>) -> Seq<String> {
    dirs.filter(|d: String| !dir_matches(d@, paths))
}

/// The directories that match one of `paths`, in their original order.
pub open spec fn only_matches(dirs: Seq<String>, paths: Seq<String>) -> Seq<String> {
    dirs.filter(|d: String| dir_matches(d@, paths))
}

/// The contents of an optional list of filter strings.
pub open spec fn opt_seq(o: Option<&[String]>) -> Option<Seq<String>> {
    match o {
        Some(s) => Some(s@),
        None => None,
    }
}

/// The directory listing after the ignored folders are removed, then the skipped ones (only
/// when no `only` list is given), then everything that no `only` entry matches.
pub open spec fn filtered_directories(
    dirs: Seq<String>,
    ignored: Option<Seq<String>>,
    skip: Option<Seq<String>>,
    only: Option<Seq<String>>,
) -> Seq<String> {
    let after_ignored = match ignored {
        Some(ig) => without_matches(dirs, ig),
        None => dirs,
    };
    let after_skip = match (skip, only) {
        (Some(sk), None) => without_matches(after_ignored, sk),
        _ => after_ignored,
    };
    match only {
        Some(on) => only_matches(after_skip, on),
        None => after_skip,
    }
}

/// `r` is where commands run given the `--local` flag and the configured default folder:
/// `--local` always wins, otherwise the configured folder, otherwise the current directory.
pub open spec fn is_working_directory_for(r: WorkingDirectory, local_flag: bool, default_folder: Option<Seq<char>>) -> bool {
    if local_flag {
        r == WorkingDirectory::Current
    } else {
        match default_folder {
            Some(f) => r matches WorkingDirectory::Configured(g) && g@ == f,
            None => r == WorkingDirectory::Current,
        }
    }
}

/// A directory survives the filters: it matches no ignored folder, matches no skipped folder
/// (only when no `only` list is given), and matches some `only` entry (when one is given).
pub open spec fn kept_by_filters(
    dir: Seq<char>,
    ignored: Option<Seq<String>>,
    skip: Option<Seq<String>>,
    only: Option<Seq<String>>,
) -> bool {
    &&& (ignored matches Some(ig) ==> !dir_matches(dir, ig))
    &&& (only is None && skip is Some ==> !dir_matches(dir, skip->0))
    &&& (only matches Some(on) ==> dir_matches(dir, on))
}

/// Resolves where commands run: `--local` always wins, otherwise the configured default
/// folder, and the current directory when neither applies.
pub fn assume_working_directory(local_flag: bool, default_folder: Option<&str>) -> (r: WorkingDirectory)
    ensures
        is_working_directory_for(r, local_flag, match default_folder {
            Some(f) => Some(f@),
            None => None,
        }),
{
    if local_flag {
        return WorkingDirectory::Current;
    }
    match default_folder {
        Some(folder) => WorkingDirectory::Configured(folder.to_owned()),
        None => WorkingDirectory::Current,
    }
}

/// Whether `dir` contains any of `paths` as a substring.
fn matches_any(dir: &String, paths: &[String]) -> (r: bool)
    ensures
        r == dir_matches(dir@, paths@),
{
    let d = chars_of(dir.as_str());
    let n = paths.len();
    let mut k: usize = 0;
    while k < n
        invariant
            k <= n,
            n == paths@.len(),
            d@ == dir@,
            forall|j: int| 0 <= j < k ==> !is_substring(#[trigger] paths@[j]@, dir@),
        decreases n - k,
    {
        let p = chars_of(paths[k].as_str());
        if contains_chars(&d, &p) {
            assert(is_substring(paths@[k as int]@, dir@));
            return true;
        }
        k = k + 1;
    }
    false
}

/// Keeps the directories whose path matches none of `paths` (by substring), in order.
pub fn remove_target_directories(directories: Vec<String>, paths: &[String]) -> (r: Vec<String>)
    ensures
        r@ == without_matches(directories@, paths@),
{
    let mut r: Vec<String> = Vec::new();
    let n = directories.len();
    for i in 0..n
        invariant
            n == directories@.len(),
            r@ == without_matches(directories@.take(i as int), paths@),
    {
        reveal_with_fuel(Seq::<_>::filter, 1);
        assert(directories@.take(i + 1).drop_last() =~= directories@.take(i as int));
        assert(directories@.take(i + 1).last() == directories@[i as int]);
        if !matches_any(&directories[i], paths) {
            r.push(directories[i].clone());
        }
    }
    assert(directories@.take(n as int) =~= directories@);
    r
}

/// Keeps the directories whose path matches at least one of `paths` (by substring), in order.
pub fn select_target_directories(directories: Vec<String>, paths: &[String]) -> (r: Vec<String>)
    ensures
        r@ == only_matches(directories@, paths@),
{
    let mut r: Vec<String> = Vec::new();
    let n = directories.len();
    for i in 0..n
        invariant
            n == directories@.len(),
            r@ == only_matches(directories@.take(i as int), paths@),
    {
        reveal_with_fuel(Seq::<_>::filter, 1);
        assert(directories@.take(i + 1).drop_last() =~= directories@.take(i as int));
        assert(directories@.take(i + 1).last() == directories@[i as int]);
        if matches_any(&directories[i], paths) {
            r.push(directories[i].clone());
        }
    }
    assert(directories@.take(n as int) =~= directories@);
    r
}

/// Applies the ignore, skip and only filters to a directory listing. `only` and `skip` are
/// mutually exclusive: when `only` is given, `skip` is not applied at all.
pub fn filter_available_directories(
    all_directories: Vec<String>,
    ignored_folders: Option<&[String]>,
    skip: Option<&[String]>,
    only: Option<&[String]>,
) -> (r: Vec<String>)
    ensures
        r@ == filtered_directories(all_directories@, opt_seq(ignored_folders), opt_seq(skip), opt_seq(only)),
{
    let mut directories = all_directories;
    if let Some(ignored) = ignored_folders {
        directories = remove_target_directories(directories, ignored);
    }
    if let Some(skip) = skip {
        if only.is_none() {
            directories = remove_target_directories(directories, skip);
        }
    }
    if let Some(only) = only {
        directories = select_target_directories(directories, only);
    }
    directories
}


/// Whether one directory survives the ignore, skip and only filters; applying this to each
/// entry of a listing in turn gives `filter_available_directories` (see
/// `lemma_filters_are_one_pass`).
pub fn keeps_directory(
    dir: &String,
    ignored_folders: Option<&[String]>,
    skip: Option<&[String]>,
    only: Option<&[String]>,
) -> (r: bool)
    ensures
        r == kept_by_filters(dir@, opt_seq(ignored_folders), opt_seq(skip), opt_seq(only)),
{
    if let Some(ignored) = ignored_folders {
        if matches_any(dir, ignored) {
            return false;
        }
    }
    if let Some(skip) = skip {
        if only.is_none() && matches_any(dir, skip) {
            return false;
        }
    }
    match only {
        Some(only) => matches_any(dir, only),
        None => true,
    }
}

/// Filtering twice is filtering once by both predicates.
proof fn lemma_filter_filter(s: Seq<String>, p: spec_fn(String) -> bool, q: spec_fn(String) -> bool)
    ensures
        s.filter(p).filter(q) == s.filter(|x: String| p(x) && q(x)),
    decreases s.len(),
{
    reveal_with_fuel(Seq::<_>::filter, 1);
    if s.len() > 0 {
        lemma_filter_filter(s.drop_last(), p, q);
        if p(s.last()) {
            assert(s.filter(p).drop_last() =~= s.drop_last().filter(p));
        }
    }
    assert(s.filter(p).filter(q) =~= s.filter(|x: String| p(x) && q(x)));
}

/// The three filters applied one after another keep exactly the directories that pass
/// `kept_by_filters`, in their original order: they can be applied one directory at a time.
pub proof fn lemma_filters_are_one_pass(
    dirs: Seq<String>,
    ignored: Option<Seq<String>>,
    skip: Option<Seq<String>>,
    only: Option<Seq<String>>,
)
    ensures
        filtered_directories(dirs, ignored, skip, only) == dirs.filter(|d: String| kept_by_filters(d@, ignored, skip, only)),
{
    let pi = |x: String| match ignored { Some(ig) => !dir_matches(x@, ig), None => true };
    let ps = |x: String| match (skip, only) { (Some(sk), None) => !dir_matches(x@, sk), _ => true };
    let po = |x: String| match only { Some(on) => dir_matches(x@, on), None => true };
    let a = match ignored { Some(ig) => without_matches(dirs, ig), None => dirs };
    assert(a == dirs.filter(pi)) by {
        if let Some(ig) = ignored {
            lemma_filter_ext(dirs, |d: String| !dir_matches(d@, ig), pi);
        } else {
            lemma_filter_true(dirs);
            lemma_filter_ext(dirs, |d: String| true, pi);
        }
    }
    let b = match (skip, only) { (Some(sk), None) => without_matches(a, sk), _ => a };
    assert(b == a.filter(ps)) by {
        if let (Some(sk), None) = (skip, only) {
            lemma_filter_ext(a, |d: String| !dir_matches(d@, sk), ps);
        } else {
            lemma_filter_true(a);
            lemma_filter_ext(a, |d: String| true, ps);
        }
    }
    let c = match only { Some(on) => only_matches(b, on), None => b };
    assert(c == b.filter(po)) by {
        if let Some(on) = only {
            lemma_filter_ext(b, |d: String| dir_matches(d@, on), po);
        } else {
            lemma_filter_true(b);
            lemma_filter_ext(b, |d: String| true, po);
        }
    }
    lemma_filter_filter(dirs, pi, ps);
    lemma_filter_filter(dirs, |x: String| pi(x) && ps(x), po);
    lemma_filter_ext(
        dirs,
        |x: String| (|y: String| pi(y) && ps(y))(x) && po(x),
        |d: String| kept_by_filters(d@, ignored, skip, only),
    );
}

/// Filtering by a predicate that keeps everything changes nothing.
proof fn lemma_filter_true(s: Seq<String>)
    ensures
        s.filter(|d: String| true) == s,
    decreases s.len(),
{
    reveal_with_fuel(Seq::<_>::filter, 1);
    if s.len() > 0 {
        lemma_filter_true(s.drop_last());
        assert(s.drop_last().push(s.last()) =~= s);
    }
}

/// Filters by predicates that agree on every item give the same result.
proof fn lemma_filter_ext(s: Seq<String>, p: spec_fn(String) -> bool, q: spec_fn(String) -> bool)
    requires
        forall|x: String| #[trigger] p(x) == q(x),
    ensures
        s.filter(p) == s.filter(q),
    decreases s.len(),
{
    reveal_with_fuel(Seq::<_>::filter, 1);
    if s.len() > 0 {
        lemma_filter_ext(s.drop_last(), p, q);
    }
}

/// An item survives a filter exactly when it was there and passes the predicate.
proof fn lemma_filter_member(s: Seq<String>, p: spec_fn(String) -> bool, x: String)
    ensures
        s.filter(p).contains(x) <==> (s.contains(x) && p(x)),
{
    if s.filter(p).contains(x) {
        s.lemma_filter_contains_rev(p, x);
        let j = choose|j: int| 0 <= j < s.filter(p).len() && s.filter(p)[j] == x;
        s.lemma_filter_pred(p, j);
    }
    if s.contains(x) && p(x) {
        let i = choose|i: int| 0 <= i < s.len() && s[i] == x;
        s.lemma_filter_contains(p, i);
    }
}

/// With no ignore, skip or only list, the listing passes through unchanged.
pub proof fn lemma_no_filters_keep_everything(dirs: Seq<String>)
    ensures
        filtered_directories(dirs, None, None, None) == dirs,
{
}

/// When an `only` list is given, the `skip` list has no effect at all.
pub proof fn lemma_only_disables_skip(
    dirs: Seq<String>,
    ignored: Option<Seq<String>>,
    skip: Option<Seq<String>>,
    only: Seq<String>,
)
    ensures
        filtered_directories(dirs, ignored, skip, Some(only)) == filtered_directories(dirs, ignored, None, Some(only)),
{
}

/// The filters compose: a directory is in the result exactly when it is in the listing,
/// matches no ignored folder, matches no skipped folder (when no `only` list is given), and
/// matches some `only` entry (when an `only` list is given).
pub proof fn lemma_filtered_membership(
    dirs: Seq<String>,
    ignored: Option<Seq<String>>,
    skip: Option<Seq<String>>,
    only: Option<Seq<String>>,
    d: String,
)
    ensures
        filtered_directories(dirs, ignored, skip, only).contains(d) <==> {
            &&& dirs.contains(d)
            &&& (ignored matches Some(ig) ==> !dir_matches(d@, ig))
            &&& (only is None && skip is Some ==> !dir_matches(d@, skip->0))
            &&& (only matches Some(on) ==> dir_matches(d@, on))
        },
{
    let after_ignored = match ignored {
        Some(ig) => without_matches(dirs, ig),
        None => dirs,
    };
    let after_skip = match (skip, only) {
        (Some(sk), None) => without_matches(after_ignored, sk),
        _ => after_ignored,
    };
    if let Some(ig) = ignored {
        lemma_filter_member(dirs, |x: String| !dir_matches(x@, ig), d);
    }
    if let (Some(sk), None) = (skip, only) {
        lemma_filter_member(after_ignored, |x: String| !dir_matches(x@, sk), d);
    }
    if let Some(on) = only {
        lemma_filter_member(after_skip, |x: String| dir_matches(x@, on), d);
    }
}

/// Removing and selecting by the same paths split a listing in two: nothing is in both, and
/// together they are as long as the listing.
pub proof fn lemma_remove_and_select_partition(dirs: Seq<String>, paths: Seq<String>)
    ensures
        without_matches(dirs, paths).len() + only_matches(dirs, paths).len() == dirs.len(),
        forall|d: String| !(#[trigger] without_matches(dirs, paths).contains(d) && only_matches(dirs, paths).contains(d)),
    decreases dirs.len(),
{
    reveal_with_fuel(Seq::<_>::filter, 1);
    if dirs.len() > 0 {
        lemma_remove_and_select_partition(dirs.drop_last(), paths);
    }
    assert forall|d: String| !(#[trigger] without_matches(dirs, paths).contains(d) && only_matches(dirs, paths).contains(d)) by {
        lemma_filter_member(dirs, |x: String| !dir_matches(x@, paths), d);
        lemma_filter_member(dirs, |x: String| dir_matches(x@, paths), d);
    }
}

/// Removing the same paths a second time changes nothing.
pub proof fn lemma_remove_idempotent(dirs: Seq<String>, paths: Seq<String>)
    ensures
        without_matches(without_matches(dirs, paths), paths) == without_matches(dirs, paths),
    decreases dirs.len(),
{
    reveal_with_fuel(Seq::<_>::filter, 1);
    if dirs.len() > 0 {
        lemma_remove_idempotent(dirs.drop_last(), paths);
        let inner = without_matches(dirs, paths);
        if !dir_matches(dirs.last()@, paths) {
            assert(inner.drop_last() =~= without_matches(dirs.drop_last(), paths));
        }
    }
}

/// Selecting the same paths a second time changes nothing.
pub proof fn lemma_select_idempotent(dirs: Seq<String>, paths: Seq<String>)
    ensures
        only_matches(only_matches(dirs, paths), paths) == only_matches(dirs, paths),
    decreases dirs.len(),
{
    reveal_with_fuel(Seq::<_>::filter, 1);
    if dirs.len() > 0 {
        lemma_select_idempotent(dirs.drop_last(), paths);
        let inner = only_matches(dirs, paths);
        if dir_matches(dirs.last()@, paths) {
            assert(inner.drop_last() =~= only_matches(dirs.drop_last(), paths));
        }
    }
}

/// `--local` always means the current directory, whether or not a default folder is
/// configured; without it a configured folder is used as given, and the current directory when
/// none is configured.
pub proof fn lemma_working_directory_choice(r: WorkingDirectory, local_flag: bool, default_folder: Option<Seq<char>>)
    requires
        is_working_directory_for(r, local_flag, default_folder),
    ensures
        local_flag ==> r == WorkingDirectory::Current,
        !local_flag && default_folder is None ==> r == WorkingDirectory::Current,
        !local_flag && default_folder is Some ==> (r matches WorkingDirectory::Configured(g) && g@ == default_folder->0),
{
}

/// A path matches a pattern list exactly when one of the patterns occurs in it as a run of
/// consecutive characters: `d == a + pattern + b` for some texts `a` and `b`.
pub proof fn lemma_dir_matches_is_occurrence(d: Seq<char>, paths: Seq<String>)
    ensures
        dir_matches(d, paths) <==> exists|k: int| 0 <= k < paths.len() && #[trigger] occurs_in(paths[k]@, d),
{
    if dir_matches(d, paths) {
        let k = choose|k: int| 0 <= k < paths.len() && is_substring(#[trigger] paths[k]@, d);
        lemma_substring_is_occurrence(paths[k]@, d);
    }
    if exists|k: int| 0 <= k < paths.len() && #[trigger] occurs_in(paths[k]@, d) {
        let k = choose|k: int| 0 <= k < paths.len() && #[trigger] occurs_in(paths[k]@, d);
        lemma_substring_is_occurrence(paths[k]@, d);
    }
}

/// A path in which no ignored pattern occurs survives ignoring them (with no skip or only
/// list), and one in which some ignored pattern occurs does not.
pub proof fn lemma_ignored_by_occurrence(d: Seq<char>, ignored: Seq<String>)
    ensures
        kept_by_filters(d, Some(ignored), None, None) <==> forall|k: int| 0 <= k < ignored.len() ==> !#[trigger] occurs_in(ignored[k]@, d),
{
    lemma_dir_matches_is_occurrence(d, ignored);
}

} // verus!
