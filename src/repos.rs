//! Choosing the repositories to analyze, and the per-commit decisions of a
//! walk over a repository's history.

use vstd::prelude::*;
use crate::date::{DateRange, EPOCH_DAY, SECS_PER_DAY};
use crate::diff::ext_views;

verus! {

/// A registered repository.
#[derive(Debug)]
pub struct RepoConfig {
    /// Display name
    pub name: String,
    /// Path on disk
    pub path: String,
    /// Default branch to analyze
    pub branch: Option<String>,
}

/// A repository chosen for analysis.
#[derive(Debug)]
pub struct RepoInfo {
    /// Path on disk
    pub path: String,
    /// Display name
    pub name: String,
    /// Branch to analyze
    pub branch: Option<String>,
}

/// Whether `name` passes the name filter: no filter, or a filter that lists it.
pub open spec fn name_selected(name: Seq<char>, filter: Option<Seq<Seq<char>>>) -> bool {
    match filter {
        None => true,
        Some(names) => names.contains(name),
    }
}

/// Whether the repository at index `k` of `repos` is kept.
pub open spec fn repo_kept(repos: Seq<RepoConfig>, filter: Option<Seq<Seq<char>>>, is_repo: Seq<bool>, k: int) -> bool {
    name_selected(repos[k].name@, filter) && is_repo[k]
}

/// The indices of the kept repositories, in order.
pub open spec fn kept_indices(repos: Seq<RepoConfig>, filter: Option<Seq<Seq<char>>>, is_repo: Seq<bool>, n: int) -> Seq<int>
    decreases n,
{
    if n <= 0 {
        Seq::empty()
    } else {
        let r = kept_indices(repos, filter, is_repo, n - 1);
        if repo_kept(repos, filter, is_repo, n - 1) {
            r.push(n - 1)
        } else {
            r
        }
    }
}

/// The name filter as values.
pub open spec fn filter_view(filter: Option<&[String]>) -> Option<Seq<Seq<char>>> {
    match filter {
        Some(f) => Some(ext_views(f@)),
        None => None,
    }
}

/// Whether `name` is listed in `names`.
fn listed(names: &[String], name: &String) -> (r: bool)
    ensures
        r == ext_views(names@).contains(name@),
{
    let mut i: usize = 0;
    while i < names.len()
        invariant
            0 <= i <= names@.len(),
            forall|k: int| 0 <= k < i ==> names@[k]@ != name@,
        decreases names@.len() - i,
    {
        if names[i] == *name {
            assert(ext_views(names@)[i as int] == name@);
            return true;
        }
        i = i + 1;
    }
    assert(!ext_views(names@).contains(name@)) by {
        if ext_views(names@).contains(name@) {
            let k = choose|k: int| 0 <= k < names@.len() && #[trigger] ext_views(names@)[k] == name@;
            assert(names@[k]@ == name@);
        }
    }
    false
}

/// The repositories that pass the name filter (when there is one) and that
/// are git repositories on disk (`is_repo[k]` for the `k`-th), in order.
pub fn filter_and_validate_repos(repos: &[RepoConfig], filter: Option<&[String]>, is_repo: &[bool]) -> (r: Vec<RepoInfo>)
    requires
        is_repo@.len() == repos@.len(),
    ensures
        r@.len() == kept_indices(repos@, filter_view(filter), is_repo@, repos@.len() as int).len(),
        forall|j: int| 0 <= j < r@.len() ==> {
            let k = #[trigger] kept_indices(repos@, filter_view(filter), is_repo@, repos@.len() as int)[j];
            &&& 0 <= k < repos@.len()
            &&& r@[j].name@ == repos@[k].name@
            &&& r@[j].path@ == repos@[k].path@
            &&& r@[j].branch == repos@[k].branch
        },
{
    let mut out: Vec<RepoInfo> = Vec::new();
    let mut i: usize = 0;
    while i < repos.len()
        invariant
            0 <= i <= repos@.len(),
            is_repo@.len() == repos@.len(),
            out@.len() == kept_indices(repos@, filter_view(filter), is_repo@, i as int).len(),
            forall|j: int| 0 <= j < out@.len() ==> {
                let k = #[trigger] kept_indices(repos@, filter_view(filter), is_repo@, i as int)[j];
                &&& 0 <= k < i
                &&& out@[j].name@ == repos@[k].name@
                &&& out@[j].path@ == repos@[k].path@
                &&& out@[j].branch == repos@[k].branch
            },
        decreases repos@.len() - i,
    {
        let repo = &repos[i];
        let selected = match filter {
            Some(names) => listed(names, &repo.name),
            None => true,
        };
        let ghost before = kept_indices(repos@, filter_view(filter), is_repo@, i as int);
        if selected && is_repo[i] {
            let branch = match &repo.branch {
                Some(b) => Some(b.clone()),
                None => None,
            };
            out.push(RepoInfo { path: repo.path.clone(), name: repo.name.clone(), branch });
            proof {
                assert(kept_indices(repos@, filter_view(filter), is_repo@, i as int + 1) == before.push(i as int));
            }
        } else {
            proof {
                assert(kept_indices(repos@, filter_view(filter), is_repo@, i as int + 1) == before);
            }
        }
        i = i + 1;
    }
    out
}

/// The name of an analysis over `names`: the one name when there is exactly
/// one, else `"{count} repos"`.
pub fn combined_repo_name(names: &[String]) -> (r: String)
    ensures
        names@.len() == 1 ==> r@ == names@[0]@,
        names@.len() != 1 ==> r@ == crate::text::nat_text(names@.len() as nat) + " repos"@,
{
    if names.len() == 1 {
        return names[0].clone();
    }
    let mut s = String::new();
    crate::text::push_nat(&mut s, names.len() as u64);
    s.append(" repos");
    s
}

/// What a walk over commits newest-first does with one commit.
#[derive(Clone, Copy, Debug, PartialEq, Eq, Structural)]
pub enum WalkStep {
    /// Older than the range: no later commit can be in it either
    Stop,
    /// Not wanted: newer than the range, or an excluded merge
    Skip,
    /// In the range and wanted
    Take,
}

/// The instants `[start, end)` that the dates of `range` cover in UTC:
/// midnight of `from` up to midnight after `to`.
pub fn range_bounds(range: DateRange) -> (r: (i64, i64))
    requires
        range.wf(),
    ensures
        r.0 == (range.from.day - EPOCH_DAY) * SECS_PER_DAY,
        r.1 == (range.to.day + 1 - EPOCH_DAY) * SECS_PER_DAY,
{
    (
        (range.from.day as i64 - EPOCH_DAY as i64) * SECS_PER_DAY,
        (range.to.day as i64 + 1 - EPOCH_DAY as i64) * SECS_PER_DAY,
    )
}

/// The step for a commit at `secs` with the range's bounds `[start, end)`:
/// stop before the range, skip after it or when it is an excluded merge,
/// else take it.
pub fn walk_step(secs: i64, start: i64, end: i64, is_merge: bool, exclude_merges: bool) -> (r: WalkStep)
    ensures
        r == if secs < start {
            WalkStep::Stop
        } else if secs >= end || (exclude_merges && is_merge) {
            WalkStep::Skip
        } else {
            WalkStep::Take
        },
{
    if secs < start {
        WalkStep::Stop
    } else if secs >= end {
        WalkStep::Skip
    } else if exclude_merges && is_merge {
        WalkStep::Skip
    } else {
        WalkStep::Take
    }
}

} // verus!
