//! Single-developer mode: commit counts per repository and the report
//! built from them.
use vstd::prelude::*;
use crate::ranking::{is_desc_ranking, order_by_key_desc};

verus! {

/// The commits of the target account in one repository.
#[derive(Debug, Clone, PartialEq, Eq)]
pub struct RepositoryWithCommits {
    pub repo_name: String,
    pub repo_url: String,
    pub commit_count: u64,
}

/// The single-developer report.
#[derive(Debug, Clone, PartialEq, Eq)]
pub struct UserMoveFilesResponse {
    pub username: String,
    pub has_move_files: bool,
    pub total_repositories: usize,
    pub total_commits: u64,
    pub repositories: Vec<RepositoryWithCommits>,
}

/// The sum of a sequence of counts.
pub open spec fn page_total(sizes: Seq<int>) -> int
    decreases sizes.len(),
{
    if sizes.len() == 0 {
        0
    } else {
        page_total(sizes.drop_last()) + sizes.last()
    }
}

pub open spec fn as_ints(v: Seq<u64>) -> Seq<int> {
    v.map_values(|x: u64| x as int)
}

/// The sizes of the pages of a paginated listing.
pub open spec fn page_sizes<A>(pages: Seq<Seq<A>>) -> Seq<int> {
    pages.map_values(|p: Seq<A>| p.len() as int)
}

/// A count that stops at the largest `u64`.
pub open spec fn saturated(x: int) -> int {
    if x > u64::MAX {
        u64::MAX as int
    } else {
        x
    }
}

proof fn lemma_page_total_nonneg(sizes: Seq<int>)
    requires
        forall|i: int| 0 <= i < sizes.len() ==> sizes[i] >= 0,
    ensures
        page_total(sizes) >= 0,
    decreases sizes.len(),
{
    if sizes.len() > 0 {
        lemma_page_total_nonneg(sizes.drop_last());
    }
}

/// Summing page sizes counts every listed item once.
pub proof fn lemma_page_total_is_length<A>(pages: Seq<Seq<A>>)
    ensures
        page_total(page_sizes(pages)) == pages.flatten().len(),
    decreases pages.len(),
{
    if pages.len() > 0 {
        let p = pages.drop_last();
        lemma_page_total_is_length(p);
        assert(pages =~= p.push(pages.last()));
        p.lemma_flatten_push(pages.last());
        assert(page_sizes(pages).drop_last() =~= page_sizes(p));
    }
}

/// A commit count does not depend on how the listing splits the commits
/// into pages: two paginations of the same commits give the same total.
pub proof fn lemma_count_independent_of_pagination<A>(p1: Seq<Seq<A>>, p2: Seq<Seq<A>>)
    requires
        p1.flatten() == p2.flatten(),
    ensures
        page_total(page_sizes(p1)) == page_total(page_sizes(p2)),
{
    lemma_page_total_is_length(p1);
    lemma_page_total_is_length(p2);
}

/// The commits of one repository: the sum of its commit-page sizes,
/// stopping at the largest `u64`.
pub fn count_commits(page_sizes: &Vec<u64>) -> (r: u64)
    ensures
        r == saturated(page_total(as_ints(page_sizes@))),
{
    let mut acc: u64 = 0;
    let mut k: usize = 0;
    proof {
        assert(as_ints(page_sizes@).take(0) =~= Seq::<int>::empty());
    }
    while k < page_sizes.len()
        invariant
            k <= page_sizes@.len(),
            acc == saturated(page_total(as_ints(page_sizes@).take(k as int))),
        decreases page_sizes@.len() - k,
    {
        let ghost pre = as_ints(page_sizes@).take(k as int);
        let ghost nxt = as_ints(page_sizes@).take(k + 1);
        proof {
            assert(nxt.drop_last() =~= pre);
            assert(nxt.last() == page_sizes@[k as int] as int);
            assert forall|i: int| 0 <= i < pre.len() implies pre[i] >= 0 by {
                assert(pre[i] == page_sizes@[i] as int);
            }
            lemma_page_total_nonneg(pre);
        }
        acc = acc.saturating_add(page_sizes[k]);
        k = k + 1;
    }
    proof {
        assert(as_ints(page_sizes@).take(k as int) =~= as_ints(page_sizes@));
    }
    acc
}

/// The commit counts of the summaries, position by position.
pub open spec fn commit_counts(v: Seq<RepositoryWithCommits>) -> Seq<u64> {
    v.map_values(|s: RepositoryWithCommits| s.commit_count)
}

fn copy_text(s: &String) -> (r: String)
    ensures
        r@ == s@,
{
    s.clone()
}

impl RepositoryWithCommits {
    /// A field-by-field copy.
    pub fn duplicate(&self) -> (r: RepositoryWithCommits)
        ensures
            r.repo_name@ == self.repo_name@,
            r.repo_url@ == self.repo_url@,
            r.commit_count == self.commit_count,
    {
        RepositoryWithCommits {
            repo_name: copy_text(&self.repo_name),
            repo_url: copy_text(&self.repo_url),
            commit_count: self.commit_count,
        }
    }
}

pub open spec fn same_summary(a: RepositoryWithCommits, b: RepositoryWithCommits) -> bool {
    a.repo_name@ == b.repo_name@ && a.repo_url@ == b.repo_url@ && a.commit_count == b.commit_count
}

/// `r` is the report for `username` over `summaries`.
pub open spec fn is_report_of(
    r: UserMoveFilesResponse,
    username: Seq<char>,
    summaries: Seq<RepositoryWithCommits>,
) -> bool {
    &&& r.username@ == username
    &&& r.has_move_files == (summaries.len() > 0)
    &&& r.total_repositories == summaries.len()
    &&& r.total_commits == saturated(page_total(as_ints(commit_counts(summaries))))
    &&& r.repositories@.len() == summaries.len()
    &&& exists|ord: Seq<usize>|
        is_desc_ranking(commit_counts(summaries), ord) && forall|k: int|
            0 <= k < r.repositories@.len() ==> same_summary(
                #[trigger] r.repositories@[k],
                summaries[ord[k] as int],
            )
}

/// The report for `username` over the summaries of its Move repositories:
/// the summaries by descending commit count (ties in their given order),
/// the grand total (stopping at the largest `u64`), the count, and whether
/// there is any.
pub fn build_report(username: &String, summaries: &Vec<RepositoryWithCommits>) -> (r:
    UserMoveFilesResponse)
    ensures
        is_report_of(r, username@, summaries@),
{
    let mut counts: Vec<u64> = Vec::new();
    let mut k: usize = 0;
    while k < summaries.len()
        invariant
            k <= summaries@.len(),
            counts@ =~= commit_counts(summaries@).take(k as int),
        decreases summaries@.len() - k,
    {
        counts.push(summaries[k].commit_count);
        k = k + 1;
    }
    proof {
        assert(counts@ =~= commit_counts(summaries@));
    }
    let total = count_commits(&counts);
    let ord = order_by_key_desc(&counts);
    let mut sorted: Vec<RepositoryWithCommits> = Vec::new();
    let mut j: usize = 0;
    while j < ord.len()
        invariant
            j <= ord@.len(),
            counts@ == commit_counts(summaries@),
            is_desc_ranking(counts@, ord@),
            sorted@.len() == j,
            forall|q: int|
                0 <= q < j ==> same_summary(#[trigger] sorted@[q], summaries@[ord@[q] as int]),
        decreases ord@.len() - j,
    {
        assert(ord@[j as int] < counts@.len());
        sorted.push(summaries[ord[j]].duplicate());
        j = j + 1;
    }
    UserMoveFilesResponse {
        username: copy_text(username),
        has_move_files: summaries.len() > 0,
        total_repositories: summaries.len(),
        total_commits: total,
        repositories: sorted,
    }
}

} // verus!
