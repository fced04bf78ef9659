//! Fleet-mode aggregation: contributor listings of many repositories folded
//! into one aggregate per login, then ranked.
use vstd::prelude::*;
use crate::ranking::{is_desc_ranking, order_by_key_desc};

verus! {

/// One account's entry in one repository's contributor listing.
#[derive(Debug, Clone, PartialEq, Eq)]
pub struct Contributor {
    pub login: String,
    pub avatar_url: String,
    pub profile_url: String,
    pub contributions: u64,
}

/// The contributor listing of one repository.
#[derive(Debug, Clone, PartialEq, Eq)]
pub struct RepoContributors {
    pub repo: String,
    pub contributors: Vec<Contributor>,
}

/// Everything known of one login across the repositories examined.
#[derive(Debug, Clone, PartialEq, Eq)]
pub struct UserAggregate {
    pub login: String,
    pub avatar_url: String,
    pub profile_url: String,
    pub total_contributions: u64,
    /// Repository names in first-seen order, without duplicates.
    pub repositories: Vec<String>,
}

/// One listing entry together with the repository it was listed for.
pub struct ContributionRecord {
    pub repo: Seq<char>,
    pub login: Seq<char>,
    pub avatar_url: Seq<char>,
    pub profile_url: Seq<char>,
    pub contributions: nat,
}

/// The mathematical value of a `UserAggregate`.
pub struct AggregateModel {
    pub login: Seq<char>,
    pub avatar_url: Seq<char>,
    pub profile_url: Seq<char>,
    pub total: nat,
    pub repositories: Seq<Seq<char>>,
}

pub open spec fn texts(v: Seq<String>) -> Seq<Seq<char>> {
    v.map_values(|s: String| s@)
}

impl View for UserAggregate {
    type V = AggregateModel;

    open spec fn view(&self) -> AggregateModel {
        AggregateModel {
            login: self.login@,
            avatar_url: self.avatar_url@,
            profile_url: self.profile_url@,
            total: self.total_contributions as nat,
            repositories: texts(self.repositories@),
        }
    }
}

pub open spec fn models(v: Seq<UserAggregate>) -> Seq<AggregateModel> {
    v.map_values(|a: UserAggregate| a@)
}

pub open spec fn record_of(repo: Seq<char>, c: Contributor) -> ContributionRecord {
    ContributionRecord {
        repo,
        login: c.login@,
        avatar_url: c.avatar_url@,
        profile_url: c.profile_url@,
        contributions: c.contributions as nat,
    }
}

pub open spec fn batch_records(b: RepoContributors) -> Seq<ContributionRecord> {
    b.contributors@.map_values(|c: Contributor| record_of(b.repo@, c))
}

/// Every listing entry of the batches, batch after batch.
pub open spec fn records_of(bs: Seq<RepoContributors>) -> Seq<ContributionRecord>
    decreases bs.len(),
{
    if bs.len() == 0 {
        Seq::empty()
    } else {
        records_of(bs.drop_last()) + batch_records(bs.last())
    }
}

/// A count that stops at the largest `u64`.
pub open spec fn capped(x: int) -> nat {
    if x > u64::MAX {
        u64::MAX as nat
    } else if x < 0 {
        0
    } else {
        x as nat
    }
}

pub open spec fn has_login(ms: Seq<AggregateModel>, login: Seq<char>) -> bool {
    exists|k: int| 0 <= k < ms.len() && (#[trigger] ms[k]).login == login
}

pub open spec fn logins_unique(ms: Seq<AggregateModel>) -> bool {
    forall|i: int, j: int|
        0 <= i < ms.len() && 0 <= j < ms.len() && i != j ==> (#[trigger] ms[i]).login
            != (#[trigger] ms[j]).login
}

/// The aggregates after one record is folded in: a known login gains its
/// contributions and, if new to it, the repository; an unknown login gets
/// a new aggregate at the end.
pub open spec fn merge_record(ms: Seq<AggregateModel>, r: ContributionRecord) -> Seq<AggregateModel> {
    if has_login(ms, r.login) {
        let k = choose|k: int| 0 <= k < ms.len() && (#[trigger] ms[k]).login == r.login;
        let m = ms[k];
        ms.update(
            k,
            AggregateModel {
                total: capped(m.total + r.contributions as int),
                repositories: if m.repositories.contains(r.repo) {
                    m.repositories
                } else {
                    m.repositories.push(r.repo)
                },
                ..m
            },
        )
    } else {
        ms.push(
            AggregateModel {
                login: r.login,
                avatar_url: r.avatar_url,
                profile_url: r.profile_url,
                total: capped(r.contributions as int),
                repositories: seq![r.repo],
            },
        )
    }
}

/// The aggregates after all records are folded in, in order.
pub open spec fn fold_records(rs: Seq<ContributionRecord>) -> Seq<AggregateModel>
    decreases rs.len(),
{
    if rs.len() == 0 {
        Seq::empty()
    } else {
        merge_record(fold_records(rs.drop_last()), rs.last())
    }
}

/// The contributions listed for `login` over all records.
pub open spec fn total_for(rs: Seq<ContributionRecord>, login: Seq<char>) -> int
    decreases rs.len(),
{
    if rs.len() == 0 {
        0
    } else {
        total_for(rs.drop_last(), login) + if rs.last().login == login {
            rs.last().contributions as int
        } else {
            0
        }
    }
}

/// The repositories that list `login`, in first-seen order, each once.
pub open spec fn repos_for(rs: Seq<ContributionRecord>, login: Seq<char>) -> Seq<Seq<char>>
    decreases rs.len(),
{
    if rs.len() == 0 {
        Seq::empty()
    } else {
        let prev = repos_for(rs.drop_last(), login);
        if rs.last().login == login && !prev.contains(rs.last().repo) {
            prev.push(rs.last().repo)
        } else {
            prev
        }
    }
}

/// Some record lists `login`.
pub open spec fn listed(rs: Seq<ContributionRecord>, login: Seq<char>) -> bool {
    exists|i: int| 0 <= i < rs.len() && (#[trigger] rs[i]).login == login
}

/// `ms` sums up the records `rs`: one aggregate per listed login, holding
/// that login's (capped) total and its repositories.
pub open spec fn summarizes(ms: Seq<AggregateModel>, rs: Seq<ContributionRecord>) -> bool {
    &&& logins_unique(ms)
    &&& forall|l: Seq<char>| #[trigger] has_login(ms, l) <==> listed(rs, l)
    &&& forall|k: int|
        0 <= k < ms.len() ==> (#[trigger] ms[k]).total == capped(total_for(rs, ms[k].login))
            && ms[k].repositories == repos_for(rs, ms[k].login)
}

proof fn lemma_unlisted_is_empty(rs: Seq<ContributionRecord>, login: Seq<char>)
    requires
        !listed(rs, login),
    ensures
        total_for(rs, login) == 0,
        repos_for(rs, login) == Seq::<Seq<char>>::empty(),
    decreases rs.len(),
{
    if rs.len() > 0 {
        let p = rs.drop_last();
        assert(!listed(p, login)) by {
            if listed(p, login) {
                let i = choose|i: int| 0 <= i < p.len() && (#[trigger] p[i]).login == login;
                assert(rs[i] == p[i]);
            }
        }
        assert(rs[rs.len() - 1] == rs.last());
        lemma_unlisted_is_empty(p, login);
    }
}

proof fn lemma_total_nonneg(rs: Seq<ContributionRecord>, login: Seq<char>)
    ensures
        total_for(rs, login) >= 0,
    decreases rs.len(),
{
    if rs.len() > 0 {
        lemma_total_nonneg(rs.drop_last(), login);
    }
}

/// Folding the records in order yields a summary of them.
pub proof fn lemma_fold_summarizes(rs: Seq<ContributionRecord>)
    ensures
        summarizes(fold_records(rs), rs),
    decreases rs.len(),
{
    if rs.len() > 0 {
        let p = rs.drop_last();
        let r = rs.last();
        lemma_fold_summarizes(p);
        let ms0 = fold_records(p);
        let ms = fold_records(rs);
        assert(ms == merge_record(ms0, r));
        assert forall|l: Seq<char>| listed(rs, l) <==> listed(p, l) || r.login == l by {
            if listed(rs, l) {
                let i = choose|i: int| 0 <= i < rs.len() && (#[trigger] rs[i]).login == l;
                if i < p.len() {
                    assert(p[i] == rs[i]);
                }
            }
            if listed(p, l) {
                let i = choose|i: int| 0 <= i < p.len() && (#[trigger] p[i]).login == l;
                assert(p[i] == rs[i]);
            }
            assert(rs[rs.len() - 1] == r);
        }
        lemma_total_nonneg(p, r.login);
        if has_login(ms0, r.login) {
            let k = choose|k: int| 0 <= k < ms0.len() && (#[trigger] ms0[k]).login == r.login;
            assert forall|l: Seq<char>| #[trigger] has_login(ms, l) <==> listed(rs, l) by {
                if has_login(ms, l) {
                    let j = choose|j: int| 0 <= j < ms.len() && (#[trigger] ms[j]).login == l;
                    assert(ms0[j].login == l);
                }
                if has_login(ms0, l) {
                    let j = choose|j: int| 0 <= j < ms0.len() && (#[trigger] ms0[j]).login == l;
                    assert(ms[j].login == l);
                }
            }
        } else {
            lemma_unlisted_is_empty(p, r.login);
            assert(ms[ms0.len() as int].login == r.login);
            assert(seq![r.repo] =~= Seq::<Seq<char>>::empty().push(r.repo));
            assert forall|l: Seq<char>| #[trigger] has_login(ms, l) <==> listed(rs, l) by {
                if has_login(ms, l) {
                    let j = choose|j: int| 0 <= j < ms.len() && (#[trigger] ms[j]).login == l;
                    if j < ms0.len() {
                        assert(ms0[j].login == l);
                    }
                }
                if has_login(ms0, l) {
                    let j = choose|j: int| 0 <= j < ms0.len() && (#[trigger] ms0[j]).login == l;
                    assert(ms[j].login == l);
                }
            }
        }
    }
}

/// The contributions listed for `login` over the batches, batch by batch.
pub open spec fn total_over(bs: Seq<RepoContributors>, login: Seq<char>) -> int
    decreases bs.len(),
{
    if bs.len() == 0 {
        0
    } else {
        total_over(bs.drop_last(), login) + total_for(batch_records(bs.last()), login)
    }
}

proof fn lemma_total_for_concat(a: Seq<ContributionRecord>, b: Seq<ContributionRecord>, login: Seq<char>)
    ensures
        total_for(a + b, login) == total_for(a, login) + total_for(b, login),
    decreases b.len(),
{
    if b.len() > 0 {
        assert((a + b).drop_last() =~= a + b.drop_last());
        assert((a + b).last() == b.last());
        lemma_total_for_concat(a, b.drop_last(), login);
    } else {
        assert(a + b =~= a);
    }
}

proof fn lemma_records_total(bs: Seq<RepoContributors>, login: Seq<char>)
    ensures
        total_for(records_of(bs), login) == total_over(bs, login),
    decreases bs.len(),
{
    if bs.len() > 0 {
        lemma_records_total(bs.drop_last(), login);
        lemma_total_for_concat(records_of(bs.drop_last()), batch_records(bs.last()), login);
    }
}

proof fn lemma_total_over_concat(a: Seq<RepoContributors>, b: Seq<RepoContributors>, login: Seq<char>)
    ensures
        total_over(a + b, login) == total_over(a, login) + total_over(b, login),
    decreases b.len(),
{
    if b.len() > 0 {
        assert((a + b).drop_last() =~= a + b.drop_last());
        assert((a + b).last() == b.last());
        lemma_total_over_concat(a, b.drop_last(), login);
    } else {
        assert(a + b =~= a);
    }
}

proof fn lemma_total_over_remove(bs: Seq<RepoContributors>, i: int, login: Seq<char>)
    requires
        0 <= i < bs.len(),
    ensures
        total_over(bs, login) == total_over(bs.remove(i), login) + total_for(
            batch_records(bs[i]),
            login,
        ),
{
    let pre = bs.take(i);
    let post = bs.skip(i + 1);
    let one = seq![bs[i]];
    assert(bs =~= pre + one + post);
    assert(bs.remove(i) =~= pre + post);
    lemma_total_over_concat(pre + one, post, login);
    lemma_total_over_concat(pre, one, login);
    lemma_total_over_concat(pre, post, login);
    assert(one.drop_last() =~= Seq::<RepoContributors>::empty());
    assert(total_over(one.drop_last(), login) == 0);
    assert(one.last() == bs[i]);
    assert(total_over(one, login) == total_for(batch_records(bs[i]), login));
}

/// The total of a login does not depend on the order in which the
/// repositories are processed: any reordering of the listings yields the
/// same total.
pub proof fn lemma_total_order_independent(
    b1: Seq<RepoContributors>,
    b2: Seq<RepoContributors>,
    login: Seq<char>,
)
    requires
        b1.to_multiset() == b2.to_multiset(),
    ensures
        total_for(records_of(b1), login) == total_for(records_of(b2), login),
    decreases b1.len(),
{
    broadcast use vstd::seq_lib::group_to_multiset_ensures;

    lemma_records_total(b1, login);
    lemma_records_total(b2, login);
    if b1.len() == 0 {
        assert(b2.len() == b2.to_multiset().len());
        assert(b2 =~= Seq::<RepoContributors>::empty());
    } else {
        let x = b1.last();
        let p1 = b1.drop_last();
        assert(b1 =~= p1.push(x));
        assert(b1.to_multiset() == p1.to_multiset().insert(x));
        assert(b2.to_multiset().count(x) > 0);
        assert(b2.contains(x));
        let i = choose|i: int| 0 <= i < b2.len() && b2[i] == x;
        let p2 = b2.remove(i);
        assert(p2.to_multiset() == b2.to_multiset().remove(x));
        assert(p1.to_multiset() =~= p2.to_multiset());
        lemma_total_order_independent(p1, p2, login);
        lemma_records_total(p1, login);
        lemma_records_total(p2, login);
        lemma_total_over_remove(b2, i, login);
    }
}

/// The repositories of a login are exactly those whose listing names it,
/// each once.
pub proof fn lemma_repositories_exact(rs: Seq<ContributionRecord>, login: Seq<char>, repo: Seq<char>)
    ensures
        repos_for(rs, login).contains(repo) <==> exists|i: int|
            0 <= i < rs.len() && (#[trigger] rs[i]).login == login && rs[i].repo == repo,
        repos_for(rs, login).no_duplicates(),
    decreases rs.len(),
{
    if rs.len() > 0 {
        let p = rs.drop_last();
        lemma_repositories_exact(p, login, repo);
        assert(rs[rs.len() - 1] == rs.last());
        if exists|i: int| 0 <= i < rs.len() && (#[trigger] rs[i]).login == login && rs[i].repo == repo {
            let i = choose|i: int|
                0 <= i < rs.len() && (#[trigger] rs[i]).login == login && rs[i].repo == repo;
            if i < p.len() {
                assert(p[i] == rs[i]);
            }
        }
        if exists|i: int| 0 <= i < p.len() && (#[trigger] p[i]).login == login && p[i].repo == repo {
            let i = choose|i: int|
                0 <= i < p.len() && (#[trigger] p[i]).login == login && p[i].repo == repo;
            assert(p[i] == rs[i]);
        }
        let prev = repos_for(p, login);
        if rs.last().login == login && !prev.contains(rs.last().repo) {
            assert(prev.push(rs.last().repo)[prev.len() as int] == rs.last().repo);
            assert forall|a: Seq<char>| prev.push(rs.last().repo).contains(a) <==> prev.contains(a)
                || a == rs.last().repo by {
                if prev.contains(a) {
                    let j = choose|j: int| 0 <= j < prev.len() && prev[j] == a;
                    assert(prev.push(rs.last().repo)[j] == a);
                }
            }
        }
    }
}

/// The contributions listed for `login` in repository `repo`.
pub open spec fn repo_total(rs: Seq<ContributionRecord>, login: Seq<char>, repo: Seq<char>) -> int
    decreases rs.len(),
{
    if rs.len() == 0 {
        0
    } else {
        repo_total(rs.drop_last(), login, repo) + if rs.last().login == login && rs.last().repo
            == repo {
            rs.last().contributions as int
        } else {
            0
        }
    }
}

/// The contributions listed for `login` summed over the repositories `names`.
pub open spec fn sum_over_repos(
    rs: Seq<ContributionRecord>,
    login: Seq<char>,
    names: Seq<Seq<char>>,
) -> int
    decreases names.len(),
{
    if names.len() == 0 {
        0
    } else {
        sum_over_repos(rs, login, names.drop_last()) + repo_total(rs, login, names.last())
    }
}

proof fn lemma_sum_over_repos_push(
    rs: Seq<ContributionRecord>,
    r: ContributionRecord,
    login: Seq<char>,
    names: Seq<Seq<char>>,
)
    requires
        names.no_duplicates(),
    ensures
        sum_over_repos(rs.push(r), login, names) == sum_over_repos(rs, login, names) + if r.login
            == login && names.contains(r.repo) {
            r.contributions as int
        } else {
            0
        },
    decreases names.len(),
{
    assert(rs.push(r).drop_last() =~= rs);
    if names.len() > 0 {
        let p = names.drop_last();
        assert(p.no_duplicates()) by {
            assert forall|i: int, j: int| 0 <= i < p.len() && 0 <= j < p.len() && i != j implies p[i]
                != p[j] by {
                assert(p[i] == names[i] && p[j] == names[j]);
            }
        }
        lemma_sum_over_repos_push(rs, r, login, p);
        assert(names[names.len() - 1] == names.last());
        assert(names.contains(r.repo) <==> p.contains(r.repo) || names.last() == r.repo) by {
            if names.contains(r.repo) {
                let i = choose|i: int| 0 <= i < names.len() && names[i] == r.repo;
                if i < p.len() {
                    assert(p[i] == r.repo);
                }
            }
            if p.contains(r.repo) {
                let i = choose|i: int| 0 <= i < p.len() && p[i] == r.repo;
                assert(names[i] == r.repo);
            }
        }
        if p.contains(r.repo) && names.last() == r.repo {
            let i = choose|i: int| 0 <= i < p.len() && p[i] == r.repo;
            assert(names[i] == names[names.len() - 1]);
        }
    }
}

proof fn lemma_repo_total_unlisted(rs: Seq<ContributionRecord>, login: Seq<char>, repo: Seq<char>)
    requires
        !repos_for(rs, login).contains(repo),
    ensures
        repo_total(rs, login, repo) == 0,
    decreases rs.len(),
{
    if rs.len() > 0 {
        let p = rs.drop_last();
        lemma_repositories_exact(rs, login, repo);
        lemma_repositories_exact(p, login, repo);
        if repos_for(p, login).contains(repo) {
            let i = choose|i: int| 0 <= i < p.len() && (#[trigger] p[i]).login == login && p[i].repo == repo;
            assert(rs[i] == p[i]);
        }
        assert(rs[rs.len() - 1] == rs.last());
        lemma_repo_total_unlisted(p, login, repo);
    }
}

/// A login's total is the sum, over exactly the repositories listed for it,
/// of the contributions each of those repositories lists for it.
pub proof fn lemma_total_is_sum_over_listed_repositories(rs: Seq<ContributionRecord>, login: Seq<char>)
    ensures
        total_for(rs, login) == sum_over_repos(rs, login, repos_for(rs, login)),
    decreases rs.len(),
{
    if rs.len() > 0 {
        let p = rs.drop_last();
        let r = rs.last();
        lemma_total_is_sum_over_listed_repositories(p, login);
        let prev = repos_for(p, login);
        lemma_repositories_exact(p, login, r.repo);
        assert(rs =~= p.push(r));
        lemma_sum_over_repos_push(p, r, login, prev);
        if r.login == login && !prev.contains(r.repo) {
            let now = prev.push(r.repo);
            assert(now.drop_last() =~= prev);
            lemma_repositories_exact(rs, login, r.repo);
            lemma_repo_total_unlisted(p, login, r.repo);
            assert(repo_total(rs, login, r.repo) == r.contributions as int);
            assert(prev.push(r.repo)[prev.len() as int] == r.repo);
            assert(now.no_duplicates()) by {
                lemma_repositories_exact(rs, login, r.repo);
            }
        }
    }
}

/// Some record lists `login` for repository `repo`.
pub open spec fn record_with(rs: Seq<ContributionRecord>, login: Seq<char>, repo: Seq<char>) -> bool {
    exists|i: int| 0 <= i < rs.len() && (#[trigger] rs[i]).login == login && rs[i].repo == repo
}

/// Some listing, of a repository named `repo`, names `login`.
pub open spec fn batch_with(bs: Seq<RepoContributors>, login: Seq<char>, repo: Seq<char>) -> bool {
    exists|k: int, j: int|
        0 <= k < bs.len() && 0 <= j < bs[k].contributors@.len() && (#[trigger] bs[k]).repo@
            == repo && (#[trigger] bs[k].contributors@[j]).login@ == login
}

proof fn lemma_records_member(bs: Seq<RepoContributors>, login: Seq<char>, repo: Seq<char>)
    ensures
        record_with(records_of(bs), login, repo) <==> batch_with(bs, login, repo),
    decreases bs.len(),
{
    if bs.len() > 0 {
        let p = bs.drop_last();
        let b = bs.last();
        let rp = records_of(p);
        let rb = batch_records(b);
        let rs = records_of(bs);
        lemma_records_member(p, login, repo);
        assert(rs == rp + rb);
        assert(bs[bs.len() - 1] == b);
        if record_with(rs, login, repo) {
            let i = choose|i: int| 0 <= i < rs.len() && (#[trigger] rs[i]).login == login && rs[i].repo == repo;
            if i < rp.len() {
                assert(rp[i] == rs[i]);
                let (k, j) = choose|k: int, j: int|
                    0 <= k < p.len() && 0 <= j < p[k].contributors@.len() && (#[trigger] p[k]).repo@
                        == repo && (#[trigger] p[k].contributors@[j]).login@ == login;
                assert(bs[k] == p[k]);
            } else {
                let j = i - rp.len();
                assert(rb[j] == rs[i]);
                assert(bs[bs.len() - 1].contributors@[j].login@ == login);
            }
        }
        if batch_with(bs, login, repo) {
            let (k, j) = choose|k: int, j: int|
                0 <= k < bs.len() && 0 <= j < bs[k].contributors@.len() && (#[trigger] bs[k]).repo@
                    == repo && (#[trigger] bs[k].contributors@[j]).login@ == login;
            if k < p.len() {
                assert(p[k] == bs[k]);
                assert(p[k].contributors@[j].login@ == login);
                let i = choose|i: int| 0 <= i < rp.len() && (#[trigger] rp[i]).login == login && rp[i].repo == repo;
                assert(rs[i] == rp[i]);
            } else {
                assert(rs[rp.len() + j] == rb[j]);
            }
        }
    }
}

proof fn lemma_batch_with_permuted(
    b1: Seq<RepoContributors>,
    b2: Seq<RepoContributors>,
    login: Seq<char>,
    repo: Seq<char>,
)
    requires
        b1.to_multiset() == b2.to_multiset(),
        batch_with(b1, login, repo),
    ensures
        batch_with(b2, login, repo),
{
    broadcast use vstd::seq_lib::group_to_multiset_ensures;

    let (k, j) = choose|k: int, j: int|
        0 <= k < b1.len() && 0 <= j < b1[k].contributors@.len() && (#[trigger] b1[k]).repo@ == repo
            && (#[trigger] b1[k].contributors@[j]).login@ == login;
    assert(b1.contains(b1[k]));
    assert(b2.to_multiset().count(b1[k]) > 0);
    assert(b2.contains(b1[k]));
    let k2 = choose|k2: int| 0 <= k2 < b2.len() && b2[k2] == b1[k];
    assert(b2[k2].contributors@[j].login@ == login);
}

/// The report's aggregates do not depend on the order in which the
/// repositories are processed: under any reordering of the listings, the
/// same logins get an aggregate, each with the same total and the same set
/// of repositories.
pub proof fn lemma_aggregates_order_independent(
    b1: Seq<RepoContributors>,
    b2: Seq<RepoContributors>,
    login: Seq<char>,
)
    requires
        b1.to_multiset() == b2.to_multiset(),
    ensures
        has_login(fold_records(records_of(b1)), login) <==> has_login(
            fold_records(records_of(b2)),
            login,
        ),
        forall|k1: int, k2: int|
            0 <= k1 < fold_records(records_of(b1)).len() && 0 <= k2 < fold_records(
                records_of(b2),
            ).len() && (#[trigger] fold_records(records_of(b1))[k1]).login == login && (
            #[trigger] fold_records(records_of(b2))[k2]).login == login ==> fold_records(
                records_of(b1),
            )[k1].total == fold_records(records_of(b2))[k2].total && fold_records(
                records_of(b1),
            )[k1].repositories.to_set() == fold_records(records_of(b2))[k2].repositories.to_set(),
{
    broadcast use vstd::seq_lib::group_to_multiset_ensures;

    let rs1 = records_of(b1);
    let rs2 = records_of(b2);
    lemma_fold_summarizes(rs1);
    lemma_fold_summarizes(rs2);
    lemma_total_order_independent(b1, b2, login);
    assert forall|repo: Seq<char>| record_with(rs1, login, repo) <==> record_with(rs2, login, repo) by {
        lemma_records_member(b1, login, repo);
        lemma_records_member(b2, login, repo);
        if batch_with(b1, login, repo) {
            lemma_batch_with_permuted(b1, b2, login, repo);
        }
        if batch_with(b2, login, repo) {
            lemma_batch_with_permuted(b2, b1, login, repo);
        }
    }
    assert(listed(rs1, login) <==> listed(rs2, login)) by {
        if listed(rs1, login) {
            let i = choose|i: int| 0 <= i < rs1.len() && (#[trigger] rs1[i]).login == login;
            assert(record_with(rs1, login, rs1[i].repo));
            let i2 = choose|i2: int|
                0 <= i2 < rs2.len() && (#[trigger] rs2[i2]).login == login && rs2[i2].repo == rs1[i].repo;
        }
        if listed(rs2, login) {
            let i = choose|i: int| 0 <= i < rs2.len() && (#[trigger] rs2[i]).login == login;
            assert(record_with(rs2, login, rs2[i].repo));
            let i1 = choose|i1: int|
                0 <= i1 < rs1.len() && (#[trigger] rs1[i1]).login == login && rs1[i1].repo == rs2[i].repo;
        }
    }
    assert(has_login(fold_records(rs1), login) == listed(rs1, login));
    assert(has_login(fold_records(rs2), login) == listed(rs2, login));
    assert(repos_for(rs1, login).to_set() =~= repos_for(rs2, login).to_set()) by {
        assert forall|repo: Seq<char>|
            repos_for(rs1, login).contains(repo) <==> repos_for(rs2, login).contains(repo) by {
            lemma_repositories_exact(rs1, login, repo);
            lemma_repositories_exact(rs2, login, repo);
            assert(record_with(rs1, login, repo) <==> record_with(rs2, login, repo));
        }
    }
}

/// Each aggregate of the report holds, for its login, the sum (stopping at
/// the largest `u64`) of the contributions over exactly the repositories it
/// lists, and lists each of them once.
pub proof fn lemma_aggregate_sums_its_repositories(bs: Seq<RepoContributors>, k: int)
    requires
        0 <= k < fold_records(records_of(bs)).len(),
    ensures
        fold_records(records_of(bs))[k].total == capped(
            sum_over_repos(
                records_of(bs),
                fold_records(records_of(bs))[k].login,
                fold_records(records_of(bs))[k].repositories,
            ),
        ),
        fold_records(records_of(bs))[k].repositories.no_duplicates(),
{
    let rs = records_of(bs);
    let m = fold_records(rs)[k];
    lemma_fold_summarizes(rs);
    lemma_total_is_sum_over_listed_repositories(rs, m.login);
    lemma_repositories_exact(rs, m.login, Seq::empty());
}

fn copy_text(s: &String) -> (r: String)
    ensures
        r@ == s@,
{
    s.clone()
}

fn index_of_login(aggs: &Vec<UserAggregate>, login: &String) -> (r: Option<usize>)
    ensures
        r is None ==> !has_login(models(aggs@), login@),
        r matches Some(k) ==> k < aggs@.len() && aggs@[k as int].login@ == login@,
{
    let mut k: usize = 0;
    while k < aggs.len()
        invariant
            k <= aggs@.len(),
            forall|i: int| 0 <= i < k ==> (#[trigger] aggs@[i]).login@ != login@,
        decreases aggs@.len() - k,
    {
        if aggs[k].login == *login {
            return Some(k);
        }
        k = k + 1;
    }
    proof {
        let ms = models(aggs@);
        assert forall|i: int| 0 <= i < ms.len() implies (#[trigger] ms[i]).login != login@ by {
            assert(ms[i] == aggs@[i]@);
        }
    }
    None
}

fn contains_text(v: &Vec<String>, s: &String) -> (r: bool)
    ensures
        r == texts(v@).contains(s@),
{
    let mut k: usize = 0;
    while k < v.len()
        invariant
            k <= v@.len(),
            forall|i: int| 0 <= i < k ==> (#[trigger] v@[i])@ != s@,
        decreases v@.len() - k,
    {
        if v[k] == *s {
            proof {
                assert(texts(v@)[k as int] == s@);
            }
            return true;
        }
        k = k + 1;
    }
    proof {
        if texts(v@).contains(s@) {
            let i = choose|i: int| 0 <= i < texts(v@).len() && texts(v@)[i] == s@;
            assert(v@[i]@ == s@);
        }
    }
    false
}

/// Folds one listing entry of repository `repo` into the aggregates.
pub fn merge_contributor(aggs: &mut Vec<UserAggregate>, repo: &String, c: &Contributor)
    requires
        logins_unique(models(old(aggs)@)),
    ensures
        models(final(aggs)@) == merge_record(models(old(aggs)@), record_of(repo@, *c)),
        logins_unique(models(final(aggs)@)),
{
    let ghost ms = models(aggs@);
    let ghost r = record_of(repo@, *c);
    match index_of_login(aggs, &c.login) {
        Some(k) => {
            proof {
                assert(ms[k as int].login == r.login);
                let kk = choose|kk: int| 0 <= kk < ms.len() && (#[trigger] ms[kk]).login == r.login;
                assert(kk == k);
            }
            let total = aggs[k].total_contributions.saturating_add(c.contributions);
            let seen = contains_text(&aggs[k].repositories, repo);
            aggs[k].total_contributions = total;
            if !seen {
                aggs[k].repositories.push(copy_text(repo));
                proof {
                    assert(texts(aggs@[k as int].repositories@) =~= ms[k as int].repositories.push(
                        repo@,
                    ));
                }
            }
            proof {
                assert(models(aggs@) =~= merge_record(ms, r));
            }
        },
        None => {
            let mut repositories: Vec<String> = Vec::new();
            repositories.push(copy_text(repo));
            aggs.push(
                UserAggregate {
                    login: copy_text(&c.login),
                    avatar_url: copy_text(&c.avatar_url),
                    profile_url: copy_text(&c.profile_url),
                    total_contributions: c.contributions,
                    repositories,
                },
            );
            proof {
                assert(texts(repositories@) =~= seq![repo@]);
                assert(models(aggs@) =~= merge_record(ms, r));
            }
        },
    }
}

/// Folds the contributor listings of all repositories, in order, into one
/// aggregate per login: the aggregates appear in the order their logins
/// were first listed, each with its total over every listing (stopping at
/// the largest `u64`) and the repositories that list it.
pub fn aggregate_contributors(batches: &Vec<RepoContributors>) -> (r: Vec<UserAggregate>)
    ensures
        models(r@) == fold_records(records_of(batches@)),
        summarizes(models(r@), records_of(batches@)),
{
    let mut aggs: Vec<UserAggregate> = Vec::new();
    let mut i: usize = 0;
    proof {
        assert(models(aggs@) =~= fold_records(Seq::empty()));
        assert(batches@.take(0) =~= Seq::<RepoContributors>::empty());
    }
    while i < batches.len()
        invariant
            i <= batches@.len(),
            models(aggs@) == fold_records(records_of(batches@.take(i as int))),
            logins_unique(models(aggs@)),
        decreases batches@.len() - i,
    {
        let b = &batches[i];
        let ghost before = records_of(batches@.take(i as int));
        let mut j: usize = 0;
        proof {
            assert(before + batch_records(*b).take(0) =~= before);
        }
        while j < b.contributors.len()
            invariant
                j <= b.contributors@.len(),
                b == batches@[i as int],
                i < batches@.len(),
                before == records_of(batches@.take(i as int)),
                models(aggs@) == fold_records(before + batch_records(*b).take(j as int)),
                logins_unique(models(aggs@)),
            decreases b.contributors@.len() - j,
        {
            merge_contributor(&mut aggs, &b.repo, &b.contributors[j]);
            proof {
                let nxt = before + batch_records(*b).take(j + 1);
                assert(nxt.drop_last() =~= before + batch_records(*b).take(j as int));
                assert(nxt.last() == record_of(b.repo@, b.contributors@[j as int]));
            }
            j = j + 1;
        }
        proof {
            let t = batches@.take(i + 1);
            assert(t.drop_last() =~= batches@.take(i as int));
            assert(t.last() == *b);
            assert(batch_records(*b).take(j as int) =~= batch_records(*b));
        }
        i = i + 1;
    }
    proof {
        assert(batches@.take(i as int) =~= batches@);
        lemma_fold_summarizes(records_of(batches@));
    }
    aggs
}

fn copy_texts(v: &Vec<String>) -> (r: Vec<String>)
    ensures
        texts(r@) == texts(v@),
{
    let mut r: Vec<String> = Vec::new();
    let mut k: usize = 0;
    while k < v.len()
        invariant
            k <= v@.len(),
            r@.len() == k,
            forall|i: int| 0 <= i < k ==> (#[trigger] r@[i])@ == v@[i]@,
        decreases v@.len() - k,
    {
        r.push(copy_text(&v[k]));
        k = k + 1;
    }
    assert(texts(r@) =~= texts(v@));
    r
}

impl UserAggregate {
    /// A field-by-field copy.
    pub fn duplicate(&self) -> (r: UserAggregate)
        ensures
            r@ == self@,
    {
        UserAggregate {
            login: copy_text(&self.login),
            avatar_url: copy_text(&self.avatar_url),
            profile_url: copy_text(&self.profile_url),
            total_contributions: self.total_contributions,
            repositories: copy_texts(&self.repositories),
        }
    }
}

/// The totals of aggregate models, position by position.
pub open spec fn model_totals(ms: Seq<AggregateModel>) -> Seq<u64> {
    ms.map_values(|m: AggregateModel| m.total as u64)
}

/// The totals of the aggregates, position by position.
pub open spec fn totals(v: Seq<UserAggregate>) -> Seq<u64> {
    v.map_values(|a: UserAggregate| a.total_contributions)
}

fn totals_vec(aggs: &Vec<UserAggregate>) -> (r: Vec<u64>)
    ensures
        r@ == totals(aggs@),
{
    let mut r: Vec<u64> = Vec::new();
    let mut k: usize = 0;
    while k < aggs.len()
        invariant
            k <= aggs@.len(),
            r@ =~= totals(aggs@).take(k as int),
        decreases aggs@.len() - k,
    {
        r.push(aggs[k].total_contributions);
        k = k + 1;
    }
    assert(totals(aggs@).take(k as int) =~= totals(aggs@));
    r
}

/// The report: the aggregates in ranking order, at most `limit` of them.
pub fn rank_aggregates(aggs: &Vec<UserAggregate>, limit: usize) -> (r: Vec<UserAggregate>)
    ensures
        r@.len() == if limit < aggs@.len() {
            limit as int
        } else {
            aggs@.len() as int
        },
        exists|ord: Seq<usize>|
            is_desc_ranking(model_totals(models(aggs@)), ord) && forall|k: int|
                0 <= k < r@.len() ==> (#[trigger] r@[k])@ == models(aggs@)[ord[k] as int],
{
    let keys = totals_vec(aggs);
    let ord = order_by_key_desc(&keys);
    let n: usize = if limit < aggs.len() {
        limit
    } else {
        aggs.len()
    };
    let mut r: Vec<UserAggregate> = Vec::new();
    let mut k: usize = 0;
    while k < n
        invariant
            k <= n,
            n <= aggs@.len(),
            is_desc_ranking(totals(aggs@), ord@),
            r@.len() == k,
            forall|q: int| 0 <= q < k ==> (#[trigger] r@[q])@ == aggs@[ord@[q] as int]@,
        decreases n - k,
    {
        assert(ord@[k as int] < totals(aggs@).len());
        r.push(aggs[ord[k]].duplicate());
        k = k + 1;
    }
    assert(model_totals(models(aggs@)) =~= totals(aggs@));
    r
}

/// `r` is the fleet report over the listings `bs`, with at most `limit` entries.
pub open spec fn is_fleet_report_of(r: Seq<UserAggregate>, bs: Seq<RepoContributors>, limit: usize) -> bool {
    &&& r.len() == if limit < fold_records(records_of(bs)).len() {
        limit as int
    } else {
        fold_records(records_of(bs)).len() as int
    }
    &&& exists|ord: Seq<usize>|
        is_desc_ranking(model_totals(fold_records(records_of(bs))), ord) && forall|k: int|
            0 <= k < r.len() ==> (#[trigger] r[k])@ == fold_records(records_of(bs))[ord[k] as int]
}

/// The fleet report: every listing folded into one aggregate per login,
/// ranked by total (ties in first-seen order), at most `limit` of them.
pub fn fleet_report(batches: &Vec<RepoContributors>, limit: usize) -> (r: Vec<UserAggregate>)
    ensures
        is_fleet_report_of(r@, batches@, limit),
{
    let aggs = aggregate_contributors(batches);
    rank_aggregates(&aggs, limit)
}

} // verus!
