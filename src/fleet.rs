//! The multi-developer report as a session driven from outside: keyword
//! searches gather a capped candidate set, trees filter it, contributor
//! listings are folded and ranked.
use vstd::prelude::*;
use crate::aggregate::{
    fleet_report, is_fleet_report_of, Contributor, RepoContributors, UserAggregate,
};
use crate::detector::{tree_has_move_files, tree_verdict};
use crate::discovery::{
    first_hit_describes, gather, holds_name, names_of, text_or, CandidateSet, RepoNode, RepositoryRef,
};
use crate::fetch::{is_success_status, FetchError};
use crate::pager::{after_page, poll_action, polled, PageCursor, PagerAction, Paginator};

verus! {

/// What the caller must do next.
#[derive(Debug, Clone, PartialEq, Eq)]
pub enum FleetAction {
    /// Request a page of search results for a keyword query.
    Search { query: String, page: u64 },
    /// Request the recursive file tree of a repository's branch.
    FetchTree { full_name: String, branch: String },
    /// Request the contributor listing of a repository.
    FetchContributors { full_name: String },
    /// Nothing may be requested before this instant (ms).
    WaitUntil(u64),
    /// A request is outstanding: report its answer first.
    AwaitResponse,
    /// The session was aborted.
    Failed(FetchError),
    /// The ranked aggregates.
    Finished(Vec<UserAggregate>),
}

/// The state of one multi-developer report.
#[derive(Debug, Clone)]
pub struct FleetSession {
    /// How many aggregates the report holds at most.
    pub limit: usize,
    /// How many result pages of one query are read at most.
    pub max_search_pages: u64,
    /// The fixed delay (ms) between an answer and the next request.
    pub delay_ms: u64,
    /// The fixed delay (ms) between a search answer and the next request.
    pub search_delay_ms: u64,
    /// The keyword queries, tried in order.
    pub queries: Vec<String>,
    /// The query being paged through.
    pub query_index: usize,
    pub search: Paginator,
    /// The repositories gathered so far, capped by the oversampling factor.
    pub candidates: CandidateSet,
    /// How many candidates have had their tree examined.
    pub checked: usize,
    pub tree_in_flight: bool,
    /// The earliest instant (ms) for the next tree or contributor request.
    pub ready_at: u64,
    /// The examined candidates that hold Move files, in order.
    pub move_repos: Vec<RepositoryRef>,
    /// How many of `move_repos` have had their contributors requested and answered.
    pub listed: usize,
    pub listing_in_flight: bool,
    /// The contributor listings received.
    pub batches: Vec<RepoContributors>,
    pub failure: Option<FetchError>,
}

/// A search listing that has not started, whose first request waits until `ready_at`.
pub open spec fn fresh_search(delay_ms: u64, ready_at: u64) -> Paginator {
    Paginator {
        cursor: PageCursor::Offset { page: 1 },
        cap: None,
        collected: 0,
        delay_ms,
        ready_at,
        in_flight: false,
        finished: false,
    }
}

pub open spec fn search_action(a: PagerAction, query: String) -> FleetAction {
    match a {
        PagerAction::FetchPage(p) => FleetAction::Search { query, page: p },
        PagerAction::WaitUntil(t) => FleetAction::WaitUntil(t),
        _ => FleetAction::AwaitResponse,
    }
}

impl FleetSession {
    pub open spec fn wf(&self) -> bool {
        &&& self.candidates.wf()
        &&& self.search.cursor is Offset
        &&& self.search.cap is None
        &&& self.search.delay_ms == self.search_delay_ms
        &&& !self.search.finished
        &&& self.query_index <= self.queries@.len()
        &&& self.search.in_flight ==> self.query_index < self.queries@.len()
            && !self.candidates.is_full_spec()
        &&& self.checked <= self.candidates.repos@.len()
        &&& self.listed <= self.move_repos@.len()
        &&& self.tree_in_flight ==> self.searched() && self.checked
            < self.candidates.repos@.len() && !self.search.in_flight
        &&& self.listing_in_flight ==> self.searched() && self.checked
            == self.candidates.repos@.len() && self.listed < self.move_repos@.len()
            && !self.search.in_flight && !self.tree_in_flight
    }

    /// Searching is over: every query has been paged through or the
    /// candidate set is full.
    pub open spec fn searched(&self) -> bool {
        self.query_index >= self.queries@.len() || self.candidates.is_full_spec()
    }

    pub open spec fn searching_stage(&self) -> bool {
        self.failure is None && !self.searched()
    }

    pub open spec fn detecting_stage(&self) -> bool {
        self.failure is None && self.searched() && self.checked < self.candidates.repos@.len()
    }

    pub open spec fn listing_stage(&self) -> bool {
        &&& self.failure is None
        &&& self.searched()
        &&& self.checked == self.candidates.repos@.len()
        &&& self.listed < self.move_repos@.len()
    }

    pub open spec fn done_stage(&self) -> bool {
        &&& self.failure is None
        &&& self.searched()
        &&& self.checked == self.candidates.repos@.len()
        &&& self.listed == self.move_repos@.len()
    }

    /// A session for a report of at most `limit` developers, gathering at
    /// most `limit × factor` candidates through `queries`, reading at most
    /// `max_search_pages` pages of each, and waiting `search_delay_ms` after
    /// each search answer and `delay_ms` after any other.
    pub fn new(
        queries: Vec<String>,
        limit: usize,
        factor: usize,
        max_search_pages: u64,
        search_delay_ms: u64,
        delay_ms: u64,
    ) -> (r: FleetSession)
        ensures
            r.wf(),
            r.max_search_pages == max_search_pages,
            r.queries == queries,
            r.limit == limit,
            r.delay_ms == delay_ms,
            r.search_delay_ms == search_delay_ms,
            r.query_index == 0,
            r.search == fresh_search(search_delay_ms, 0),
            r.candidates.repos@.len() == 0,
            limit * factor <= usize::MAX ==> r.candidates.cap == limit * factor,
            limit * factor > usize::MAX ==> r.candidates.cap == usize::MAX,
            r.checked == 0,
            r.listed == 0,
            r.move_repos@.len() == 0,
            r.batches@.len() == 0,
            !r.tree_in_flight,
            !r.listing_in_flight,
            r.ready_at == 0,
            r.failure is None,
    {
        FleetSession {
            limit,
            max_search_pages,
            delay_ms,
            search_delay_ms,
            queries,
            query_index: 0,
            search: Paginator::offset(None, search_delay_ms),
            candidates: CandidateSet::new(limit, factor),
            checked: 0,
            tree_in_flight: false,
            ready_at: 0,
            move_repos: Vec::new(),
            listed: 0,
            listing_in_flight: false,
            batches: Vec::new(),
            failure: None,
        }
    }

    /// The next step at instant `now`. A search request is made only while
    /// the candidate set has room.
    pub fn next_action(&mut self, now: u64) -> (r: FleetAction)
        requires
            old(self).wf(),
        ensures
            final(self).wf(),
            r is Search ==> old(self).searching_stage() && !old(self).candidates.is_full_spec(),
            old(self).failure matches Some(e) ==> r == FleetAction::Failed(e) && *final(self)
                == *old(self),
            old(self).searching_stage() ==> r == search_action(
                poll_action(old(self).search, now),
                old(self).queries@[old(self).query_index as int],
            ) && *final(self) == (FleetSession {
                search: polled(old(self).search, now),
                ..*old(self)
            }),
            old(self).detecting_stage() && old(self).tree_in_flight ==> r
                == FleetAction::AwaitResponse && *final(self) == *old(self),
            old(self).detecting_stage() && !old(self).tree_in_flight && now < old(self).ready_at
                ==> r == FleetAction::WaitUntil(old(self).ready_at) && *final(self) == *old(self),
            old(self).detecting_stage() && !old(self).tree_in_flight && now >= old(self).ready_at
                ==> r == (FleetAction::FetchTree {
                full_name: old(self).candidates.repos@[old(self).checked as int].full_name,
                branch: old(self).candidates.repos@[old(self).checked as int].default_branch,
            }) && *final(self) == (FleetSession { tree_in_flight: true, ..*old(self) }),
            old(self).listing_stage() && old(self).listing_in_flight ==> r
                == FleetAction::AwaitResponse && *final(self) == *old(self),
            old(self).listing_stage() && !old(self).listing_in_flight && now < old(self).ready_at
                ==> r == FleetAction::WaitUntil(old(self).ready_at) && *final(self) == *old(self),
            old(self).listing_stage() && !old(self).listing_in_flight && now >= old(self).ready_at
                ==> r == (FleetAction::FetchContributors {
                full_name: old(self).move_repos@[old(self).listed as int].full_name,
            }) && *final(self) == (FleetSession { listing_in_flight: true, ..*old(self) }),
            old(self).done_stage() ==> (r matches FleetAction::Finished(v) && is_fleet_report_of(
                v@,
                old(self).batches@,
                old(self).limit,
            )) && *final(self) == *old(self),
    {
        match &self.failure {
            Some(e) => {
                return FleetAction::Failed(e.duplicate());
            },
            None => {},
        }
        if self.query_index < self.queries.len() && !self.candidates.is_full() {
            match self.search.poll(now) {
                PagerAction::FetchPage(p) => FleetAction::Search {
                    query: self.queries[self.query_index].clone(),
                    page: p,
                },
                PagerAction::WaitUntil(t) => FleetAction::WaitUntil(t),
                _ => FleetAction::AwaitResponse,
            }
        } else if self.checked < self.candidates.repos.len() {
            if self.tree_in_flight {
                FleetAction::AwaitResponse
            } else if now < self.ready_at {
                FleetAction::WaitUntil(self.ready_at)
            } else {
                self.tree_in_flight = true;
                let repo = &self.candidates.repos[self.checked];
                FleetAction::FetchTree {
                    full_name: repo.full_name.clone(),
                    branch: repo.default_branch.clone(),
                }
            }
        } else if self.listed < self.move_repos.len() {
            if self.listing_in_flight {
                FleetAction::AwaitResponse
            } else if now < self.ready_at {
                FleetAction::WaitUntil(self.ready_at)
            } else {
                self.listing_in_flight = true;
                FleetAction::FetchContributors {
                    full_name: self.move_repos[self.listed].full_name.clone(),
                }
            }
        } else {
            FleetAction::Finished(fleet_report(&self.batches, self.limit))
        }
    }

    /// Ends the session before its course is run, as when the run's time
    /// is up: the ranked report over the contributor listings received so far.
    pub fn finish_early(&self) -> (r: Vec<UserAggregate>)
        ensures
            is_fleet_report_of(r@, self.batches@, self.limit),
    {
        fleet_report(&self.batches, self.limit)
    }

    /// Aborts the session: a failed search leaves a candidate set that
    /// would under-report, and a failed tree request leaves the filter
    /// unsettled.
    pub fn fail(&mut self, err: FetchError)
        requires
            old(self).wf(),
        ensures
            final(self).wf(),
            *final(self) == (FleetSession { failure: Some(err), ..*old(self) }),
    {
        self.failure = Some(err);
    }

    /// Takes a page of search hits received at `now`. The hits join the
    /// candidate set while it has room; an empty page, or the last page
    /// allowed, ends the query and the next query starts from its first page.
    /// The next request of any kind waits `search_delay_ms` from `now`.
    pub fn on_search_page(&mut self, hits: &Vec<RepoNode>, now: u64)
        requires
            old(self).wf(),
            old(self).failure is None,
            old(self).search.in_flight,
            now + old(self).search_delay_ms <= u64::MAX,
        ensures
            final(self).wf(),
            final(self).candidates.cap == old(self).candidates.cap,
            final(self).candidates.repos@.len() >= old(self).candidates.repos@.len(),
            names_of(final(self).candidates.repos@) == gather(
                names_of(old(self).candidates.repos@),
                hits@,
                old(self).candidates.cap as nat,
            ),
            forall|i: int|
                0 <= i < old(self).candidates.repos@.len() ==> final(self).candidates.repos@[i]
                    == old(self).candidates.repos@[i],
            forall|i: int|
                old(self).candidates.repos@.len() <= i < final(self).candidates.repos@.len()
                    ==> first_hit_describes(hits@, #[trigger] final(self).candidates.repos@[i]),
            forall|j: int|
                0 <= j < hits@.len() ==> final(self).candidates.is_full_spec() || holds_name(
                    final(self).candidates.repos@,
                    text_or(#[trigger] hits@[j].name_with_owner, Seq::empty()),
                ),
            ({
                let s = after_page(old(self).search, hits@.len() as u64, false, None, now);
                let ends = s.finished || s.cursor->Offset_page > old(self).max_search_pages;
                &&& !ends ==> final(self).search == s && final(self).query_index
                    == old(self).query_index
                &&& ends ==> final(self).search == fresh_search(
                    old(self).search_delay_ms,
                    (now + old(self).search_delay_ms) as u64,
                ) && final(self).query_index == old(self).query_index + 1
            }),
            *final(self) == (FleetSession {
                candidates: final(self).candidates,
                search: final(self).search,
                query_index: final(self).query_index,
                ready_at: (now + old(self).search_delay_ms) as u64,
                ..*old(self)
            }),
    {
        self.candidates.add_hits(hits);
        self.search.record_page(hits.len() as u64, false, None, now);
        self.ready_at = now + self.search_delay_ms;
        let past_last = match &self.search.cursor {
            PageCursor::Offset { page } => *page > self.max_search_pages,
            PageCursor::Token { .. } => false,
        };
        if self.search.finished || past_last {
            let n = self.queries.len();
            assert(self.query_index < n);
            self.query_index = self.query_index + 1;
            let mut fresh = Paginator::offset(None, self.search_delay_ms);
            fresh.ready_at = now + self.search_delay_ms;
            self.search = fresh;
        }
    }

    /// Takes the answer to a tree request received at `now`. The candidate
    /// is kept iff its tree holds a Move file.
    pub fn on_tree(&mut self, status: u16, entries: &Option<Vec<Option<String>>>, now: u64)
        requires
            old(self).wf(),
            old(self).failure is None,
            old(self).tree_in_flight,
            now + old(self).delay_ms <= u64::MAX,
        ensures
            final(self).wf(),
            tree_verdict(status, *entries) ==> final(self).move_repos@ == old(
                self,
            ).move_repos@.push(old(self).candidates.repos@[old(self).checked as int]),
            !tree_verdict(status, *entries) ==> final(self).move_repos == old(self).move_repos,
            *final(self) == (FleetSession {
                checked: (old(self).checked + 1) as usize,
                tree_in_flight: false,
                ready_at: (now + old(self).delay_ms) as u64,
                move_repos: final(self).move_repos,
                ..*old(self)
            }),
    {
        if tree_has_move_files(status, entries) {
            let r = self.candidates.repos[self.checked].duplicate();
            self.move_repos.push(r);
        }
        let n = self.candidates.repos.len();
        assert(self.checked < n);
        self.checked = self.checked + 1;
        self.tree_in_flight = false;
        self.ready_at = now + self.delay_ms;
    }

    /// Takes the answer to a contributor-listing request received at `now`.
    /// A successful listing is kept for the current repository; any other
    /// answer leaves the repository out of the report.
    pub fn on_contributors(&mut self, status: u16, contributors: Vec<Contributor>, now: u64)
        requires
            old(self).wf(),
            old(self).failure is None,
            old(self).listing_in_flight,
            now + old(self).delay_ms <= u64::MAX,
        ensures
            final(self).wf(),
            is_success_status(status) ==> final(self).batches@ == old(self).batches@.push(
                RepoContributors {
                    repo: old(self).move_repos@[old(self).listed as int].full_name,
                    contributors,
                },
            ),
            !is_success_status(status) ==> final(self).batches == old(self).batches,
            *final(self) == (FleetSession {
                listed: (old(self).listed + 1) as usize,
                listing_in_flight: false,
                ready_at: (now + old(self).delay_ms) as u64,
                batches: final(self).batches,
                ..*old(self)
            }),
    {
        if 200 <= status && status <= 299 {
            let repo = self.move_repos[self.listed].full_name.clone();
            self.batches.push(RepoContributors { repo, contributors });
        }
        self.skip_listing(now);
    }

    /// Takes a failed contributor-listing request (no answer, or an
    /// unreadable one) at `now`: the repository is left out of the report.
    pub fn on_contributors_failure(&mut self, now: u64)
        requires
            old(self).wf(),
            old(self).failure is None,
            old(self).listing_in_flight,
            now + old(self).delay_ms <= u64::MAX,
        ensures
            final(self).wf(),
            *final(self) == (FleetSession {
                listed: (old(self).listed + 1) as usize,
                listing_in_flight: false,
                ready_at: (now + old(self).delay_ms) as u64,
                ..*old(self)
            }),
    {
        self.skip_listing(now);
    }

    fn skip_listing(&mut self, now: u64)
        requires
            old(self).wf(),
            old(self).listing_in_flight,
            now + old(self).delay_ms <= u64::MAX,
        ensures
            final(self).wf(),
            *final(self) == (FleetSession {
                listed: (old(self).listed + 1) as usize,
                listing_in_flight: false,
                ready_at: (now + old(self).delay_ms) as u64,
                ..*old(self)
            }),
    {
        let n = self.move_repos.len();
        assert(self.listed < n);
        self.listed = self.listed + 1;
        self.listing_in_flight = false;
        self.ready_at = now + self.delay_ms;
    }
}

/// Discovery never gathers more candidate repositories than the
/// oversampling cap, `requested limit × factor`, in any state a session
/// reaches; and once the cap is reached no further search is requested.
pub proof fn lemma_candidates_within_cap(s: FleetSession)
    requires
        s.wf(),
    ensures
        s.candidates.repos@.len() <= s.candidates.cap,
        s.candidates.is_full_spec() ==> !s.searching_stage(),
{
}

} // verus!
