//! The single-developer report as a session driven from outside: it says
//! which request to make next and when, and takes each answer back. The
//! caller performs the requests and the waiting.
use vstd::prelude::*;
use crate::detector::{tree_has_move_files, tree_verdict};
use crate::discovery::{append_nodes, node_describes, RepoNode, RepositoryRef};
use crate::fetch::{is_success_status, FetchError};
use crate::pager::{after_page, poll_action, polled, PageCursor, PagerAction, Paginator};
use crate::report::{
    as_ints, build_report, count_commits, is_report_of, page_total, saturated,
    RepositoryWithCommits, UserMoveFilesResponse,
};

verus! {

/// What the caller must do next.
#[derive(Debug, Clone, PartialEq, Eq)]
pub enum SessionAction {
    /// Request a page of the account's owned, non-fork repositories.
    ListRepositories { after: Option<String> },
    /// Request the recursive file tree of a repository's branch.
    FetchTree { full_name: String, branch: String },
    /// Request a page of the account's commits in a repository.
    FetchCommits { full_name: String, page: u64 },
    /// Nothing may be requested before this instant (ms).
    WaitUntil(u64),
    /// A request is outstanding: report its answer first.
    AwaitResponse,
    /// The session was aborted.
    Failed(FetchError),
    /// The report is complete.
    Finished(UserMoveFilesResponse),
}

/// The state of one single-developer report.
#[derive(Debug, Clone)]
pub struct UserReportSession {
    pub username: String,
    /// The fixed delay (ms) between an answer and the next request.
    pub delay_ms: u64,
    /// The listing of the account's repositories.
    pub listing: Paginator,
    /// The account's repositories, in listing order.
    pub repos: Vec<RepositoryRef>,
    /// How many of `repos` have had their tree examined.
    pub checked: usize,
    pub tree_in_flight: bool,
    /// The earliest instant (ms) for the next tree request.
    pub ready_at: u64,
    /// The examined repositories that hold Move files, in listing order.
    pub move_repos: Vec<RepositoryRef>,
    /// How many of `move_repos` are done with.
    pub counted: usize,
    /// The commit listing of `move_repos[counted]`.
    pub commits: Paginator,
    /// The sizes of its commit pages so far.
    pub commit_pages: Vec<u64>,
    /// The commit counts of the repositories done with.
    pub summaries: Vec<RepositoryWithCommits>,
    pub failure: Option<FetchError>,
}

/// A commit listing that has not started, whose first request waits until `ready_at`.
pub open spec fn fresh_commits(delay_ms: u64, ready_at: u64) -> Paginator {
    Paginator {
        cursor: PageCursor::Offset { page: 1 },
        cap: None,
        collected: 0,
        delay_ms,
        ready_at,
        in_flight: false,
        finished: false,
    }
}

pub open spec fn listing_action(a: PagerAction) -> SessionAction {
    match a {
        PagerAction::FetchAfter(t) => SessionAction::ListRepositories { after: t },
        PagerAction::WaitUntil(t) => SessionAction::WaitUntil(t),
        _ => SessionAction::AwaitResponse,
    }
}

pub open spec fn counting_action(a: PagerAction, full_name: String) -> SessionAction {
    match a {
        PagerAction::FetchPage(p) => SessionAction::FetchCommits { full_name, page: p },
        PagerAction::WaitUntil(t) => SessionAction::WaitUntil(t),
        _ => SessionAction::AwaitResponse,
    }
}

impl UserReportSession {
    pub open spec fn wf(&self) -> bool {
        &&& self.wf_but_commits()
        &&& self.commits.cursor is Offset
        &&& self.commits.cap is None
        &&& self.commits.delay_ms == self.delay_ms
        &&& !self.commits.finished
        &&& self.commits.in_flight ==> self.listing.finished && self.checked == self.repos@.len()
            && self.counted < self.move_repos@.len()
    }

    /// The invariant, but for the commit listing of the current repository.
    pub open spec fn wf_but_commits(&self) -> bool {
        &&& self.listing.cursor is Token
        &&& self.listing.delay_ms == self.delay_ms
        &&& self.listing.in_flight ==> !self.listing.finished
        &&& self.checked <= self.repos@.len()
        &&& self.counted <= self.move_repos@.len()
        &&& self.summaries@.len() <= self.counted
        &&& self.tree_in_flight ==> self.listing.finished && self.checked < self.repos@.len()
        &&& self.listing.in_flight ==> !self.tree_in_flight
    }

    pub open spec fn listing_stage(&self) -> bool {
        self.failure is None && !self.listing.finished
    }

    pub open spec fn detecting_stage(&self) -> bool {
        self.failure is None && self.listing.finished && self.checked < self.repos@.len()
    }

    pub open spec fn counting_stage(&self) -> bool {
        &&& self.failure is None
        &&& self.listing.finished
        &&& self.checked == self.repos@.len()
        &&& self.counted < self.move_repos@.len()
    }

    pub open spec fn done_stage(&self) -> bool {
        &&& self.failure is None
        &&& self.listing.finished
        &&& self.checked == self.repos@.len()
        &&& self.counted == self.move_repos@.len()
    }

    /// A session for `username` whose requests are spaced by `delay_ms`.
    pub fn new(username: String, delay_ms: u64) -> (r: UserReportSession)
        ensures
            r.wf(),
            r.listing_stage(),
            r.username == username,
            r.delay_ms == delay_ms,
            r.listing == Paginator::cursor_spec(delay_ms),
            r.repos@.len() == 0,
            r.move_repos@.len() == 0,
            r.summaries@.len() == 0,
            r.commit_pages@.len() == 0,
            r.checked == 0,
            r.counted == 0,
            !r.tree_in_flight,
            r.ready_at == 0,
            r.commits == fresh_commits(delay_ms, 0),
    {
        UserReportSession {
            username,
            delay_ms,
            listing: Paginator::cursor(delay_ms),
            repos: Vec::new(),
            checked: 0,
            tree_in_flight: false,
            ready_at: 0,
            move_repos: Vec::new(),
            counted: 0,
            commits: Paginator::offset(None, delay_ms),
            commit_pages: Vec::new(),
            summaries: Vec::new(),
            failure: None,
        }
    }

    /// The next step at instant `now`.
    pub fn next_action(&mut self, now: u64) -> (r: SessionAction)
        requires
            old(self).wf(),
        ensures
            final(self).wf(),
            old(self).failure matches Some(e) ==> r == SessionAction::Failed(e) && *final(self)
                == *old(self),
            old(self).listing_stage() ==> r == listing_action(poll_action(old(self).listing, now))
                && *final(self) == (UserReportSession {
                listing: polled(old(self).listing, now),
                ..*old(self)
            }),
            old(self).detecting_stage() && old(self).tree_in_flight ==> r
                == SessionAction::AwaitResponse && *final(self) == *old(self),
            old(self).detecting_stage() && !old(self).tree_in_flight && now < old(self).ready_at
                ==> r == SessionAction::WaitUntil(old(self).ready_at) && *final(self) == *old(self),
            old(self).detecting_stage() && !old(self).tree_in_flight && now >= old(self).ready_at
                ==> r == (SessionAction::FetchTree {
                full_name: old(self).repos@[old(self).checked as int].full_name,
                branch: old(self).repos@[old(self).checked as int].default_branch,
            }) && *final(self) == (UserReportSession { tree_in_flight: true, ..*old(self) }),
            old(self).counting_stage() ==> r == counting_action(
                poll_action(old(self).commits, now),
                old(self).move_repos@[old(self).counted as int].full_name,
            ) && *final(self) == (UserReportSession {
                commits: polled(old(self).commits, now),
                ..*old(self)
            }),
            old(self).done_stage() ==> (r matches SessionAction::Finished(rep) && is_report_of(
                rep,
                old(self).username@,
                old(self).summaries@,
            )) && *final(self) == *old(self),
    {
        match &self.failure {
            Some(e) => {
                return SessionAction::Failed(e.duplicate());
            },
            None => {},
        }
        if !self.listing.finished {
            match self.listing.poll(now) {
                PagerAction::FetchAfter(t) => SessionAction::ListRepositories { after: t },
                PagerAction::WaitUntil(t) => SessionAction::WaitUntil(t),
                _ => SessionAction::AwaitResponse,
            }
        } else if self.checked < self.repos.len() {
            if self.tree_in_flight {
                SessionAction::AwaitResponse
            } else if now < self.ready_at {
                SessionAction::WaitUntil(self.ready_at)
            } else {
                self.tree_in_flight = true;
                let repo = &self.repos[self.checked];
                SessionAction::FetchTree {
                    full_name: repo.full_name.clone(),
                    branch: repo.default_branch.clone(),
                }
            }
        } else if self.counted < self.move_repos.len() {
            match self.commits.poll(now) {
                PagerAction::FetchPage(p) => SessionAction::FetchCommits {
                    full_name: self.move_repos[self.counted].full_name.clone(),
                    page: p,
                },
                PagerAction::WaitUntil(t) => SessionAction::WaitUntil(t),
                _ => SessionAction::AwaitResponse,
            }
        } else {
            SessionAction::Finished(build_report(&self.username, &self.summaries))
        }
    }

    /// Ends the session before its course is run, as when the run's time
    /// is up: the report over the repositories counted so far.
    pub fn finish_early(&self) -> (r: UserMoveFilesResponse)
        ensures
            is_report_of(r, self.username@, self.summaries@),
    {
        build_report(&self.username, &self.summaries)
    }

    /// Aborts the session: a failure while listing the repositories or
    /// reading a tree leaves no trustworthy report.
    pub fn fail(&mut self, err: FetchError)
        requires
            old(self).wf(),
        ensures
            final(self).wf(),
            *final(self) == (UserReportSession { failure: Some(err), ..*old(self) }),
    {
        self.failure = Some(err);
    }

    /// Takes the answer to a repository-listing request received at `now`.
    /// The next request of any kind waits `delay_ms` from `now`.
    pub fn on_repo_page(
        &mut self,
        nodes: &Vec<RepoNode>,
        has_next: bool,
        end_cursor: Option<String>,
        now: u64,
    )
        requires
            old(self).wf(),
            old(self).failure is None,
            old(self).listing.in_flight,
            now + old(self).delay_ms <= u64::MAX,
        ensures
            final(self).wf(),
            final(self).listing == after_page(
                old(self).listing,
                nodes@.len() as u64,
                has_next,
                end_cursor,
                now,
            ),
            final(self).repos@.len() == old(self).repos@.len() + nodes@.len(),
            forall|i: int|
                0 <= i < old(self).repos@.len() ==> final(self).repos@[i] == old(self).repos@[i],
            forall|i: int|
                0 <= i < nodes@.len() ==> node_describes(
                    nodes@[i],
                    #[trigger] final(self).repos@[old(self).repos@.len() + i],
                ),
            *final(self) == (UserReportSession {
                listing: final(self).listing,
                repos: final(self).repos,
                ready_at: (now + old(self).delay_ms) as u64,
                ..*old(self)
            }),
    {
        append_nodes(&mut self.repos, nodes);
        self.listing.record_page(nodes.len() as u64, has_next, end_cursor, now);
        self.ready_at = now + self.delay_ms;
    }

    /// Takes the answer to a tree request received at `now`: its status and,
    /// where the body was readable as a tree, its entry paths. The repository
    /// is kept iff the tree holds a Move file. The next request of any kind
    /// waits `delay_ms` from `now`.
    pub fn on_tree(&mut self, status: u16, entries: &Option<Vec<Option<String>>>, now: u64)
        requires
            old(self).wf(),
            old(self).failure is None,
            old(self).tree_in_flight,
            now + old(self).delay_ms <= u64::MAX,
        ensures
            final(self).wf(),
            tree_verdict(status, *entries) ==> final(self).move_repos@ == old(
                self,
            ).move_repos@.push(old(self).repos@[old(self).checked as int]),
            !tree_verdict(status, *entries) ==> final(self).move_repos == old(self).move_repos,
            *final(self) == (UserReportSession {
                checked: (old(self).checked + 1) as usize,
                tree_in_flight: false,
                ready_at: (now + old(self).delay_ms) as u64,
                commits: fresh_commits(old(self).delay_ms, (now + old(self).delay_ms) as u64),
                move_repos: final(self).move_repos,
                ..*old(self)
            }),
    {
        if tree_has_move_files(status, entries) {
            let r = self.repos[self.checked].duplicate();
            self.move_repos.push(r);
        }
        let n = self.repos.len();
        assert(self.checked < n);
        self.checked = self.checked + 1;
        self.tree_in_flight = false;
        self.ready_at = now + self.delay_ms;
        let mut fresh = Paginator::offset(None, self.delay_ms);
        fresh.ready_at = now + self.delay_ms;
        self.commits = fresh;
    }

    /// Closes the commit listing of the current repository at `now`, with
    /// or without a summary for it, and moves to the next one.
    fn next_repository(&mut self, keep: bool, now: u64)
        requires
            old(self).wf_but_commits(),
            old(self).listing.finished,
            old(self).checked == old(self).repos@.len(),
            old(self).counted < old(self).move_repos@.len(),
            now + old(self).delay_ms <= u64::MAX,
        ensures
            final(self).wf(),
            final(self).summaries@ == if keep {
                old(self).summaries@.push(
                    RepositoryWithCommits {
                        repo_name: old(self).move_repos@[old(self).counted as int].full_name,
                        repo_url: old(self).move_repos@[old(self).counted as int].html_url,
                        commit_count: saturated(page_total(as_ints(old(self).commit_pages@))) as u64,
                    },
                )
            } else {
                old(self).summaries@
            },
            final(self).commit_pages@.len() == 0,
            *final(self) == (UserReportSession {
                counted: (old(self).counted + 1) as usize,
                commits: fresh_commits(old(self).delay_ms, (now + old(self).delay_ms) as u64),
                commit_pages: final(self).commit_pages,
                summaries: final(self).summaries,
                ..*old(self)
            }),
    {
        if keep {
            let repo = &self.move_repos[self.counted];
            let count = count_commits(&self.commit_pages);
            self.summaries.push(
                RepositoryWithCommits {
                    repo_name: repo.full_name.clone(),
                    repo_url: repo.html_url.clone(),
                    commit_count: count,
                },
            );
        }
        let n = self.move_repos.len();
        assert(self.counted < n);
        self.counted = self.counted + 1;
        let mut fresh = Paginator::offset(None, self.delay_ms);
        fresh.ready_at = now + self.delay_ms;
        self.commits = fresh;
        self.commit_pages = Vec::new();
    }

    /// Takes the answer to a commit-page request received at `now`: its
    /// status and the number of commits on the page. An empty page ends the
    /// repository's listing and its count joins the report; a non-success
    /// status leaves the repository out, since its count would not be exact.
    pub fn on_commit_page(&mut self, status: u16, count: u64, now: u64)
        requires
            old(self).wf(),
            old(self).failure is None,
            old(self).commits.in_flight,
            now + old(self).delay_ms <= u64::MAX,
        ensures
            final(self).wf(),
            !is_success_status(status) ==> final(self).summaries@ == old(self).summaries@
                && final(self).commit_pages@.len() == 0 && *final(self) == (UserReportSession {
                counted: (old(self).counted + 1) as usize,
                commits: fresh_commits(old(self).delay_ms, (now + old(self).delay_ms) as u64),
                commit_pages: final(self).commit_pages,
                summaries: final(self).summaries,
                ..*old(self)
            }),
            is_success_status(status) ==> ({
                let pages = old(self).commit_pages@.push(count);
                let c = after_page(old(self).commits, count, false, None, now);
                &&& !c.finished ==> *final(self) == (UserReportSession {
                    commits: c,
                    commit_pages: final(self).commit_pages,
                    ..*old(self)
                }) && final(self).commit_pages@ == pages
                &&& c.finished ==> final(self).summaries@ == old(self).summaries@.push(
                    RepositoryWithCommits {
                        repo_name: old(self).move_repos@[old(self).counted as int].full_name,
                        repo_url: old(self).move_repos@[old(self).counted as int].html_url,
                        commit_count: saturated(page_total(as_ints(pages))) as u64,
                    },
                ) && final(self).commit_pages@.len() == 0 && *final(self) == (UserReportSession {
                    counted: (old(self).counted + 1) as usize,
                    commits: fresh_commits(old(self).delay_ms, (now + old(self).delay_ms) as u64),
                    commit_pages: final(self).commit_pages,
                    summaries: final(self).summaries,
                    ..*old(self)
                })
            }),
    {
        if 200 <= status && status <= 299 {
            self.commit_pages.push(count);
            self.commits.record_page(count, false, None, now);
            if self.commits.finished {
                self.next_repository(true, now);
            }
        } else {
            self.next_repository(false, now);
        }
    }

    /// Takes a failed commit-page request (no answer, or an unreadable one):
    /// the repository is left out of the report and the session goes on.
    pub fn on_commit_failure(&mut self, now: u64)
        requires
            old(self).wf(),
            old(self).failure is None,
            old(self).commits.in_flight,
            now + old(self).delay_ms <= u64::MAX,
        ensures
            final(self).wf(),
            final(self).summaries@ == old(self).summaries@,
            final(self).commit_pages@.len() == 0,
            *final(self) == (UserReportSession {
                counted: (old(self).counted + 1) as usize,
                commits: fresh_commits(old(self).delay_ms, (now + old(self).delay_ms) as u64),
                commit_pages: final(self).commit_pages,
                summaries: final(self).summaries,
                ..*old(self)
            }),
    {
        self.next_repository(false, now);
    }
}

} // verus!
