//! A paginator driven from outside: it decides which page to request next,
//! and when, while the caller performs the requests and reports each page.
use vstd::prelude::*;

verus! {

/// Where a paginated sequence stands; one style per sequence.
#[derive(Debug, Clone, PartialEq, Eq)]
pub enum PageCursor {
    /// Numbered pages, starting at 1.
    Offset { page: u64 },
    /// Opaque continuation tokens; `token` is passed back unmodified.
    Token { token: Option<String>, has_more: bool },
}

/// What the caller must do next.
#[derive(Debug, Clone, PartialEq, Eq)]
pub enum PagerAction {
    /// Request the numbered page.
    FetchPage(u64),
    /// Request the page after the given token (`None`: the first page).
    FetchAfter(Option<String>),
    /// Nothing may be requested before this instant (ms).
    WaitUntil(u64),
    /// A request is outstanding: report its page first.
    AwaitPage,
    /// The sequence is complete.
    Finished,
}

/// The state of one paginated sequence.
#[derive(Debug, Clone)]
pub struct Paginator {
    /// The next page to request.
    pub cursor: PageCursor,
    /// Stop once this many items have been collected.
    pub cap: Option<u64>,
    /// Items collected so far.
    pub collected: u64,
    /// The fixed delay (ms) between the end of one page and the next request.
    pub delay_ms: u64,
    /// The earliest instant (ms) at which the next request may be issued.
    pub ready_at: u64,
    /// A request has been issued and its page not yet reported.
    pub in_flight: bool,
    pub finished: bool,
}

/// The request that a cursor stands for.
pub open spec fn request_of(c: PageCursor) -> PagerAction {
    match c {
        PageCursor::Offset { page } => PagerAction::FetchPage(page),
        PageCursor::Token { token, has_more: _ } => PagerAction::FetchAfter(token),
    }
}

pub open spec fn is_fetch(a: PagerAction) -> bool {
    a is FetchPage || a is FetchAfter
}

pub open spec fn cap_reached(cap: Option<u64>, collected: int) -> bool {
    match cap {
        Some(c) => collected >= c,
        None => false,
    }
}

/// Whether a request may be issued at `now`: the sequence goes on, the
/// previous page has been reported, and the delay after it has elapsed.
pub open spec fn may_fetch(p: Paginator, now: u64) -> bool {
    !p.finished && !p.in_flight && now >= p.ready_at
}

/// What `poll` answers at `now`.
pub open spec fn poll_action(p: Paginator, now: u64) -> PagerAction {
    if p.finished {
        PagerAction::Finished
    } else if p.in_flight {
        PagerAction::AwaitPage
    } else if now < p.ready_at {
        PagerAction::WaitUntil(p.ready_at)
    } else {
        request_of(p.cursor)
    }
}

/// The state after `poll` at `now`: a request is outstanding if one was issued.
pub open spec fn polled(p: Paginator, now: u64) -> Paginator {
    if may_fetch(p, now) {
        Paginator { in_flight: true, ..p }
    } else {
        p
    }
}

/// The state after a page of `count` items was reported at `now`
/// (`has_next` and `end_cursor` are read by token sequences only).
pub open spec fn after_page(
    p: Paginator,
    count: u64,
    has_next: bool,
    end_cursor: Option<String>,
    now: u64,
) -> Paginator {
    let collected = if p.collected + count > u64::MAX {
        u64::MAX
    } else {
        (p.collected + count) as u64
    };
    let base = Paginator {
        collected,
        ready_at: (now + p.delay_ms) as u64,
        in_flight: false,
        ..p
    };
    match p.cursor {
        PageCursor::Offset { page } => Paginator {
            cursor: PageCursor::Offset {
                page: if page == u64::MAX {
                    page
                } else {
                    (page + 1) as u64
                },
            },
            finished: count == 0 || cap_reached(p.cap, collected as int) || page == u64::MAX,
            ..base
        },
        PageCursor::Token { token: _, has_more: _ } => Paginator {
            cursor: PageCursor::Token { token: end_cursor, has_more: has_next },
            finished: !has_next || cap_reached(p.cap, collected as int),
            ..base
        },
    }
}

impl Paginator {
    /// A token sequence that has not started.
    pub open spec fn cursor_spec(delay_ms: u64) -> Paginator {
        Paginator {
            cursor: PageCursor::Token { token: None, has_more: true },
            cap: None,
            collected: 0,
            delay_ms,
            ready_at: 0,
            in_flight: false,
            finished: false,
        }
    }

    /// A numbered sequence from page 1, stopping at an empty page or once
    /// `cap` items have been collected.
    pub fn offset(cap: Option<u64>, delay_ms: u64) -> (r: Paginator)
        ensures
            r.cursor == (PageCursor::Offset { page: 1 }),
            r.cap == cap,
            r.collected == 0,
            r.delay_ms == delay_ms,
            r.ready_at == 0,
            !r.in_flight,
            !r.finished,
    {
        Paginator {
            cursor: PageCursor::Offset { page: 1 },
            cap,
            collected: 0,
            delay_ms,
            ready_at: 0,
            in_flight: false,
            finished: false,
        }
    }

    /// A token sequence from the first page, stopping when the platform
    /// reports no next page.
    pub fn cursor(delay_ms: u64) -> (r: Paginator)
        ensures
            r == Paginator::cursor_spec(delay_ms),
    {
        Paginator {
            cursor: PageCursor::Token { token: None, has_more: true },
            cap: None,
            collected: 0,
            delay_ms,
            ready_at: 0,
            in_flight: false,
            finished: false,
        }
    }

    /// The next step at instant `now`. A request is issued only when
    /// `may_fetch` holds, and it is the request of the current cursor.
    pub fn poll(&mut self, now: u64) -> (r: PagerAction)
        ensures
            r == poll_action(*old(self), now),
            *final(self) == polled(*old(self), now),
            is_fetch(r) <==> may_fetch(*old(self), now),
    {
        if self.finished {
            PagerAction::Finished
        } else if self.in_flight {
            PagerAction::AwaitPage
        } else if now < self.ready_at {
            PagerAction::WaitUntil(self.ready_at)
        } else {
            self.in_flight = true;
            match &self.cursor {
                PageCursor::Offset { page } => PagerAction::FetchPage(*page),
                PageCursor::Token { token, has_more: _ } => PagerAction::FetchAfter(token.clone()),
            }
        }
    }

    /// Reports the page of the outstanding request, received at `now`: its
    /// item count and, for token sequences, whether a next page exists and
    /// its token. The next request waits `delay_ms` from `now`.
    pub fn record_page(&mut self, count: u64, has_next: bool, end_cursor: Option<String>, now: u64)
        requires
            old(self).in_flight,
            now + old(self).delay_ms <= u64::MAX,
        ensures
            *final(self) == after_page(*old(self), count, has_next, end_cursor, now),
    {
        self.collected = self.collected.saturating_add(count);
        self.ready_at = now + self.delay_ms;
        self.in_flight = false;
        let reached = match self.cap {
            Some(c) => self.collected >= c,
            None => false,
        };
        match &mut self.cursor {
            PageCursor::Offset { page } => {
                let last = *page == u64::MAX;
                if !last {
                    *page = *page + 1;
                }
                self.finished = count == 0 || reached || last;
            },
            PageCursor::Token { token, has_more } => {
                *token = end_cursor;
                *has_more = has_next;
                self.finished = !has_next || reached;
            },
        }
    }

    /// Reports that the outstanding request failed at `now`: the sequence
    /// ends, and the delay still applies before any later call.
    pub fn record_failure(&mut self, now: u64)
        requires
            old(self).in_flight,
            now + old(self).delay_ms <= u64::MAX,
        ensures
            *final(self) == (Paginator {
                ready_at: (now + old(self).delay_ms) as u64,
                in_flight: false,
                finished: true,
                ..*old(self)
            }),
    {
        self.ready_at = now + self.delay_ms;
        self.in_flight = false;
        self.finished = true;
    }
}

/// Pages are issued one at a time with the mandated spacing: once a page
/// has been reported at instant `t`, the next request can be issued only at
/// an instant no earlier than `t` plus the delay, and only for the page that
/// follows.
pub proof fn lemma_next_page_waits_for_delay(
    p: Paginator,
    count: u64,
    has_next: bool,
    end_cursor: Option<String>,
    t: u64,
    later: u64,
)
    requires
        p.in_flight,
        t + p.delay_ms <= u64::MAX,
        may_fetch(after_page(p, count, has_next, end_cursor, t), later),
    ensures
        later >= t + p.delay_ms,
        p.cursor matches PageCursor::Offset { page } ==> request_of(
            after_page(p, count, has_next, end_cursor, t).cursor,
        ) == PagerAction::FetchPage((page + 1) as u64),
        p.cursor is Token ==> request_of(after_page(p, count, has_next, end_cursor, t).cursor)
            == PagerAction::FetchAfter(end_cursor),
{
}

/// A paginated sequence never issues a request while a page is outstanding:
/// after a request, every poll waits until that page is reported.
pub proof fn lemma_no_request_while_outstanding(p: Paginator, now: u64)
    requires
        p.in_flight,
    ensures
        !may_fetch(p, now),
{
}

} // verus!
