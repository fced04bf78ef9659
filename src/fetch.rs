//! Interpretation of one outbound response, and the quota state that gates
//! the next call.
use vstd::prelude::*;

verus! {

/// How a response status is read by the pipeline.
#[derive(Debug, Clone, Copy, PartialEq, Eq, Structural)]
pub enum ResponseClass {
    /// 2xx: the body is usable.
    Success,
    /// 403 or 429: the request quota is exhausted.
    RateLimited,
    /// 404 or 410: the resource is gone or hidden.
    NotFound,
    /// Any other status.
    Unavailable,
}

/// Failures of one outbound call.
#[derive(Debug, Clone, PartialEq, Eq)]
pub enum FetchError {
    /// The quota is exhausted; no call may be made before `retry_after_ms` have passed.
    RateLimited { retry_after_ms: u64 },
    /// A non-success status other than rate limiting or absence, with the body for diagnosis.
    UpstreamUnavailable { status: u16, body: String },
    /// The resource does not exist or cannot be seen.
    NotFound,
    /// The connection failed before a status was received.
    Transport,
    /// The body did not have the expected shape.
    MalformedResponse,
}

impl FetchError {
    /// A copy of the error.
    pub fn duplicate(&self) -> (r: FetchError)
        ensures
            r == *self,
    {
        match self {
            FetchError::RateLimited { retry_after_ms } => FetchError::RateLimited {
                retry_after_ms: *retry_after_ms,
            },
            FetchError::UpstreamUnavailable { status, body } => FetchError::UpstreamUnavailable {
                status: *status,
                body: body.clone(),
            },
            FetchError::NotFound => FetchError::NotFound,
            FetchError::Transport => FetchError::Transport,
            FetchError::MalformedResponse => FetchError::MalformedResponse,
        }
    }
}

/// The status a report request answers with when the run fails with `e`:
/// 429 (too many requests) for an exhausted quota, 502 (bad gateway) otherwise.
pub fn error_status(e: &FetchError) -> (r: u16)
    ensures
        r == if e is RateLimited {
            429u16
        } else {
            502u16
        },
{
    match e {
        FetchError::RateLimited { .. } => 429,
        _ => 502,
    }
}

pub open spec fn is_success_status(status: u16) -> bool {
    200 <= status <= 299
}

pub open spec fn class_of(status: u16) -> ResponseClass {
    if is_success_status(status) {
        ResponseClass::Success
    } else if status == 403 || status == 429 {
        ResponseClass::RateLimited
    } else if status == 404 || status == 410 {
        ResponseClass::NotFound
    } else {
        ResponseClass::Unavailable
    }
}

/// Classifies an HTTP status code.
pub fn classify_status(status: u16) -> (r: ResponseClass)
    ensures
        r == class_of(status),
{
    if 200 <= status && status <= 299 {
        ResponseClass::Success
    } else if status == 403 || status == 429 {
        ResponseClass::RateLimited
    } else if status == 404 || status == 410 {
        ResponseClass::NotFound
    } else {
        ResponseClass::Unavailable
    }
}

/// The outcome of a call that received `status` and `body`: the body on
/// success, otherwise the error its status stands for. A rate-limited answer
/// carries the cooldown that the caller must respect.
pub fn interpret_response(status: u16, body: String, cooldown_ms: u64) -> (r: Result<String, FetchError>)
    ensures
        is_success_status(status) <==> r is Ok,
        r is Ok ==> r->Ok_0 == body,
        class_of(status) == ResponseClass::RateLimited <==> r == Err::<String, FetchError>(
            FetchError::RateLimited { retry_after_ms: cooldown_ms },
        ),
        class_of(status) == ResponseClass::NotFound <==> r == Err::<String, FetchError>(
            FetchError::NotFound,
        ),
        class_of(status) == ResponseClass::Unavailable <==> r == Err::<String, FetchError>(
            FetchError::UpstreamUnavailable { status, body },
        ),
{
    match classify_status(status) {
        ResponseClass::Success => Ok(body),
        ResponseClass::RateLimited => Err(FetchError::RateLimited { retry_after_ms: cooldown_ms }),
        ResponseClass::NotFound => Err(FetchError::NotFound),
        ResponseClass::Unavailable => Err(FetchError::UpstreamUnavailable { status, body }),
    }
}

/// Quota counters of one class of outbound endpoint, as last reported by
/// the platform: calls left in the window and the instant (ms) the window resets.
#[derive(Debug, Clone, Copy, PartialEq, Eq, Structural)]
pub struct RateLimitState {
    pub remaining: u64,
    pub reset_at: u64,
}

impl RateLimitState {
    /// A state that does not hold back the first call.
    pub fn unknown() -> (r: RateLimitState)
        ensures
            r.remaining > 0,
            r.reset_at == 0,
    {
        RateLimitState { remaining: 1, reset_at: 0 }
    }

    /// Records the counters reported with a response.
    pub fn update(&mut self, remaining: u64, reset_at: u64)
        ensures
            final(self).remaining == remaining,
            final(self).reset_at == reset_at,
    {
        self.remaining = remaining;
        self.reset_at = reset_at;
    }

    /// The instant before which no call may be made, if the quota is spent
    /// and its window has not reset at `now`.
    pub fn blocked_until(&self, now: u64) -> (r: Option<u64>)
        ensures
            r == (if self.remaining == 0 && now < self.reset_at {
                Some(self.reset_at)
            } else {
                None
            }),
    {
        if self.remaining == 0 && now < self.reset_at {
            Some(self.reset_at)
        } else {
            None
        }
    }
}

} // verus!
