//! The retrying request engine, as a pure step machine.
//!
//! The caller performs one HTTP attempt at a time and feeds the outcome to
//! [`RetryEngine::on_event`], which classifies it and decides whether to hand
//! back the body, fail terminally, or sleep and try again. The budget is
//! three attempts in total, with exponential backoff between them.

use vstd::prelude::*;

use crate::error::SteamApiError;
use crate::error::spec_is_retryable;

verus! {

/// Total number of attempts the engine will make for one request.
pub const MAX_ATTEMPTS: u32 = 3;

/// Backoff slept before the first retry, in milliseconds; it doubles before
/// each further retry.
pub const INITIAL_BACKOFF_MS: u64 = 500;

/// The observable outcome of one HTTP attempt, as the transport reports it.
#[derive(Debug, Clone)]
pub enum HttpEvent {
    /// A response arrived with this status code and body text.
    Response { status: u16, body: String },
    /// The attempt timed out.
    TimedOut,
    /// The attempt failed in transport for another reason.
    Failed(String),
}

/// What one attempt means, before the retry budget is consulted.
#[derive(Debug, Clone)]
pub enum Classification {
    /// The body is to be handed to the caller as-is.
    Success(String),
    /// A terminal error: no retry, whatever the budget.
    Terminal(SteamApiError),
    /// A retryable error: retry while the budget allows.
    Retryable(SteamApiError),
}

/// What the driver must do after feeding one event to the engine.
#[derive(Debug, Clone)]
pub enum RetryStep {
    /// The request is over: this body is the result.
    Success(String),
    /// The request is over: it failed with this error.
    Fail(SteamApiError),
    /// Sleep for this many milliseconds, then attempt again.
    RetryAfter(u64),
}

/// How one attempt's outcome is classified:
/// 429 is rate limiting, 403 is a bad key (terminal), 5xx is a server error,
/// a timeout and any other transport failure are retryable, and every other
/// status is a success whose body is returned unexamined.
pub open spec fn spec_classify(e: HttpEvent) -> Classification {
    match e {
        HttpEvent::Response { status, body } => {
            if status == 429 {
                Classification::Retryable(SteamApiError::RateLimited)
            } else if status == 403 {
                Classification::Terminal(SteamApiError::InvalidApiKey)
            } else if 500 <= status < 600 {
                Classification::Retryable(
                    SteamApiError::ApiError { status, message: body },
                )
            } else {
                Classification::Success(body)
            }
        },
        HttpEvent::TimedOut => Classification::Retryable(SteamApiError::Timeout),
        HttpEvent::Failed(msg) => Classification::Retryable(SteamApiError::NetworkError(msg)),
    }
}

/// The backoff slept before the retry that follows attempt number
/// `attempts_made`: 500ms after the first attempt, 1000ms after the second.
pub open spec fn spec_backoff_ms(attempts_made: u32) -> u64
    recommends
        1 <= attempts_made <= 2,
{
    if attempts_made <= 1 {
        INITIAL_BACKOFF_MS
    } else {
        (2 * INITIAL_BACKOFF_MS) as u64
    }
}

/// What the engine decides after an attempt: successes return, terminal
/// errors fail at once, and retryable errors retry while attempts remain,
/// else fail with the last classified error.
pub open spec fn spec_decide(attempts_made: u32, e: HttpEvent) -> RetryStep
    recommends
        attempts_made >= 1,
{
    match spec_classify(e) {
        Classification::Success(body) => RetryStep::Success(body),
        Classification::Terminal(err) => RetryStep::Fail(err),
        Classification::Retryable(err) => {
            if attempts_made < MAX_ATTEMPTS {
                RetryStep::RetryAfter(spec_backoff_ms(attempts_made))
            } else {
                RetryStep::Fail(err)
            }
        },
    }
}

/// The engine: counts the attempts made for one request.
pub struct RetryEngine {
    /// Attempts already fed to the engine.
    pub attempts_made: u32,
}

impl RetryEngine {
    /// A fresh engine for one request; no attempt has been made.
    pub fn new() -> (r: Self)
        ensures
            r.attempts_made == 0,
    {
        RetryEngine { attempts_made: 0 }
    }

    /// Whether the engine still accepts an attempt.
    pub fn can_attempt(&self) -> (r: bool)
        ensures
            r == (self.attempts_made < MAX_ATTEMPTS),
    {
        self.attempts_made < MAX_ATTEMPTS
    }

    /// Feed the outcome of one attempt and learn what to do next.
    pub fn on_event(&mut self, e: HttpEvent) -> (step: RetryStep)
        requires
            old(self).attempts_made < MAX_ATTEMPTS,
        ensures
            final(self).attempts_made == old(self).attempts_made + 1,
            step == spec_decide((old(self).attempts_made + 1) as u32, e),
    {
        self.attempts_made = self.attempts_made + 1;
        match e {
            HttpEvent::Response { status, body } => {
                if status == 429 {
                    self.retry_or_fail(SteamApiError::RateLimited)
                } else if status == 403 {
                    RetryStep::Fail(SteamApiError::InvalidApiKey)
                } else if 500 <= status && status < 600 {
                    self.retry_or_fail(SteamApiError::ApiError { status, message: body })
                } else {
                    RetryStep::Success(body)
                }
            },
            HttpEvent::TimedOut => self.retry_or_fail(SteamApiError::Timeout),
            HttpEvent::Failed(msg) => self.retry_or_fail(SteamApiError::NetworkError(msg)),
        }
    }

    /// Decide for a retryable error: retry while the budget allows.
    fn retry_or_fail(&self, err: SteamApiError) -> (step: RetryStep)
        requires
            1 <= self.attempts_made <= MAX_ATTEMPTS,
        ensures
            step == (if self.attempts_made < MAX_ATTEMPTS {
                RetryStep::RetryAfter(spec_backoff_ms(self.attempts_made))
            } else {
                RetryStep::Fail(err)
            }),
    {
        if self.attempts_made < MAX_ATTEMPTS {
            if self.attempts_made <= 1 {
                RetryStep::RetryAfter(INITIAL_BACKOFF_MS)
            } else {
                RetryStep::RetryAfter(2 * INITIAL_BACKOFF_MS)
            }
        } else {
            RetryStep::Fail(err)
        }
    }
}

/// Whether an event classifies as retryable.
pub open spec fn spec_event_retryable(e: HttpEvent) -> bool {
    spec_classify(e) is Retryable
}

/// The error an event classifies to, when it is not a success.
pub open spec fn spec_event_error(e: HttpEvent) -> SteamApiError
    recommends
        !(spec_classify(e) is Success),
{
    match spec_classify(e) {
        Classification::Success(_) => vstd::pervasive::arbitrary(),
        Classification::Terminal(err) => err,
        Classification::Retryable(err) => err,
    }
}

/// The engine retries exactly the classifications the taxonomy marks
/// retryable: an event the engine would retry carries a retryable error.
pub proof fn lemma_classify_retryable(e: HttpEvent)
    ensures
        spec_event_retryable(e) ==> spec_is_retryable(spec_event_error(e)),
{
}

/// For a request whose every attempt fails with a retryable classification,
/// the engine performs exactly three attempts, sleeping 500ms before the
/// second and 1000ms before the third, and ends with the last attempt's
/// classified error.
pub proof fn lemma_retryable_run_exhausts_budget(e1: HttpEvent, e2: HttpEvent, e3: HttpEvent)
    requires
        spec_event_retryable(e1),
        spec_event_retryable(e2),
        spec_event_retryable(e3),
    ensures
        spec_decide(1, e1) == RetryStep::RetryAfter(500u64),
        spec_decide(2, e2) == RetryStep::RetryAfter(1000u64),
        spec_decide(3, e3) == RetryStep::Fail(spec_event_error(e3)),
{
}

/// A 403 response fails on the first attempt, classified InvalidApiKey,
/// whatever body came with it.
pub proof fn lemma_forbidden_fails_first_attempt(body: String)
    ensures
        spec_decide(1, HttpEvent::Response { status: 403, body })
            == RetryStep::Fail(SteamApiError::InvalidApiKey),
{
}

} // verus!
