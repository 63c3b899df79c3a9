//! The handle: when a request is tried again, and when a stream is given up.
use super::client::SamplingClient;
use super::dialect::{Dialect, SamplingEvent, SamplingEventV};
use crate::errors::{ApiError, ApiErrorV};
use crate::text::view_res;
use vstd::arithmetic::power2::{
    lemma_pow2_adds, lemma_pow2_pos, lemma_pow2_strictly_increases, lemma_pow2_unfold, pow2,
};
use vstd::prelude::*;

verus! {

/// When to give up.
#[derive(Copy, Clone, Debug, PartialEq, Eq, Structural)]
pub struct SamplerConfig {
    /// How often a request is tried again.
    pub max_retries: u32,
    /// How long to wait for the next event, in milliseconds.
    pub idle_timeout: u64,
}

impl Default for SamplerConfig {
    fn default() -> (r: SamplerConfig)
        ensures
            r == (SamplerConfig { max_retries: 2, idle_timeout: 300_000 }),
    {
        SamplerConfig { max_retries: 2, idle_timeout: 300_000 }
    }
}

/// A client, and when to give up.
pub struct SamplerHandle<D: Dialect> {
    pub client: SamplingClient<D>,
    pub cfg: SamplerConfig,
}

/// The error may be gone the next time.
pub open spec fn transient(e: ApiErrorV) -> bool {
    e is RateLimit || e is Network
}

/// The milliseconds to wait before a request is tried again after so many
/// tries: 100, and twice as long each time.
pub open spec fn backoff(attempt: nat) -> nat {
    100 * pow2(attempt)
}

/// How long to wait before a request is sent again that has failed with the
/// error after it was sent again so many times; it is not sent again where there
/// is no answer.
pub open spec fn retry_after(attempt: nat, e: ApiErrorV, max_retries: nat) -> Option<nat> {
    if transient(e) && attempt < max_retries {
        Some(backoff(attempt))
    } else {
        None
    }
}

/// Decides whether an error may be gone the next time.
pub fn is_retryable(e: &ApiError) -> (r: bool)
    ensures
        r == transient(e@),
{
    matches!(e, ApiError::RateLimit | ApiError::Network(_))
}

/// What to do after a request has failed.
#[derive(Debug)]
pub enum Retry {
    /// Wait so many milliseconds, then send the request again.
    After(u64),
    /// Give up.
    Fail(ApiError),
}

/// The power of two for an exponent that leaves room for a factor of 100.
fn power_of_two(n: u32) -> (r: u64)
    requires
        n <= 57,
    ensures
        r == pow2(n as nat),
        r <= 0x200_0000_0000_0000,
{
    let mut r: u64 = 1;
    let mut i: u32 = 0;
    proof {
        vstd::arithmetic::power2::lemma2_to64();
        vstd::arithmetic::power2::lemma2_to64_rest();
    }
    while i < n
        invariant
            i <= n <= 57,
            r == pow2(i as nat),
            pow2(57) == 0x200_0000_0000_0000,
        decreases n - i,
    {
        proof {
            vstd::arithmetic::power2::lemma2_to64();
            lemma_pow2_adds(i as nat, 1);
            if i + 1 < 57 {
                lemma_pow2_strictly_increases((i + 1) as nat, 57);
            }
        }
        r = r * 2;
        i = i + 1;
    }
    proof {
        if n < 57 {
            lemma_pow2_strictly_increases(n as nat, 57);
        }
    }
    r
}

impl<D: Dialect> SamplerHandle<D> {
    /// The handle for a client.
    pub fn new(client: SamplingClient<D>, cfg: SamplerConfig) -> (r: SamplerHandle<D>)
        ensures
            r.client == client,
            r.cfg == cfg,
    {
        SamplerHandle { client, cfg }
    }

    /// What to do after a request has failed that was tried again `attempt`
    /// times before. An error that may be gone the next time is worth another
    /// try, as long as any is left; no other error is. Once events have come,
    /// a request is not sent again. The wait after more than 58 tries would not
    /// fit in 64 bits.
    pub fn sample(&self, attempt: u32, e: ApiError) -> (r: Retry)
        requires
            retry_after(attempt as nat, e@, self.cfg.max_retries as nat) is Some ==> attempt <= 57,
        ensures
            match retry_after(attempt as nat, e@, self.cfg.max_retries as nat) {
                Some(wait) => r matches Retry::After(millis) && millis == wait,
                None => r matches Retry::Fail(x) && x == e,
            },
    {
        if is_retryable(&e) && attempt < self.cfg.max_retries {
            Retry::After(100 * power_of_two(attempt))
        } else {
            Retry::Fail(e)
        }
    }
}

/// The waits before each further try, where requests fail with the errors one
/// after the other; the last error that is looked at is the one that is given
/// up with.
pub open spec fn waits(errors: Seq<ApiErrorV>, max_retries: nat) -> Seq<nat>
    decreases errors.len(),
{
    if errors.len() == 0 {
        seq![]
    } else {
        let rest = waits(errors.drop_last(), max_retries);
        if rest.len() < errors.len() - 1 {
            rest
        } else {
            match retry_after(rest.len(), errors.last(), max_retries) {
                Some(wait) => rest.push(wait),
                None => rest,
            }
        }
    }
}

/// A request is tried again at most as often as the configuration says, only
/// after errors that may be gone the next time, and each wait is twice the one
/// before.
pub proof fn law_retries_are_bounded(errors: Seq<ApiErrorV>, max_retries: nat)
    ensures
        waits(errors, max_retries).len() <= max_retries,
        waits(errors, max_retries).len() <= errors.len(),
        forall|i: int|
            0 <= i < waits(errors, max_retries).len() ==> transient(#[trigger] errors[i]),
        forall|i: int|
            0 <= i < waits(errors, max_retries).len() ==> #[trigger] waits(errors, max_retries)[i]
                == backoff(i as nat),
        forall|n: nat| #[trigger] backoff(n + 1) == 2 * backoff(n),
    decreases errors.len(),
{
    if errors.len() > 0 {
        law_retries_are_bounded(errors.drop_last(), max_retries);
        let rest = waits(errors.drop_last(), max_retries);
        assert forall|i: int| 0 <= i < waits(errors, max_retries).len() implies transient(
            #[trigger] errors[i],
        ) by {
            if i < rest.len() {
                assert(errors.drop_last()[i] == errors[i]);
            }
        }
    }
    assert forall|n: nat| #[trigger] backoff(n + 1) == 2 * backoff(n) by {
        vstd::arithmetic::power2::lemma2_to64();
        lemma_pow2_adds(n, 1);
    }
}

pub ghost enum WaitedV {
    Item(Result<SamplingEventV, ApiErrorV>),
    Ended,
    TimedOut,
}

/// How a wait for the next event ended.
#[derive(Debug)]
pub enum Waited {
    /// The next event, or an error in its place.
    Item(Result<SamplingEvent, ApiError>),
    /// The stream has ended.
    Ended,
    /// Nothing came in time.
    TimedOut,
}

impl View for Waited {
    type V = WaitedV;

    open spec fn view(&self) -> WaitedV {
        match self {
            Waited::Item(item) => WaitedV::Item(view_res(*item)),
            Waited::Ended => WaitedV::Ended,
            Waited::TimedOut => WaitedV::TimedOut,
        }
    }
}

/// What is handed on of what came, and whether the wait goes on.
pub open spec fn passed_on(waited: WaitedV, idle: u64) -> (
    Option<Result<SamplingEventV, ApiErrorV>>,
    bool,
) {
    match waited {
        WaitedV::Item(item) => (Some(item), true),
        WaitedV::Ended => (None, false),
        WaitedV::TimedOut => (Some(Err(ApiErrorV::IdleTimeout(idle))), false),
    }
}

/// What is handed on after a wait of at most `idle` milliseconds, and whether
/// the stream goes on.
pub fn with_idle_timeout(waited: Waited, idle: u64) -> (r: (
    Option<Result<SamplingEvent, ApiError>>,
    bool,
))
    ensures
        (
            match r.0 {
                Some(item) => Some(view_res(item)),
                None => None,
            },
            r.1,
        ) == passed_on(waited@, idle),
        waited matches Waited::Item(item) ==> r == (Some(item), true),
{
    match waited {
        Waited::Item(item) => (Some(item), true),
        Waited::Ended => (None, false),
        Waited::TimedOut => (Some(Err(ApiError::IdleTimeout(idle))), false),
    }
}

/// A request is tried again only after a rate limit or a failure of the network,
/// and only so often as is allowed; the first wait is a tenth of a second, and
/// each later one twice as long as the one before.
pub proof fn law_only_passing_errors_are_retried(attempt: nat, e: ApiErrorV, max_retries: nat)
    ensures
        retry_after(attempt, e, max_retries) is Some <==> (e is RateLimit || e is Network)
            && attempt < max_retries,
        retry_after(0, ApiErrorV::RateLimit, max_retries) matches Some(wait) ==> wait == 100,
        retry_after(attempt, e, max_retries) matches Some(wait) ==> wait >= 100 && retry_after(
            attempt + 1,
            e,
            max_retries + 1,
        ) == Some(2 * wait),
{
    lemma_pow2_values();
    lemma_pow2_unfold(attempt + 1);
    lemma_pow2_pos(attempt);
}

proof fn lemma_pow2_values()
    ensures
        pow2(0) == 1,
{
    vstd::arithmetic::power2::lemma2_to64();
}

/// As long as only passing errors come, each is followed by another try until
/// there have been as many as are allowed.
pub proof fn law_passing_errors_are_retried(errors: Seq<ApiErrorV>, max_retries: nat)
    requires
        forall|i: int|
            0 <= i < errors.len() ==> ((#[trigger] errors[i]) is RateLimit || errors[i] is Network),
    ensures
        waits(errors, max_retries).len() == (if errors.len() < max_retries {
            errors.len()
        } else {
            max_retries
        }),
    decreases errors.len(),
{
    if errors.len() > 0 {
        let old = errors.drop_last();
        assert forall|i: int| 0 <= i < old.len() implies ((#[trigger] old[i]) is RateLimit || old[i]
            is Network) by {
            assert(old[i] == errors[i]);
        }
        law_passing_errors_are_retried(old, max_retries);
        assert(errors.last() == errors[errors.len() - 1]);
    }
}

/// Events pass through and the wait goes on; the end of the stream ends it; and
/// where nothing comes in time, that is an error with the time, and the end.
pub proof fn law_streams_are_given_up_when_idle(
    item: Result<SamplingEventV, ApiErrorV>,
    idle: u64,
)
    ensures
        passed_on(WaitedV::Item(item), idle) == (Some(item), true),
        passed_on(WaitedV::Ended, idle) == (
            None::<Result<SamplingEventV, ApiErrorV>>,
            false,
        ),
        passed_on(WaitedV::TimedOut, idle) == (
            Some(Err::<SamplingEventV, ApiErrorV>(ApiErrorV::IdleTimeout(idle))),
            false,
        ),
{
}

} // verus!
