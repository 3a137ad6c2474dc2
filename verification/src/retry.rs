//! Bounded-retry fetching with rate-limit polling.
//!
//! The external query service is rate limited and unreliable, so every
//! fetch runs as a loop of at most twenty attempts.  The caller performs
//! the actual waiting, querying and writing; this module holds the
//! verified decision logic: when to stop polling the rate limiter, how
//! many attempts a fetch makes, and which attempt ends the loop.
//!
//! A fetch session is replayed over the sequence of outcomes the caller
//! observed, one per attempt: either the query failed in transport, or
//! the response was written and the write reported a byte count.  A
//! written response normally ends the loop, but a zero-byte ("short")
//! write counts as a failed attempt when the caller asks for that.

use vstd::prelude::*;

verus! {

/// The attempt cap shared by every fetch loop.
pub const MAX_ATTEMPTS: u8 = 20;

/// Decides if we should retry a query or not.
pub fn should_retry(retry: i32) -> (r: bool)
    ensures
        r == (retry < MAX_ATTEMPTS as i32),
{
    retry < 20
}

/// What one fetch attempt came to: a transport failure, or a response
/// that was written with the reported number of bytes.
#[derive(Clone, Copy, PartialEq, Eq, Structural, Debug)]
pub enum AttemptOutcome {
    /// The query service reported a transport or HTTP error.
    TransportError,
    /// The response was persisted; the write reported this many bytes.
    Written(usize),
}

/// How a fetch session ended: success after the given number of
/// attempts (counting the successful one), or giving up after the
/// attempt cap without success.  Giving up is not an error: the caller
/// keeps its previous artifact and the run continues.
#[derive(Clone, Copy, PartialEq, Eq, Structural, Debug)]
pub enum FetchResult {
    /// An attempt succeeded; this is its one-based index.
    Success(u8),
    /// All permitted attempts failed.
    GaveUp,
}

/// Whether one attempt ends the loop as a success.  A transport error
/// never does; a written response does, unless the write was short
/// (zero bytes) and short writes are to be retried.
pub open spec fn attempt_succeeds(o: AttemptOutcome, short_write_fails: bool) -> bool {
    match o {
        AttemptOutcome::TransportError => false,
        AttemptOutcome::Written(n) => n > 0 || !short_write_fails,
    }
}

/// The result of a fetch session over the given outcomes, starting at
/// the given zero-based attempt index: the first qualifying attempt
/// before the cap wins, and exhausting the cap gives up.
pub open spec fn fetch_from(
    outcomes: Seq<AttemptOutcome>,
    short_write_fails: bool,
    attempt: int,
) -> FetchResult
    decreases MAX_ATTEMPTS - attempt,
{
    if attempt < 0 || attempt >= MAX_ATTEMPTS || attempt >= outcomes.len() {
        FetchResult::GaveUp
    } else if attempt_succeeds(outcomes[attempt], short_write_fails) {
        FetchResult::Success((attempt + 1) as u8)
    } else {
        fetch_from(outcomes, short_write_fails, attempt + 1)
    }
}

/// The result of a whole fetch session: attempts start at zero.
pub open spec fn fetch_outcome(outcomes: Seq<AttemptOutcome>, short_write_fails: bool) -> FetchResult {
    fetch_from(outcomes, short_write_fails, 0)
}

/// How many outcomes in the sequence stand for a performed write
/// (every non-transport-error attempt wrote the response out).
pub open spec fn count_writes(outcomes: Seq<AttemptOutcome>) -> nat
    decreases outcomes.len(),
{
    if outcomes.len() == 0 {
        0
    } else {
        count_writes(outcomes.drop_last()) + match outcomes.last() {
            AttemptOutcome::TransportError => 0nat,
            AttemptOutcome::Written(_) => 1nat,
        }
    }
}

/// Replays a fetch session over the outcomes the caller observed, one
/// per attempt, and returns how the bounded-retry loop ends.  The
/// outcome list must cover every attempt the loop can make: either it
/// holds a qualifying outcome, or it is at least as long as the cap.
pub fn run_fetch(outcomes: &Vec<AttemptOutcome>, short_write_fails: bool) -> (r: FetchResult)
    requires
        outcomes@.len() >= MAX_ATTEMPTS
            || exists|i: int|
                0 <= i < outcomes@.len() && attempt_succeeds(outcomes@[i], short_write_fails),
    ensures
        r == fetch_outcome(outcomes@, short_write_fails),
{
    let mut retry: usize = 0;
    loop
        invariant
            0 <= retry <= MAX_ATTEMPTS,
            retry <= outcomes@.len(),
            outcomes@.len() >= MAX_ATTEMPTS
                || exists|i: int|
                    0 <= i < outcomes@.len() && attempt_succeeds(outcomes@[i], short_write_fails),
            forall|j: int| 0 <= j < retry ==> !attempt_succeeds(outcomes@[j], short_write_fails),
            fetch_outcome(outcomes@, short_write_fails) == fetch_from(
                outcomes@,
                short_write_fails,
                retry as int,
            ),
        decreases MAX_ATTEMPTS - retry,
    {
        if retry >= 20 {
            return FetchResult::GaveUp;
        }
        if retry >= outcomes.len() {
            // Under the precondition a qualifying outcome would have
            // ended the loop already, so the list cannot run out here.
            assert(false);
        }
        let outcome = outcomes[retry];
        retry = retry + 1;
        let succeeded = match outcome {
            AttemptOutcome::TransportError => false,
            AttemptOutcome::Written(n) => n > 0 || !short_write_fails,
        };
        if succeeded {
            return FetchResult::Success(retry as u8);
        }
    }
}

/// Law: a service that fails transport on the first `n - 1` attempts
/// and succeeds on attempt `n` (with `n` at most the cap) makes the
/// loop end in success after exactly `n` attempts, and exactly one
/// write happens over those attempts.
pub proof fn lemma_retry_first_success(
    outcomes: Seq<AttemptOutcome>,
    short_write_fails: bool,
    n: int,
)
    requires
        1 <= n <= MAX_ATTEMPTS,
        n <= outcomes.len(),
        forall|i: int| 0 <= i < n - 1 ==> outcomes[i] == AttemptOutcome::TransportError,
        attempt_succeeds(outcomes[n - 1], short_write_fails),
    ensures
        fetch_outcome(outcomes, short_write_fails) == FetchResult::Success(n as u8),
        count_writes(outcomes.take(n)) == 1,
{
    assert forall|a: int| 0 <= a <= n - 1 implies fetch_from(outcomes, short_write_fails, a)
        == FetchResult::Success(n as u8) by {
        lemma_fetch_from_reaches(outcomes, short_write_fails, a, n);
    }
    lemma_count_writes_transport_prefix(outcomes.take(n));
}

/// Law: a service that never yields a qualifying outcome within the cap
/// makes the loop give up, and when every attempt fails in transport,
/// nothing is ever written.  Giving up is an ordinary result, not an
/// error.
pub proof fn lemma_retry_exhaustion(outcomes: Seq<AttemptOutcome>, short_write_fails: bool)
    requires
        outcomes.len() >= MAX_ATTEMPTS,
        forall|i: int|
            0 <= i < MAX_ATTEMPTS ==> !attempt_succeeds(outcomes[i], short_write_fails),
    ensures
        fetch_outcome(outcomes, short_write_fails) == FetchResult::GaveUp,
        (forall|i: int|
            0 <= i < MAX_ATTEMPTS ==> outcomes[i] == AttemptOutcome::TransportError)
            ==> count_writes(outcomes.take(MAX_ATTEMPTS as int)) == 0,
{
    assert forall|a: int| 0 <= a <= MAX_ATTEMPTS implies fetch_from(outcomes, short_write_fails, a)
        == FetchResult::GaveUp by {
        lemma_fetch_from_exhausts(outcomes, short_write_fails, a);
    }
    if forall|i: int| 0 <= i < MAX_ATTEMPTS ==> outcomes[i] == AttemptOutcome::TransportError {
        lemma_count_writes_transport_prefix_all(outcomes.take(MAX_ATTEMPTS as int));
    }
}

/// A session whose attempts before `n` all fail ends exactly as its
/// suffix starting at `a` does, for any `a` up to `n - 1`.
proof fn lemma_fetch_from_reaches(
    outcomes: Seq<AttemptOutcome>,
    short_write_fails: bool,
    a: int,
    n: int,
)
    requires
        1 <= n <= MAX_ATTEMPTS,
        n <= outcomes.len(),
        0 <= a <= n - 1,
        forall|i: int| 0 <= i < n - 1 ==> !attempt_succeeds(outcomes[i], short_write_fails),
        attempt_succeeds(outcomes[n - 1], short_write_fails),
    ensures
        fetch_from(outcomes, short_write_fails, a) == FetchResult::Success(n as u8),
    decreases n - a,
{
    if a < n - 1 {
        lemma_fetch_from_reaches(outcomes, short_write_fails, a + 1, n);
    }
}

/// A session with no qualifying attempt below the cap gives up from any
/// starting point.
proof fn lemma_fetch_from_exhausts(outcomes: Seq<AttemptOutcome>, short_write_fails: bool, a: int)
    requires
        0 <= a <= MAX_ATTEMPTS,
        forall|i: int|
            0 <= i < MAX_ATTEMPTS ==> !attempt_succeeds(outcomes[i], short_write_fails),
    ensures
        fetch_from(outcomes, short_write_fails, a) == FetchResult::GaveUp,
    decreases MAX_ATTEMPTS - a,
{
    if a < MAX_ATTEMPTS {
        lemma_fetch_from_exhausts(outcomes, short_write_fails, a + 1);
    }
}

/// A sequence of transport errors followed by one final written
/// response holds exactly one write.
proof fn lemma_count_writes_transport_prefix(outcomes: Seq<AttemptOutcome>)
    requires
        outcomes.len() >= 1,
        forall|i: int|
            0 <= i < outcomes.len() - 1 ==> outcomes[i] == AttemptOutcome::TransportError,
        outcomes.last() is Written,
    ensures
        count_writes(outcomes) == 1,
    decreases outcomes.len(),
{
    lemma_count_writes_transport_prefix_all(outcomes.drop_last());
}

/// A sequence of transport errors alone holds no write.
proof fn lemma_count_writes_transport_prefix_all(outcomes: Seq<AttemptOutcome>)
    requires
        forall|i: int| 0 <= i < outcomes.len() ==> outcomes[i] == AttemptOutcome::TransportError,
    ensures
        count_writes(outcomes) == 0,
    decreases outcomes.len(),
{
    if outcomes.len() > 0 {
        lemma_count_writes_transport_prefix_all(outcomes.drop_last());
    }
}

/// Blocks until the rate limiter reports that no wait is required.
///
/// The limiter is polled repeatedly because the required wait can
/// change while sleeping; the caller performs the sleeps and hands in
/// the successive readings it observed.  Returns how many readings
/// were consumed before the first zero, which is the number of sleeps
/// the loop performed.
pub fn overpass_sleep(readings: &Vec<u32>) -> (polls: usize)
    requires
        exists|i: int| 0 <= i < readings@.len() && readings@[i] == 0,
    ensures
        polls < readings@.len(),
        readings@[polls as int] == 0,
        forall|j: int| 0 <= j < polls ==> readings@[j] != 0,
{
    let n = readings.len();
    let mut i: usize = 0;
    loop
        invariant
            n == readings@.len(),
            0 <= i <= n,
            exists|k: int| i <= k < readings@.len() && readings@[k] == 0,
            forall|j: int| 0 <= j < i ==> readings@[j] != 0,
        decreases readings@.len() - i,
    {
        let wait = readings[i];
        if wait == 0 {
            return i;
        }
        i = i + 1;
    }
}

} // verus!
