//! Retry policy of the client that reads from the upstream services.
//!
//! A fetch is a sequence of attempts. The caller makes each attempt and hands
//! its outcome to [`retry_step`], which answers with the result of the fetch
//! or with the delay to wait before the next attempt.

use rand::Rng;
use vstd::arithmetic::power2::{lemma2_to64, lemma_pow2_strictly_increases, pow2};
use vstd::prelude::*;

use crate::types::{Error, ErrorKind, ErrorView};

verus! {

/// Maximum number of attempts of one fetch.
pub const MAX_ATTEMPTS: u32 = 10;

/// Maximum backoff delay before an attempt, in milliseconds.
pub const MAX_BACKOFF: u64 = 1_000;

/// Strict upper bound of the random part of a backoff delay, in milliseconds.
pub const MAX_JITTER: u64 = 100;

/// Status of a reply that carries the requested resource.
pub const STATUS_OK: u16 = 200;

/// Status of a reply for a resource that does not exist.
pub const STATUS_NOT_FOUND: u16 = 404;

/// Status of a reply from a service that failed.
pub const STATUS_INTERNAL_SERVER_ERROR: u16 = 500;

/* ****************************************** Request ******************************************* */

/// A read request to an upstream service: the endpoint, and the parameters of
/// the query string in their order.
#[derive(Debug, PartialEq, Eq)]
pub struct Request {
    /// Absolute URL of the endpoint.
    pub endpoint: String,
    /// Parameters of the query string: names with their values.
    pub query: Vec<(String, String)>,
}

/// Mathematical value of a [`Request`].
pub struct RequestView {
    pub endpoint: Seq<char>,
    pub query: Seq<(Seq<char>, Seq<char>)>,
}

impl View for Request {
    type V = RequestView;

    open spec fn view(&self) -> RequestView {
        RequestView {
            endpoint: self.endpoint@,
            query: self.query@.map_values(|pair: (String, String)| (pair.0@, pair.1@)),
        }
    }
}

impl Request {
    /// A request to `endpoint` without a query string.
    pub fn new(endpoint: String) -> (request: Request)
        ensures
            request@ == (RequestView { endpoint: endpoint@, query: Seq::empty() }),
    {
        let request = Request { endpoint, query: Vec::new() };
        assert(request@.query =~= Seq::empty());
        request
    }

    /// The request with one more parameter at the end of its query string.
    pub fn parameter(self, name: &str, value: String) -> (request: Request)
        ensures
            request@ == (RequestView {
                endpoint: self@.endpoint,
                query: self@.query.push((name@, value@)),
            }),
    {
        let mut request = self;
        request.query.push((String::from_str(name), value));
        assert(request@.query =~= self@.query.push((name@, value@)));
        request
    }
}

/* ************************************** Classification **************************************** */

/// The error that stands for a reply with the given status, if it is one.
pub open spec fn status_error(status: u16) -> Option<ErrorView> {
    if status == STATUS_OK {
        None
    } else if status == STATUS_NOT_FOUND {
        Some(ErrorView { kind: ErrorKind::Permanent, message: "Resource not found"@ })
    } else if status == STATUS_INTERNAL_SERVER_ERROR {
        Some(ErrorView { kind: ErrorKind::Transient, message: "Internal server error"@ })
    } else {
        Some(ErrorView { kind: ErrorKind::Permanent, message: "Unexpected error"@ })
    }
}

/// Classify the status of a reply.
///
/// - **200 - OK:** `Ok`
/// - **404 - Not Found:** a permanent error
/// - **500 - Internal Server Error:** a transient error
/// - **Everything else:** a permanent error
pub fn check_status(status: u16) -> (checked: Result<(), Error>)
    ensures
        match checked {
            Ok(_) => status_error(status) is None,
            Err(error) => status_error(status) == Some(error@),
        },
{
    if status == STATUS_OK {
        Ok(())
    } else if status == STATUS_NOT_FOUND {
        Err(Error::permanent("Resource not found"))
    } else if status == STATUS_INTERNAL_SERVER_ERROR {
        Err(Error::transient("Internal server error"))
    } else {
        Err(Error::permanent("Unexpected error"))
    }
}

/// Classify what the transport handed back for one request: the status of
/// the reply together with the reply itself, or the message of the failure
/// that kept a reply from arriving.
///
/// A reply with status 200 is passed through. Any other status is the error
/// that [`check_status`] gives for it. A failure of the transport is a
/// permanent error that keeps its message.
pub fn send<R>(reply: Result<(u16, R), String>) -> (checked: Result<R, Error>)
    ensures
        match reply {
            Ok((status, response)) => match status_error(status) {
                None => checked == Ok::<R, Error>(response),
                Some(error) => checked is Err && checked->Err_0@ == error,
            },
            Err(message) => checked is Err && checked->Err_0@ == (ErrorView {
                kind: ErrorKind::Permanent,
                message: message@,
            }),
        },
{
    match reply {
        Ok((status, response)) => match check_status(status) {
            Ok(_) => Ok(response),
            Err(error) => Err(error),
        },
        Err(message) => Err(Error { kind: ErrorKind::Permanent, message }),
    }
}

/// Classify the decoding of a reply's body: a body that did not decode into
/// the expected shape is a permanent failure that keeps the decoder's
/// message.
pub fn decoded<T>(body: Result<T, String>) -> (checked: Result<T, Error>)
    ensures
        match body {
            Ok(value) => checked == Ok::<T, Error>(value),
            Err(message) => checked is Err && checked->Err_0@ == (ErrorView {
                kind: ErrorKind::Permanent,
                message: message@,
            }),
        },
{
    match body {
        Ok(value) => Ok(value),
        Err(message) => Err(Error { kind: ErrorKind::Permanent, message }),
    }
}

/* ****************************************** Backoff ******************************************* */

/// The smaller of two numbers.
pub open spec fn smaller(a: nat, b: nat) -> nat {
    if a <= b {
        a
    } else {
        b
    }
}

/// Delay in milliseconds before attempt number `attempt` of a fetch, counted
/// from 1, for a given jitter: none before the first attempt, and
/// `min(2^(attempt - 1) + jitter, MAX_BACKOFF)` before each later one.
pub open spec fn backoff(attempt: nat, jitter: nat) -> nat {
    if attempt <= 1 {
        0
    } else {
        smaller(pow2((attempt - 1) as nat) + jitter, MAX_BACKOFF as nat)
    }
}

/// The backoff delay before attempt number `attempt` for a given jitter.
pub fn backoff_with_jitter(attempt: u32, jitter: u64) -> (delay: u64)
    ensures
        delay == backoff(attempt as nat, jitter as nat),
{
    if attempt <= 1 {
        return 0;
    }
    let exponent: u32 = attempt - 1;
    proof {
        lemma2_to64();
    }
    if exponent >= 10 {
        proof {
            if exponent > 10 {
                lemma_pow2_strictly_increases(10, exponent as nat);
            }
        }
        return MAX_BACKOFF;
    }
    let mut power: u64 = 1;
    let mut done: u32 = 0;
    while done < exponent
        invariant
            done <= exponent < 10,
            power == pow2(done as nat),
            power <= 512,
        decreases exponent - done,
    {
        proof {
            lemma2_to64();
            if done + 1 < 9 {
                lemma_pow2_strictly_increases((done + 1) as nat, 9);
            }
            vstd::arithmetic::power2::lemma_pow2_unfold((done + 1) as nat);
        }
        power = power * 2;
        done = done + 1;
    }
    if jitter >= MAX_BACKOFF - power {
        MAX_BACKOFF
    } else {
        power + jitter
    }
}

/// A number drawn at random from `low` up to, but not including, `high`.
///
/// This is `Rng::gen_range` of the `rand` crate, called on the generator
/// that `rand::thread_rng` hands out for the current thread. The contract
/// claims only what holds of every draw: the number lies in the range. The
/// range must not be empty, as `gen_range` panics on an empty one. Nothing
/// is claimed for a machine whose source of randomness fails when the
/// generator is first set up: `thread_rng` panics there.
#[verifier::external_body]
fn random_in_range(low: u64, high: u64) -> (drawn: u64)
    requires
        low < high,
    ensures
        low <= drawn < high,
{
    rand::thread_rng().gen_range(low..high)
}

/// Get the delay to wait before attempt number `attempt`, counted from 1.
///
/// The delay grows exponentially with the attempt and carries a random
/// jitter below [`MAX_JITTER`]; it never exceeds [`MAX_BACKOFF`].
pub fn get_backoff(attempt: u32) -> (delay: u64)
    ensures
        exists|jitter: nat|
            jitter < MAX_JITTER && delay == #[trigger] backoff(attempt as nat, jitter),
{
    let jitter = random_in_range(0, MAX_JITTER);
    backoff_with_jitter(attempt, jitter)
}

/// The backoff delay never exceeds [`MAX_BACKOFF`], whatever the attempt and
/// the jitter. Before each attempt from the second to the tenth, with a
/// jitter of at most [`MAX_JITTER`], it lies between `2^(attempt - 1)` and
/// `2^(attempt - 1) + MAX_JITTER`.
pub proof fn lemma_backoff_bounds(attempt: nat, jitter: nat)
    requires
        2 <= attempt,
        jitter <= MAX_JITTER,
    ensures
        backoff(attempt, jitter) <= MAX_BACKOFF,
        backoff(attempt, jitter) <= pow2((attempt - 1) as nat) + MAX_JITTER,
        attempt <= MAX_ATTEMPTS ==> pow2((attempt - 1) as nat) <= backoff(attempt, jitter),
{
    if attempt <= MAX_ATTEMPTS {
        lemma2_to64();
        if attempt < 10 {
            lemma_pow2_strictly_increases((attempt - 1) as nat, 9);
        }
    }
}

/* ******************************************* Retry ******************************************** */

/// What follows one attempt of a fetch.
#[derive(Debug, PartialEq, Eq)]
pub enum Step<T> {
    /// The fetch is over with this result.
    Done(Result<T, Error>),
    /// The attempt failed and the fetch goes on: wait `delay` milliseconds,
    /// then make attempt number `attempt`.
    Retry { attempt: u32, delay: u64 },
}

/// How one attempt ended, as far as the retry policy reads it: `None` for a
/// success, else the kind of the error.
pub open spec fn outcome_kind<T>(outcome: Result<T, Error>) -> Option<ErrorKind> {
    match outcome {
        Ok(_) => None,
        Err(error) => Some(error.kind),
    }
}

/// Whether another attempt follows attempt number `attempt`, counted from 1,
/// that ended as `outcome` says: only a transient failure is retried, and
/// only while fewer than [`MAX_ATTEMPTS`] attempts were made.
pub open spec fn retries(attempt: nat, outcome: Option<ErrorKind>) -> bool {
    outcome == Some(ErrorKind::Transient) && attempt < MAX_ATTEMPTS
}

/// Decide what follows attempt number `attempt`, counted from 1, that ended
/// with `outcome`, for a given jitter.
///
/// A success and a permanent failure end the fetch with that outcome. A
/// transient failure is retried after the backoff delay of the next attempt,
/// unless `attempt` was the last one allowed: then the fetch ends with that
/// failure as it is.
pub fn retry_step_with_jitter<T>(attempt: u32, outcome: Result<T, Error>, jitter: u64) -> (step:
    Step<T>)
    ensures
        retries(attempt as nat, outcome_kind(outcome)) ==> step == (Step::<T>::Retry {
            attempt: (attempt + 1) as u32,
            delay: backoff((attempt + 1) as nat, jitter as nat) as u64,
        }),
        !retries(attempt as nat, outcome_kind(outcome)) ==> step == Step::Done(outcome),
{
    let transient = match &outcome {
        Ok(_) => false,
        Err(error) => match error.kind {
            ErrorKind::Transient => true,
            ErrorKind::Permanent => false,
        },
    };
    if transient && attempt < MAX_ATTEMPTS {
        Step::Retry { attempt: attempt + 1, delay: backoff_with_jitter(attempt + 1, jitter) }
    } else {
        Step::Done(outcome)
    }
}

/// Decide what follows attempt number `attempt`, counted from 1, that ended
/// with `outcome`.
///
/// As [`retry_step_with_jitter`], with a jitter below [`MAX_JITTER`] drawn at
/// random.
pub fn retry_step<T>(attempt: u32, outcome: Result<T, Error>) -> (step: Step<T>)
    ensures
        retries(attempt as nat, outcome_kind(outcome)) ==> exists|jitter: nat|
            jitter < MAX_JITTER && step == (Step::<T>::Retry {
                attempt: (attempt + 1) as u32,
                delay: #[trigger] backoff((attempt + 1) as nat, jitter) as u64,
            }),
        !retries(attempt as nat, outcome_kind(outcome)) ==> step == Step::Done(outcome),
{
    let jitter = random_in_range(0, MAX_JITTER);
    let step = retry_step_with_jitter(attempt, outcome, jitter);
    proof {
        if retries(attempt as nat, outcome_kind(outcome)) {
            assert(step == (Step::<T>::Retry {
                attempt: (attempt + 1) as u32,
                delay: backoff((attempt + 1) as nat, jitter as nat) as u64,
            }));
        }
    }
    step
}

/// The number of the attempt with which a fetch ends that has reached
/// attempt number `attempt`, where `outcomes` gives for each attempt how it
/// ends.
pub open spec fn last_attempt(outcomes: spec_fn(nat) -> Option<ErrorKind>, attempt: nat) -> nat
    decreases MAX_ATTEMPTS - attempt,
{
    if retries(attempt, outcomes(attempt)) {
        last_attempt(outcomes, attempt + 1)
    } else {
        attempt
    }
}

/// The number of attempts that a fetch makes, where `outcomes` gives for each
/// attempt how it ends.
pub open spec fn attempts_made(outcomes: spec_fn(nat) -> Option<ErrorKind>) -> nat {
    last_attempt(outcomes, 1)
}

/// A fetch whose first attempt fails permanently makes exactly one attempt.
pub proof fn lemma_permanent_short_circuits(outcomes: spec_fn(nat) -> Option<ErrorKind>)
    requires
        outcomes(1) == Some(ErrorKind::Permanent),
    ensures
        attempts_made(outcomes) == 1,
{
}

/// A fetch whose attempts all fail transiently makes exactly
/// [`MAX_ATTEMPTS`] attempts, and ends with the failure of the last one.
pub proof fn lemma_transient_exhaustion(outcomes: spec_fn(nat) -> Option<ErrorKind>)
    requires
        forall|attempt: nat| #[trigger] outcomes(attempt) == Some(ErrorKind::Transient),
    ensures
        attempts_made(outcomes) == MAX_ATTEMPTS,
        !retries(attempts_made(outcomes), outcomes(attempts_made(outcomes))),
{
    lemma_last_attempt_of_transient(outcomes, 1);
}

/// A fetch whose attempts all fail transiently goes on from any attempt up to
/// attempt number [`MAX_ATTEMPTS`].
proof fn lemma_last_attempt_of_transient(outcomes: spec_fn(nat) -> Option<ErrorKind>, attempt: nat)
    requires
        forall|attempt: nat| #[trigger] outcomes(attempt) == Some(ErrorKind::Transient),
        attempt <= MAX_ATTEMPTS,
    ensures
        last_attempt(outcomes, attempt) == MAX_ATTEMPTS,
    decreases MAX_ATTEMPTS - attempt,
{
    if attempt < MAX_ATTEMPTS {
        lemma_last_attempt_of_transient(outcomes, attempt + 1);
    }
}

/// A fetch ends at the first attempt that is not retried, and no earlier
/// attempt ends it.
pub proof fn lemma_last_attempt_is_first_final(
    outcomes: spec_fn(nat) -> Option<ErrorKind>,
    attempt: nat,
)
    ensures
        attempt <= last_attempt(outcomes, attempt),
        !retries(last_attempt(outcomes, attempt), outcomes(last_attempt(outcomes, attempt))),
        forall|earlier: nat|
            attempt <= earlier < last_attempt(outcomes, attempt) ==> retries(
                earlier,
                #[trigger] outcomes(earlier),
            ),
    decreases MAX_ATTEMPTS - attempt,
{
    if retries(attempt, outcomes(attempt)) {
        lemma_last_attempt_is_first_final(outcomes, attempt + 1);
    }
}

} // verus!
