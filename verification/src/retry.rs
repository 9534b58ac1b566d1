//! When a failed request is sent again, and what an answer other than success is.

use vstd::arithmetic::power2::{lemma2_to64, lemma_pow2_unfold, pow2};
use vstd::prelude::*;

use crate::client::{ApiError, ApiErrorView};
use crate::text::{
    contains, decimal, format_u64, occurs, opt_text, texts_occur_where_they_are_put,
};

verus! {

/// How often a request is sent again.
pub const MAX_RETRIES: u32 = 3;

/// How many seconds pass before a request is sent again for the first time.
pub const INITIAL_BACKOFF_SECS: u64 = 1;

/// Whether a failure may go away by itself, by what its description says.
pub open spec fn transient(description: Seq<char>, timed_out: bool) -> bool {
    ||| occurs(description, "os error 110"@)
    ||| occurs(description, "Connection timed out"@)
    ||| occurs(description, "connection reset"@)
    ||| timed_out
}

/// Whether a failure may go away by itself. `description` is what the failure says of itself at
/// full length.
pub fn is_transient_error(description: &str, timed_out: bool) -> (r: bool)
    ensures
        r == transient(description@, timed_out),
{
    contains(description, "os error 110") || contains(description, "Connection timed out")
        || contains(description, "connection reset") || timed_out
}

/// How many seconds pass after failure number `attempt`, counted from 0.
pub open spec fn backoff(attempt: nat) -> nat {
    INITIAL_BACKOFF_SECS as nat * pow2(attempt)
}

/// The seconds to wait before a request is sent again that failed and was sent again `attempt`
/// times before, or nothing where the failure stands.
pub open spec fn wait_after(attempt: nat, transient: bool) -> Option<nat> {
    if transient && attempt < MAX_RETRIES {
        Some(backoff(attempt))
    } else {
        None
    }
}

/// Where a request stands that failed and was sent again.
#[derive(Debug)]
pub struct Retry {
    attempt: u32,
}

impl View for Retry {
    type V = nat;

    /// How often the request was sent again.
    closed spec fn view(&self) -> nat {
        self.attempt as nat
    }
}

impl Retry {
    #[verifier::type_invariant]
    spec fn in_bounds(self) -> bool {
        self.attempt <= MAX_RETRIES
    }

    /// A request that is sent for the first time.
    pub fn new() -> (r: Self)
        ensures
            r@ == 0,
    {
        Retry { attempt: 0 }
    }

    /// What to do after a failure: the seconds to wait before the request is sent again, or
    /// nothing where the failure stands.
    pub fn after_failure(&mut self, transient: bool) -> (r: Option<u64>)
        ensures
            match r {
                Some(secs) => {
                    &&& wait_after(old(self)@, transient) == Some(secs as nat)
                    &&& final(self)@ == old(self)@ + 1
                },
                None => {
                    &&& wait_after(old(self)@, transient) is None
                    &&& *final(self) == *old(self)
                },
            },
            final(self)@ <= MAX_RETRIES,
    {
        proof {
            use_type_invariant(&*self);
        }
        if self.attempt >= MAX_RETRIES || !transient {
            return None;
        }
        let mut delay: u64 = INITIAL_BACKOFF_SECS;
        let mut i: u32 = 0;
        proof {
            lemma2_to64();
        }
        while i < self.attempt
            invariant
                i <= self.attempt < MAX_RETRIES,
                delay as nat == backoff(i as nat),
                delay <= 4,
            decreases self.attempt - i,
        {
            proof {
                lemma2_to64();
                lemma_pow2_unfold((i + 1) as nat);
            }
            delay = delay * 2;
            i += 1;
        }
        self.attempt = self.attempt + 1;
        Some(delay)
    }

    /// What the user reads before a request is sent again.
    pub fn notice(&self) -> (r: String)
        ensures
            r@ == "Request failed, retrying ("@ + decimal(self@) + "/"@ + decimal(
                MAX_RETRIES as nat,
            ) + ")..."@,
    {
        "Request failed, retrying (".to_string().concat(
            format_u64(self.attempt as u64).as_str(),
        ).concat("/").concat(format_u64(MAX_RETRIES as u64).as_str()).concat(")...")
    }
}

/// The seconds of each wait in a run of failures, of which `failures` says whether they may go
/// away, after the request was sent again `attempt` times.
pub open spec fn waits(failures: Seq<bool>, attempt: nat) -> Seq<nat>
    decreases failures.len(),
{
    if failures.len() == 0 {
        seq![]
    } else {
        match wait_after(attempt, failures[0]) {
            Some(secs) => seq![secs] + waits(failures.drop_first(), attempt + 1),
            None => seq![],
        }
    }
}

/// The sum of the waits.
pub open spec fn total_wait(waits: Seq<nat>) -> nat
    decreases waits.len(),
{
    if waits.len() == 0 {
        0
    } else {
        waits[0] + total_wait(waits.drop_first())
    }
}

/// However often a request fails, it is sent again three times at most, after waits of one, two
/// and four seconds, and the next failure stands.
pub proof fn retries_are_bounded(failures: Seq<bool>)
    ensures
        waits(failures, 0).len() <= MAX_RETRIES,
        forall|k: int|
            0 <= k < waits(failures, 0).len() ==> #[trigger] waits(failures, 0)[k] == backoff(k as nat),
        total_wait(waits(failures, 0)) <= 7,
        backoff(0) == 1,
        backoff(1) == 2,
        backoff(2) == 4,
{
    lemma2_to64();
    let a = failures.drop_first();
    let b = a.drop_first();
    let c = b.drop_first();
    assert(waits(c, 3) =~= seq![]);
    lemma_wait(b, 2);
    lemma_wait(a, 1);
    lemma_wait(failures, 0);
}

proof fn lemma_wait(failures: Seq<bool>, attempt: nat)
    requires
        attempt < MAX_RETRIES,
    ensures
        waits(failures, attempt).len() == 0 || {
            let rest = waits(failures.drop_first(), attempt + 1);
            &&& waits(failures, attempt) == seq![backoff(attempt)] + rest
            &&& waits(failures, attempt).drop_first() == rest
            &&& total_wait(waits(failures, attempt)) == backoff(attempt) + total_wait(rest)
        },
{
    let all = waits(failures, attempt);
    let rest = waits(failures.drop_first(), attempt + 1);
    if all.len() > 0 {
        assert(all.drop_first() =~= rest);
    }
}

/// A request is sent again after every failure that may go away, up to the limit, and after no
/// other.
pub proof fn only_transient_failures_are_retried(failures: Seq<bool>)
    ensures
        failures.len() > 0 && !failures[0] ==> waits(failures, 0).len() == 0,
        failures.len() >= MAX_RETRIES && (forall|k: int| 0 <= k < MAX_RETRIES ==> failures[k])
            ==> waits(failures, 0).len() == MAX_RETRIES,
{
    if failures.len() >= MAX_RETRIES && (forall|k: int| 0 <= k < MAX_RETRIES ==> failures[k]) {
        let a = failures.drop_first();
        let b = a.drop_first();
        assert(a[0] == failures[1]);
        assert(b[0] == failures[2]);
        assert(waits(b.drop_first(), 3) =~= seq![]);
        assert(waits(b, 2).len() == 1);
        assert(waits(a, 1).len() == 2);
    }
}

/// Whether a status says that a request succeeded.
pub open spec fn success(status: u16) -> bool {
    200 <= status < 300
}

/// Whether a status says that a request succeeded.
pub fn is_success(status: u16) -> (r: bool)
    ensures
        r == success(status),
{
    200 <= status && status < 300
}

/// The text of a status: its number and the reason that goes with it.
pub uninterp spec fn status_display(status: u16) -> Seq<char>;

/// Writes out a `reqwest::StatusCode`, made by its `from_u16`, through its `Display`. Taken on
/// trust: the numbers from 100 to 999 are status codes, and the text depends on the number alone
/// and starts with that number and a space. Which reason follows is not stated.
#[verifier::external_body]
fn status_text(status: u16) -> (r: String)
    requires
        100 <= status <= 999,
    ensures
        r@ == status_display(status),
        (decimal(status as nat) + " "@).is_prefix_of(r@),
{
    reqwest::StatusCode::from_u16(status).unwrap().to_string()
}

/// The error for an answer with a status other than success. `body` is missing where it could
/// not be read. The message that the user reads tells the number of the status and the body.
pub fn http_error(status: u16, body: Option<String>) -> (r: ApiError)
    requires
        100 <= status <= 999,
    ensures
        r@ == (ApiErrorView::Http {
            status: status_display(status),
            body: match opt_text(body) {
                Some(body) => body,
                None => seq![],
            },
        }),
        ("HTTP "@ + decimal(status as nat) + " "@).is_prefix_of(r@.text()),
        body is Some ==> body->0@.is_suffix_of(r@.text()),
{
    let body = match body {
        Some(body) => body,
        None => String::new(),
    };
    let status_line = status_text(status);
    proof {
        let number = decimal(status as nat) + " "@;
        let text = "HTTP "@ + status_line@ + " - "@ + body@;
        let start = "HTTP "@ + decimal(status as nat) + " "@;
        assert(start =~= "HTTP "@ + number);
        assert(start =~= text.subrange(0, start.len() as int));
        assert(body@ =~= text.subrange(text.len() - body@.len(), text.len() as int));
    }
    ApiError::Http { status: status_line, body }
}

/// Decides whether an answer is taken: one with a status other than success is an error, always,
/// and no other is. `body` is missing where it could not be read.
pub fn check_status(status: u16, body: Option<String>) -> (r: Result<(), ApiError>)
    requires
        100 <= status <= 999,
    ensures
        r is Ok <==> success(status),
        r is Err ==> r->Err_0@ == (ApiErrorView::Http {
            status: status_display(status),
            body: match opt_text(body) {
                Some(body) => body,
                None => seq![],
            },
        }),
        r is Err ==> ("HTTP "@ + decimal(status as nat) + " "@).is_prefix_of(r->Err_0@.text()),
{
    if is_success(status) {
        Ok(())
    } else {
        Err(http_error(status, body))
    }
}

/// A failure may go away exactly where it timed out, or where its description has one of three
/// texts somewhere in it, whatever stands around that text.
pub proof fn transient_failures_say_so(a: Seq<char>, b: Seq<char>, description: Seq<char>)
    ensures
        transient(description, true),
        transient(a + "os error 110"@ + b, false),
        transient(a + "Connection timed out"@ + b, false),
        transient(a + "connection reset"@ + b, false),
        transient(description, false) ==> {
            ||| occurs(description, "os error 110"@)
            ||| occurs(description, "Connection timed out"@)
            ||| occurs(description, "connection reset"@)
        },
{
    texts_occur_where_they_are_put(a, "os error 110"@, b);
    texts_occur_where_they_are_put(a, "Connection timed out"@, b);
    texts_occur_where_they_are_put(a, "connection reset"@, b);
}

/// After the first three failures that may go away the request is sent again, after one, two and
/// four seconds; after a fourth one, and after any failure that does not go away, it is not.
pub proof fn each_wait_is_twice_the_one_before(attempt: nat)
    ensures
        wait_after(0, true) == Some(1nat),
        wait_after(1, true) == Some(2nat),
        wait_after(2, true) == Some(4nat),
        attempt >= 3 ==> wait_after(attempt, true) is None,
        wait_after(attempt, false) is None,
        backoff(attempt + 1) == 2 * backoff(attempt),
{
    lemma2_to64();
    lemma_pow2_unfold(attempt + 1);
}

/// An answer is taken exactly where its status is from 200 to 299.
pub proof fn success_is_one_hundred_statuses(status: u16)
    ensures
        success(status) <==> 200 <= status <= 299,
{
}

} // verus!
