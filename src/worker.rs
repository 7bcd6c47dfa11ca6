//! The Worker Task's decisions: which outcomes one send attempt reports,
//! and whether the task goes on sending.
use crate::state::Outcome;
use crate::text::{contains_text, occurs_in};
use vstd::prelude::*;

verus! {

/// What one send attempt came back with.
#[derive(Clone, Debug)]
pub enum Attempt {
    /// The peer answered with this HTTP status code.
    Responded(u16),
    /// The send failed; the text describes why.
    Failed(String),
}

/// A status code in the success class, 200 to 299.
pub open spec fn success_status(code: u16) -> bool {
    200 <= code <= 299
}

/// The text by which a failure reports that no more sockets could be opened.
pub open spec fn exhaustion_marker() -> Seq<char> {
    "socket: too many open files"@
}

/// The outcomes reported for an attempt, in the order they are sent.
pub open spec fn outcomes_for(a: Attempt, stop_on_success: bool) -> Seq<Outcome> {
    match a {
        Attempt::Responded(code) => if stop_on_success && success_status(code) {
            seq![Outcome::Accepted, Outcome::TargetSatisfied]
        } else {
            seq![Outcome::Accepted]
        },
        Attempt::Failed(msg) => if occurs_in(exhaustion_marker(), msg@) {
            seq![Outcome::ResourceExhausted]
        } else {
            seq![Outcome::TransientFailure]
        },
    }
}

/// Whether the code is a success status, as `StatusCode::is_success` of the
/// `http` crate decides it.
pub fn is_success_status(code: u16) -> (r: bool)
    ensures
        r == success_status(code),
{
    200 <= code && code <= 299
}

/// The outcome of a failed send: `ResourceExhausted` where the failure
/// text reports that no more sockets could be opened, otherwise
/// `TransientFailure`.
pub fn classify_failure(message: &str) -> (r: Outcome)
    ensures
        r == (if occurs_in(exhaustion_marker(), message@) {
            Outcome::ResourceExhausted
        } else {
            Outcome::TransientFailure
        }),
{
    if contains_text(message, "socket: too many open files") {
        Outcome::ResourceExhausted
    } else {
        Outcome::TransientFailure
    }
}

/// The outcomes to report for one attempt. Any response is `Accepted`;
/// where the engine stops on success and the status is a success,
/// `TargetSatisfied` follows it.
pub fn outcomes_of_attempt(a: &Attempt, stop_on_success: bool) -> (r: Vec<Outcome>)
    ensures
        r@ == outcomes_for(*a, stop_on_success),
{
    let mut out: Vec<Outcome> = Vec::new();
    match a {
        Attempt::Responded(code) => {
            out.push(Outcome::Accepted);
            if stop_on_success && is_success_status(*code) {
                out.push(Outcome::TargetSatisfied);
            }
        },
        Attempt::Failed(msg) => {
            out.push(classify_failure(msg.as_str()));
        },
    }
    assert(out@ =~= outcomes_for(*a, stop_on_success));
    out
}

/// The task goes on sending after an attempt exactly when all it reported
/// was `Accepted`.
pub open spec fn keeps_sending(os: Seq<Outcome>) -> bool {
    forall|i: int| 0 <= i < os.len() ==> os[i] == Outcome::Accepted
}

/// Whether the task goes on after reporting `outcomes`.
pub fn continues_after(outcomes: &Vec<Outcome>) -> (r: bool)
    ensures
        r == keeps_sending(outcomes@),
{
    let mut i: usize = 0;
    while i < outcomes.len()
        invariant
            i <= outcomes@.len(),
            forall|j: int| 0 <= j < i ==> outcomes@[j] == Outcome::Accepted,
        decreases outcomes@.len() - i,
    {
        if outcomes[i] != Outcome::Accepted {
            return false;
        }
        i = i + 1;
    }
    true
}

} // verus!
