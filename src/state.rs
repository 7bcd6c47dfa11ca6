//! The shared counters of the engine, the Aggregator's handling of outcomes
//! and the Dispatcher's admission decision.
use vstd::prelude::*;

verus! {

/// The result of one send attempt.
#[derive(Clone, Copy, Debug, PartialEq, Eq, Structural)]
pub enum Outcome {
    /// The peer answered with some HTTP response.
    Accepted,
    /// The send failed for a reason other than local resource exhaustion.
    TransientFailure,
    /// The send failed because no further connection could be opened locally.
    ResourceExhausted,
    /// The stop condition was met: the whole engine should end.
    TargetSatisfied,
}

/// What the Aggregator decides after handling one outcome.
#[derive(Clone, Copy, Debug, PartialEq, Eq, Structural)]
pub enum Verdict {
    /// Go on dispatching.
    KeepRunning,
    /// Print the final summary and end the engine.
    Finish,
}

/// One thing that happens to the counters: an admission attempt by the
/// Dispatcher, or an outcome handled by the Aggregator.
#[derive(Clone, Copy, Debug, PartialEq, Eq, Structural)]
pub enum Event {
    /// The Dispatcher checks the ceiling and launches a task if it may.
    Admit,
    /// The Aggregator handles an outcome.
    Deliver(Outcome),
}

/// The counters as mathematical integers, with the number of tasks ever
/// admitted and ever released.
pub struct Tally {
    pub in_flight: int,
    pub limit: int,
    pub success: int,
    pub errors: int,
    pub spawned: int,
    pub released: int,
}

/// The outcome ends its task and frees its admission slot.
pub open spec fn releases(o: Outcome) -> bool {
    o == Outcome::TransientFailure || o == Outcome::ResourceExhausted
}

/// One more, unless the counter already stands at the largest `u64`.
pub open spec fn bumped(n: int) -> int {
    if n < u64::MAX {
        n + 1
    } else {
        n
    }
}

/// The counters before anything happened, under the initial ceiling `limit`.
pub open spec fn fresh(limit: int) -> Tally {
    Tally { in_flight: 0, limit, success: 0, errors: 0, spawned: 0, released: 0 }
}

/// The Dispatcher may launch one more task: the count in flight stays one
/// below the ceiling even after the launch.
pub open spec fn admits(t: Tally) -> bool {
    t.in_flight < t.limit - 1
}

/// The counters after the Aggregator handled `o`.
pub open spec fn absorbed(t: Tally, o: Outcome) -> Tally {
    match o {
        Outcome::Accepted => Tally { success: bumped(t.success), ..t },
        Outcome::TransientFailure => Tally {
            in_flight: t.in_flight - 1,
            errors: bumped(t.errors),
            released: t.released + 1,
            ..t
        },
        Outcome::ResourceExhausted => Tally {
            in_flight: t.in_flight - 1,
            limit: t.limit - 1,
            released: t.released + 1,
            ..t
        },
        Outcome::TargetSatisfied => Tally { success: bumped(t.success), ..t },
    }
}

/// The Aggregator ends the engine on `TargetSatisfied` alone.
pub open spec fn verdict_of(o: Outcome) -> Verdict {
    if o == Outcome::TargetSatisfied {
        Verdict::Finish
    } else {
        Verdict::KeepRunning
    }
}

/// The counters after one event.
pub open spec fn step(t: Tally, e: Event) -> Tally {
    match e {
        Event::Admit => if admits(t) {
            Tally { in_flight: t.in_flight + 1, spawned: t.spawned + 1, ..t }
        } else {
            t
        },
        Event::Deliver(o) => absorbed(t, o),
    }
}

/// The counters after a run of events, in order.
pub open spec fn run(t: Tally, es: Seq<Event>) -> Tally
    decreases es.len(),
{
    if es.len() == 0 {
        t
    } else {
        step(run(t, es.drop_last()), es.last())
    }
}

/// The event can happen in state `t`: an outcome that frees a slot comes
/// from a task that is in flight.
pub open spec fn may_happen(t: Tally, e: Event) -> bool {
    match e {
        Event::Deliver(o) => releases(o) ==> t.in_flight > 0,
        Event::Admit => true,
    }
}

/// Every event of the run can happen where it stands.
pub open spec fn well_ordered(t: Tally, es: Seq<Event>) -> bool
    decreases es.len(),
{
    es.len() == 0 || (well_ordered(t, es.drop_last()) && may_happen(
        run(t, es.drop_last()),
        es.last(),
    ))
}

/// What holds of the counters at every moment: the tasks in flight are
/// those admitted and not yet released, never fewer than none, and while
/// any is in flight there are fewer of them than the ceiling.
pub open spec fn consistent(t: Tally) -> bool {
    &&& t.in_flight == t.spawned - t.released
    &&& t.in_flight >= 0
    &&& t.in_flight > 0 ==> t.in_flight < t.limit
}

/// The engine's shared counters: tasks in flight, the admission ceiling,
/// the responses received and the failed sends. The ghost fields count the
/// tasks ever admitted and ever released.
pub struct SharedState {
    in_flight: u64,
    limit: i64,
    success_count: u64,
    error_count: u64,
    spawned: Ghost<nat>,
    released: Ghost<nat>,
}

impl View for SharedState {
    type V = Tally;

    closed spec fn view(&self) -> Tally {
        Tally {
            in_flight: self.in_flight as int,
            limit: self.limit as int,
            success: self.success_count as int,
            errors: self.error_count as int,
            spawned: self.spawned@ as int,
            released: self.released@ as int,
        }
    }
}

/// The ceiling used where none is configured.
pub const DEFAULT_LIMIT: i64 = 17266166315252;

/// The number of `ResourceExhausted` outcomes delivered in a run.
pub open spec fn exhaustions(es: Seq<Event>) -> int
    decreases es.len(),
{
    if es.len() == 0 {
        0
    } else {
        exhaustions(es.drop_last()) + if es.last() == Event::Deliver(Outcome::ResourceExhausted) {
            1int
        } else {
            0int
        }
    }
}

/// The number of admission attempts in a run.
pub open spec fn admissions(es: Seq<Event>) -> int
    decreases es.len(),
{
    if es.len() == 0 {
        0
    } else {
        admissions(es.drop_last()) + if es.last() == Event::Admit {
            1int
        } else {
            0int
        }
    }
}

/// The number of `Accepted` outcomes delivered in a run.
pub open spec fn acceptances(es: Seq<Event>) -> int
    decreases es.len(),
{
    if es.len() == 0 {
        0
    } else {
        acceptances(es.drop_last()) + if es.last() == Event::Deliver(Outcome::Accepted) {
            1int
        } else {
            0int
        }
    }
}

/// The smaller of two integers.
pub open spec fn min_of(a: int, b: int) -> int {
    if a < b {
        a
    } else {
        b
    }
}

/// The larger of two integers.
pub open spec fn max_of(a: int, b: int) -> int {
    if a < b {
        b
    } else {
        a
    }
}

/// In any run, from any state, the ceiling falls by exactly the number of
/// `ResourceExhausted` outcomes handled, and by nothing else.
pub proof fn lemma_limit_counts_exhaustion(t: Tally, es: Seq<Event>)
    ensures
        run(t, es).limit == t.limit - exhaustions(es),
    decreases es.len(),
{
    if es.len() > 0 {
        lemma_limit_counts_exhaustion(t, es.drop_last());
    }
}

/// Against a server that answers every request, where the run holds only
/// admissions and `Accepted` outcomes: the ceiling stays where it started,
/// no error is counted, every response is, and the tasks in flight are the
/// admissions made, up to one below the ceiling, where they stay.
pub proof fn lemma_always_answered(limit: int, es: Seq<Event>)
    requires
        limit >= 1,
        forall|i: int|
            0 <= i < es.len() ==> #[trigger] es[i] == Event::Admit || es[i] == Event::Deliver(
                Outcome::Accepted,
            ),
    ensures
        run(fresh(limit), es).limit == limit,
        run(fresh(limit), es).errors == 0,
        run(fresh(limit), es).success == min_of(acceptances(es), u64::MAX as int),
        run(fresh(limit), es).in_flight == min_of(admissions(es), limit - 1),
    decreases es.len(),
{
    if es.len() > 0 {
        let init = es.drop_last();
        assert forall|i: int|
            0 <= i < init.len() implies #[trigger] init[i] == Event::Admit || init[i]
            == Event::Deliver(Outcome::Accepted) by {
            assert(init[i] == es[i]);
        }
        assert(es.last() == es[es.len() - 1]);
        lemma_always_answered(limit, init);
    }
}

/// One polling round against a server that fails every send for want of
/// sockets: the Dispatcher admits a task if it may, and that task reports
/// `ResourceExhausted`.
pub open spec fn exhausting_round(t: Tally) -> Tally {
    if admits(t) {
        step(step(t, Event::Admit), Event::Deliver(Outcome::ResourceExhausted))
    } else {
        t
    }
}

/// `n` such rounds, one after another.
pub open spec fn exhausting_rounds(t: Tally, n: nat) -> Tally
    decreases n,
{
    if n == 0 {
        t
    } else {
        exhausting_round(exhausting_rounds(t, (n - 1) as nat))
    }
}

/// Against a server that fails every send for want of sockets, each round
/// lowers the ceiling by one until it stands at one; after as many rounds
/// as the ceiling was above one, nothing is in flight and nothing is ever
/// admitted again.
pub proof fn lemma_exhaustion_drains_limit(t: Tally, n: nat)
    requires
        consistent(t),
        t.in_flight == 0,
        t.limit >= 1,
    ensures
        consistent(exhausting_rounds(t, n)),
        exhausting_rounds(t, n).in_flight == 0,
        exhausting_rounds(t, n).limit == max_of(t.limit - n, 1),
        n >= t.limit - 1 ==> exhausting_rounds(t, n).limit == 1 && !admits(
            exhausting_rounds(t, n),
        ),
    decreases n,
{
    if n > 0 {
        lemma_exhaustion_drains_limit(t, (n - 1) as nat);
    }
}

/// No run of events, from any state, raises the ceiling.
pub proof fn lemma_limit_never_rises(t: Tally, es: Seq<Event>)
    ensures
        run(t, es).limit <= t.limit,
    decreases es.len(),
{
    if es.len() > 0 {
        lemma_limit_never_rises(t, es.drop_last());
    }
}

/// Every run that can happen keeps the counters consistent.
pub proof fn lemma_run_consistent(t: Tally, es: Seq<Event>)
    requires
        consistent(t),
        well_ordered(t, es),
    ensures
        consistent(run(t, es)),
    decreases es.len(),
{
    if es.len() > 0 {
        lemma_run_consistent(t, es.drop_last());
    }
}

/// From a fresh start, the tasks in flight are at every moment those
/// admitted less those released, and never fewer than none.
pub proof fn lemma_in_flight_accounting(limit: int, es: Seq<Event>)
    requires
        well_ordered(fresh(limit), es),
    ensures
        run(fresh(limit), es).in_flight == run(fresh(limit), es).spawned - run(
            fresh(limit),
            es,
        ).released,
        run(fresh(limit), es).in_flight >= 0,
{
    lemma_run_consistent(fresh(limit), es);
}

/// From a fresh start, whenever the ceiling is at least one, at most one
/// less than the ceiling are in flight.
pub proof fn lemma_in_flight_below_limit(limit: int, es: Seq<Event>)
    requires
        well_ordered(fresh(limit), es),
        run(fresh(limit), es).limit >= 1,
    ensures
        run(fresh(limit), es).in_flight <= run(fresh(limit), es).limit - 1,
{
    lemma_run_consistent(fresh(limit), es);
}

/// Once the ceiling has fallen to one or below, nothing is in flight and no
/// task is ever admitted again.
pub proof fn lemma_exhausted_admits_nothing(t: Tally, es: Seq<Event>)
    requires
        consistent(t),
        t.limit <= 1,
        well_ordered(t, es),
    ensures
        run(t, es).in_flight == 0,
        run(t, es).spawned == t.spawned,
        run(t, es).limit <= 1,
        !admits(run(t, es)),
    decreases es.len(),
{
    if es.len() > 0 {
        lemma_exhausted_admits_nothing(t, es.drop_last());
    }
}

impl Outcome {
    /// The outcome ends its task and frees its admission slot.
    pub fn frees_slot(&self) -> (r: bool)
        ensures
            r == releases(*self),
    {
        match self {
            Outcome::TransientFailure | Outcome::ResourceExhausted => true,
            _ => false,
        }
    }
}

impl SharedState {
    pub open spec fn wf(&self) -> bool {
        consistent(self@)
    }

    /// The number of tasks in flight.
    pub fn in_flight(&self) -> (r: u64)
        ensures
            r as int == self@.in_flight,
    {
        self.in_flight
    }

    /// The admission ceiling.
    pub fn limit(&self) -> (r: i64)
        ensures
            r as int == self@.limit,
    {
        self.limit
    }

    /// The responses received.
    pub fn success_count(&self) -> (r: u64)
        ensures
            r as int == self@.success,
    {
        self.success_count
    }

    /// The failed sends that were not resource exhaustion.
    pub fn error_count(&self) -> (r: u64)
        ensures
            r as int == self@.errors,
    {
        self.error_count
    }

    /// Counters at zero under the ceiling `limit`.
    pub fn new(limit: i64) -> (s: Self)
        ensures
            s.wf(),
            s@ == fresh(limit as int),
    {
        SharedState {
            in_flight: 0,
            limit,
            success_count: 0,
            error_count: 0,
            spawned: Ghost(0),
            released: Ghost(0),
        }
    }

    /// The Dispatcher's admission: where the ceiling leaves room, count one
    /// more task in flight and answer `true`; the caller then launches it.
    pub fn try_admit(&mut self) -> (admitted: bool)
        requires
            old(self).wf(),
        ensures
            final(self).wf(),
            admitted == admits(old(self)@),
            final(self)@ == step(old(self)@, Event::Admit),
    {
        if (self.in_flight as i128) < (self.limit as i128) - 1 {
            self.in_flight = self.in_flight + 1;
            self.spawned = Ghost(self.spawned@ + 1);
            true
        } else {
            false
        }
    }

    /// The Aggregator's handling of one outcome; `Finish` asks the engine to
    /// end.
    pub fn absorb(&mut self, o: Outcome) -> (v: Verdict)
        requires
            old(self).wf(),
            releases(o) ==> old(self)@.in_flight > 0,
        ensures
            final(self).wf(),
            final(self)@ == step(old(self)@, Event::Deliver(o)),
            v == verdict_of(o),
    {
        match o {
            Outcome::Accepted => {
                self.success_count = self.success_count.saturating_add(1);
                Verdict::KeepRunning
            },
            Outcome::TransientFailure => {
                self.in_flight = self.in_flight - 1;
                self.error_count = self.error_count.saturating_add(1);
                self.released = Ghost(self.released@ + 1);
                Verdict::KeepRunning
            },
            Outcome::ResourceExhausted => {
                self.in_flight = self.in_flight - 1;
                self.limit = self.limit - 1;
                self.released = Ghost(self.released@ + 1);
                Verdict::KeepRunning
            },
            Outcome::TargetSatisfied => {
                self.success_count = self.success_count.saturating_add(1);
                Verdict::Finish
            },
        }
    }
}

} // verus!
