//! Per-device schedule engine.
//!
//! A `Scheduler` owns one schedule request and walks its intervals in order:
//! `Waiting(i)` until interval `i` is due or a cancellation signal arrives,
//! then a dispatch decision for `i` (`on_due`), with one bounded grace retry
//! (`TokenRetry(i)`, then `on_token_retry`) when the device has no push token
//! yet. The surrounding process performs the actual waits, the race against
//! the cancellation signal and the delivery calls, and feeds the outcomes
//! back in; every decision lives here.
//!
//! `SchedulerModel`, `step` and `run` describe the same machine abstractly;
//! each executable transition is proved to follow `step`, and the laws at the
//! bottom are proved over `run`.
use vstd::prelude::*;
use crate::models::TimerInterval;

verus! {

/// Seconds the scheduler still waits when an interval's due time is already
/// reached or past, so the delivery gateway never sees a zero-delay push.
pub const WAIT_FLOOR_SECS: u64 = 1;

/// Seconds of grace before the single re-check for a missing push token.
pub const TOKEN_GRACE_SECS: u64 = 4;

/// Where a schedule stands. `Waiting { next }` and `TokenRetry { current }`
/// name the interval the schedule is about to dispatch; `Completed` and
/// `Cancelled` are terminal.
#[derive(Clone, Copy, Debug, PartialEq, Eq, Structural)]
pub enum Phase {
    Waiting { next: usize },
    TokenRetry { current: usize },
    Completed,
    Cancelled,
}

/// What the schedule observes at a wait boundary: the wait elapsed (and
/// whether a push token was present at dispatch time), or the cancellation
/// signal won the race.
#[derive(Clone, Copy, Debug, PartialEq, Eq, Structural)]
pub enum SchedulerEvent {
    Due { token_present: bool },
    Cancelled,
}

/// A dispatch decision: deliver to `push_token` for the interval at `index`.
pub struct DeliveryCommand {
    pub push_token: String,
    pub index: usize,
}

/// Abstract state of one schedule: its phase and the indices of the
/// intervals dispatched so far, in dispatch order.
pub struct SchedulerModel {
    pub phase: Phase,
    pub delivered: Seq<int>,
}

/// The phase after interval `i` of `n` has been dealt with.
pub open spec fn advance_phase(i: int, n: int) -> Phase {
    if i + 1 < n {
        Phase::Waiting { next: (i + 1) as usize }
    } else {
        Phase::Completed
    }
}

/// One abstract transition of the schedule machine on one observed event.
pub open spec fn step(m: SchedulerModel, n: int, e: SchedulerEvent) -> SchedulerModel {
    match m.phase {
        Phase::Waiting { next } => match e {
            SchedulerEvent::Cancelled => SchedulerModel {
                phase: Phase::Cancelled,
                delivered: m.delivered,
            },
            SchedulerEvent::Due { token_present } => if token_present {
                SchedulerModel {
                    phase: advance_phase(next as int, n),
                    delivered: m.delivered.push(next as int),
                }
            } else {
                SchedulerModel { phase: Phase::TokenRetry { current: next }, delivered: m.delivered }
            },
        },
        Phase::TokenRetry { current } => match e {
            SchedulerEvent::Due { token_present } => if token_present {
                SchedulerModel {
                    phase: advance_phase(current as int, n),
                    delivered: m.delivered.push(current as int),
                }
            } else {
                SchedulerModel { phase: advance_phase(current as int, n), delivered: m.delivered }
            },
            SchedulerEvent::Cancelled => m,
        },
        _ => m,
    }
}

/// The abstract machine folded over a whole sequence of observed events.
pub open spec fn run(m: SchedulerModel, n: int, events: Seq<SchedulerEvent>) -> SchedulerModel
    decreases events.len(),
{
    if events.len() == 0 {
        m
    } else {
        run(step(m, n, events[0]), n, events.drop_first())
    }
}

/// The first interval the schedule could still dispatch; `n` once no
/// dispatch can happen any more.
pub open spec fn position(m: SchedulerModel, n: int) -> int {
    match m.phase {
        Phase::Waiting { next } => next as int,
        Phase::TokenRetry { current } => current as int,
        Phase::Completed => n,
        Phase::Cancelled => n,
    }
}

/// Validity of an abstract state for a schedule of `n` intervals: the count
/// is one a schedule can actually hold, the phase points inside the
/// schedule, and every dispatch so far lies before the current position.
pub open spec fn model_wf(m: SchedulerModel, n: int) -> bool {
    &&& 0 <= n <= usize::MAX
    &&& match m.phase {
        Phase::Waiting { next } => next < n,
        Phase::TokenRetry { current } => current < n,
        _ => true,
    }
    &&& forall|j: int| 0 <= j < m.delivered.len() ==> 0 <= #[trigger] m.delivered[j] < position(m, n)
}

/// The wait before dispatching an interval due at `starts_at`, seen at time
/// `now` (both in epoch seconds): the remaining time, or the non-zero floor
/// once the due time is already reached.
pub open spec fn spec_wait_seconds(starts_at: u64, now: u64) -> u64 {
    if starts_at <= now {
        WAIT_FLOOR_SECS
    } else {
        (starts_at - now) as u64
    }
}

/// One device's schedule: the request it consumed, the cancellation handle
/// it registered under, and where it stands.
pub struct Scheduler {
    pub device_id: String,
    pub intervals: Vec<TimerInterval>,
    pub segment_count: u32,
    pub handle: u64,
    pub phase: Phase,
    pub delivered: Ghost<Seq<int>>,
}

impl Scheduler {
    /// Number of intervals in the schedule.
    pub open spec fn n(self) -> int {
        self.intervals@.len() as int
    }

    /// The abstract state this schedule is in.
    pub open spec fn model(self) -> SchedulerModel {
        SchedulerModel { phase: self.phase, delivered: self.delivered@ }
    }

    pub open spec fn wf(self) -> bool {
        model_wf(self.model(), self.n())
    }

    /// The request data (everything but the phase and the dispatch record)
    /// is the same in both states.
    pub open spec fn same_request(self, other: Scheduler) -> bool {
        &&& self.device_id == other.device_id
        &&& self.intervals == other.intervals
        &&& self.segment_count == other.segment_count
        &&& self.handle == other.handle
    }

    /// A fresh schedule for one request, about to wait for its first
    /// interval (or already complete when the request has none).
    pub fn new(device_id: String, intervals: Vec<TimerInterval>, segment_count: u32, handle: u64) -> (s:
        Scheduler)
        ensures
            s.wf(),
            s.device_id == device_id,
            s.intervals == intervals,
            s.segment_count == segment_count,
            s.handle == handle,
            s.delivered@ == Seq::<int>::empty(),
            intervals@.len() == 0 ==> s.phase == Phase::Completed,
            intervals@.len() > 0 ==> s.phase == (Phase::Waiting { next: 0 }),
    {
        let phase = if intervals.len() == 0 {
            Phase::Completed
        } else {
            Phase::Waiting { next: 0 }
        };
        Scheduler {
            device_id,
            intervals,
            segment_count,
            handle,
            phase,
            delivered: Ghost(Seq::empty()),
        }
    }

    /// How long to wait before the next dispatch, seen at time `now`:
    /// `Some(w)` while an interval is pending — never earlier than its due
    /// time, and never a zero wait — and `None` once the schedule has no wait
    /// to perform.
    pub fn wait_seconds(&self, now: u64) -> (r: Option<u64>)
        requires
            self.wf(),
        ensures
            match r {
                Some(w) => self.phase matches Phase::Waiting { next } && w == spec_wait_seconds(
                    self.intervals@[next as int].starts_at,
                    now,
                ) && now + w >= self.intervals@[next as int].starts_at && w >= 1,
                None => !(self.phase is Waiting),
            },
    {
        match self.phase {
            Phase::Waiting { next } => {
                let starts_at = self.intervals[next].starts_at;
                if starts_at <= now {
                    Some(WAIT_FLOOR_SECS)
                } else {
                    Some(starts_at - now)
                }
            },
            _ => None,
        }
    }

    /// The cancellation signal won the race while waiting: the schedule ends
    /// here, abandoning every remaining interval.
    pub fn on_cancelled(&mut self)
        requires
            old(self).phase is Waiting,
        ensures
            old(self).same_request(*final(self)),
            final(self).phase == Phase::Cancelled,
            final(self).delivered@ == old(self).delivered@,
            final(self).model() == step(old(self).model(), old(self).n(), SchedulerEvent::Cancelled),
    {
        self.phase = Phase::Cancelled;
    }

    /// The wait for the next interval elapsed uncancelled, and the registry
    /// lookup found `token_lookup`. With a token present the interval is
    /// dispatched to exactly that token and the schedule moves on; with none
    /// the schedule enters the bounded grace retry for the same interval.
    pub fn on_due(&mut self, token_lookup: Option<String>) -> (r: Option<DeliveryCommand>)
        requires
            old(self).wf(),
            old(self).phase is Waiting,
        ensures
            final(self).wf(),
            old(self).same_request(*final(self)),
            final(self).model() == step(
                old(self).model(),
                old(self).n(),
                SchedulerEvent::Due { token_present: token_lookup is Some },
            ),
            match token_lookup {
                Some(t) => r matches Some(cmd) && cmd.push_token == t && cmd.index == old(
                    self,
                ).phase->next,
                None => r is None,
            },
    {
        match self.phase {
            Phase::Waiting { next } => match token_lookup {
                Some(t) => {
                    self.delivered = Ghost(self.delivered@.push(next as int));
                    self.phase = if next + 1 < self.intervals.len() {
                        Phase::Waiting { next: next + 1 }
                    } else {
                        Phase::Completed
                    };
                    Some(DeliveryCommand { push_token: t, index: next })
                },
                None => {
                    self.phase = Phase::TokenRetry { current: next };
                    None
                },
            },
            _ => {
                proof {
                    assert(false);
                }
                None
            },
        }
    }

    /// The grace wait for a missing token elapsed and the registry was read
    /// once more. With a token now present the interval is dispatched to it;
    /// with none the interval is skipped for good. Either way the schedule
    /// moves on to the next interval.
    pub fn on_token_retry(&mut self, token_lookup: Option<String>) -> (r: Option<DeliveryCommand>)
        requires
            old(self).wf(),
            old(self).phase is TokenRetry,
        ensures
            final(self).wf(),
            old(self).same_request(*final(self)),
            final(self).model() == step(
                old(self).model(),
                old(self).n(),
                SchedulerEvent::Due { token_present: token_lookup is Some },
            ),
            match token_lookup {
                Some(t) => r matches Some(cmd) && cmd.push_token == t && cmd.index == old(
                    self,
                ).phase->current,
                None => r is None,
            },
    {
        match self.phase {
            Phase::TokenRetry { current } => {
                let r = match token_lookup {
                    Some(t) => {
                        self.delivered = Ghost(self.delivered@.push(current as int));
                        Some(DeliveryCommand { push_token: t, index: current })
                    },
                    None => None,
                };
                self.phase = if current + 1 < self.intervals.len() {
                    Phase::Waiting { next: current + 1 }
                } else {
                    Phase::Completed
                };
                r
            },
            _ => {
                proof {
                    assert(false);
                }
                None
            },
        }
    }

    /// True once the schedule will dispatch nothing more.
    pub fn is_finished(&self) -> (r: bool)
        ensures
            r == (self.phase == Phase::Completed || self.phase == Phase::Cancelled),
    {
        match self.phase {
            Phase::Completed => true,
            Phase::Cancelled => true,
            _ => false,
        }
    }
}

/// One abstract step keeps the state valid and never moves the position
/// backwards.
pub proof fn lemma_step_preserves_wf(m: SchedulerModel, n: int, e: SchedulerEvent)
    requires
        model_wf(m, n),
    ensures
        model_wf(step(m, n, e), n),
        position(m, n) <= position(step(m, n, e), n),
{
    let s = step(m, n, e);
    match m.phase {
        Phase::Waiting { next } => {
            if e matches SchedulerEvent::Due { token_present } && token_present {
                assert forall|j: int| 0 <= j < s.delivered.len() implies 0 <= #[trigger] s.delivered[j]
                    < position(s, n) by {
                    if j < m.delivered.len() {
                        assert(s.delivered[j] == m.delivered[j]);
                    } else {
                        assert(s.delivered[j] == next as int);
                    }
                }
            }
        },
        Phase::TokenRetry { current } => {
            if e matches SchedulerEvent::Due { token_present } && token_present {
                assert forall|j: int| 0 <= j < s.delivered.len() implies 0 <= #[trigger] s.delivered[j]
                    < position(s, n) by {
                    if j < m.delivered.len() {
                        assert(s.delivered[j] == m.delivered[j]);
                    } else {
                        assert(s.delivered[j] == current as int);
                    }
                }
            }
        },
        _ => {},
    }
}

/// Once cancelled, a schedule ignores every further event.
pub proof fn lemma_run_after_cancel_is_frozen(m: SchedulerModel, n: int, events: Seq<SchedulerEvent>)
    requires
        m.phase is Cancelled,
    ensures
        run(m, n, events) == m,
    decreases events.len(),
{
    if events.len() > 0 {
        assert(step(m, n, events[0]) == m);
        lemma_run_after_cancel_is_frozen(m, n, events.drop_first());
    }
}

/// Whatever events arrive, a schedule only appends to its dispatch record,
/// and only intervals at or after its current position.
pub proof fn lemma_run_extends_deliveries(m: SchedulerModel, n: int, events: Seq<SchedulerEvent>)
    requires
        model_wf(m, n),
    ensures
        model_wf(run(m, n, events), n),
        position(m, n) <= position(run(m, n, events), n),
        run(m, n, events).delivered.len() >= m.delivered.len(),
        run(m, n, events).delivered.subrange(0, m.delivered.len() as int) == m.delivered,
        forall|j: int|
            m.delivered.len() <= j < run(m, n, events).delivered.len() ==> position(m, n)
                <= #[trigger] run(m, n, events).delivered[j] < n,
    decreases events.len(),
{
    if events.len() == 0 {
        assert(run(m, n, events).delivered.subrange(0, m.delivered.len() as int) =~= m.delivered);
    } else {
        let m1 = step(m, n, events[0]);
        lemma_step_preserves_wf(m, n, events[0]);
        lemma_run_extends_deliveries(m1, n, events.drop_first());
        let after = run(m, n, events);
        assert(after == run(m1, n, events.drop_first()));
        assert(after.delivered.subrange(0, m.delivered.len() as int) =~= m.delivered) by {
            assert(after.delivered.subrange(0, m1.delivered.len() as int) == m1.delivered);
            assert forall|j: int| 0 <= j < m.delivered.len() implies after.delivered[j]
                == m.delivered[j] by {
                assert(after.delivered.subrange(0, m1.delivered.len() as int)[j]
                    == after.delivered[j]);
                assert(m1.delivered[j] == m.delivered[j]);
            }
        }
        assert forall|j: int|
            m.delivered.len() <= j < after.delivered.len() implies position(m, n)
            <= #[trigger] after.delivered[j] < n by {
            if j < m1.delivered.len() {
                assert(after.delivered.subrange(0, m1.delivered.len() as int)[j]
                    == after.delivered[j]);
                assert(after.delivered[j] == m1.delivered[j]);
                assert(m1.delivered[j] == position(m, n));
            } else {
                assert(position(m1, n) <= after.delivered[j] < n);
            }
        }
    }
}

/// With every wait elapsing uncancelled and a push token present at
/// each dispatch, a schedule waiting for its k-th interval dispatches each
/// remaining interval exactly once, in order, and completes.
pub proof fn lemma_uninterrupted_schedule_delivers_every_interval(
    m: SchedulerModel,
    n: int,
    k: usize,
    events: Seq<SchedulerEvent>,
)
    requires
        model_wf(m, n),
        m.phase == (Phase::Waiting { next: k }),
        events.len() == n - k,
        forall|j: int|
            0 <= j < events.len() ==> events[j] == (SchedulerEvent::Due { token_present: true }),
    ensures
        run(m, n, events).phase == Phase::Completed,
        run(m, n, events).delivered == m.delivered + Seq::new((n - k) as nat, |j: int| k + j),
    decreases n - k,
{
    let m1 = step(m, n, events[0]);
    let rest = events.drop_first();
    lemma_step_preserves_wf(m, n, events[0]);
    if k + 1 < n {
        assert forall|j: int| 0 <= j < rest.len() implies rest[j] == (SchedulerEvent::Due {
            token_present: true,
        }) by {
            assert(rest[j] == events[j + 1]);
        }
        lemma_uninterrupted_schedule_delivers_every_interval(m1, n, (k + 1) as usize, rest);
        assert(m.delivered.push(k as int) + Seq::new((n - k - 1) as nat, |j: int| k + 1 + j)
            =~= m.delivered + Seq::new((n - k) as nat, |j: int| k + j));
    } else {
        assert(rest.len() == 0);
        assert(run(m1, n, rest) == m1);
        assert(m.delivered.push(k as int) =~= m.delivered + Seq::new((n - k) as nat, |j: int| k
            + j));
    }
}

/// A cancellation observed while the schedule waits for its k-th
/// interval is final — the dispatch record never changes again, and every
/// dispatch in it is for an interval before k.
pub proof fn lemma_cancellation_stops_schedule(
    m: SchedulerModel,
    n: int,
    k: usize,
    events: Seq<SchedulerEvent>,
)
    requires
        model_wf(m, n),
        m.phase == (Phase::Waiting { next: k }),
    ensures
        run(step(m, n, SchedulerEvent::Cancelled), n, events).delivered == m.delivered,
        forall|j: int| 0 <= j < m.delivered.len() ==> 0 <= #[trigger] m.delivered[j] < k,
{
    lemma_run_after_cancel_is_frozen(step(m, n, SchedulerEvent::Cancelled), n, events);
}

/// A superseded schedule never dispatches again. Installing a second
/// schedule for the same device hands the first schedule's handle back (see
/// `CancellationRegistry::register`) so its signal is sent before the new
/// schedule starts; the first schedule observes that signal at its next wait
/// boundary, ends in `Cancelled`, and its dispatch record is final — from
/// that point only the second schedule's intervals are dispatched.
pub proof fn lemma_superseded_schedule_never_dispatches_again(
    m: SchedulerModel,
    n: int,
    k: usize,
    events: Seq<SchedulerEvent>,
)
    requires
        model_wf(m, n),
        m.phase == (Phase::Waiting { next: k }),
    ensures
        run(step(m, n, SchedulerEvent::Cancelled), n, events) == (SchedulerModel {
            phase: Phase::Cancelled,
            delivered: m.delivered,
        }),
{
    lemma_run_after_cancel_is_frozen(step(m, n, SchedulerEvent::Cancelled), n, events);
}

/// Once the bounded grace retry for an interval has failed, that
/// interval is skipped for good — no later event, a late token registration
/// included, ever makes the schedule dispatch it.
pub proof fn lemma_skipped_interval_never_dispatched(
    m: SchedulerModel,
    n: int,
    events: Seq<SchedulerEvent>,
)
    requires
        model_wf(m, n),
        m.phase is TokenRetry,
    ensures
        forall|j: int|
            0 <= j < run(
                step(m, n, SchedulerEvent::Due { token_present: false }),
                n,
                events,
            ).delivered.len() ==> #[trigger] run(
                step(m, n, SchedulerEvent::Due { token_present: false }),
                n,
                events,
            ).delivered[j] != m.phase->current as int,
{
    let i = m.phase->current as int;
    let m1 = step(m, n, SchedulerEvent::Due { token_present: false });
    lemma_step_preserves_wf(m, n, SchedulerEvent::Due { token_present: false });
    lemma_run_extends_deliveries(m1, n, events);
    let after = run(m1, n, events);
    assert(position(m1, n) == i + 1);
    assert forall|j: int| 0 <= j < after.delivered.len() implies #[trigger] after.delivered[j]
        != i by {
        if j < m1.delivered.len() {
            assert(after.delivered.subrange(0, m1.delivered.len() as int)[j]
                == after.delivered[j]);
            assert(after.delivered[j] == m1.delivered[j]);
            assert(m1.delivered[j] < i);
        } else {
            assert(position(m1, n) <= after.delivered[j]);
        }
    }
}

} // verus!
