//! Interval scheduling of widget refreshes.
//!
//! A [`Schedule`] holds, for every registered widget, its polling interval
//! and the time of its last successful update. The application asks which
//! widgets are due at the current time, runs their updates, and reports each
//! success back with [`Schedule::mark_polled`]; a failed update is simply not
//! reported, so the widget stays due.
//!
//! Times are nanoseconds since an epoch chosen by the caller (an `Instant`
//! taken at start-up); intervals are whole milliseconds.

use vstd::prelude::*;

verus! {

/// Nanoseconds in a millisecond.
pub const NANOS_PER_MILLI: u128 = 1_000_000u128;

/// Bookkeeping for one registered widget.
#[derive(Debug, Clone, Copy, PartialEq, Eq, Structural)]
pub struct PollSlot {
    /// Minimum milliseconds between successive updates.
    pub interval_ms: u64,
    /// Time of the last successful update; `None` before the first.
    pub last_polled: Option<u128>,
}

/// Time from `last` to `now`, zero when `last` is later
/// (`Instant::duration_since`).
pub open spec fn elapsed(now: u128, last: u128) -> int {
    if now >= last {
        now - last
    } else {
        0
    }
}

/// A slot is due when it has never been polled, or when at least its
/// interval has elapsed since its last successful update.
pub open spec fn slot_due(s: PollSlot, now: u128) -> bool {
    match s.last_polled {
        None => true,
        Some(last) => elapsed(now, last) >= s.interval_ms * NANOS_PER_MILLI,
    }
}

/// Interval scheduler over registered widgets, in registration order.
pub struct Schedule {
    slots: Vec<PollSlot>,
}

impl View for Schedule {
    type V = Seq<PollSlot>;

    closed spec fn view(&self) -> Seq<PollSlot> {
        self.slots@
    }
}

impl Schedule {
    /// A schedule with no registered widgets.
    pub fn new() -> (s: Schedule)
        ensures
            s@ == Seq::<PollSlot>::empty(),
    {
        Schedule { slots: Vec::new() }
    }

    /// Number of registered widgets.
    pub fn len(&self) -> (n: usize)
        ensures
            n == self@.len(),
    {
        self.slots.len()
    }

    /// Register a widget polled every `interval_ms` milliseconds; it is due
    /// at once. Returns its slot number.
    pub fn register(&mut self, interval_ms: u64) -> (i: usize)
        ensures
            final(self)@ == old(self)@.push(PollSlot { interval_ms, last_polled: None }),
            i == old(self)@.len(),
    {
        let i = self.slots.len();
        self.slots.push(PollSlot { interval_ms, last_polled: None });
        i
    }

    /// The bookkeeping of slot `i`.
    pub fn slot(&self, i: usize) -> (s: PollSlot)
        requires
            i < self@.len(),
        ensures
            s == self@[i as int],
    {
        self.slots[i]
    }

    /// Whether slot `i` is due at `now`.
    pub fn is_due(&self, i: usize, now: u128) -> (b: bool)
        requires
            i < self@.len(),
        ensures
            b == slot_due(self@[i as int], now),
    {
        let s = self.slots[i];
        match s.last_polled {
            None => true,
            Some(last) => {
                let e: u128 = if now >= last {
                    now - last
                } else {
                    0
                };
                e >= (s.interval_ms as u128) * NANOS_PER_MILLI
            },
        }
    }

    /// The slots due at `now`, in registration order.
    pub fn due_slots(&self, now: u128) -> (r: Vec<usize>)
        ensures
            forall|k: int| 0 <= k < r.len() ==> r@[k] < self@.len() && slot_due(self@[r@[k] as int], now),
            forall|k: int, l: int| 0 <= k < l < r.len() ==> r@[k] < r@[l],
            forall|i: int| 0 <= i < self@.len() && slot_due(#[trigger] self@[i], now) ==> r@.contains(i as usize),
    {
        let mut r: Vec<usize> = Vec::new();
        let mut i: usize = 0;
        while i < self.slots.len()
            invariant
                i <= self@.len(),
                self@ == self.slots@,
                forall|k: int| 0 <= k < r.len() ==> r@[k] < i && slot_due(self@[r@[k] as int], now),
                forall|k: int, l: int| 0 <= k < l < r.len() ==> r@[k] < r@[l],
                forall|j: int| 0 <= j < i && slot_due(#[trigger] self@[j], now) ==> r@.contains(j as usize),
            decreases self@.len() - i,
        {
            let ghost prev = r@;
            if self.is_due(i, now) {
                r.push(i);
                assert forall|j: int| 0 <= j <= i && slot_due(#[trigger] self@[j], now) implies r@.contains(
                    j as usize,
                ) by {
                    if j < i {
                        let k = choose|k: int| 0 <= k < prev.len() && prev[k] == j as usize;
                        assert(r@[k] == j as usize);
                    } else {
                        assert(r@[r.len() - 1] == i);
                    }
                }
            }
            i = i + 1;
        }
        r
    }

    /// Record a successful update of slot `i` at `now`.
    pub fn mark_polled(&mut self, i: usize, now: u128)
        requires
            i < old(self)@.len(),
        ensures
            final(self)@ == old(self)@.update(
                i as int,
                PollSlot { last_polled: Some(now), ..old(self)@[i as int] },
            ),
    {
        let s = self.slots[i];
        self.slots.set(i, PollSlot { last_polled: Some(now), ..s });
    }
}

/// Whether slot `i` is among the polled slots `due` with a successful
/// outcome (`outcomes[k]` is the outcome of updating slot `due[k]`).
pub open spec fn succeeded<D>(due: Seq<usize>, outcomes: Seq<Option<D>>, i: int) -> bool {
    exists|k: int| 0 <= k < due.len() && due[k] == i && (#[trigger] outcomes[k]) is Some
}

/// The successful outcomes paired with their slot numbers, in poll order;
/// failed updates are dropped.
pub open spec fn successes<D>(due: Seq<usize>, outcomes: Seq<Option<D>>) -> Seq<(usize, D)>
    decreases outcomes.len(),
{
    if outcomes.len() == 0 {
        Seq::empty()
    } else {
        let prev = successes(due.drop_last(), outcomes.drop_last());
        match outcomes.last() {
            Some(d) => prev.push((due.last(), d)),
            None => prev,
        }
    }
}

/// The schedule after a poll at `now`: every slot whose update succeeded
/// records `now` as its last update; every other slot is unchanged.
pub open spec fn after_poll<D>(slots: Seq<PollSlot>, due: Seq<usize>, outcomes: Seq<Option<D>>, now: u128) -> Seq<
    PollSlot,
> {
    Seq::new(
        slots.len(),
        |i: int|
            if succeeded(due, outcomes, i) {
                PollSlot { last_polled: Some(now), ..slots[i] }
            } else {
                slots[i]
            },
    )
}

impl Schedule {
    /// Finish a poll at `now`: `outcomes[k]` is what updating slot `due[k]`
    /// gave (`None` for a failed update). Each success is recorded and
    /// returned with its slot number, in poll order; a failure is dropped and
    /// its slot stays as it was, so it is due again.
    pub fn record_outcomes<D>(&mut self, now: u128, due: &Vec<usize>, outcomes: Vec<Option<D>>) -> (r: Vec<
        (usize, D),
    >)
        requires
            due.len() == outcomes.len(),
            forall|k: int| 0 <= k < due.len() ==> due@[k] < old(self)@.len(),
        ensures
            r@ == successes(due@, outcomes@),
            final(self)@ == after_poll(old(self)@, due@, outcomes@, now),
    {
        let ghost orig = outcomes@;
        let ghost start = self@;
        let mut rest = outcomes;
        let mut r: Vec<(usize, D)> = Vec::new();
        let mut k: usize = 0;
        assert(orig.skip(0) =~= orig);
        while k < due.len()
            invariant
                k <= due.len(),
                due.len() == orig.len(),
                forall|j: int| 0 <= j < due.len() ==> due@[j] < start.len(),
                rest@ == orig.skip(k as int),
                r@ == successes(due@.take(k as int), orig.take(k as int)),
                self@.len() == start.len(),
                forall|i: int|
                    0 <= i < start.len() ==> #[trigger] self@[i] == if succeeded(
                        due@.take(k as int),
                        orig.take(k as int),
                        i,
                    ) {
                        PollSlot { last_polled: Some(now), ..start[i] }
                    } else {
                        start[i]
                    },
            decreases due.len() - k,
        {
            let ghost dk = due@.take(k as int);
            let ghost ok = orig.take(k as int);
            let ghost dk1 = due@.take(k + 1);
            let ghost ok1 = orig.take(k + 1);
            assert(dk1.drop_last() =~= dk);
            assert(ok1.drop_last() =~= ok);
            assert(dk1.last() == due@[k as int]);
            assert(ok1.last() == orig[k as int]);
            let item = rest.remove(0);
            assert(rest@ =~= orig.skip(k + 1));
            let slot = due[k];
            assert forall|i: int| #[trigger] succeeded(dk1, ok1, i) <==> (succeeded(dk, ok, i) || (i
                == slot && orig[k as int] is Some)) by {
                if succeeded(dk1, ok1, i) {
                    let w = choose|w: int| 0 <= w < dk1.len() && dk1[w] == i && (#[trigger] ok1[w]) is Some;
                    if w < k {
                        assert(dk[w] == i && ok[w] is Some);
                    }
                }
                if succeeded(dk, ok, i) {
                    let w = choose|w: int| 0 <= w < dk.len() && dk[w] == i && (#[trigger] ok[w]) is Some;
                    assert(dk1[w] == i && ok1[w] is Some);
                }
                if i == slot && orig[k as int] is Some {
                    assert(dk1[k as int] == i && ok1[k as int] is Some);
                }
            }
            match item {
                Some(d) => {
                    self.mark_polled(slot, now);
                    r.push((slot, d));
                },
                None => {},
            }
            k = k + 1;
        }
        assert(due@.take(k as int) =~= due@);
        assert(orig.take(k as int) =~= orig);
        assert(self@ =~= after_poll(start, due@, orig, now));
        r
    }
}

/// After a poll, a widget whose update failed is still due at that time.
pub proof fn lemma_failed_update_stays_due<D>(
    slots: Seq<PollSlot>,
    due: Seq<usize>,
    outcomes: Seq<Option<D>>,
    now: u128,
    i: int,
)
    requires
        0 <= i < slots.len(),
        slot_due(slots[i], now),
        !succeeded(due, outcomes, i),
    ensures
        slot_due(after_poll(slots, due, outcomes, now)[i], now),
{
}

/// A widget is due on the first poll after registration, whatever the time.
pub proof fn lemma_registered_slot_due(s: Schedule, t: Schedule, interval_ms: u64, now: u128)
    requires
        t@ == s@.push(PollSlot { interval_ms, last_polled: None }),
    ensures
        slot_due(t@[s@.len() as int], now),
{
}

/// After a successful update at `t`, a widget is not due again until its
/// interval has elapsed.
pub proof fn lemma_not_due_within_interval(s: PollSlot, t: u128, now: u128)
    requires
        s.last_polled == Some(t),
        t <= now,
        now - t < s.interval_ms * NANOS_PER_MILLI,
    ensures
        !slot_due(s, now),
{
}

/// Once the interval has elapsed since the last successful update, the
/// widget is due.
pub proof fn lemma_due_after_interval(s: PollSlot, t: u128, now: u128)
    requires
        s.last_polled == Some(t),
        now >= t + s.interval_ms * NANOS_PER_MILLI,
    ensures
        slot_due(s, now),
{
}

/// Recording an update of one widget changes no other widget's schedule.
pub proof fn lemma_mark_polled_independent(a: Seq<PollSlot>, i: int, now: u128, j: int)
    requires
        0 <= i < a.len(),
        0 <= j < a.len(),
        i != j,
    ensures
        a.update(i, PollSlot { last_polled: Some(now), ..a[i] })[j] == a[j],
{
}

} // verus!
