//! Timer queue behind task sleeps.
//!
//! The timer keeps every live sleep and an ordered queue of deadlines. A sleep
//! that finds its deadline passed when it is polled completes at once and may
//! leave its place in the queue behind; the next tick past that deadline drops
//! it without waking anyone.

use vstd::prelude::*;

use super::clock::{Duration, Instant};
use super::runqueue::{entry_before, RunQueue};
use crate::collections::IdTable;
use crate::runtime::extensions::PollState;

verus! {

/// One live sleep.
#[derive(Debug, Clone, Copy, PartialEq, Eq, Structural)]
pub struct SleepEntry {
    pub id: u64,
    pub deadline: Instant,
    /// Whether the queue holds this sleep.
    pub registered: bool,
    pub completed: bool,
    /// Whom to wake.
    pub waker: Option<u64>,
}

impl SleepEntry {
    pub open spec fn key(&self) -> (u128, u64) {
        (self.deadline.nanos, self.id)
    }

    /// A sleep that has not been polled.
    pub fn new(id: u64, deadline: Instant) -> (entry: Self)
        ensures
            entry == (SleepEntry {
                id,
                deadline,
                registered: false,
                completed: false,
                waker: None,
            }),
    {
        SleepEntry { id, deadline, registered: false, completed: false, waker: None }
    }

    /// Whether a tick at `now` wakes the sleep.
    pub open spec fn due(&self, now: Instant) -> bool {
        self.registered && self.deadline.nanos <= now.nanos
    }
}

/// One wakeup that a tick owes.
#[derive(Debug, Clone, Copy, PartialEq, Eq, Structural)]
pub struct SleepWake {
    pub id: u64,
    pub waker: u64,
}

/// Runtime timer queue.
pub struct Timer {
    queue: RunQueue,
    entries: IdTable<SleepEntry>,
}

/// Future of one sleep: its identifier in the timer.
#[derive(Debug, PartialEq, Eq, Structural)]
pub struct Sleep {
    pub id: u64,
}

impl Timer {
    /// The live sleeps.
    pub closed spec fn sleeps(&self) -> Map<u64, SleepEntry> {
        self.entries@
    }

    /// The places in the queue.
    pub closed spec fn places(&self) -> Set<(u128, u64)> {
        self.queue@
    }

    /// A registered sleep waits in the queue, with someone to wake.
    pub closed spec fn wf(&self) -> bool {
        &&& self.queue.wf()
        &&& self.entries.wf()
        &&& forall|id: u64| #[trigger]
            self.entries@.dom().contains(id) ==> {
                let entry = self.entries@[id];
                &&& entry.id == id
                &&& entry.registered ==> !entry.completed && entry.waker is Some
                    && self.queue@.contains(entry.key())
            }
    }

    /// What well-formedness says of one sleep.
    pub proof fn lemma_sleep(&self, id: u64)
        requires
            self.wf(),
            self.sleeps().dom().contains(id),
        ensures
            self.sleeps()[id].id == id,
            self.sleeps()[id].registered ==> !self.sleeps()[id].completed
                && self.sleeps()[id].waker is Some && self.places().contains(
                self.sleeps()[id].key(),
            ),
    {
    }

    /// A timer without sleeps.
    pub fn new() -> (timer: Self)
        ensures
            timer.wf(),
            timer.sleeps() == Map::<u64, SleepEntry>::empty(),
            timer.places() == Set::<(u128, u64)>::empty(),
    {
        Timer { queue: RunQueue::new(), entries: IdTable::new() }
    }

    /// What beginning a sleep does.
    pub open spec fn sleep_effect(
        before: Timer,
        after: Timer,
        id: u64,
        now: Instant,
        duration: Duration,
    ) -> bool {
        &&& after.places() == before.places()
        &&& after.sleeps() == before.sleeps().insert(
            id,
            (SleepEntry {
                id,
                deadline: Instant { nanos: (now.nanos + duration.nanos) as u128 },
                registered: false,
                completed: false,
                waker: None,
            }),
        )
    }

    /// A sleep that lasts `duration` from `now` on. `id` is the identifier
    /// handed out for it.
    pub fn sleep(&mut self, id: u64, now: Instant, duration: Duration) -> (sleep: Sleep)
        requires
            old(self).wf(),
            !old(self).sleeps().dom().contains(id),
            now.nanos + duration.nanos <= u128::MAX,
        ensures
            final(self).wf(),
            sleep.id == id,
            Self::sleep_effect(*old(self), *final(self), id, now, duration),
            final(self).places() == old(self).places(),
            final(self).sleeps() == old(self).sleeps().insert(
                id,
                (SleepEntry {
                    id,
                    deadline: Instant { nanos: (now.nanos + duration.nanos) as u128 },
                    registered: false,
                    completed: false,
                    waker: None,
                }),
            ),
    {
        self.sleep_until(id, Instant { nanos: now.nanos + duration.nanos })
    }

    /// A sleep that lasts until `deadline`.
    pub fn sleep_until(&mut self, id: u64, deadline: Instant) -> (sleep: Sleep)
        requires
            old(self).wf(),
            !old(self).sleeps().dom().contains(id),
        ensures
            final(self).wf(),
            sleep.id == id,
            final(self).places() == old(self).places(),
            final(self).sleeps() == old(self).sleeps().insert(
                id,
                (SleepEntry { id, deadline, registered: false, completed: false, waker: None }),
            ),
    {
        let _ = self.entries.insert(id, SleepEntry::new(id, deadline));
        Sleep { id }
    }

    /// What a tick at `now` does: every due sleep completes and is woken, in
    /// the order of deadline and identifier, and every place up to `now`
    /// leaves the queue.
    pub open spec fn tick_effect(
        before: Timer,
        after: Timer,
        now: Instant,
        woken: Seq<SleepWake>,
    ) -> bool {
        &&& after.sleeps().dom() == before.sleeps().dom()
        &&& forall|id: u64| #[trigger]
            before.sleeps().dom().contains(id) ==> after.sleeps()[id] == (if before.sleeps()[id].due(
                now,
            ) {
                SleepEntry {
                    registered: false,
                    completed: true,
                    waker: None,
                    ..before.sleeps()[id]
                }
            } else {
                before.sleeps()[id]
            })
        &&& forall|place: (u128, u64)| #[trigger]
            after.places().contains(place) <==> before.places().contains(place) && place.0
                > now.nanos
        &&& forall|i: int|
            0 <= i < woken.len() ==> {
                let id = #[trigger] woken[i].id;
                &&& before.sleeps().dom().contains(id)
                &&& before.sleeps()[id].due(now)
                &&& before.sleeps()[id].waker == Some(woken[i].waker)
            }
        &&& forall|id: u64| #[trigger]
            before.sleeps().dom().contains(id) && before.sleeps()[id].due(now) ==> exists|i: int|
                0 <= i < woken.len() && #[trigger] woken[i].id == id
        &&& forall|i: int, j: int|
            0 <= i < j < woken.len() ==> entry_before(
                before.sleeps()[#[trigger] woken[i].id].key(),
                before.sleeps()[#[trigger] woken[j].id].key(),
            )
    }

    /// Advances the queue to `now` and tells whom to wake, in order.
    pub fn tick(&mut self, now: Instant) -> (woken: Vec<SleepWake>)
        requires
            old(self).wf(),
        ensures
            final(self).wf(),
            Self::tick_effect(*old(self), *final(self), now, woken@),
    {
        let mut woken: Vec<SleepWake> = Vec::new();
        let ghost start = *self;
        let mut due = true;
        let ghost mut passed = Set::<(u128, u64)>::empty();
        while due
            invariant
                self.wf(),
                start.wf(),
                start == *old(self),
                forall|place: (u128, u64)| #[trigger]
                    start.places().contains(place) <==> self.places().contains(place)
                        || passed.contains(place),
                forall|place: (u128, u64)| #[trigger]
                    passed.contains(place) ==> place.0 <= now.nanos && !self.places().contains(
                        place,
                    ),
                forall|gone: (u128, u64), place: (u128, u64)| #[trigger]
                    passed.contains(gone) && #[trigger] self.places().contains(place)
                        ==> entry_before(gone, place),
                !due ==> forall|place: (u128, u64)| #[trigger]
                    self.places().contains(place) ==> place.0 > now.nanos,
                self.sleeps().dom() == start.sleeps().dom(),
                forall|id: u64| #[trigger]
                    start.sleeps().dom().contains(id) ==> self.sleeps()[id] == (if start.sleeps()[id].due(
                        now,
                    ) && passed.contains(start.sleeps()[id].key()) {
                        SleepEntry {
                            registered: false,
                            completed: true,
                            waker: None,
                            ..start.sleeps()[id]
                        }
                    } else {
                        start.sleeps()[id]
                    }),
                forall|i: int|
                    0 <= i < woken@.len() ==> {
                        let id = #[trigger] woken@[i].id;
                        &&& start.sleeps().dom().contains(id)
                        &&& start.sleeps()[id].due(now)
                        &&& start.sleeps()[id].waker == Some(woken@[i].waker)
                        &&& passed.contains(start.sleeps()[id].key())
                    },
                forall|id: u64| #[trigger]
                    start.sleeps().dom().contains(id) && start.sleeps()[id].due(now)
                        && passed.contains(start.sleeps()[id].key()) ==> exists|i: int|
                        0 <= i < woken@.len() && #[trigger] woken@[i].id == id,
                forall|i: int, j: int|
                    0 <= i < j < woken@.len() ==> entry_before(
                        start.sleeps()[#[trigger] woken@[i].id].key(),
                        start.sleeps()[#[trigger] woken@[j].id].key(),
                    ),
            decreases self.places().len() + (if due {
                1int
            } else {
                0
            }),
        {
            proof {
                self.queue.lemma_order();
            }
            match self.queue.front() {
                None => {
                    due = false;
                },
                Some(place) => {
                    if place.0 > now.nanos {
                        due = false;
                        assert forall|other: (u128, u64)| #[trigger]
                            self.places().contains(other) implies other.0 > now.nanos by {
                            if other != place {
                                assert(self.queue@.contains(other));
                            }
                        }
                    } else {
                        let ghost before = *self;
                        let ghost so_far = woken@;
                        let _ = self.queue.remove(place);
                        let found: Option<SleepEntry> = match self.entries.get(place.1) {
                            Some(entry) => Some(*entry),
                            None => None,
                        };
                        match found {
                            Some(entry) => {
                                if entry.registered && entry.deadline.nanos == place.0 {
                                    let _ = self.entries.insert(
                                        entry.id,
                                        SleepEntry {
                                            registered: false,
                                            completed: true,
                                            waker: None,
                                            ..entry
                                        },
                                    );
                                    match entry.waker {
                                        Some(waker) => {
                                            woken.push(SleepWake { id: entry.id, waker });
                                        },
                                        None => {},
                                    }
                                }
                            },
                            None => {},
                        }
                        proof {
                            let earlier = passed;
                            passed = passed.insert(place);
                            assert forall|id: u64| #[trigger]
                                start.sleeps().dom().contains(id) && start.sleeps()[id].due(now)
                                    && passed.contains(start.sleeps()[id].key()) implies exists|
                                i: int,
                            | 0 <= i < woken@.len() && #[trigger] woken@[i].id == id by {
                                if earlier.contains(start.sleeps()[id].key()) {
                                    let i = choose|i: int|
                                        0 <= i < so_far.len() && #[trigger] so_far[i].id == id;
                                    assert(woken@[i].id == id);
                                } else {
                                    start.lemma_sleep(id);
                                    before.lemma_sleep(id);
                                    assert(woken@[so_far.len() as int].id == id);
                                }
                            }
                        }
                    }
                },
            }
        }
        assert forall|id: u64| #[trigger]
            start.sleeps().dom().contains(id) && start.sleeps()[id].due(now) implies passed.contains(
            start.sleeps()[id].key(),
        ) by {
            start.lemma_sleep(id);
        }
        woken
    }
}

impl Sleep {
    /// What a poll at `now` does. A completed sleep is ready; one whose
    /// deadline has passed completes; any other one waits in the queue.
    pub open spec fn poll_effect(
        before: Timer,
        after: Timer,
        id: u64,
        waker: u64,
        now: Instant,
        outcome: PollState<()>,
    ) -> bool {
        let entry = before.sleeps()[id];
        if entry.completed {
            &&& outcome == PollState::<()>::Ready(())
            &&& after.sleeps() == before.sleeps()
            &&& after.places() == before.places()
        } else if entry.deadline.nanos <= now.nanos {
            &&& outcome == PollState::<()>::Ready(())
            &&& after.sleeps() == before.sleeps().insert(
                id,
                SleepEntry { registered: false, completed: true, waker: Some(waker), ..entry },
            )
            &&& after.places() == before.places()
        } else {
            &&& outcome == PollState::<()>::Pending
            &&& after.sleeps() == before.sleeps().insert(
                id,
                SleepEntry { registered: true, waker: Some(waker), ..entry },
            )
            &&& after.places() == before.places().insert(entry.key())
        }
    }

    /// Polls the sleep on behalf of `waker`.
    pub fn poll(&self, timer: &mut Timer, waker: u64, now: Instant) -> (outcome: PollState<()>)
        requires
            old(timer).wf(),
            old(timer).sleeps().dom().contains(self.id),
        ensures
            final(timer).wf(),
            Self::poll_effect(*old(timer), *final(timer), self.id, waker, now, outcome),
    {
        let ghost before = *timer;
        let mut entry: SleepEntry = match timer.entries.get(self.id) {
            Some(entry) => *entry,
            None => {
                return PollState::Pending;
            },
        };
        if entry.completed {
            return PollState::Ready(());
        }
        entry.waker = Some(waker);
        if entry.deadline.nanos <= now.nanos {
            entry.registered = false;
            entry.completed = true;
            let _ = timer.entries.insert(self.id, entry);
            return PollState::Ready(());
        }
        if !entry.registered {
            entry.registered = true;
            let key = (entry.deadline.nanos, entry.id);
            let _ = timer.queue.remove(key);
            timer.queue.insert(key);
            assert(timer.queue@ =~= before.queue@.insert(key));
        } else {
            assert(timer.queue@ =~= before.queue@.insert(entry.key()));
        }
        let _ = timer.entries.insert(self.id, entry);
        PollState::Pending
    }

    /// Gives the sleep up. One that still waits leaves the queue; its
    /// identifier may then be handed out again.
    pub fn give_up(self, timer: &mut Timer)
        requires
            old(timer).wf(),
            old(timer).sleeps().dom().contains(self.id),
        ensures
            final(timer).wf(),
            final(timer).sleeps() == old(timer).sleeps().remove(self.id),
            final(timer).places() == (if old(timer).sleeps()[self.id].registered {
                old(timer).places().remove(old(timer).sleeps()[self.id].key())
            } else {
                old(timer).places()
            }),
    {
        let removed = timer.entries.remove(self.id);
        match removed {
            Some(entry) => {
                if !entry.completed && entry.registered {
                    let _ = timer.queue.remove((entry.deadline.nanos, entry.id));
                }
            },
            None => {},
        }
    }
}

/// A waiting sleep is woken by the first tick that reaches its deadline and by
/// no later one.
pub proof fn law_sleep_is_woken_once(
    before: Timer,
    middle: Timer,
    after: Timer,
    id: u64,
    first: Instant,
    second: Instant,
    woken_first: Seq<SleepWake>,
    woken_second: Seq<SleepWake>,
)
    requires
        before.wf(),
        middle.wf(),
        before.sleeps().dom().contains(id),
        before.sleeps()[id].registered,
        Timer::tick_effect(before, middle, first, woken_first),
        Timer::tick_effect(middle, after, second, woken_second),
    ensures
        (exists|i: int| 0 <= i < woken_first.len() && #[trigger] woken_first[i].id == id) <==> (
        before.sleeps()[id].deadline.nanos <= first.nanos),
        (exists|i: int| 0 <= i < woken_second.len() && #[trigger] woken_second[i].id == id) <==> (
        first.nanos < before.sleeps()[id].deadline.nanos <= second.nanos),
{
    if before.sleeps()[id].deadline.nanos > first.nanos {
        assert(!before.sleeps()[id].due(first));
        assert(middle.sleeps()[id] == before.sleeps()[id]);
        if before.sleeps()[id].deadline.nanos <= second.nanos {
            assert(middle.sleeps()[id].due(second));
        }
    } else {
        assert(before.sleeps()[id].due(first));
        assert(!middle.sleeps()[id].due(second));
    }
}

/// A sleep that was woken is ready at its next poll, whatever the time.
pub proof fn law_woken_sleep_is_ready(
    before: Timer,
    ticked: Timer,
    after: Timer,
    id: u64,
    waker: u64,
    tick: Instant,
    now: Instant,
    woken: Seq<SleepWake>,
    outcome: PollState<()>,
)
    requires
        before.wf(),
        before.sleeps().dom().contains(id),
        before.sleeps()[id].due(tick),
        Timer::tick_effect(before, ticked, tick, woken),
        Sleep::poll_effect(ticked, after, id, waker, now, outcome),
    ensures
        outcome == PollState::<()>::Ready(()),
        after.sleeps() == ticked.sleeps(),
{
}

/// A sleep is over exactly when its duration has passed since it began: polled
/// earlier it goes on, with the poller noted as the one to wake.
pub proof fn law_sleep_lasts_its_duration(
    empty: Timer,
    begun: Timer,
    polled: Timer,
    id: u64,
    start: Instant,
    duration: Duration,
    waker: u64,
    now: Instant,
    outcome: PollState<()>,
)
    requires
        start.nanos + duration.nanos <= u128::MAX,
        Timer::sleep_effect(empty, begun, id, start, duration),
        Sleep::poll_effect(begun, polled, id, waker, now, outcome),
    ensures
        outcome == PollState::<()>::Ready(()) <==> now.nanos >= start.nanos + duration.nanos,
        now.nanos < start.nanos + duration.nanos ==> polled.sleeps()[id].waker == Some(waker)
            && polled.sleeps()[id].registered && polled.sleeps()[id].deadline.nanos == start.nanos
            + duration.nanos,
{
}

/// Sleeps are woken in the order of their deadlines, each with the one that was to
/// be woken for it.
pub proof fn law_sleeps_wake_in_order(
    before: Timer,
    after: Timer,
    now: Instant,
    woken: Seq<SleepWake>,
    i: int,
    j: int,
)
    requires
        Timer::tick_effect(before, after, now, woken),
        0 <= i < j < woken.len(),
    ensures
        before.sleeps()[woken[i].id].deadline.nanos <= before.sleeps()[woken[j].id].deadline.nanos,
        before.sleeps()[woken[j].id].deadline.nanos <= now.nanos,
        woken[i].id != woken[j].id,
        before.sleeps()[woken[i].id].waker == Some(woken[i].waker),
        after.sleeps()[woken[i].id].completed,
{
    let id = woken[j].id;
    assert(before.sleeps().dom().contains(id));
    assert(before.sleeps().dom().contains(woken[i].id));
}

/// Giving up a sleep that began to wait leaves the timer as it was without
/// the sleep.
pub proof fn law_giving_up_undoes_waiting(
    before: Timer,
    waiting: Timer,
    id: u64,
    waker: u64,
    now: Instant,
)
    requires
        before.wf(),
        before.sleeps().dom().contains(id),
        !before.sleeps()[id].registered,
        !before.places().contains(before.sleeps()[id].key()),
        Sleep::poll_effect(before, waiting, id, waker, now, PollState::Pending),
    ensures
        waiting.sleeps()[id].registered,
        waiting.sleeps().remove(id) == before.sleeps().remove(id),
        waiting.places().remove(waiting.sleeps()[id].key()) == before.places(),
{
    assert(waiting.sleeps().remove(id) =~= before.sleeps().remove(id));
    assert(waiting.places().remove(waiting.sleeps()[id].key()) =~= before.places());
}

} // verus!
