//! A bounded queue of access units that never hands out a partial group of
//! pictures.

use std::collections::VecDeque;
use vstd::prelude::*;
use crate::access_unit::{AccessUnit, EncodedAccessUnit};

verus! {

/// How many access units a viewer's queue holds: one whole group of pictures.
pub const ACCESS_UNIT_QUEUE_CAPACITY: usize = 16;

/// What became of a pushed access unit.
#[derive(Clone, Copy, Debug, PartialEq, Eq, Structural)]
pub enum AccessUnitPushResult {
    Enqueued,
    DroppedUntilKeyframe,
    Closed,
}

/// A bounded access-unit queue. On overflow it discards what it holds and waits
/// for the next keyframe.
pub struct AccessUnitQueue {
    units: VecDeque<EncodedAccessUnit>,
    recovering: bool,
    closed: bool,
    capacity: usize,
}

/// What an [`AccessUnitQueue`] holds.
#[verifier::ext_equal]
pub struct QueueModel {
    pub units: Seq<AccessUnit>,
    pub recovering: bool,
    pub closed: bool,
    pub capacity: nat,
}

impl QueueModel {
    /// The queue holds no more than its capacity, and nothing while it recovers
    /// or once it is closed.
    pub open spec fn wf(self) -> bool {
        &&& self.capacity > 0
        &&& self.units.len() <= self.capacity
        &&& self.recovering ==> self.units.len() == 0
        &&& self.closed ==> self.units.len() == 0
    }

    /// The queue and the answer once `unit` was pushed.
    pub open spec fn pushed(self, unit: AccessUnit) -> (QueueModel, AccessUnitPushResult) {
        if self.closed {
            (self, AccessUnitPushResult::Closed)
        } else if (self.recovering || self.units.len() == self.capacity) && !unit.keyframe {
            (
                QueueModel { units: Seq::empty(), recovering: true, ..self },
                AccessUnitPushResult::DroppedUntilKeyframe,
            )
        } else if self.recovering || self.units.len() == self.capacity {
            (
                QueueModel { units: seq![unit], recovering: false, ..self },
                AccessUnitPushResult::Enqueued,
            )
        } else {
            (
                QueueModel { units: self.units.push(unit), ..self },
                AccessUnitPushResult::Enqueued,
            )
        }
    }

    /// The unit that is taken next, if there is one.
    pub open spec fn taken(self) -> Option<AccessUnit> {
        if self.units.len() > 0 {
            Some(self.units[0])
        } else {
            None
        }
    }

    /// The units that come out of `n` takes in a row.
    pub open spec fn drained(self, n: nat) -> Seq<AccessUnit>
        decreases n,
    {
        if n == 0 {
            Seq::empty()
        } else {
            match self.taken() {
                Some(unit) => seq![unit] + self.popped().drained((n - 1) as nat),
                None => Seq::empty(),
            }
        }
    }

    /// The queue once its first unit was taken.
    pub open spec fn popped(self) -> QueueModel {
        QueueModel {
            units: if self.units.len() > 0 {
                self.units.skip(1)
            } else {
                self.units
            },
            ..self
        }
    }

    /// The queue once it was closed.
    pub open spec fn shut(self) -> QueueModel {
        QueueModel { units: Seq::empty(), closed: true, ..self }
    }

    /// The queue once a series of units was pushed.
    pub open spec fn pushed_all(self, units: Seq<AccessUnit>) -> QueueModel
        decreases units.len(),
    {
        if units.len() == 0 {
            self
        } else {
            self.pushed_all(units.drop_last()).pushed(units.last()).0
        }
    }

    /// Pushing a unit makes the queue lose some: the ones it holds, or that unit.
    pub open spec fn loses(self) -> bool {
        !self.closed && (self.recovering || self.units.len() == self.capacity)
    }

    /// If units were `lost` since the last one was taken, the next one to be taken
    /// is a keyframe.
    pub open spec fn resumes_at_keyframe(self, lost: bool) -> bool {
        lost ==> (self.units.len() == 0 && (self.recovering || self.closed)) || (self.units.len() > 0
            && self.units[0].keyframe)
    }
}

/// The contents of a list of access units.
pub open spec fn unit_views(units: Seq<EncodedAccessUnit>) -> Seq<AccessUnit> {
    Seq::new(units.len(), |i: int| units[i]@)
}

impl View for AccessUnitQueue {
    type V = QueueModel;

    closed spec fn view(&self) -> QueueModel {
        QueueModel {
            units: unit_views(self.units@),
            recovering: self.recovering,
            closed: self.closed,
            capacity: self.capacity as nat,
        }
    }
}

impl AccessUnitQueue {
    /// An empty queue with room for `capacity` units.
    pub fn bounded(capacity: usize) -> (queue: Self)
        requires
            capacity > 0,
        ensures
            queue@.wf(),
            queue@ == (QueueModel {
                units: Seq::empty(),
                recovering: false,
                closed: false,
                capacity: capacity as nat,
            }),
    {
        let queue = AccessUnitQueue {
            units: VecDeque::new(),
            recovering: false,
            closed: false,
            capacity,
        };
        assert(queue@.units =~= Seq::<AccessUnit>::empty());
        queue
    }

    /// Pushes a unit. A full queue drops everything it holds; a unit that is no
    /// keyframe is then dropped too, and so is every unit up to the next keyframe.
    pub fn try_push(&mut self, unit: EncodedAccessUnit) -> (result: AccessUnitPushResult)
        requires
            old(self)@.wf(),
        ensures
            final(self)@.wf(),
            (final(self)@, result) == old(self)@.pushed(unit@),
    {
        if self.closed {
            return AccessUnitPushResult::Closed;
        }
        if self.recovering {
            if !unit.keyframe {
                assert(self@.units =~= Seq::<AccessUnit>::empty());
                return AccessUnitPushResult::DroppedUntilKeyframe;
            }
            self.units.clear();
            self.recovering = false;
            self.units.push_back(unit);
            assert(self@.units =~= seq![unit@]);
            return AccessUnitPushResult::Enqueued;
        }
        if self.units.len() == self.capacity {
            self.units.clear();
            if !unit.keyframe {
                self.recovering = true;
                assert(self@.units =~= Seq::<AccessUnit>::empty());
                return AccessUnitPushResult::DroppedUntilKeyframe;
            }
        }
        let ghost before = unit_views(self.units@);
        self.units.push_back(unit);
        assert(self@.units =~= before.push(unit@));
        assert(old(self)@.units.len() == old(self)@.capacity ==> self@.units =~= seq![unit@]);
        AccessUnitPushResult::Enqueued
    }

    /// Takes the oldest unit.
    pub fn try_recv(&mut self) -> (unit: Option<EncodedAccessUnit>)
        requires
            old(self)@.wf(),
        ensures
            final(self)@.wf(),
            final(self)@ == old(self)@.popped(),
            unit is Some <==> old(self)@.units.len() > 0,
            unit matches Some(first) ==> first@ == old(self)@.units[0],
            match old(self)@.taken() {
                Some(first) => unit is Some && unit->0@ == first,
                None => unit is None,
            },
    {
        let unit = self.units.pop_front();
        assert(self@.units =~= old(self)@.popped().units);
        unit
    }

    /// Closes the queue for good and drops what it holds.
    pub fn close(&mut self)
        requires
            old(self)@.wf(),
        ensures
            final(self)@.wf(),
            final(self)@ == old(self)@.shut(),
    {
        self.closed = true;
        self.units.clear();
        assert(self@.units =~= Seq::<AccessUnit>::empty());
    }

    /// Whether the queue was closed.
    pub fn is_closed(&self) -> (closed: bool)
        ensures
            closed == self@.closed,
    {
        self.closed
    }

    /// How many units the queue holds.
    pub fn len(&self) -> (len: usize)
        ensures
            len == self@.units.len(),
    {
        self.units.len()
    }
}

/// The queue never holds more than its capacity, whatever is pushed into it.
pub proof fn law_queue_stays_bounded(queue: QueueModel, units: Seq<AccessUnit>)
    requires
        queue.wf(),
    ensures
        queue.pushed_all(units).wf(),
        queue.pushed_all(units).capacity == queue.capacity,
    decreases units.len(),
{
    if units.len() > 0 {
        law_queue_stays_bounded(queue, units.drop_last());
    }
}

/// A recovering queue takes nothing until a keyframe comes, and then holds exactly
/// that keyframe.
pub proof fn law_recovery_waits_for_a_keyframe(
    queue: QueueModel,
    units: Seq<AccessUnit>,
    key: AccessUnit,
)
    requires
        queue.wf(),
        queue.recovering,
        !queue.closed,
        key.keyframe,
        forall|k: int| 0 <= k < units.len() ==> !(#[trigger] units[k]).keyframe,
    ensures
        queue.pushed_all(units) == queue,
        queue.pushed_all(units.push(key)).units == seq![key],
        !queue.pushed_all(units.push(key)).recovering,
    decreases units.len(),
{
    if units.len() > 0 {
        assert(!units[units.len() - 1].keyframe);
        law_recovery_waits_for_a_keyframe(queue, units.drop_last(), key);
        assert(queue.pushed_all(units) =~= queue);
    }
    let all = units.push(key);
    assert(all.drop_last() =~= units);
    assert(all.last() == key);
    assert(queue.pushed_all(units) == queue);
    assert(queue.pushed_all(all) == queue.pushed(key).0);
}

/// No partial group of pictures is handed out: once units are lost, the next unit
/// to be taken is a keyframe, and this stays so whatever is pushed or closed.
pub proof fn law_gap_resumes_at_a_keyframe(queue: QueueModel, lost: bool, unit: AccessUnit)
    requires
        queue.wf(),
        queue.resumes_at_keyframe(lost),
    ensures
        queue.pushed(unit).0.wf(),
        queue.pushed(unit).0.resumes_at_keyframe(lost || queue.loses()),
        queue.shut().resumes_at_keyframe(true),
{
}

/// First in, first out: what is pushed into an open queue that has room for it stands
/// behind what the queue held, in the order of the pushes.
pub proof fn law_pushes_line_up(queue: QueueModel, units: Seq<AccessUnit>)
    requires
        queue.wf(),
        !queue.closed,
        !queue.recovering,
        queue.units.len() + units.len() <= queue.capacity,
    ensures
        queue.pushed_all(units).units == queue.units + units,
        !queue.pushed_all(units).closed,
        !queue.pushed_all(units).recovering,
        queue.pushed_all(units).capacity == queue.capacity,
        forall|k: int|
            0 <= k < units.len() ==> #[trigger] queue.pushed_all(units.take(k)).pushed(units[k]).1
                == AccessUnitPushResult::Enqueued,
    decreases units.len(),
{
    if units.len() > 0 {
        let front = units.drop_last();
        law_pushes_line_up(queue, front);
        assert(queue.pushed_all(units).units =~= queue.units + units);
        assert forall|k: int| 0 <= k < units.len() implies #[trigger] queue.pushed_all(
            units.take(k),
        ).pushed(units[k]).1 == AccessUnitPushResult::Enqueued by {
            if k < front.len() {
                assert(front.take(k) =~= units.take(k));
                assert(front[k] == units[k]);
                assert(queue.pushed_all(front.take(k)).pushed(front[k]).1
                    == AccessUnitPushResult::Enqueued);
            } else {
                assert(units.take(k) =~= front);
            }
        }
    } else {
        assert(queue.pushed_all(units).units =~= queue.units + units);
    }
}

/// The units of a queue come out one by one, the oldest first, until none is left.
pub proof fn law_takes_follow_the_line(queue: QueueModel, n: nat)
    ensures
        n <= queue.units.len() ==> queue.drained(n) == queue.units.take(n as int),
        n >= queue.units.len() ==> queue.drained(n) == queue.units,
    decreases n,
{
    if n > 0 && queue.units.len() > 0 {
        let rest = queue.popped();
        law_takes_follow_the_line(rest, (n - 1) as nat);
        assert(rest.units =~= queue.units.skip(1));
        if n <= queue.units.len() {
            assert(queue.drained(n) =~= queue.units.take(n as int));
        }
        if n >= queue.units.len() {
            assert(queue.drained(n) =~= queue.units);
        }
    } else {
        if n <= queue.units.len() {
            assert(queue.drained(n) =~= queue.units.take(n as int));
        }
        if n >= queue.units.len() {
            assert(queue.drained(n) =~= queue.units);
        }
    }
}

/// Units pushed into a fresh queue without overflow come out in the order of the pushes.
pub proof fn law_queue_is_first_in_first_out(queue: QueueModel, units: Seq<AccessUnit>)
    requires
        queue.wf(),
        !queue.closed,
        !queue.recovering,
        queue.units.len() == 0,
        units.len() <= queue.capacity,
    ensures
        queue.pushed_all(units).drained(units.len()) == units,
{
    law_pushes_line_up(queue, units);
    assert(queue.units + units =~= units);
    law_takes_follow_the_line(queue.pushed_all(units), units.len());
}

/// The answer to a push says what became of the unit: it stands last in the queue, it was
/// dropped and a keyframe is awaited, or the queue is closed. A keyframe is never dropped,
/// nothing is dropped while there is room, and the rest of the queue is lost only where
/// there is none.
pub proof fn law_push_says_what_happened(queue: QueueModel, unit: AccessUnit)
    requires
        queue.wf(),
    ensures
        ({
            let (after, answer) = queue.pushed(unit);
            &&& after.capacity == queue.capacity
            &&& after.closed == queue.closed
            &&& answer == AccessUnitPushResult::Closed <==> queue.closed
            &&& queue.closed ==> after == queue
            &&& answer == AccessUnitPushResult::Enqueued ==> after.units.len() > 0
                && after.units.last() == unit && !after.recovering
            &&& answer == AccessUnitPushResult::DroppedUntilKeyframe ==> after.units.len() == 0
                && after.recovering && !unit.keyframe
            &&& unit.keyframe && !queue.closed ==> answer == AccessUnitPushResult::Enqueued
            &&& !queue.closed && !queue.recovering && queue.units.len() < queue.capacity ==> answer
                == AccessUnitPushResult::Enqueued && after.units.len() == queue.units.len() + 1
                && after.units.take(queue.units.len() as int) == queue.units
            &&& !queue.closed && queue.units.len() == queue.capacity ==> after.units.len() <= 1
            &&& !queue.closed && queue.units.len() == queue.capacity && !unit.keyframe ==> answer
                == AccessUnitPushResult::DroppedUntilKeyframe
            &&& !queue.closed && queue.recovering && !unit.keyframe ==> answer
                == AccessUnitPushResult::DroppedUntilKeyframe
        }),
{
    assert(queue.units.push(unit).take(queue.units.len() as int) =~= queue.units);
}

/// A closed queue stays closed and empty, and taking a unit changes nothing but the line.
pub proof fn law_closing_is_final(queue: QueueModel, units: Seq<AccessUnit>)
    ensures
        queue.shut().closed,
        queue.shut().taken() is None,
        queue.shut().pushed_all(units) == queue.shut(),
        queue.popped().closed == queue.closed,
        queue.popped().recovering == queue.recovering,
        queue.popped().capacity == queue.capacity,
        queue.shut().capacity == queue.capacity,
    decreases units.len(),
{
    if units.len() > 0 {
        law_closing_is_final(queue, units.drop_last());
    }
}

} // verus!
