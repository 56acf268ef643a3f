use std::collections::VecDeque;
use vstd::prelude::*;

use crate::config::K;

verus! {

/// How many transition timestamps a column keeps.
pub const HISTORY_CAPACITY: usize = 64;

/// The history after recording `t` at the front of `events`: the newest
/// `HISTORY_CAPACITY` entries of `[t] + events`.
pub open spec fn push_bounded(events: Seq<u64>, t: u64) -> Seq<u64> {
    let f = seq![t] + events;
    if f.len() > HISTORY_CAPACITY {
        f.take(HISTORY_CAPACITY as int)
    } else {
        f
    }
}

/// A column's state `(pressed, events)` after one notification: a duplicate
/// leaves it unchanged, a transition sets `pressed` and records the time.
pub open spec fn step(state: (bool, Seq<u64>), pressed: bool, t: u64) -> (bool, Seq<u64>) {
    if pressed == state.0 {
        state
    } else {
        (pressed, push_bounded(state.1, t))
    }
}

/// A column's state after a whole sequence of `(pressed, time)` notifications.
pub open spec fn replay(state: (bool, Seq<u64>), notes: Seq<(bool, u64)>) -> (bool, Seq<u64>)
    decreases notes.len(),
{
    if notes.len() == 0 {
        state
    } else {
        let prev = replay(state, notes.drop_last());
        step(prev, notes.last().0, notes.last().1)
    }
}

/// After any non-empty sequence of notifications a column is held exactly
/// when the last notification was a press: either it was a transition to
/// that state, or a duplicate of the state it was already in.
pub proof fn lemma_pressed_follows_last(state: (bool, Seq<u64>), notes: Seq<(bool, u64)>)
    requires
        notes.len() > 0,
    ensures
        replay(state, notes).0 == notes.last().0,
{
}

/// A notification that repeats the current state changes nothing, and a
/// repeated notification right after another of the same kind adds no
/// entry and leaves `pressed` as it was.
pub proof fn lemma_duplicate_ignored(
    state: (bool, Seq<u64>),
    notes: Seq<(bool, u64)>,
    pressed: bool,
    t1: u64,
    t2: u64,
)
    ensures
        step(state, state.0, t1) == state,
        replay(state, notes.push((pressed, t1)).push((pressed, t2))) == replay(
            state,
            notes.push((pressed, t1)),
        ),
{
    let n1 = notes.push((pressed, t1));
    let n2 = n1.push((pressed, t2));
    assert(n2.drop_last() =~= n1);
    assert(n1.drop_last() =~= notes);
    lemma_pressed_follows_last(state, n1);
}

/// The history never holds more than `HISTORY_CAPACITY` entries, and once
/// full, a transition drops exactly the oldest entry and puts the new time
/// at the front.
pub proof fn lemma_history_bounded(state: (bool, Seq<u64>), notes: Seq<(bool, u64)>)
    requires
        state.1.len() <= HISTORY_CAPACITY,
    ensures
        replay(state, notes).1.len() <= HISTORY_CAPACITY,
    decreases notes.len(),
{
    if notes.len() > 0 {
        lemma_history_bounded(state, notes.drop_last());
    }
}

/// Once the history is full, a transition evicts its oldest entry (the back)
/// and records the new time at the front.
pub proof fn lemma_full_history_evicts_oldest(state: (bool, Seq<u64>), pressed: bool, t: u64)
    requires
        state.1.len() == HISTORY_CAPACITY,
        pressed != state.0,
    ensures
        step(state, pressed, t).1 == seq![t] + state.1.drop_last(),
        step(state, pressed, t).1.len() == HISTORY_CAPACITY,
{
    assert((seq![t] + state.1).take(HISTORY_CAPACITY as int) =~= seq![t] + state.1.drop_last());
}

/// Times strictly decrease front to back: the newest transition comes first.
pub open spec fn newest_first(events: Seq<u64>) -> bool {
    forall|i: int, j: int| 0 <= i < j < events.len() ==> events[i] > events[j]
}

/// A history ordered newest first stays so when each transition is later
/// than the newest one recorded.
pub proof fn lemma_step_keeps_newest_first(state: (bool, Seq<u64>), pressed: bool, t: u64)
    requires
        newest_first(state.1),
        state.1.len() > 0 ==> t > state.1[0],
    ensures
        newest_first(step(state, pressed, t).1),
{
    if pressed != state.0 {
        let f = seq![t] + state.1;
        assert(newest_first(f)) by {
            assert forall|i: int, j: int| 0 <= i < j < f.len() implies f[i] > f[j] by {
                if i > 0 {
                    assert(f[i] == state.1[i - 1] && f[j] == state.1[j - 1]);
                } else {
                    assert(f[j] == state.1[j - 1]);
                }
            }
        }
    }
}

/// One tracked key: whether it is held now, and the times of its recent
/// transitions, newest first.
pub struct KeyColumn {
    pub key: String,
    pub label: String,
    pub pressed: bool,
    pub events: VecDeque<u64>,
}

impl KeyColumn {
    pub open spec fn state(&self) -> (bool, Seq<u64>) {
        (self.pressed, self.events@)
    }

    /// The history holds at most `HISTORY_CAPACITY` entries.
    pub open spec fn wf(&self) -> bool {
        self.events@.len() <= HISTORY_CAPACITY
    }

    /// A released key with no history.
    pub fn new(key: String, label: String) -> (r: KeyColumn)
        ensures
            r.key@ == key@,
            r.label@ == label@,
            !r.pressed,
            r.events@ == Seq::<u64>::empty(),
            r.wf(),
    {
        KeyColumn { key, label, pressed: false, events: VecDeque::with_capacity(HISTORY_CAPACITY) }
    }

    /// Applies one press (`pressed`) or release notification stamped `time`.
    pub fn record(&mut self, pressed: bool, time: u64)
        ensures
            final(self).state() == step(old(self).state(), pressed, time),
            final(self).key == old(self).key,
            final(self).label == old(self).label,
            old(self).wf() ==> final(self).wf(),
    {
        if pressed == self.pressed {
            return;
        }
        self.pressed = pressed;
        while self.events.len() >= HISTORY_CAPACITY
            invariant
                self.key == old(self).key,
                self.label == old(self).label,
                self.pressed == pressed,
                self.events@ == old(self).events@.take(self.events@.len() as int),
                self.events@.len() <= old(self).events@.len(),
                self.events@.len() >= HISTORY_CAPACITY - 1
                    || self.events@.len() == old(self).events@.len(),
            decreases self.events@.len(),
        {
            self.events.pop_back();
        }
        self.events.push_front(time);
        proof {
            let f = seq![time] + old(self).events@;
            if f.len() > HISTORY_CAPACITY {
                assert(self.events@ =~= f.take(HISTORY_CAPACITY as int));
            } else {
                assert(self.events@ =~= f);
            }
        }
    }
}

/// The index of the first column tracking the key named `key`, if any.
pub open spec fn first_match(cols: Seq<KeyColumn>, key: Seq<char>, i: int) -> bool {
    0 <= i < cols.len() && cols[i].key@ == key && forall|j: int| 0 <= j < i ==> cols[j].key@ != key
}

/// One column per tracked key, in display order.
pub struct TimelineStore {
    pub columns: Vec<KeyColumn>,
}

impl TimelineStore {
    /// Every column's history is within capacity.
    pub open spec fn wf(&self) -> bool {
        forall|i: int| 0 <= i < self.columns@.len() ==> #[trigger] self.columns@[i].wf()
    }

    /// A released column with no history for each configured key, in order.
    pub fn new(keys: &Vec<K>) -> (r: TimelineStore)
        ensures
            r.columns@.len() == keys@.len(),
            forall|i: int|
                0 <= i < keys@.len() ==> {
                    &&& #[trigger] r.columns@[i].key@ == keys@[i].key@
                    &&& r.columns@[i].label@ == keys@[i].label@
                    &&& !r.columns@[i].pressed
                    &&& r.columns@[i].events@ == Seq::<u64>::empty()
                },
            r.wf(),
    {
        let mut columns: Vec<KeyColumn> = Vec::new();
        let mut i: usize = 0;
        while i < keys.len()
            invariant
                i <= keys@.len(),
                columns@.len() == i,
                forall|j: int|
                    0 <= j < i ==> {
                        &&& #[trigger] columns@[j].key@ == keys@[j].key@
                        &&& columns@[j].label@ == keys@[j].label@
                        &&& !columns@[j].pressed
                        &&& columns@[j].events@ == Seq::<u64>::empty()
                    },
            decreases keys@.len() - i,
        {
            let k = &keys[i];
            columns.push(KeyColumn::new(k.key.clone(), k.label.clone()));
            i = i + 1;
        }
        let r = TimelineStore { columns };
        assert forall|m: int| 0 <= m < r.columns@.len() implies #[trigger] r.columns@[m].wf() by {
            assert(r.columns@[m].key@ == keys@[m].key@);
        }
        r
    }

    /// Routes a press (`pressed`) or release notification for the key named
    /// `key`, stamped `time`, to the first column that tracks it; a key that
    /// no column tracks changes nothing.
    pub fn handle(&mut self, key: &String, pressed: bool, time: u64)
        ensures
            final(self).columns@.len() == old(self).columns@.len(),
            old(self).wf() ==> final(self).wf(),
            (forall|i: int| 0 <= i < old(self).columns@.len() ==> old(self).columns@[i].key@ != key@)
                ==> final(self).columns@ == old(self).columns@,
            forall|i: int|
                first_match(old(self).columns@, key@, i) ==> {
                    &&& final(self).columns@[i].state() == step(
                        old(self).columns@[i].state(),
                        pressed,
                        time,
                    )
                    &&& final(self).columns@[i].key == old(self).columns@[i].key
                    &&& final(self).columns@[i].label == old(self).columns@[i].label
                    &&& forall|j: int|
                        0 <= j < old(self).columns@.len() && j != i ==> final(self).columns@[j]
                            == old(self).columns@[j]
                },
    {
        let mut i: usize = 0;
        while i < self.columns.len()
            invariant
                self.columns == old(self).columns,
                i <= self.columns@.len(),
                forall|j: int| 0 <= j < i ==> self.columns@[j].key@ != key@,
            decreases self.columns@.len() - i,
        {
            if self.columns[i].key == *key {
                let mut col = self.columns.remove(i);
                col.record(pressed, time);
                self.columns.insert(i, col);
                proof {
                    if old(self).wf() {
                        assert(old(self).columns@[i as int].wf());
                        assert forall|m: int| 0 <= m < self.columns@.len() implies #[trigger] self.columns@[m].wf()
                        by {
                            if m != i {
                                assert(old(self).columns@[m].wf());
                            }
                        }
                    }
                }
                return;
            }
            i = i + 1;
        }
    }
}

} // verus!
