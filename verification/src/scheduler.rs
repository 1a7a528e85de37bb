//! The slots that generations run in, and what each of them is doing.

use vstd::prelude::*;

verus! {

/// What a slot is doing.
#[derive(Clone, Copy, Debug, PartialEq, Eq, Structural)]
pub struct SlotState {
    pub id: usize,
    pub busy: bool,
    pub prompt_tokens: usize,
    pub generated_tokens: usize,
}

impl Default for SlotState {
    fn default() -> (r: Self)
        ensures
            r == (SlotState { id: 0, busy: false, prompt_tokens: 0, generated_tokens: 0 }),
    {
        SlotState { id: 0, busy: false, prompt_tokens: 0, generated_tokens: 0 }
    }
}

/// The number of busy slots.
pub open spec fn busy_slots(slots: Seq<SlotState>) -> nat
    decreases slots.len(),
{
    if slots.len() == 0 {
        0
    } else {
        busy_slots(slots.drop_last()) + (if slots.last().busy {
            1nat
        } else {
            0nat
        })
    }
}

/// A slot as it is taken: busy, with nothing counted yet.
pub open spec fn taken(s: SlotState) -> SlotState {
    SlotState { id: s.id, busy: true, prompt_tokens: 0, generated_tokens: 0 }
}

/// Whether slot `i` is the first that is free.
pub open spec fn is_first_free(slots: Seq<SlotState>, i: int) -> bool {
    &&& 0 <= i < slots.len()
    &&& !slots[i].busy
    &&& forall|j: int| 0 <= j < i ==> (#[trigger] slots[j]).busy
}

/// The slots of a server.
#[derive(Debug)]
pub struct SlotPool {
    slots: Vec<SlotState>,
}

/// The right to a slot. Whoever holds it runs in that slot, until it is given back.
#[derive(Debug)]
pub struct SlotGuard {
    index: usize,
}

impl SlotGuard {
    /// The number of the slot.
    pub closed spec fn slot(self) -> int {
        self.index as int
    }

    /// The number of the slot.
    pub fn id(&self) -> (r: usize)
        ensures
            r == self.slot(),
    {
        self.index
    }

    /// Notes how many tokens the prompt has.
    pub fn set_prompt_tokens(&self, pool: &mut SlotPool, n: usize)
        requires
            self.slot() < old(pool)@.len(),
        ensures
            final(pool)@ == old(pool)@.update(
                self.slot(),
                SlotState { prompt_tokens: n, ..old(pool)@[self.slot()] },
            ),
    {
        let mut state = pool.slots[self.index];
        state.prompt_tokens = n;
        pool.put(self.index, state);
    }

    /// Notes how many tokens have been generated.
    pub fn set_generated_tokens(&self, pool: &mut SlotPool, n: usize)
        requires
            self.slot() < old(pool)@.len(),
        ensures
            final(pool)@ == old(pool)@.update(
                self.slot(),
                SlotState { generated_tokens: n, ..old(pool)@[self.slot()] },
            ),
    {
        let mut state = pool.slots[self.index];
        state.generated_tokens = n;
        pool.put(self.index, state);
    }
}

impl SlotPool {
    /// What the slots are doing.
    pub closed spec fn view(&self) -> Seq<SlotState> {
        self.slots@
    }

    /// `n` free slots, numbered from zero.
    pub fn new(n: usize) -> (r: Self)
        ensures
            r@ == Seq::new(
                n as nat,
                |i: int|
                    SlotState {
                        id: i as usize,
                        busy: false,
                        prompt_tokens: 0,
                        generated_tokens: 0,
                    },
            ),
    {
        let mut slots: Vec<SlotState> = Vec::new();
        let mut id: usize = 0;
        while id < n
            invariant
                id <= n,
                slots@.len() == id,
                forall|i: int|
                    0 <= i < id ==> slots@[i] == (SlotState {
                        id: i as usize,
                        busy: false,
                        prompt_tokens: 0,
                        generated_tokens: 0,
                    }),
            decreases n - id,
        {
            slots.push(SlotState { id, busy: false, prompt_tokens: 0, generated_tokens: 0 });
            id += 1;
        }
        SlotPool { slots }
    }

    fn put(&mut self, index: usize, state: SlotState)
        requires
            index < old(self)@.len(),
        ensures
            final(self)@ == old(self)@.update(index as int, state),
    {
        self.slots.set(index, state);
    }

    /// The number of slots.
    pub fn total(&self) -> (n: usize)
        ensures
            n == self@.len(),
    {
        self.slots.len()
    }

    /// The number of busy slots.
    pub fn busy_count(&self) -> (n: usize)
        ensures
            n == busy_slots(self@),
            n <= self@.len(),
    {
        let mut n: usize = 0;
        let mut i: usize = 0;
        assert(self.slots@.take(0) =~= Seq::empty());
        while i < self.slots.len()
            invariant
                i <= self.slots@.len(),
                n <= i,
                n == busy_slots(self.slots@.take(i as int)),
            decreases self.slots@.len() - i,
        {
            assert(self.slots@.take(i + 1).drop_last() =~= self.slots@.take(i as int));
            if self.slots[i].busy {
                n += 1;
            }
            i += 1;
        }
        assert(self.slots@.take(self.slots@.len() as int) =~= self.slots@);
        n
    }

    /// Takes the first free slot. Where there is none the caller has to wait.
    pub fn acquire(&mut self) -> (r: Option<SlotGuard>)
        ensures
            match r {
                Some(guard) => is_first_free(old(self)@, guard.slot()) && final(self)@ == old(
                    self,
                )@.update(guard.slot(), taken(old(self)@[guard.slot()])),
                None => final(self)@ == old(self)@ && forall|i: int|
                    0 <= i < old(self)@.len() ==> (#[trigger] old(self)@[i]).busy,
            },
            final(self)@.len() == old(self)@.len(),
            r is Some ==> {
                let (i, before, after) = (r->0.slot(), old(self)@, final(self)@);
                &&& 0 <= i < before.len()
                &&& !before[i].busy
                &&& forall|j: int| 0 <= j < i ==> (#[trigger] before[j]).busy
                &&& after[i].busy
                &&& after[i].id == before[i].id
                &&& after[i].prompt_tokens == 0
                &&& after[i].generated_tokens == 0
                &&& forall|j: int|
                    0 <= j < before.len() && j != i ==> #[trigger] after[j] == before[j]
            },
    {
        let mut i: usize = 0;
        while i < self.slots.len()
            invariant
                *self == *old(self),
                i <= self.slots@.len(),
                forall|j: int| 0 <= j < i ==> (#[trigger] self.slots@[j]).busy,
            decreases self.slots@.len() - i,
        {
            if !self.slots[i].busy {
                let id: usize = self.slots[i].id;
                self.put(
                    i,
                    SlotState { id, busy: true, prompt_tokens: 0, generated_tokens: 0 },
                );
                return Some(SlotGuard { index: i });
            }
            i += 1;
        }
        None
    }

    /// Gives a slot back.
    pub fn release(&mut self, guard: SlotGuard)
        requires
            guard.slot() < old(self)@.len(),
        ensures
            final(self)@ == old(self)@.update(
                guard.slot(),
                SlotState { busy: false, ..old(self)@[guard.slot()] },
            ),
    {
        let mut state = self.slots[guard.index];
        state.busy = false;
        self.put(guard.index, state);
    }

    /// What the slots are doing.
    pub fn snapshot(&self) -> (r: Vec<SlotState>)
        ensures
            r@ == self@,
    {
        let mut out: Vec<SlotState> = Vec::new();
        let mut i: usize = 0;
        while i < self.slots.len()
            invariant
                i <= self.slots@.len(),
                out@ == self.slots@.take(i as int),
            decreases self.slots@.len() - i,
        {
            out.push(self.slots[i]);
            i += 1;
            assert(self.slots@.take(i as int) =~= self.slots@.take(i - 1).push(
                self.slots@[i - 1],
            ));
        }
        assert(self.slots@.take(self.slots@.len() as int) =~= self.slots@);
        out
    }
}

/// Where fewer slots are busy than there are, one is free.
pub proof fn a_free_slot_exists(slots: Seq<SlotState>)
    ensures
        busy_slots(slots) <= slots.len(),
        busy_slots(slots) < slots.len() <==> exists|i: int|
            0 <= i < slots.len() && !(#[trigger] slots[i]).busy,
    decreases slots.len(),
{
    if slots.len() > 0 {
        let rest = slots.drop_last();
        a_free_slot_exists(rest);
        let n = slots.len() - 1;
        if !slots.last().busy {
            assert(!slots[n].busy);
        } else if busy_slots(rest) < rest.len() {
            let i = choose|i: int| 0 <= i < rest.len() && !(#[trigger] rest[i]).busy;
            assert(!slots[i].busy);
        } else if exists|i: int| 0 <= i < slots.len() && !(#[trigger] slots[i]).busy {
            let i = choose|i: int| 0 <= i < slots.len() && !(#[trigger] slots[i]).busy;
            assert(!rest[i].busy);
        }
    }
}

/// What one slot does counts by itself.
pub proof fn one_slot_counts(slots: Seq<SlotState>, i: int, state: SlotState)
    requires
        0 <= i < slots.len(),
    ensures
        busy_slots(slots.update(i, state)) + (if slots[i].busy {
            1nat
        } else {
            0nat
        }) == busy_slots(slots) + (if state.busy {
            1nat
        } else {
            0nat
        }),
    decreases slots.len(),
{
    let changed = slots.update(i, state);
    if i == slots.len() - 1 {
        assert(changed.drop_last() =~= slots.drop_last());
    } else {
        one_slot_counts(slots.drop_last(), i, state);
        assert(changed.drop_last() =~= slots.drop_last().update(i, state));
    }
}

/// Giving a slot back undoes taking it, whatever was noted in between: as many
/// slots are busy as before, and the slot is free.
pub proof fn release_undoes_acquire(slots: Seq<SlotState>, i: int, prompt: usize, generated: usize)
    requires
        is_first_free(slots, i),
    ensures
        ({
            let during = slots.update(
                i,
                SlotState {
                    prompt_tokens: prompt,
                    generated_tokens: generated,
                    ..taken(slots[i])
                },
            );
            let after = during.update(i, SlotState { busy: false, ..during[i] });
            &&& busy_slots(during) == busy_slots(slots) + 1
            &&& busy_slots(after) == busy_slots(slots)
            &&& !after[i].busy
            &&& forall|j: int| 0 <= j < slots.len() && j != i ==> after[j] == slots[j]
        }),
{
    let noted = SlotState { prompt_tokens: prompt, generated_tokens: generated, ..taken(slots[i]) };
    let during = slots.update(i, noted);
    one_slot_counts(slots, i, noted);
    one_slot_counts(during, i, SlotState { busy: false, ..during[i] });
}

/// Something that happens to the slots of a server: a guard is asked for, is given
/// back, or notes something in its slot. A guard is named by its place among those that
/// are live.
pub enum SlotEvent {
    Acquire,
    Release(int),
    Note(int, usize, usize),
}

/// The slots of a server, and those that the live guards stand for.
pub struct Served {
    pub slots: Seq<SlotState>,
    pub live: Seq<int>,
}

/// Whether the slots and the live guards come out of an event as they should.
pub open spec fn follows(before: Served, event: SlotEvent, after: Served) -> bool {
    match event {
        SlotEvent::Acquire => {
            ||| exists|i: int| #[trigger]
                is_first_free(before.slots, i) && after.live == before.live.push(i) && after.slots
                    == before.slots.update(i, taken(before.slots[i]))
            ||| {
                &&& forall|i: int| 0 <= i < before.slots.len() ==> (#[trigger] before.slots[i]).busy
                &&& after == before
            }
        },
        SlotEvent::Release(k) => {
            &&& 0 <= k < before.live.len()
            &&& after.live == before.live.remove(k)
            &&& after.slots == before.slots.update(
                before.live[k],
                SlotState { busy: false, ..before.slots[before.live[k]] },
            )
        },
        SlotEvent::Note(k, prompt, generated) => {
            &&& 0 <= k < before.live.len()
            &&& after.live == before.live
            &&& after.slots == before.slots.update(
                before.live[k],
                SlotState {
                    prompt_tokens: prompt,
                    generated_tokens: generated,
                    ..before.slots[before.live[k]]
                },
            )
        },
    }
}

/// What always holds of the live guards: each stands for a busy slot, no two for the
/// same one, and there are as many of them as there are busy slots.
pub open spec fn well_served(s: Served) -> bool {
    &&& forall|k: int|
        0 <= k < s.live.len() ==> 0 <= #[trigger] s.live[k] < s.slots.len() && s.slots[s.live[k]].busy
    &&& forall|j: int, k: int|
        0 <= j < k < s.live.len() ==> #[trigger] s.live[j] != #[trigger] s.live[k]
    &&& busy_slots(s.slots) == s.live.len()
}

/// No slot of a new pool is busy.
proof fn none_busy(slots: Seq<SlotState>)
    requires
        forall|i: int| 0 <= i < slots.len() ==> !(#[trigger] slots[i]).busy,
    ensures
        busy_slots(slots) == 0,
    decreases slots.len(),
{
    if slots.len() > 0 {
        assert(!slots[slots.len() - 1].busy);
        none_busy(slots.drop_last());
    }
}

/// An event keeps the live guards in order.
proof fn one_event_keeps_guards_apart(before: Served, event: SlotEvent, after: Served)
    requires
        well_served(before),
        follows(before, event, after),
    ensures
        well_served(after),
{
    match event {
        SlotEvent::Acquire => {
            if after != before {
                let i = choose|i: int| #[trigger]
                    is_first_free(before.slots, i) && after.live == before.live.push(i)
                        && after.slots == before.slots.update(i, taken(before.slots[i]));
                one_slot_counts(before.slots, i, taken(before.slots[i]));
                assert forall|k: int| 0 <= k < after.live.len() implies 0 <= #[trigger] after.live[k]
                    < after.slots.len() && after.slots[after.live[k]].busy by {
                    if k < before.live.len() {
                        assert(after.live[k] == before.live[k]);
                    }
                }
                assert forall|j: int, k: int| 0 <= j < k < after.live.len() implies
                    #[trigger] after.live[j] != #[trigger] after.live[k] by {
                    assert(after.live[j] == before.live[j]);
                    if k < before.live.len() {
                        assert(after.live[k] == before.live[k]);
                    }
                }
            }
        },
        SlotEvent::Release(k) => {
            let i = before.live[k];
            one_slot_counts(before.slots, i, SlotState { busy: false, ..before.slots[i] });
            assert forall|j: int| 0 <= j < after.live.len() implies 0 <= #[trigger] after.live[j]
                < after.slots.len() && after.slots[after.live[j]].busy by {
                let from = if j < k {
                    j
                } else {
                    j + 1
                };
                assert(after.live[j] == before.live[from]);
            }
            assert forall|a: int, b: int| 0 <= a < b < after.live.len() implies
                #[trigger] after.live[a] != #[trigger] after.live[b] by {
                let x = if a < k {
                    a
                } else {
                    a + 1
                };
                let y = if b < k {
                    b
                } else {
                    b + 1
                };
                assert(after.live[a] == before.live[x] && after.live[b] == before.live[y]);
            }
        },
        SlotEvent::Note(k, prompt, generated) => {
            let i = before.live[k];
            one_slot_counts(
                before.slots,
                i,
                SlotState {
                    prompt_tokens: prompt,
                    generated_tokens: generated,
                    ..before.slots[i]
                },
            );
        },
    }
}

/// Whatever happens to a new pool, live guards never share a slot: after any number of
/// events each of them stands for a busy slot of its own, and the number of busy slots is
/// the number of live guards.
pub proof fn live_guards_never_share_a_slot(states: Seq<Served>, events: Seq<SlotEvent>)
    requires
        states.len() == events.len() + 1,
        forall|i: int| 0 <= i < states[0].slots.len() ==> !(#[trigger] states[0].slots[i]).busy,
        states[0].live.len() == 0,
        forall|t: int|
            0 <= t < events.len() ==> follows(states[t], #[trigger] events[t], states[t + 1]),
    ensures
        forall|t: int| 0 <= t < states.len() ==> well_served(#[trigger] states[t]),
        forall|t: int|
            0 <= t < states.len() ==> (#[trigger] states[t]).live.len() <= states[t].slots.len(),
    decreases events.len(),
{
    if events.len() == 0 {
        none_busy(states[0].slots);
        a_free_slot_exists(states[0].slots);
    } else {
        let (rest, last) = (states.drop_last(), events.len() - 1);
        assert forall|t: int| 0 <= t < events.drop_last().len() implies follows(
            rest[t],
            #[trigger] events.drop_last()[t],
            rest[t + 1],
        ) by {
            assert(events[t] == events.drop_last()[t]);
        }
        live_guards_never_share_a_slot(rest, events.drop_last());
        assert(well_served(rest[last]));
        assert(follows(states[last], events[last], states[last + 1]));
        one_event_keeps_guards_apart(states[last], events[last], states[last + 1]);
        a_free_slot_exists(states[last + 1].slots);
        assert forall|t: int| 0 <= t < states.len() implies well_served(#[trigger] states[t])
            && states[t].live.len() <= states[t].slots.len() by {
            if t < rest.len() {
                assert(rest[t] == states[t]);
            }
        }
    }
}

} // verus!
