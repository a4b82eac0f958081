//! Keeping dictations in order: each dictation takes a number when it starts, and
//! finished outcomes are handed out for insertion only in the order of those
//! numbers, whatever order they finish in.
use std::collections::HashMap;
use vstd::prelude::*;

verus! {

broadcast use vstd::std_specs::hash::group_hash_axioms;

/// The insertion queue: the next number to hand out, the next number whose outcome
/// is due for insertion, and the outcomes that finished ahead of their turn.
pub struct InsertionOrder {
    next_release: u64,
    next_id: u64,
    pending: HashMap<u64, Result<String, String>>,
}

/// The abstract state of the queue.
pub struct OrderModel {
    /// The number whose outcome is inserted next.
    pub next_release: u64,
    /// The number the next dictation gets.
    pub next_id: u64,
    /// Outcomes that finished and still wait for an earlier dictation.
    pub pending: Map<u64, Result<String, String>>,
}

impl View for InsertionOrder {
    type V = OrderModel;

    closed spec fn view(&self) -> OrderModel {
        OrderModel {
            next_release: self.next_release,
            next_id: self.next_id,
            pending: self.pending@,
        }
    }
}

/// Well-formed queue: every waiting outcome belongs to a dictation that was started
/// and comes after the one due next (the one due next never waits).
pub open spec fn order_wf(m: OrderModel) -> bool {
    &&& m.next_release <= m.next_id
    &&& forall|k: u64| #[trigger] m.pending.contains_key(k) ==> m.next_release < k < m.next_id
}

/// How many consecutive numbers from `from` (below `bound`) have an outcome in `p`.
pub open spec fn run_len(p: Map<u64, Result<String, String>>, from: int, bound: int) -> nat
    decreases bound - from,
{
    if 0 <= from < bound && p.contains_key(from as u64) {
        1 + run_len(p, from + 1, bound)
    } else {
        0
    }
}

/// Recording the outcome of dictation `id`: the outcomes released (the run of stored
/// outcomes from the number due next upward, in order, stopping at the first number
/// without one) and the queue afterwards.
pub open spec fn complete_step(m: OrderModel, id: u64, o: Result<String, String>) -> (
    OrderModel,
    Seq<(u64, Result<String, String>)>,
) {
    let p = m.pending.insert(id, o);
    let k = run_len(p, m.next_release as int, m.next_id as int);
    (
        OrderModel {
            next_release: (m.next_release + k) as u64,
            next_id: m.next_id,
            pending: p.remove_keys(Set::new(|x: u64| m.next_release <= x < m.next_release + k)),
        },
        Seq::new(k, |i: int| ((m.next_release + i) as u64, p[(m.next_release + i) as u64])),
    )
}

/// `run_len` counts exactly a run of present numbers ending at `to`.
proof fn lemma_run_len(p: Map<u64, Result<String, String>>, from: int, to: int, bound: int)
    requires
        0 <= from <= to <= bound <= u64::MAX,
        forall|i: int| from <= i < to ==> p.contains_key(#[trigger] (i as u64)),
        to == bound || !p.contains_key(to as u64),
    ensures
        run_len(p, from, bound) == to - from,
    decreases to - from,
{
    if from < to {
        assert(p.contains_key(from as u64));
        lemma_run_len(p, from + 1, to, bound);
    }
}

/// What a run of length `run_len` consists of.
proof fn lemma_run_len_props(p: Map<u64, Result<String, String>>, from: int, bound: int)
    requires
        0 <= from <= bound <= u64::MAX,
    ensures
        from + run_len(p, from, bound) <= bound,
        forall|i: int| from <= i < from + run_len(p, from, bound) ==> p.contains_key(#[trigger] (i as u64)),
        from + run_len(p, from, bound) == bound || !p.contains_key((from + run_len(p, from, bound)) as u64),
    decreases bound - from,
{
    if from < bound && p.contains_key(from as u64) {
        lemma_run_len_props(p, from + 1, bound);
    }
}

/// The facts about one completion that the rest of the library relies on.
pub proof fn lemma_complete_step(m: OrderModel, id: u64, o: Result<String, String>)
    requires
        order_wf(m),
        m.next_release <= id < m.next_id,
        !m.pending.contains_key(id),
    ensures
        ({
            let p = m.pending.insert(id, o);
            let (m2, ready) = complete_step(m, id, o);
            &&& order_wf(m2)
            &&& m2.next_id == m.next_id
            &&& m.next_release <= m2.next_release
            &&& ready.len() == m2.next_release - m.next_release
            &&& forall|i: int| 0 <= i < ready.len() ==> #[trigger] ready[i].0 == m.next_release + i
            &&& forall|x: u64| m.next_release <= x < m2.next_release ==> #[trigger] p.contains_key(x)
            &&& forall|x: u64| #[trigger] m2.pending.contains_key(x) <==> (m2.next_release <= x
                && p.contains_key(x))
        }),
{
    let p = m.pending.insert(id, o);
    let from = m.next_release as int;
    lemma_run_len_props(p, from, m.next_id as int);
    let k = run_len(p, from, m.next_id as int);
    let (m2, ready) = complete_step(m, id, o);
    assert forall|x: u64| m.next_release <= x < m2.next_release implies #[trigger] p.contains_key(x) by {
        assert(p.contains_key((x as int) as u64));
    }
    assert forall|x: u64| #[trigger] m2.pending.contains_key(x) implies m2.next_release < x < m2.next_id by {
        if x == m2.next_release {
            assert(!p.contains_key((from + k) as u64));
        }
    }
}

impl InsertionOrder {
    /// An empty queue: no dictation started yet.
    pub fn new() -> (r: InsertionOrder)
        ensures
            order_wf(r@),
            r@.next_release == 0,
            r@.next_id == 0,
            r@.pending == Map::<u64, Result<String, String>>::empty(),
    {
        InsertionOrder { next_release: 0, next_id: 0, pending: HashMap::new() }
    }

    /// Whether another dictation can still get a number.
    pub fn can_register(&self) -> (r: bool)
        ensures
            r == (self@.next_id < u64::MAX),
    {
        self.next_id < u64::MAX
    }

    /// Reserves the place of a dictation that is about to start; numbers are handed
    /// out in increasing order.
    pub fn register(&mut self) -> (id: u64)
        requires
            order_wf(old(self)@),
            old(self)@.next_id < u64::MAX,
        ensures
            order_wf(final(self)@),
            id == old(self)@.next_id,
            final(self)@ == (OrderModel { next_id: (id + 1) as u64, ..old(self)@ }),
    {
        let id = self.next_id;
        self.next_id = id + 1;
        id
    }

    /// Records the outcome of dictation `id` (an error for a failed or abandoned
    /// one) and returns the outcomes now due for insertion: the stored outcomes from
    /// the number due next upward, in order, up to the first number still running.
    pub fn complete(&mut self, id: u64, outcome: Result<String, String>) -> (ready: Vec<
        (u64, Result<String, String>),
    >)
        requires
            order_wf(old(self)@),
            old(self)@.next_release <= id < old(self)@.next_id,
            !old(self)@.pending.contains_key(id),
        ensures
            order_wf(final(self)@),
            (final(self)@, ready@) == complete_step(old(self)@, id, outcome),
    {
        let ghost m = self@;
        let ghost p = m.pending.insert(id, outcome);
        self.pending.insert(id, outcome);
        let mut ready: Vec<(u64, Result<String, String>)> = Vec::new();
        loop
            invariant
                order_wf(m),
                m.next_release <= id < m.next_id,
                p == m.pending.insert(id, outcome),
                forall|k: u64| #[trigger] p.contains_key(k) ==> m.next_release <= k < m.next_id,
                m.next_release <= self.next_release <= self.next_id,
                self.next_id == m.next_id,
                ready@.len() == self.next_release - m.next_release,
                forall|i: int|
                    0 <= i < ready@.len() ==> #[trigger] ready@[i] == ((m.next_release + i) as u64, p[(
                    m.next_release + i) as u64]),
                forall|x: u64| m.next_release <= x < self.next_release ==> #[trigger] p.contains_key(x),
                self.pending@ == p.remove_keys(
                    Set::new(|x: u64| m.next_release <= x < self.next_release),
                ),
            ensures
                !p.contains_key(self.next_release),
            decreases self.next_id - self.next_release,
        {
            let r = self.next_release;
            match self.pending.remove(&r) {
                Some(o) => {
                    assert(p.contains_key(r));
                    ready.push((r, o));
                    self.next_release = r + 1;
                    assert(self.pending@ =~= p.remove_keys(
                        Set::new(|x: u64| m.next_release <= x < self.next_release),
                    ));
                },
                None => {
                    break ;
                },
            }
        }
        proof {
            let k = (self.next_release - m.next_release) as int;
            assert forall|i: int| m.next_release <= i < self.next_release implies p.contains_key(
                #[trigger] (i as u64),
            ) by {
                assert(p.contains_key((i as u64) as u64));
            }
            lemma_run_len(p, m.next_release as int, self.next_release as int, m.next_id as int);
            let (m2, rd) = complete_step(m, id, outcome);
            assert(ready@ =~= rd);
            assert(self.pending@ =~= m2.pending);
            lemma_complete_step(m, id, outcome);
        }
        ready
    }
}

/// One thing that happens to the queue: a dictation starts, or one finishes.
pub enum OrderEvent {
    Register,
    Complete(u64, Result<String, String>),
}

/// Whether the event is allowed in state `m`: a number is left to hand out, or the
/// finishing dictation was started and has not finished before.
pub open spec fn order_event_ok(m: OrderModel, e: OrderEvent) -> bool {
    match e {
        OrderEvent::Register => m.next_id < u64::MAX,
        OrderEvent::Complete(id, _) => m.next_release <= id < m.next_id && !m.pending.contains_key(
            id,
        ),
    }
}

/// One event: the queue afterwards and the numbers released for insertion.
pub open spec fn order_step(m: OrderModel, e: OrderEvent) -> (OrderModel, Seq<u64>) {
    match e {
        OrderEvent::Register => (OrderModel { next_id: (m.next_id + 1) as u64, ..m }, Seq::empty()),
        OrderEvent::Complete(id, o) => {
            let (m2, ready) = complete_step(m, id, o);
            (m2, ready.map_values(|x: (u64, Result<String, String>)| x.0))
        },
    }
}

/// A run of events: the final queue, every number released in order, and whether
/// each event was allowed when it came.
pub open spec fn order_run(m: OrderModel, events: Seq<OrderEvent>) -> (OrderModel, Seq<u64>, bool)
    decreases events.len(),
{
    if events.len() == 0 {
        (m, Seq::empty(), true)
    } else {
        let (m1, rel, ok) = order_run(m, events.drop_last());
        let (m2, r) = order_step(m1, events.last());
        (m2, rel + r, ok && order_event_ok(m1, events.last()))
    }
}

/// Whether the event is the finishing of dictation `x`.
pub open spec fn finishes(e: OrderEvent, x: u64) -> bool {
    match e {
        OrderEvent::Complete(y, _) => y == x,
        OrderEvent::Register => false,
    }
}

/// Whether dictation `x` finishes somewhere in `events`.
pub open spec fn finished_in(events: Seq<OrderEvent>, x: u64) -> bool {
    exists|i: int| 0 <= i < events.len() && #[trigger] finishes(events[i], x)
}

/// Whatever order dictations start and finish in: the numbers released are exactly
/// the consecutive numbers from the one due at the outset, in increasing order, so
/// no dictation is inserted twice or out of turn; an outcome waits exactly while an
/// earlier dictation is still running; and once every started dictation has
/// finished (successfully or not), every one of them has been released.
pub proof fn lemma_released_once_in_order(m: OrderModel, events: Seq<OrderEvent>)
    requires
        order_wf(m),
        order_run(m, events).2,
    ensures
        ({
            let (m2, released, _) = order_run(m, events);
            &&& order_wf(m2)
            &&& m.next_release <= m2.next_release
            &&& m.next_id <= m2.next_id
            &&& released == Seq::new(
                (m2.next_release - m.next_release) as nat,
                |i: int| (m.next_release + i) as u64,
            )
            &&& forall|x: u64| #[trigger] m2.pending.contains_key(x) <==> (m2.next_release <= x && (
                m.pending.contains_key(x) || finished_in(events, x)))
            &&& (forall|x: u64|
                m.next_release <= x < m2.next_id ==> m.pending.contains_key(x) || #[trigger] finished_in(
                    events,
                    x,
                )) ==> m2.next_release == m2.next_id
        }),
    decreases events.len(),
{
    let (m2, released, _) = order_run(m, events);
    if events.len() == 0 {
        assert(released =~= Seq::new(0, |i: int| (m.next_release + i) as u64));
        assert forall|x: u64| #[trigger] m2.pending.contains_key(x) <==> (m2.next_release <= x && (
            m.pending.contains_key(x) || finished_in(events, x))) by {}
    } else {
        let pre = events.drop_last();
        let e = events.last();
        lemma_released_once_in_order(m, pre);
        let (m1, rel1, ok1) = order_run(m, pre);
        assert forall|x: u64| finished_in(events, x) <==> (finished_in(pre, x) || finishes(e, x)) by {
            if finished_in(pre, x) {
                let i = choose|i: int| 0 <= i < pre.len() && #[trigger] finishes(pre[i], x);
                assert(finishes(events[i], x));
            }
            if finishes(e, x) {
                assert(finishes(events[events.len() - 1], x));
            }
            if finished_in(events, x) {
                let i = choose|i: int| 0 <= i < events.len() && #[trigger] finishes(events[i], x);
                if i < pre.len() {
                    assert(finishes(pre[i], x));
                }
            }
        }
        match e {
            OrderEvent::Register => {
                assert(released =~= rel1);
            },
            OrderEvent::Complete(id, o) => {
                lemma_complete_step(m1, id, o);
                let (m3, ready) = complete_step(m1, id, o);
                let r = ready.map_values(|x: (u64, Result<String, String>)| x.0);
                assert(released =~= Seq::new(
                    (m2.next_release - m.next_release) as nat,
                    |i: int| (m.next_release + i) as u64,
                )) by {
                    assert(released == rel1 + r);
                    assert forall|i: int| 0 <= i < released.len() implies released[i] == (m.next_release
                        + i) as u64 by {
                        if i >= rel1.len() {
                            assert(r[i - rel1.len()] == ready[i - rel1.len()].0);
                        }
                    }
                }
            },
        }
    }
    if forall|x: u64|
        m.next_release <= x < m2.next_id ==> m.pending.contains_key(x) || #[trigger] finished_in(
            events,
            x,
        ) {
        if m2.next_release < m2.next_id {
            let x = m2.next_release;
            assert(m.pending.contains_key(x) || finished_in(events, x));
            assert(m2.pending.contains_key(x));
        }
    }
}

} // verus!
