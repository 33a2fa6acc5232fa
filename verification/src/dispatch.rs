//! Deferred-event dispatch.
//!
//! Callbacks from C and outbound calls into C run at +1 dispatch depth;
//! events produced meanwhile are queued, and whoever brings the depth
//! back to zero drains the queue, in order.  Events queued by handlers
//! during a drain are delivered by that same drain.  Once teardown
//! begins, queued and later events are discarded.

use vstd::prelude::*;
use std::collections::VecDeque;

verus! {

pub ghost struct DispatchModel<E> {
    pub depth: nat,
    pub draining: bool,
    pub shutting_down: bool,
    pub queue: Seq<E>,
}

pub struct Dispatcher<E> {
    depth: u32,
    draining: bool,
    shutting_down: bool,
    queue: VecDeque<E>,
}

impl<E> View for Dispatcher<E> {
    type V = DispatchModel<E>;

    closed spec fn view(&self) -> DispatchModel<E> {
        DispatchModel {
            depth: self.depth as nat,
            draining: self.draining,
            shutting_down: self.shutting_down,
            queue: self.queue@,
        }
    }
}

impl<E> Dispatcher<E> {
    pub fn new() -> (d: Dispatcher<E>)
        ensures
            d@ == (DispatchModel::<E> {
                depth: 0,
                draining: false,
                shutting_down: false,
                queue: Seq::empty(),
            }),
    {
        Dispatcher { depth: 0, draining: false, shutting_down: false, queue: VecDeque::new() }
    }

    /// A callback or outbound call begins.
    pub fn enter(&mut self)
        requires
            old(self)@.depth < u32::MAX,
        ensures
            final(self)@ == (DispatchModel { depth: old(self)@.depth + 1, ..old(self)@ }),
    {
        self.depth = self.depth + 1;
    }

    /// A callback or outbound call ends.  Returns whether the caller
    /// must drain now: the depth is back to zero and no drain is running.
    pub fn leave(&mut self) -> (drain_now: bool)
        requires
            old(self)@.depth > 0,
        ensures
            final(self)@ == (DispatchModel { depth: (old(self)@.depth - 1) as nat, ..old(self)@ }),
            drain_now == (final(self)@.depth == 0 && !old(self)@.draining),
    {
        self.depth = self.depth - 1;
        self.depth == 0 && !self.draining
    }

    /// Queue a deferred event; discarded once teardown has begun.
    pub fn enqueue(&mut self, ev: E)
        ensures
            final(self)@ == enqueue_spec(old(self)@, ev),
    {
        if !self.shutting_down {
            self.queue.push_back(ev);
        }
    }

    pub fn begin_drain(&mut self)
        ensures
            final(self)@ == (DispatchModel { draining: true, ..old(self)@ }),
    {
        self.draining = true;
    }

    pub fn end_drain(&mut self)
        ensures
            final(self)@ == (DispatchModel { draining: false, ..old(self)@ }),
    {
        self.draining = false;
    }

    /// The next event to deliver, oldest first; nothing once teardown
    /// has begun (the queue is then discarded).
    pub fn next_event(&mut self) -> (r: Option<E>)
        ensures
            (final(self)@, r) == next_spec(old(self)@),
    {
        if self.shutting_down {
            self.queue.clear();
            return None;
        }
        let ev = self.queue.pop_front();
        ev
    }

    /// Teardown begins: queued events are dropped, later ones refused.
    pub fn teardown(&mut self)
        ensures
            final(self)@ == teardown_spec(old(self)@),
    {
        self.shutting_down = true;
        self.queue.clear();
    }

    pub fn depth(&self) -> (d: u32)
        ensures
            d == self@.depth,
    {
        self.depth
    }

    pub fn is_shutting_down(&self) -> (b: bool)
        ensures
            b == self@.shutting_down,
    {
        self.shutting_down
    }

    pub fn pending(&self) -> (n: usize)
        ensures
            n == self@.queue.len(),
    {
        self.queue.len()
    }
}

pub open spec fn enqueue_spec<E>(m: DispatchModel<E>, ev: E) -> DispatchModel<E> {
    if m.shutting_down {
        m
    } else {
        DispatchModel { queue: m.queue.push(ev), ..m }
    }
}

pub open spec fn next_spec<E>(m: DispatchModel<E>) -> (DispatchModel<E>, Option<E>) {
    if m.shutting_down {
        (DispatchModel { queue: Seq::empty(), ..m }, None)
    } else if m.queue.len() == 0 {
        (m, None)
    } else {
        (DispatchModel { queue: m.queue.drop_first(), ..m }, Some(m.queue[0]))
    }
}

pub open spec fn teardown_spec<E>(m: DispatchModel<E>) -> DispatchModel<E> {
    DispatchModel { shutting_down: true, queue: Seq::empty(), ..m }
}

/// Events come out in the order they went in, each once.
pub proof fn law_fifo_delivery<E>(m: DispatchModel<E>, a: E, b: E)
    requires
        !m.shutting_down,
        m.queue.len() == 0,
    ensures
        ({
            let m1 = enqueue_spec(enqueue_spec(m, a), b);
            let (m2, first) = next_spec(m1);
            let (m3, second) = next_spec(m2);
            let (m4, third) = next_spec(m3);
            &&& first == Some(a)
            &&& second == Some(b)
            &&& third is None
            &&& m4.queue.len() == 0
        }),
{
    let m1 = enqueue_spec(enqueue_spec(m, a), b);
    assert(m1.queue =~= seq![a, b]);
    assert(m1.queue.drop_first() =~= seq![b]);
    assert(m1.queue.drop_first().drop_first() =~= Seq::<E>::empty());
}

/// Leaving a nested frame never asks for a drain: only the frame that
/// brings the depth back to zero does, and not while a drain runs.
pub proof fn law_drain_only_at_depth_zero<E>(m: DispatchModel<E>)
    requires
        m.depth > 1,
    ensures
        !(((m.depth - 1) as nat) == 0 && !m.draining),
{
}

/// After teardown nothing queued, or queued later, is delivered.
pub proof fn law_teardown_discards<E>(m: DispatchModel<E>, ev: E)
    ensures
        next_spec(enqueue_spec(teardown_spec(m), ev)).1 is None,
        next_spec(teardown_spec(m)).1 is None,
{
}

/// The events `n` successive deliveries hand out.
pub open spec fn delivered<E>(m: DispatchModel<E>, n: nat) -> Seq<E>
    decreases n,
{
    if n == 0 {
        Seq::empty()
    } else {
        let (m1, ev) = next_spec(m);
        match ev {
            Some(e) => seq![e] + delivered(m1, (n - 1) as nat),
            None => Seq::empty(),
        }
    }
}

proof fn lemma_delivered_queue<E>(m: DispatchModel<E>)
    requires
        !m.shutting_down,
    ensures
        delivered(m, m.queue.len()) == m.queue,
    decreases m.queue.len(),
{
    if m.queue.len() > 0 {
        let m1 = next_spec(m).0;
        lemma_delivered_queue(m1);
        assert(seq![m.queue[0]] + m.queue.drop_first() =~= m.queue);
    }
}

/// An event queued while others wait, during a drain or not, is
/// delivered after all of them, each exactly once and in order.
pub proof fn law_queued_events_drain_in_order<E>(m: DispatchModel<E>, e: E)
    requires
        !m.shutting_down,
    ensures
        delivered(enqueue_spec(m, e), m.queue.len() + 1) == m.queue.push(e),
{
    lemma_delivered_queue(enqueue_spec(m, e));
}

} // verus!
