//! A shared first-in first-out queue of events.
use vstd::prelude::*;
use std::collections::VecDeque;
use crate::instant_event_buffer::{MAX_BUFFERED_EVENTS, keep_last};

verus! {

/// Events waiting in a queue until the next consumption pass.
pub struct InstantEvent<E> {
    deq: VecDeque<E>,
}

impl<E> View for InstantEvent<E> {
    type V = Seq<E>;

    /// The waiting events, oldest first.
    closed spec fn view(&self) -> Seq<E> {
        self.deq@
    }
}

impl<E> InstantEvent<E> {
    #[verifier::type_invariant]
    spec fn bounded(&self) -> bool {
        self.deq@.len() <= MAX_BUFFERED_EVENTS
    }

    /// An empty queue.
    pub fn new() -> (r: Self)
        ensures
            r@ == Seq::<E>::empty(),
    {
        InstantEvent { deq: VecDeque::new() }
    }

    /// Appends `e` at the back of the queue; a full queue first drops its oldest
    /// event.
    pub fn enqueue(&mut self, e: E)
        ensures
            final(self)@ == keep_last(old(self)@.push(e), MAX_BUFFERED_EVENTS as int),
    {
        proof {
            use_type_invariant(&*self);
        }
        let mut d: VecDeque<E> = VecDeque::new();
        std::mem::swap(&mut d, &mut self.deq);
        if d.len() >= MAX_BUFFERED_EVENTS {
            d.pop_front();
        }
        d.push_back(e);
        assert(d@ =~= keep_last(old(self)@.push(e), MAX_BUFFERED_EVENTS as int));
        self.deq = d;
    }

    /// Removes every waiting event and hands them out, oldest first.
    pub fn drain(&mut self) -> (r: Vec<E>)
        ensures
            r@ == old(self)@,
            final(self)@ == Seq::<E>::empty(),
    {
        let mut d: VecDeque<E> = VecDeque::new();
        std::mem::swap(&mut d, &mut self.deq);
        let mut out: Vec<E> = Vec::new();
        while d.len() > 0
            invariant
                out@ + d@ == old(self)@,
            decreases d@.len(),
        {
            let e = d.pop_front().unwrap();
            proof {
                assert(out@.push(e) + d@ =~= old(self)@);
            }
            out.push(e);
        }
        assert(out@ =~= old(self)@);
        out
    }
}

} // verus!
