//! A per-character queue of events, drained in the order they were sent.
use vstd::prelude::*;

verus! {

/// Most events a queue holds; sending to a full queue drops its oldest event.
pub const MAX_BUFFERED_EVENTS: usize = 256;

/// The last `k` elements of `s`, or all of them where there are no more than `k`.
pub open spec fn keep_last<E>(s: Seq<E>, k: int) -> Seq<E> {
    if s.len() > k {
        s.subrange(s.len() - k, s.len() as int)
    } else {
        s
    }
}

/// The contents of a queue that held `q` after each of `es` is sent, in order.
pub open spec fn sent_all<E>(q: Seq<E>, es: Seq<E>) -> Seq<E>
    decreases es.len(),
{
    if es.len() == 0 {
        q
    } else {
        keep_last(sent_all(q, es.drop_last()).push(es.last()), MAX_BUFFERED_EVENTS as int)
    }
}

/// Events sent one by one are handed out by the next `read` after what was
/// already waiting, in the order they were sent, each exactly once, as long as
/// the queue never overflows.
pub proof fn lemma_read_after_sends<E>(q: Seq<E>, es: Seq<E>)
    requires
        q.len() + es.len() <= MAX_BUFFERED_EVENTS,
    ensures
        sent_all(q, es) == q + es,
    decreases es.len(),
{
    if es.len() > 0 {
        lemma_read_after_sends(q, es.drop_last());
        assert(q + es =~= (q + es.drop_last()).push(es.last()));
    } else {
        assert(q + es =~= q);
    }
}

/// Sending nothing changes nothing; sending one event is one `send`.
pub proof fn lemma_sent_one<E>(q: Seq<E>, e: E)
    ensures
        sent_all(q, Seq::<E>::empty()) == q,
        sent_all(q, seq![e]) == keep_last(q.push(e), MAX_BUFFERED_EVENTS as int),
{
    assert(seq![e].drop_last() =~= Seq::<E>::empty());
    assert(sent_all(q, Seq::<E>::empty()) == q);
}

/// Sending `a` and then `b` is sending `a + b`.
pub proof fn lemma_sent_all_append<E>(q: Seq<E>, a: Seq<E>, b: Seq<E>)
    ensures
        sent_all(sent_all(q, a), b) == sent_all(q, a + b),
    decreases b.len(),
{
    if b.len() == 0 {
        assert(a + b =~= a);
    } else {
        lemma_sent_all_append(q, a, b.drop_last());
        assert((a + b).drop_last() =~= a + b.drop_last());
        assert((a + b).last() == b.last());
    }
}

/// Events sent to one character, waiting for the next consumption pass.
pub struct InstantEventBuffer<E> {
    buff: Vec<E>,
}

impl<E> View for InstantEventBuffer<E> {
    type V = Seq<E>;

    /// The waiting events, oldest first.
    closed spec fn view(&self) -> Seq<E> {
        self.buff@
    }
}

impl<E> InstantEventBuffer<E> {
    #[verifier::type_invariant]
    spec fn bounded(&self) -> bool {
        self.buff@.len() <= MAX_BUFFERED_EVENTS
    }

    /// An empty buffer.
    pub fn new() -> (r: Self)
        ensures
            r@ == Seq::<E>::empty(),
    {
        InstantEventBuffer { buff: Vec::new() }
    }

    /// Number of waiting events.
    pub fn len(&self) -> (r: usize)
        ensures
            r == self@.len(),
            r <= MAX_BUFFERED_EVENTS,
    {
        proof {
            use_type_invariant(self);
        }
        self.buff.len()
    }

    /// Appends `e` after every event already waiting; a full buffer first drops
    /// its oldest event.
    pub fn send(&mut self, e: E)
        ensures
            final(self)@ == keep_last(old(self)@.push(e), MAX_BUFFERED_EVENTS as int),
    {
        proof {
            use_type_invariant(&*self);
        }
        let mut b: Vec<E> = Vec::new();
        std::mem::swap(&mut b, &mut self.buff);
        if b.len() >= MAX_BUFFERED_EVENTS {
            b.remove(0);
        }
        b.push(e);
        assert(b@ =~= keep_last(old(self)@.push(e), MAX_BUFFERED_EVENTS as int));
        self.buff = b;
    }

    /// Hands out every waiting event, oldest first, and leaves the buffer empty.
    pub fn read(&mut self) -> (r: Vec<E>)
        ensures
            r@ == old(self)@,
            final(self)@ == Seq::<E>::empty(),
    {
        let mut out: Vec<E> = Vec::new();
        std::mem::swap(&mut out, &mut self.buff);
        out
    }
}

} // verus!
