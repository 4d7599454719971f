//! The central inbox: the bounded queue between the transports and the
//! dispatcher.
//!
//! Every transport puts the envelopes that it reads into the one inbox, and
//! the dispatcher takes them out one by one. When the inbox is full a reader
//! has to wait, which holds the remote sender back.

use crate::messages::{FullMessage, FullMessageView};
use std::collections::VecDeque;
use vstd::prelude::*;

verus! {

/// An envelope with the transport that it arrived on.
#[derive(Debug, PartialEq, Eq)]
pub struct Inbound {
    pub transport: u64,
    pub envelope: FullMessage,
}

/// The value of an [`Inbound`].
pub struct InboundView {
    pub transport: u64,
    pub envelope: FullMessageView,
}

impl View for Inbound {
    type V = InboundView;

    open spec fn view(&self) -> InboundView {
        InboundView { transport: self.transport, envelope: self.envelope@ }
    }
}

/// Whether something arrived on `transport`.
pub open spec fn arrived_on(transport: u64) -> spec_fn(InboundView) -> bool {
    |item: InboundView| item.transport == transport
}

/// The envelopes of a queue, in the order in which they stand.
pub open spec fn envelopes(queue: Seq<InboundView>) -> Seq<FullMessageView> {
    Seq::new(queue.len(), |i: int| queue[i].envelope)
}

/// The envelopes of a queue that arrived on `transport`, in the order in
/// which they stand.
pub open spec fn arrivals(queue: Seq<InboundView>, transport: u64) -> Seq<FullMessageView> {
    envelopes(queue.filter(arrived_on(transport)))
}

/// What arrives on a transport joins the envelopes of that transport at the
/// end, and leaves the envelopes of every other transport as they are.
pub proof fn arrival_joins_last(queue: Seq<InboundView>, item: InboundView, transport: u64)
    ensures
        arrivals(queue.push(item), transport) == if item.transport == transport {
            arrivals(queue, transport).push(item.envelope)
        } else {
            arrivals(queue, transport)
        },
{
    queue.lemma_filter_push(item, arrived_on(transport));
    if item.transport == transport {
        assert(envelopes(queue.filter(arrived_on(transport)).push(item)) =~= envelopes(
            queue.filter(arrived_on(transport)),
        ).push(item.envelope));
    }
}

/// Dispatch order equals arrival order: the envelope that leaves the queue
/// is the earliest of its transport, the envelopes of that transport that
/// stay are the later ones in their order, and the envelopes of every other
/// transport stay as they are.
pub proof fn arrival_order_kept(queue: Seq<InboundView>, transport: u64)
    requires
        queue.len() > 0,
    ensures
        arrivals(queue.skip(1), transport) == if queue[0].transport == transport {
            arrivals(queue, transport).skip(1)
        } else {
            arrivals(queue, transport)
        },
        queue[0].transport == transport ==> arrivals(queue, transport).len() > 0 && arrivals(
            queue,
            transport,
        )[0] == queue[0].envelope,
{
    let on = arrived_on(transport);
    let first = seq![queue[0]];
    let rest = queue.skip(1);
    let none = Seq::<InboundView>::empty();
    assert(queue =~= first + rest);
    Seq::filter_distributes_over_add(first, rest, on);
    none.lemma_filter_push(queue[0], on);
    none.lemma_filter_len(on);
    assert(none.push(queue[0]) =~= first);
    assert(none.filter(on) =~= none);
    if queue[0].transport == transport {
        assert(first.filter(on) =~= first);
        assert(envelopes(first + rest.filter(on)).skip(1) =~= envelopes(rest.filter(on)));
    } else {
        assert(first.filter(on) =~= none);
        assert(none + rest.filter(on) =~= rest.filter(on));
    }
}

/// The bounded first-in, first-out queue of what has arrived and has not
/// been dispatched yet.
pub struct Inbox {
    queue: VecDeque<Inbound>,
    capacity: usize,
}

/// The value of each item of a queue.
pub open spec fn queue_of(items: Seq<Inbound>) -> Seq<InboundView> {
    Seq::new(items.len(), |i: int| items[i]@)
}

impl View for Inbox {
    type V = Seq<InboundView>;

    closed spec fn view(&self) -> Seq<InboundView> {
        queue_of(self.queue@)
    }
}

impl Inbox {
    /// The queue holds no more than its capacity. This holds of every inbox
    /// that the program holds.
    #[verifier::type_invariant]
    pub closed spec fn bounded(self) -> bool {
        self.queue@.len() <= self.capacity
    }

    /// The number of envelopes that the inbox can hold.
    pub closed spec fn capacity(&self) -> nat {
        self.capacity as nat
    }

    /// An empty inbox that holds up to `capacity` envelopes.
    pub fn new(capacity: usize) -> (r: Inbox)
        ensures
            r@ == Seq::<InboundView>::empty(),
            r.capacity() == capacity,
    {
        let queue: VecDeque<Inbound> = VecDeque::new();
        assert(queue_of(queue@) =~= Seq::<InboundView>::empty());
        Inbox { queue, capacity }
    }

    /// The number of envelopes that wait.
    pub fn len(&self) -> (r: usize)
        ensures
            r == self@.len(),
            self@.len() <= self.capacity(),
    {
        proof {
            use_type_invariant(self);
        }
        self.queue.len()
    }

    /// Whether a reader has to wait.
    pub fn is_full(&self) -> (r: bool)
        ensures
            r == (self@.len() == self.capacity()),
    {
        proof {
            use_type_invariant(self);
        }
        self.queue.len() == self.capacity
    }

    /// Puts what has arrived at the end of the queue. A full inbox stays as
    /// it is and hands the envelope back.
    pub fn push(&mut self, item: Inbound) -> (r: Result<(), Inbound>)
        ensures
            final(self).capacity() == old(self).capacity(),
            old(self)@.len() < old(self).capacity() ==> r is Ok
                && final(self)@ == old(self)@.push(item@),
            old(self)@.len() >= old(self).capacity() ==> r == Err::<(), Inbound>(item)
                && final(self)@ == old(self)@,
    {
        proof {
            use_type_invariant(&*self);
        }
        if self.queue.len() >= self.capacity {
            return Err(item);
        }
        let ghost before = self@;
        let ghost value = item@;
        let mut queue = VecDeque::new();
        core::mem::swap(&mut queue, &mut self.queue);
        queue.push_back(item);
        assert(queue_of(queue@) =~= before.push(value));
        self.queue = queue;
        Ok(())
    }

    /// Takes the envelope that has waited longest.
    pub fn pop(&mut self) -> (r: Option<Inbound>)
        ensures
            final(self).capacity() == old(self).capacity(),
            old(self)@.len() == 0 ==> r is None && final(self)@ == old(self)@,
            old(self)@.len() > 0 ==> r is Some && r->0@ == old(self)@[0]
                && final(self)@ == old(self)@.skip(1),
    {
        proof {
            use_type_invariant(&*self);
        }
        let ghost before = self@;
        let mut queue = VecDeque::new();
        core::mem::swap(&mut queue, &mut self.queue);
        let item = queue.pop_front();
        assert(queue_of(queue@) =~= if before.len() > 0 {
            before.skip(1)
        } else {
            before
        });
        self.queue = queue;
        item
    }
}

} // verus!
