use vstd::prelude::*;
use std::collections::VecDeque;

verus! {

/// A send into a queue holding `q` with room for `cap` items: the new contents, and
/// the item handed back to the sender when there was no room for it.
pub open spec fn send_outcome<T>(q: Seq<T>, cap: nat, x: T) -> (Seq<T>, Option<T>) {
    if q.len() < cap {
        (q.push(x), None)
    } else {
        (q, Some(x))
    }
}

/// A receive from a queue holding `q`: the new contents, and the oldest item if any.
pub open spec fn receive_outcome<T>(q: Seq<T>) -> (Seq<T>, Option<T>) {
    if q.len() == 0 {
        (q, None)
    } else {
        (q.drop_first(), Some(q[0]))
    }
}

/// A bounded first-in first-out queue of instructions. A sender finds the queue
/// full and gets its item back to send again once there is room: nothing is dropped.
pub struct InstructionChannel<T> {
    items: VecDeque<T>,
    capacity: usize,
}

impl<T> InstructionChannel<T> {
    pub closed spec fn contents(&self) -> Seq<T> {
        self.items@
    }

    pub closed spec fn capacity_spec(&self) -> nat {
        self.capacity as nat
    }

    pub open spec fn wf(&self) -> bool {
        0 < self.capacity_spec() && self.contents().len() <= self.capacity_spec()
    }

    /// An empty queue with room for `capacity` items.
    pub fn new(capacity: usize) -> (r: InstructionChannel<T>)
        requires
            capacity > 0,
        ensures
            r.wf(),
            r.contents() == Seq::<T>::empty(),
            r.capacity_spec() == capacity,
    {
        InstructionChannel { items: VecDeque::new(), capacity }
    }

    /// The number of queued items.
    pub fn len(&self) -> (r: usize)
        ensures
            r == self.contents().len(),
    {
        self.items.len()
    }

    /// How many items the queue can hold.
    pub fn capacity(&self) -> (r: usize)
        ensures
            r == self.capacity_spec(),
    {
        self.capacity
    }

    /// Whether a sender would have to wait.
    pub fn is_full(&self) -> (r: bool)
        requires
            self.wf(),
        ensures
            r == (self.contents().len() == self.capacity_spec()),
    {
        self.items.len() >= self.capacity
    }

    /// Puts `item` at the back if there is room; otherwise leaves the queue as it is
    /// and hands `item` back.
    pub fn try_send(&mut self, item: T) -> (r: Result<(), T>)
        requires
            old(self).wf(),
        ensures
            final(self).wf(),
            final(self).capacity_spec() == old(self).capacity_spec(),
            final(self).contents() == send_outcome(old(self).contents(), old(self).capacity_spec(), item).0,
            match r {
                Ok(()) => send_outcome(old(self).contents(), old(self).capacity_spec(), item).1 == None::<T>,
                Err(back) => send_outcome(old(self).contents(), old(self).capacity_spec(), item).1 == Some(back),
            },
    {
        if self.items.len() < self.capacity {
            self.items.push_back(item);
            Ok(())
        } else {
            Err(item)
        }
    }

    /// Takes the oldest item, if any.
    pub fn try_recv(&mut self) -> (r: Option<T>)
        requires
            old(self).wf(),
        ensures
            final(self).wf(),
            final(self).capacity_spec() == old(self).capacity_spec(),
            final(self).contents() == receive_outcome(old(self).contents()).0,
            r == receive_outcome(old(self).contents()).1,
    {
        self.items.pop_front()
    }
}

/// A sender that finds the queue full keeps its item and the queue is unchanged;
/// once the receiver took one item, the same send succeeds and puts the item last.
pub proof fn lemma_full_queue_holds_back<T>(q: Seq<T>, cap: nat, x: T)
    requires
        0 < cap,
        q.len() == cap,
    ensures
        send_outcome(q, cap, x) == (q, Some(x)),
        send_outcome(receive_outcome(q).0, cap, x) == (q.drop_first().push(x), None::<T>),
{
}

/// Items leave the queue in the order in which they were sent.
pub proof fn lemma_fifo<T>(q: Seq<T>, cap: nat, x: T, y: T)
    requires
        q.len() + 2 <= cap,
    ensures
        ({
            let q2 = send_outcome(send_outcome(q, cap, x).0, cap, y).0;
            q2 == q.push(x).push(y) && q2[q.len() as int] == x && q2[q.len() as int + 1] == y
        }),
{
}

} // verus!
