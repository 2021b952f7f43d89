//! An ordered mailbox: what is delivered is handed out by the next drain,
//! in the order of delivery, once.

use vstd::prelude::*;

verus! {

/// Items that wait for their consumer, the oldest first.
#[derive(Debug)]
pub struct Mailbox<T> {
    pending: Vec<T>,
}

impl<T> View for Mailbox<T> {
    type V = Seq<T>;

    closed spec fn view(&self) -> Seq<T> {
        self.pending@
    }
}

impl<T> Mailbox<T> {
    /// An empty mailbox.
    pub fn new() -> (mailbox: Mailbox<T>)
        ensures
            mailbox@ == Seq::<T>::empty(),
    {
        Mailbox { pending: Vec::new() }
    }

    /// The number of items that wait.
    pub fn len(&self) -> (count: usize)
        ensures
            count == self@.len(),
    {
        self.pending.len()
    }

    /// Puts an item behind those that wait already.
    pub fn deliver(&mut self, item: T)
        ensures
            final(self)@ == old(self)@.push(item),
    {
        self.pending.push(item);
    }

    /// Hands out everything that was delivered since the last drain, in the
    /// order of delivery, and leaves the mailbox empty.
    pub fn drain(&mut self) -> (items: Vec<T>)
        ensures
            items@ == old(self)@,
            final(self)@ == Seq::<T>::empty(),
    {
        let mut items: Vec<T> = Vec::new();
        std::mem::swap(&mut self.pending, &mut items);
        items
    }
}

/// The items in the opposite order.
pub fn reversed<T>(items: Vec<T>) -> (turned: Vec<T>)
    ensures
        turned@ == items@.reverse(),
{
    let mut items = items;
    let mut turned: Vec<T> = Vec::new();
    let ghost all = items@;
    while items.len() > 0
        invariant
            items@ == all.take(items@.len() as int),
            items@.len() <= all.len(),
            turned@.len() + items@.len() == all.len(),
            forall|k: int| 0 <= k < turned@.len() ==> turned@[k] == all[all.len() - 1 - k],
        decreases items@.len(),
    {
        let last = items.pop();
        match last {
            Some(item) => {
                turned.push(item);
            },
            None => {},
        }
        assert(items@ =~= all.take(items@.len() as int));
    }
    assert(turned@ =~= all.reverse());
    turned
}

} // verus!
