//! Events that wait.
use std::collections::VecDeque;
use vstd::prelude::*;

verus! {

/// Events that were taken and put back: they come before all that are still to come.
pub struct Lookahead<E> {
    queue: VecDeque<E>,
}

impl<E> View for Lookahead<E> {
    type V = Seq<E>;

    closed spec fn view(&self) -> Seq<E> {
        self.queue@
    }
}

impl<E> Lookahead<E> {
    /// No event waits.
    pub fn new() -> (r: Self)
        ensures
            r@ == Seq::<E>::empty(),
    {
        Lookahead { queue: VecDeque::new() }
    }

    /// Takes the event that waits at the front.
    pub fn take(&mut self) -> (r: Option<E>)
        ensures
            old(self)@.len() == 0 ==> r is None && final(self)@ == old(self)@,
            old(self)@.len() > 0 ==> r == Some(old(self)@[0]) && final(self)@ == old(self)@.skip(1),
    {
        let r = self.queue.pop_front();
        assert(old(self)@.len() > 0 ==> self@ =~= old(self)@.skip(1));
        r
    }

    /// Puts an event back at the front.
    pub fn unget(&mut self, event: E)
        ensures
            final(self)@ == seq![event] + old(self)@,
    {
        self.queue.push_front(event);
    }
}

/// An event that was put back is the next one, and taking it leaves what there was.
pub proof fn law_unget_then_take<E>(waiting: Seq<E>, event: E)
    ensures
        (seq![event] + waiting)[0] == event,
        (seq![event] + waiting).skip(1) == waiting,
{
    assert((seq![event] + waiting).skip(1) =~= waiting);
}

/// Of events that were put back, the one put back last comes first, and taking them leaves what
/// there was.
pub proof fn law_last_put_back_comes_first<E>(waiting: Seq<E>, first: E, second: E)
    ensures
        ({
            let both = seq![second] + (seq![first] + waiting);
            &&& both[0] == second
            &&& both.skip(1)[0] == first
            &&& both.skip(1).skip(1) == waiting
        }),
{
    law_unget_then_take(seq![first] + waiting, second);
    law_unget_then_take(waiting, first);
}

} // verus!
