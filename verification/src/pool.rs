//! The pool of pre-fetched rounds: first in, first out.

use vstd::prelude::*;
use std::collections::VecDeque;
use crate::coordinates::Location;
use crate::image::Image;

verus! {

/// A location together with the images shown for it.
#[derive(Debug)]
pub struct PreparedRound<C> {
    pub location: Location<C>,
    pub images: Vec<Image>,
}

impl<C: Copy> Clone for PreparedRound<C> {
    fn clone(&self) -> (r: Self)
        ensures
            r.location == self.location,
            r.images@ == self.images@,
    {
        PreparedRound { location: self.location.clone(), images: crate::image::clone_images(&self.images) }
    }
}

/// Pre-fetched rounds. A background worker appends at the back; rooms take
/// from the front. (The server shares one pool between tasks behind a lock.)
pub struct LocationPool<C> {
    inner: VecDeque<PreparedRound<C>>,
}

impl<C> View for LocationPool<C> {
    type V = Seq<PreparedRound<C>>;

    /// The rounds in the pool, front first.
    closed spec fn view(&self) -> Seq<PreparedRound<C>> {
        self.inner@
    }
}

impl<C> LocationPool<C> {
    /// An empty pool.
    pub fn new() -> (p: Self)
        ensures
            p@ == Seq::<PreparedRound<C>>::empty(),
    {
        LocationPool { inner: VecDeque::new() }
    }

    /// Takes the round at the front; `None` if the pool is empty.
    pub fn pop(&mut self) -> (r: Option<PreparedRound<C>>)
        ensures
            old(self)@.len() == 0 ==> r is None && final(self)@ == old(self)@,
            old(self)@.len() > 0 ==> r == Some(old(self)@[0]) && final(self)@ == old(self)@.drop_first(),
    {
        self.inner.pop_front()
    }

    /// Appends rounds at the back, in order.
    pub fn push_batch(&mut self, rounds: Vec<PreparedRound<C>>)
        ensures
            final(self)@ == old(self)@ + rounds@,
    {
        let ghost start = self.inner@;
        let ghost all = rounds@;
        let mut rest = rounds;
        let n = rest.len();
        let mut i: usize = 0;
        while i < n
            invariant
                n == all.len(),
                0 <= i <= n,
                rest@ == all.skip(i as int),
                self.inner@ == start + all.take(i as int),
            decreases n - i,
        {
            let r = rest.remove(0);
            assert(all.take(i + 1) =~= all.take(i as int).push(r));
            assert(rest@ =~= all.skip(i + 1));
            self.inner.push_back(r);
            i = i + 1;
        }
        assert(all.take(n as int) =~= all);
    }

    /// Number of rounds available.
    pub fn len(&self) -> (n: usize)
        ensures
            n == self@.len(),
    {
        self.inner.len()
    }

    /// Whether the pool is empty.
    pub fn is_empty(&self) -> (b: bool)
        ensures
            b == (self@.len() == 0),
    {
        self.len() == 0
    }
}

/// Rounds come out of the pool in the order they went in: after pushing a
/// batch onto a pool holding `before`, the next `before.len() + batch.len()`
/// pops return `before` and then the batch, element by element.
pub proof fn lemma_pool_fifo<C>(before: Seq<PreparedRound<C>>, batch: Seq<PreparedRound<C>>, k: int)
    requires
        0 <= k < before.len() + batch.len(),
    ensures
        (before + batch).skip(k)[0] == if k < before.len() { before[k] } else { batch[k - before.len()] },
        (before + batch).skip(k).drop_first() == (before + batch).skip(k + 1),
{
    assert((before + batch).skip(k).drop_first() =~= (before + batch).skip(k + 1));
}

} // verus!
