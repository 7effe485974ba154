//! A bounded collector of results: an item is taken only while fewer than
//! the cap are held, the test and the insert being one step.
use vstd::prelude::*;

verus! {

/// `s` cut to its first `n` items.
pub open spec fn capped<A>(s: Seq<A>, n: nat) -> Seq<A> {
    if s.len() <= n {
        s
    } else {
        s.take(n as int)
    }
}

/// Offering an item to a capped sequence keeps it capped.
pub proof fn lemma_capped_push<A>(s: Seq<A>, x: A, n: nat)
    ensures
        capped(s.push(x), n) == (if capped(s, n).len() < n {
            capped(s, n).push(x)
        } else {
            capped(s, n)
        }),
{
    if s.len() < n {
        assert(capped(s.push(x), n) =~= s.push(x));
    } else {
        assert(capped(s.push(x), n) =~= capped(s, n));
    }
}

/// Results gathered up to a cap.
pub struct ResultCollector<T> {
    items: Vec<T>,
    cap: usize,
}

impl<T> ResultCollector<T> {
    /// The items held, in the order they were taken.
    pub closed spec fn items(&self) -> Seq<T> {
        self.items@
    }

    /// The most items this collector takes.
    pub closed spec fn cap(&self) -> nat {
        self.cap as nat
    }

    /// An empty collector that takes at most `cap` items.
    pub fn new(cap: usize) -> (r: Self)
        ensures
            r.items() == Seq::<T>::empty(),
            r.cap() == cap,
    {
        ResultCollector { items: Vec::new(), cap }
    }

    /// Takes `x` if fewer than the cap are held; says whether it did.
    pub fn offer(&mut self, x: T) -> (taken: bool)
        ensures
            final(self).cap() == old(self).cap(),
            taken == (old(self).items().len() < old(self).cap()),
            taken ==> final(self).items() == old(self).items().push(x),
            !taken ==> final(self).items() == old(self).items(),
    {
        if self.items.len() < self.cap {
            self.items.push(x);
            true
        } else {
            false
        }
    }

    /// Whether the cap is reached.
    pub fn is_full(&self) -> (r: bool)
        ensures
            r == (self.items().len() >= self.cap()),
    {
        self.items.len() >= self.cap
    }

    /// The items held.
    pub fn into_items(self) -> (r: Vec<T>)
        ensures
            r@ == self.items(),
    {
        self.items
    }
}

} // verus!
