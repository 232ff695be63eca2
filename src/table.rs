//! Fixed-length tables built slot by slot from a stateful initializer.
use vstd::prelude::*;

verus! {

/// A source of slot values: each call of `next` yields one value and moves
/// the source on.
pub trait SlotInit<T>: Sized {
    /// `next` may be called in this state.
    spec fn ready(&self) -> bool;

    /// The value `next` yields in this state.
    spec fn value(&self) -> T;

    /// The state after one call of `next`.
    spec fn advanced(&self) -> Self;

    /// Yields the value of this state and moves on.
    fn next(&mut self) -> (r: T)
        requires
            old(self).ready(),
        ensures
            r == old(self).value(),
            *final(self) == old(self).advanced(),
    ;
}

/// The state of `s` after `k` calls of `next`.
pub open spec fn advanced_by<T, I: SlotInit<T>>(s: I, k: nat) -> I
    decreases k,
{
    if k == 0 {
        s
    } else {
        advanced_by::<T, I>(s, (k - 1) as nat).advanced()
    }
}

/// Builds a table of exactly `N` slots, filling slot `i` with the value of
/// the `i`-th call of `init.next()`; `init` is called exactly `N` times, in
/// slot order, and the table is handed back only once every slot is filled.
pub fn create_array<const N: usize, T, I: SlotInit<T>>(init: &mut I) -> (r: Vec<T>)
    requires
        forall|k: nat| k < N ==> #[trigger] advanced_by::<T, I>(*old(init), k).ready(),
    ensures
        r@.len() == N,
        forall|i: int| 0 <= i < N ==> r@[i] == #[trigger] advanced_by::<T, I>(*old(init), i as nat).value(),
        *final(init) == advanced_by::<T, I>(*old(init), N as nat),
{
    let mut table: Vec<T> = Vec::new();
    let mut i: usize = 0;
    while i < N
        invariant
            i <= N,
            table@.len() == i,
            *init == advanced_by::<T, I>(*old(init), i as nat),
            forall|k: nat| k < N ==> #[trigger] advanced_by::<T, I>(*old(init), k).ready(),
            forall|j: int| 0 <= j < i ==> table@[j] == #[trigger] advanced_by::<T, I>(*old(init), j as nat).value(),
        decreases N - i,
    {
        proof {
            assert(advanced_by::<T, I>(*old(init), i as nat).ready());
        }
        let v = init.next();
        table.push(v);
        i = i + 1;
    }
    table
}

/// A counter that yields 0, 1, 2, ... from its starting value.
pub struct Counter {
    pub count: u64,
}

impl Counter {
    /// A counter from 0.
    pub fn new() -> (r: Counter)
        ensures
            r.count == 0,
    {
        Counter { count: 0 }
    }
}

impl SlotInit<u64> for Counter {
    open spec fn ready(&self) -> bool {
        self.count < u64::MAX
    }

    open spec fn value(&self) -> u64 {
        self.count
    }

    open spec fn advanced(&self) -> Counter {
        Counter { count: (self.count + 1) as u64 }
    }

    fn next(&mut self) -> (r: u64) {
        let r = self.count;
        self.count = self.count + 1;
        r
    }
}

/// A counter advanced `k` times holds its start plus `k`.
pub proof fn lemma_counter_advanced(c: Counter, k: nat)
    requires
        c.count + k <= u64::MAX,
    ensures
        advanced_by::<u64, Counter>(c, k).count == c.count + k,
    decreases k,
{
    if k > 0 {
        lemma_counter_advanced(c, (k - 1) as nat);
    }
}

/// A table built from a counter holds consecutive values from the counter's
/// start, in slot order, and the counter was called exactly once per slot:
/// a counter from 0 over four slots gives `[0, 1, 2, 3]` and ends at 4.
pub proof fn lemma_counter_table(c: Counter, n: nat)
    requires
        c.count + n < u64::MAX,
    ensures
        forall|k: nat| k < n ==> #[trigger] advanced_by::<u64, Counter>(c, k).ready(),
        forall|i: nat| i < n ==> #[trigger] advanced_by::<u64, Counter>(c, i).value() == c.count + i,
        advanced_by::<u64, Counter>(c, n).count == c.count + n,
{
    assert forall|k: nat| k < n implies #[trigger] advanced_by::<u64, Counter>(c, k).ready() by {
        lemma_counter_advanced(c, k);
    }
    assert forall|i: nat| i < n implies #[trigger] advanced_by::<u64, Counter>(c, i).value() == c.count + i by {
        lemma_counter_advanced(c, i);
    }
    lemma_counter_advanced(c, n);
}

} // verus!
