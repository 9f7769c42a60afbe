//! Ordered collection of the results of independent units that complete in
//! any order: each result goes to the slot of its input index, the first
//! failure fails the whole batch, and the results come out in input order.
use vstd::prelude::*;

verus! {

/// One slot per input, filled as units complete.
pub struct BatchSlots<T> {
    pub slots: Vec<Option<T>>,
}

/// Processes completions `(index, outcome)` in the order given: the first
/// failure ends the run with its error; otherwise the slots filled.
pub open spec fn run_batch<T, E>(slots: Seq<Option<T>>, events: Seq<(int, Result<T, E>)>) -> Result<
    Seq<Option<T>>,
    E,
>
    decreases events.len(),
{
    if events.len() == 0 {
        Ok(slots)
    } else {
        match events[0].1 {
            Err(e) => Err(e),
            Ok(v) => run_batch(slots.update(events[0].0, Some(v)), events.drop_first()),
        }
    }
}

/// `order` lists each index below `n` exactly once.
pub open spec fn is_permutation(order: Seq<int>, n: int) -> bool {
    &&& order.len() == n
    &&& forall|j: int| 0 <= j < n ==> 0 <= #[trigger] order[j] < n
    &&& forall|j: int, k: int| 0 <= j < k < n ==> order[j] != order[k]
    &&& forall|i: int| 0 <= i < n ==> #[trigger] done_before(order, n, i)
}

/// The completions of successful units in the given order, unit `i`
/// yielding `values[i]`.
pub open spec fn successes_in_order<T, E>(order: Seq<int>, values: Seq<T>) -> Seq<(int, Result<T, E>)> {
    Seq::new(order.len(), |j: int| (order[j], Ok(values[order[j]])))
}

pub open spec fn empty_slots<T>(n: nat) -> Seq<Option<T>> {
    Seq::new(n, |i: int| None::<T>)
}

pub open spec fn done_before(order: Seq<int>, k: int, i: int) -> bool {
    exists|j: int| 0 <= j < k && order[j] == i
}

proof fn lemma_run_successes<T, E>(order: Seq<int>, values: Seq<T>, k: int, slots: Seq<Option<T>>)
    requires
        is_permutation(order, values.len() as int),
        0 <= k <= order.len(),
        slots.len() == values.len(),
        forall|i: int|
            0 <= i < values.len() ==> #[trigger] slots[i] == if done_before(order, k, i) {
                Some(values[i])
            } else {
                None
            },
    ensures
        run_batch(slots, successes_in_order::<T, E>(order, values).skip(k)) == Ok::<Seq<Option<T>>, E>(
            Seq::new(values.len(), |i: int| Some(values[i])),
        ),
    decreases order.len() - k,
{
    let n = values.len() as int;
    let ev = successes_in_order::<T, E>(order, values).skip(k);
    if k == n {
        assert(ev.len() == 0);
        assert(slots =~= Seq::new(values.len(), |i: int| Some(values[i])));
    } else {
        let idx = order[k];
        let next = slots.update(idx, Some(values[idx]));
        assert(ev[0] == (idx, Ok::<T, E>(values[idx])));
        assert(ev.drop_first() =~= successes_in_order::<T, E>(order, values).skip(k + 1));
        assert forall|i: int| 0 <= i < n implies #[trigger] next[i] == if done_before(order, k + 1, i) {
            Some(values[i])
        } else {
            None
        } by {
            if i == idx {
                assert(done_before(order, k + 1, i));
            } else {
                if done_before(order, k + 1, i) {
                    let j = choose|j: int| 0 <= j < k + 1 && order[j] == i;
                    assert(j != k);
                    assert(done_before(order, k, i));
                }
                if done_before(order, k, i) {
                    let j = choose|j: int| 0 <= j < k && order[j] == i;
                    assert(done_before(order, k + 1, i));
                }
            }
        }
        lemma_run_successes::<T, E>(order, values, k + 1, next);
    }
}

/// Whatever the order in which the units complete, a batch of successful
/// units yields its results in input order: unit `i`'s result in slot `i`.
pub proof fn lemma_batch_keeps_input_order<T, E>(order: Seq<int>, values: Seq<T>)
    requires
        is_permutation(order, values.len() as int),
    ensures
        run_batch(empty_slots::<T>(values.len()), successes_in_order::<T, E>(order, values)) == Ok::<
            Seq<Option<T>>,
            E,
        >(Seq::new(values.len(), |i: int| Some(values[i]))),
{
    let s = empty_slots::<T>(values.len());
    assert(successes_in_order::<T, E>(order, values).skip(0) =~= successes_in_order::<T, E>(order, values));
    lemma_run_successes::<T, E>(order, values, 0, s);
}

/// A batch in which some unit fails fails as a whole, with the error of the
/// first failure to complete.
pub proof fn lemma_batch_fails_on_failure<T, E>(slots: Seq<Option<T>>, events: Seq<(int, Result<T, E>)>, f: int)
    requires
        0 <= f < events.len(),
        events[f].1 is Err,
        forall|j: int| 0 <= j < f ==> (#[trigger] events[j]).1 is Ok,
    ensures
        run_batch(slots, events) == Err::<Seq<Option<T>>, E>(events[f].1->Err_0),
    decreases f,
{
    if f > 0 {
        let v = events[0].1->Ok_0;
        assert(events[0].1 is Ok);
        lemma_batch_fails_on_failure(slots.update(events[0].0, Some(v)), events.drop_first(), f - 1);
    }
}

impl<T> BatchSlots<T> {
    /// `n` empty slots.
    pub fn new(n: usize) -> (r: BatchSlots<T>)
        ensures
            r.slots@ == empty_slots::<T>(n as nat),
    {
        let mut slots: Vec<Option<T>> = Vec::new();
        let mut i: usize = 0;
        while i < n
            invariant
                i <= n,
                slots@ == empty_slots::<T>(i as nat),
            decreases n - i,
        {
            slots.push(None);
            i = i + 1;
            assert(slots@ =~= empty_slots::<T>(i as nat));
        }
        BatchSlots { slots }
    }

    /// Records the completion of unit `index`: a result fills its slot; a
    /// failure leaves the slots as they are and is handed back, to end the batch.
    pub fn record<E>(&mut self, index: usize, outcome: Result<T, E>) -> (r: Option<E>)
        requires
            index < old(self).slots@.len(),
        ensures
            outcome matches Ok(v) ==> r is None && final(self).slots@ == old(self).slots@.update(index as int, Some(v)),
            outcome matches Err(e) ==> r == Some(e) && final(self).slots@ == old(self).slots@,
            run_batch(old(self).slots@, seq![(index as int, outcome)]) == match r {
                Some(e) => Err::<Seq<Option<T>>, E>(e),
                None => Ok::<Seq<Option<T>>, E>(final(self).slots@),
            },
    {
        proof {
            reveal_with_fuel(run_batch, 2);
            assert(seq![(index as int, outcome)].drop_first() =~= Seq::<(int, Result<T, E>)>::empty());
        }
        match outcome {
            Ok(v) => {
                self.slots.set(index, Some(v));
                None
            },
            Err(e) => Some(e),
        }
    }

    /// The results in input order, or `None` while some slot is still empty.
    pub fn finish(self) -> (r: Option<Vec<T>>)
        ensures
            r is Some <==> forall|i: int| 0 <= i < self.slots@.len() ==> (#[trigger] self.slots@[i]) is Some,
            r matches Some(v) ==> v@.len() == self.slots@.len() && forall|i: int|
                0 <= i < v@.len() ==> self.slots@[i] == Some(#[trigger] v@[i]),
    {
        let ghost orig = self.slots@;
        let mut slots = self.slots;
        let mut out: Vec<T> = Vec::new();
        while slots.len() > 0
            invariant
                orig == self.slots@,
                out@.len() + slots@.len() == orig.len(),
                slots@ == orig.skip(out@.len() as int),
                forall|i: int| 0 <= i < out@.len() ==> orig[i] == Some(#[trigger] out@[i]),
            decreases slots@.len(),
        {
            let ghost k = out@.len() as int;
            let first = slots.remove(0);
            assert(slots@ =~= orig.skip(k + 1));
            match first {
                Some(v) => out.push(v),
                None => {
                    assert(orig[k] is None);
                    assert(!(forall|i: int| 0 <= i < orig.len() ==> (#[trigger] orig[i]) is Some));
                    return None;
                },
            }
        }
        assert forall|i: int| 0 <= i < orig.len() implies (#[trigger] orig[i]) is Some by {
            assert(orig[i] == Some(out@[i]));
        }
        Some(out)
    }
}

} // verus!
