//! The callback hub: an ordered registry of event consumers. The hub
//! knows each consumer by the mask of the event kinds it wants, and says
//! for every event which consumers are to be called, and in which order.
//! Calling them is left to the caller.

use vstd::prelude::*;

verus! {

/// The positions of the masks that share a bit with `ev_mask`, in rising order.
pub open spec fn matching(masks: Seq<u64>, ev_mask: u64) -> Seq<int>
    decreases masks.len(),
{
    if masks.len() == 0 {
        Seq::empty()
    } else {
        let head = matching(masks.drop_last(), ev_mask);
        if masks.last() & ev_mask != 0 {
            head.push(masks.len() - 1)
        } else {
            head
        }
    }
}

/// The positions as mathematical integers.
pub open spec fn positions(v: Seq<usize>) -> Seq<int> {
    v.map_values(|i: usize| i as int)
}

/// Within one dispatch the consumers are called in the order in which
/// they were registered: the positions rise strictly.
pub proof fn lemma_dispatch_in_registration_order(masks: Seq<u64>, ev_mask: u64)
    ensures
        forall|a: int, b: int|
            0 <= a < b < matching(masks, ev_mask).len() ==> matching(masks, ev_mask)[a]
                < matching(masks, ev_mask)[b],
        forall|a: int|
            0 <= a < matching(masks, ev_mask).len() ==> 0 <= #[trigger] matching(
                masks,
                ev_mask,
            )[a] < masks.len(),
    decreases masks.len(),
{
    if masks.len() > 0 {
        lemma_dispatch_in_registration_order(masks.drop_last(), ev_mask);
        let m = matching(masks, ev_mask);
        let head = matching(masks.drop_last(), ev_mask);
    }
}

/// A consumer is called for an event if and only if its mask shares a bit
/// with the mask of the event.
pub proof fn lemma_mask_discipline(masks: Seq<u64>, ev_mask: u64, i: int)
    requires
        0 <= i < masks.len(),
    ensures
        matching(masks, ev_mask).contains(i) <==> masks[i] & ev_mask != 0,
    decreases masks.len(),
{
    let m = matching(masks, ev_mask);
    let head = matching(masks.drop_last(), ev_mask);
    lemma_dispatch_in_registration_order(masks.drop_last(), ev_mask);
    if i < masks.len() - 1 {
        lemma_mask_discipline(masks.drop_last(), ev_mask, i);
        if head.contains(i) {
            let k = choose|k: int| 0 <= k < head.len() && head[k] == i;
            assert(m[k] == i);
        }
        if m.contains(i) {
            let k = choose|k: int| 0 <= k < m.len() && m[k] == i;
        }
    } else {
        if masks.last() & ev_mask != 0 {
            assert(m[m.len() - 1] == i);
        } else {
            if m.contains(i) {
                let k = choose|k: int| 0 <= k < m.len() && m[k] == i;
            }
        }
    }
}

/// The registry of consumers, and whether their results are passed on.
pub struct CallbackHub {
    masks: Vec<u64>,
    results: bool,
}

impl CallbackHub {
    /// The masks of the consumers, in the order of registration.
    pub closed spec fn masks(&self) -> Seq<u64> {
        self.masks@
    }

    /// Whether a result channel is set.
    pub closed spec fn has_results(&self) -> bool {
        self.results
    }

    pub fn new() -> (r: Self)
        ensures
            r.masks() == Seq::<u64>::empty(),
            !r.has_results(),
    {
        CallbackHub { masks: Vec::new(), results: false }
    }

    /// Registers a consumer that wants the event kinds of `mask`; gives
    /// the position under which the hub knows it.
    pub fn add(&mut self, mask: u64) -> (slot: usize)
        ensures
            slot == old(self).masks().len(),
            final(self).masks() == old(self).masks().push(mask),
            final(self).has_results() == old(self).has_results(),
    {
        let slot = self.masks.len();
        self.masks.push(mask);
        slot
    }

    /// Has the results of the consumers passed on.
    pub fn set_result_channel(&mut self)
        ensures
            final(self).has_results(),
            final(self).masks() == old(self).masks(),
    {
        self.results = true;
    }

    pub fn len(&self) -> (n: usize)
        ensures
            n == self.masks().len(),
    {
        self.masks.len()
    }

    /// The consumers to call for an event of the kinds `ev_mask`, in the
    /// order in which they are to be called.
    pub fn fire(&self, ev_mask: u64) -> (slots: Vec<usize>)
        ensures
            positions(slots@) == matching(self.masks(), ev_mask),
            forall|a: int, b: int| 0 <= a < b < slots@.len() ==> slots@[a] < slots@[b],
            forall|i: int|
                0 <= i < self.masks().len() ==> (positions(slots@).contains(i) <==> self.masks()[i]
                    & ev_mask != 0),
    {
        let mut slots: Vec<usize> = Vec::new();
        let mut i: usize = 0;
        while i < self.masks.len()
            invariant
                i <= self.masks.len(),
                positions(slots@) == matching(self.masks@.take(i as int), ev_mask),
            decreases self.masks.len() - i,
        {
            assert(self.masks@.take(i + 1).drop_last() =~= self.masks@.take(i as int));
            if self.masks[i] & ev_mask != 0 {
                slots.push(i);
            }
            i += 1;
        }
        assert(self.masks@.take(self.masks.len() as int) =~= self.masks@);
        proof {
            lemma_dispatch_in_registration_order(self.masks@, ev_mask);
            assert forall|a: int, b: int| 0 <= a < b < slots@.len() implies slots@[a]
                < slots@[b] by {
                assert(positions(slots@)[a] == slots@[a]);
                assert(positions(slots@)[b] == slots@[b]);
            }
            assert forall|i: int| 0 <= i < self.masks@.len() implies (positions(
                slots@,
            ).contains(i) <==> self.masks@[i] & ev_mask != 0) by {
                lemma_mask_discipline(self.masks@, ev_mask, i);
            }
        }
        slots
    }

    /// Whether what a consumer gave back is passed on: there must be a
    /// result, and a result channel.
    pub fn forwards(&self, has_result: bool) -> (r: bool)
        ensures
            r == (has_result && self.has_results()),
    {
        has_result && self.results
    }
}

} // verus!
