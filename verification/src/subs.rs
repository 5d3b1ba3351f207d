//! The set of live subscribers.
//!
//! Subscribers are tracked by plain identifiers; the connection each one
//! stands for lives with the caller.  Membership changes in two ways only:
//! a newly accepted subscriber is inserted, and a subscriber whose write
//! failed is pruned by the per-event pass.  Pruning one subscriber never
//! touches the others: the pass takes one write outcome for every member
//! and keeps exactly those whose write succeeded.

use vstd::prelude::*;

verus! {

/// No identifier occurs twice.
pub open spec fn distinct_ids(ids: Seq<u64>) -> bool {
    forall|i: int, j: int| 0 <= i < j < ids.len() ==> ids[i] != ids[j]
}

/// The members kept by a pruning pass: those whose write outcome was good,
/// in their old order.
pub open spec fn spec_retain(ids: Seq<u64>, ok: Seq<bool>) -> Seq<u64>
    recommends
        ids.len() == ok.len(),
    decreases ids.len(),
{
    if ids.len() == 0 {
        Seq::empty()
    } else {
        spec_retain(ids.drop_last(), ok.drop_last()) + if ok.last() {
            seq![ids.last()]
        } else {
            Seq::empty()
        }
    }
}

/// Whatever a pruning pass keeps was a member before, and pruning keeps
/// distinct identifiers distinct.
pub proof fn lemma_retain_subset(ids: Seq<u64>, ok: Seq<bool>)
    requires
        ids.len() == ok.len(),
    ensures
        forall|x: u64| spec_retain(ids, ok).contains(x) ==> ids.contains(x),
        distinct_ids(ids) ==> distinct_ids(spec_retain(ids, ok)),
    decreases ids.len(),
{
    if ids.len() == 0 {
    } else {
        lemma_retain_subset(ids.drop_last(), ok.drop_last());
        let kept = spec_retain(ids, ok);
        let kept_front = spec_retain(ids.drop_last(), ok.drop_last());
        assert forall|x: u64| kept.contains(x) implies ids.contains(x) by {
            let w = choose|w: int| 0 <= w < kept.len() && kept[w] == x;
            if w < kept_front.len() {
                assert(kept_front[w] == x);
                assert(kept_front.contains(x));
                assert(ids.drop_last().contains(x));
                let v = choose|v: int| 0 <= v < ids.drop_last().len() && ids.drop_last()[v] == x;
                assert(ids[v] == x);
            } else {
                assert(x == ids.last());
                assert(ids[ids.len() - 1] == x);
            }
        }
        if distinct_ids(ids) {
            assert(distinct_ids(ids.drop_last()));
            if ok.last() {
                assert forall|i: int, j: int| 0 <= i < j < kept.len() implies kept[i] != kept[j]
                    by {
                    if j == kept.len() - 1 {
                        assert(kept[j] == ids.last());
                        assert(kept_front[i] == kept[i]);
                        assert(kept_front.contains(kept[i]));
                        assert(ids.drop_last().contains(kept[i]));
                        let v = choose|v: int|
                            0 <= v < ids.drop_last().len() && ids.drop_last()[v] == kept[i];
                        assert(ids[v] == kept[i]);
                        assert(ids[v] != ids[ids.len() - 1]);
                    }
                }
            }
        }
    }
}

/// A subscriber whose write failed is gone after the pruning pass, and every
/// subscriber whose write succeeded is still there: one failing socket never
/// costs any other subscriber its membership, for this event or later ones.
pub proof fn lemma_failed_write_prunes(ids: Seq<u64>, ok: Seq<bool>, i: int)
    requires
        ids.len() == ok.len(),
        0 <= i < ids.len(),
        distinct_ids(ids),
    ensures
        !ok[i] ==> !spec_retain(ids, ok).contains(ids[i]),
        ok[i] ==> spec_retain(ids, ok).contains(ids[i]),
    decreases ids.len(),
{
    lemma_retain_subset(ids, ok);
    let kept = spec_retain(ids, ok);
    let kept_front = spec_retain(ids.drop_last(), ok.drop_last());
    if i == ids.len() - 1 {
        if ok[i] {
            assert(kept[kept.len() - 1] == ids.last());
        } else {
            assert(kept =~= kept_front);
            lemma_retain_subset(ids.drop_last(), ok.drop_last());
            if kept.contains(ids[i]) {
                assert(ids.drop_last().contains(ids[i]));
                let v = choose|v: int|
                    0 <= v < ids.drop_last().len() && ids.drop_last()[v] == ids[i];
                assert(ids[v] == ids[i]);
            }
        }
    } else {
        assert(distinct_ids(ids.drop_last()));
        lemma_failed_write_prunes(ids.drop_last(), ok.drop_last(), i);
        assert(ids.drop_last()[i] == ids[i]);
        if ok[i] {
            assert(kept_front.contains(ids[i]));
            let v = choose|v: int| 0 <= v < kept_front.len() && kept_front[v] == ids[i];
            assert(kept[v] == ids[i]);
        } else {
            if kept.contains(ids[i]) {
                let w = choose|w: int| 0 <= w < kept.len() && kept[w] == ids[i];
                if w < kept_front.len() {
                    assert(kept_front.contains(ids[i]));
                } else {
                    assert(ids[i] == ids.last());
                    assert(ids[i] != ids[ids.len() - 1]);
                }
            }
        }
    }
}

/// The live subscribers, each as one identifier, every identifier distinct.
pub struct SubscriberSet {
    ids: Vec<u64>,
}

impl View for SubscriberSet {
    type V = Seq<u64>;

    closed spec fn view(&self) -> Seq<u64> {
        self.ids@
    }
}

impl SubscriberSet {
    /// Every member is distinct.
    pub open spec fn wf(&self) -> bool {
        distinct_ids(self@)
    }

    /// An empty set.
    pub fn new() -> (s: SubscriberSet)
        ensures
            s@ == Seq::<u64>::empty(),
            s.wf(),
    {
        SubscriberSet { ids: Vec::new() }
    }

    /// How many subscribers are live.
    pub fn len(&self) -> (n: usize)
        ensures
            n == self@.len(),
    {
        self.ids.len()
    }

    /// The identifier of the member at `i`.
    pub fn get(&self, i: usize) -> (id: u64)
        requires
            i < self@.len(),
        ensures
            id == self@[i as int],
    {
        self.ids[i]
    }

    /// Whether `id` is a member.
    pub fn contains(&self, id: u64) -> (r: bool)
        ensures
            r == self@.contains(id),
    {
        let mut i: usize = 0;
        while i < self.ids.len()
            invariant
                i <= self@.len(),
                forall|j: int| 0 <= j < i ==> self@[j] != id,
            decreases self@.len() - i,
        {
            if self.ids[i] == id {
                return true;
            }
            i = i + 1;
        }
        false
    }

    /// Inserts a newly accepted subscriber.  Returns whether `id` was fresh;
    /// inserting a present identifier changes nothing.
    pub fn insert(&mut self, id: u64) -> (fresh: bool)
        requires
            old(self).wf(),
        ensures
            final(self).wf(),
            fresh == !old(self)@.contains(id),
            fresh ==> final(self)@ == old(self)@.push(id),
            !fresh ==> final(self)@ == old(self)@,
    {
        if self.contains(id) {
            false
        } else {
            self.ids.push(id);
            true
        }
    }

    /// The per-event pruning pass: `ok[i]` says whether the write of this
    /// event to member `i` succeeded, and exactly the members whose write
    /// succeeded stay, in order.
    pub fn retain_ok(&mut self, ok: &Vec<bool>)
        requires
            old(self).wf(),
            ok@.len() == old(self)@.len(),
        ensures
            final(self)@ == spec_retain(old(self)@, ok@),
            final(self).wf(),
    {
        let mut kept: Vec<u64> = Vec::new();
        let mut i: usize = 0;
        while i < self.ids.len()
            invariant
                i <= self@.len(),
                self@ == old(self)@,
                ok@.len() == old(self)@.len(),
                kept@ =~= spec_retain(old(self)@.take(i as int), ok@.take(i as int)),
            decreases self@.len() - i,
        {
            if ok[i] {
                kept.push(self.ids[i]);
            }
            i = i + 1;
            proof {
                assert(old(self)@.take(i as int).drop_last() =~= old(self)@.take(i - 1));
                assert(ok@.take(i as int).drop_last() =~= ok@.take(i - 1));
            }
        }
        proof {
            assert(old(self)@.take(old(self)@.len() as int) =~= old(self)@);
            assert(ok@.take(ok@.len() as int) =~= ok@);
            lemma_retain_subset(old(self)@, ok@);
        }
        self.ids = kept;
    }
}

} // verus!
