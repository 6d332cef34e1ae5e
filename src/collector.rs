//! The result collector: hands job output on either as it arrives or in
//! input order, buffering what arrives early.

use vstd::prelude::*;
use vstd::pervasive::VecAdditionalExecFns;

verus! {

/// How job output is released.
#[derive(Debug, Clone, Copy, PartialEq, Eq, Structural)]
pub enum Order {
    /// Each job's output as soon as the job finishes.
    AsCompleted,
    /// Output strictly in sequence-number order.
    InputOrder,
}

/// The outputs of the jobs numbered `lo` up to `hi`, in that order.
pub open spec fn in_order(m: Map<nat, Seq<u8>>, lo: nat, hi: nat) -> Seq<Seq<u8>> {
    Seq::new((hi - lo) as nat, |i: int| m[(lo + i) as nat])
}

/// Gathers job outputs by sequence number.
pub struct Collector {
    order: Order,
    slots: Vec<Option<Vec<u8>>>,
    next: usize,
    received: Ghost<Map<nat, Seq<u8>>>,
}

impl Collector {
    /// The release mode.
    pub closed spec fn order(&self) -> Order {
        self.order
    }

    /// Every output handed in so far, by sequence number.
    pub closed spec fn received(&self) -> Map<nat, Seq<u8>> {
        self.received@
    }

    /// In input order: the first sequence number whose output has not been
    /// released.
    pub closed spec fn next_seq(&self) -> nat {
        self.next as nat
    }

    /// In input order: everything released so far, in order.
    pub open spec fn emitted(&self) -> Seq<Seq<u8>> {
        in_order(self.received(), 0, self.next_seq())
    }

    /// In input order, the jobs before `next_seq` have all been received and
    /// released, `next_seq` has not been received, and the buffer holds
    /// exactly the received outputs after it.
    pub closed spec fn wf(&self) -> bool {
        self.order is InputOrder ==> {
            &&& self.next <= self.slots.len()
            &&& forall|i: nat| i < self.next ==> self.received@.contains_key(i)
            &&& !self.received@.contains_key(self.next as nat)
            &&& forall|i: nat| #[trigger] self.received@.contains_key(i) ==> i < self.slots.len()
            &&& forall|i: int|
                self.next <= i < self.slots.len() ==> (#[trigger] self.slots@[i] is Some
                    <==> self.received@.contains_key(i as nat))
            &&& forall|i: int|
                self.next <= i < self.slots.len() && #[trigger] self.slots@[i] is Some
                    ==> self.slots@[i].unwrap()@ == self.received@[i as nat]
        }
    }

    /// An empty collector with the given release mode.
    pub fn new(order: Order) -> (r: Collector)
        ensures
            r.wf(),
            r.order() == order,
            r.received() == Map::<nat, Seq<u8>>::empty(),
            r.next_seq() == 0,
    {
        Collector { order, slots: Vec::new(), next: 0, received: Ghost(Map::empty()) }
    }

    /// Hands in the output of job `seq` and returns the outputs to write now,
    /// in the order to write them. As completed, that is this output alone.
    /// In input order, it is every buffered output from the first unreleased
    /// sequence number on, up to the next gap.
    pub fn push(&mut self, seq: usize, output: Vec<u8>) -> (r: Vec<Vec<u8>>)
        requires
            old(self).wf(),
            !old(self).received().contains_key(seq as nat),
            seq < usize::MAX,
        ensures
            final(self).wf(),
            final(self).order() == old(self).order(),
            final(self).received() == old(self).received().insert(seq as nat, output@),
            old(self).order() is AsCompleted ==> r@.map_values(|o: Vec<u8>| o@) == seq![output@],
            old(self).order() is InputOrder ==> {
                &&& r@.map_values(|o: Vec<u8>| o@) == in_order(
                    final(self).received(),
                    old(self).next_seq(),
                    final(self).next_seq(),
                )
                &&& final(self).emitted() == old(self).emitted() + r@.map_values(|o: Vec<u8>| o@)
            },
    {
        let ghost out = output@;
        self.received = Ghost(self.received@.insert(seq as nat, out));
        if let Order::AsCompleted = self.order {
            let mut r: Vec<Vec<u8>> = Vec::new();
            r.push(output);
            proof {
                assert(r@.map_values(|o: Vec<u8>| o@) =~= seq![out]);
            }
            return r;
        }
        while self.slots.len() <= seq
            invariant
                self.order is InputOrder,
                seq < usize::MAX,
                self.received@ == old(self).received@.insert(seq as nat, out),
                self.next == old(self).next,
                old(self).next <= old(self).slots.len() <= self.slots.len(),
                forall|i: int| 0 <= i < old(self).slots.len() ==> self.slots@[i] == old(self).slots@[i],
                forall|i: int| old(self).slots.len() <= i < self.slots.len() ==> self.slots@[i] is None,
            decreases seq + 1 - self.slots.len(),
        {
            self.slots.push(None);
        }
        let mut slot = Some(output);
        self.slots.set_and_swap(seq, &mut slot);
        let ghost start = self.next;
        let mut r: Vec<Vec<u8>> = Vec::new();
        proof {
            assert(r@.map_values(|o: Vec<u8>| o@) =~= in_order(self.received@, start as nat, start as nat));
        }
        while self.next < self.slots.len() && self.slots[self.next].is_some()
            invariant
                self.order is InputOrder,
                self.received@ == old(self).received@.insert(seq as nat, out),
                start == old(self).next,
                start <= self.next <= self.slots.len(),
                seq < self.slots.len(),
                forall|i: nat| i < self.next ==> self.received@.contains_key(i),
                forall|i: nat| #[trigger] self.received@.contains_key(i) ==> i < self.slots.len(),
                forall|i: int|
                    self.next <= i < self.slots.len() ==> (#[trigger] self.slots@[i] is Some
                        <==> self.received@.contains_key(i as nat)),
                forall|i: int|
                    self.next <= i < self.slots.len() && #[trigger] self.slots@[i] is Some
                        ==> self.slots@[i].unwrap()@ == self.received@[i as nat],
                r@.map_values(|o: Vec<u8>| o@) == in_order(self.received@, start as nat, self.next as nat),
            decreases self.slots.len() - self.next,
        {
            let mut taken: Option<Vec<u8>> = None;
            let ghost k = self.next as int;
            self.slots.set_and_swap(self.next, &mut taken);
            let v = taken.unwrap();
            proof {
                assert(v@ == self.received@[k as nat]);
                assert(in_order(self.received@, start as nat, (k + 1) as nat) =~= in_order(
                    self.received@,
                    start as nat,
                    k as nat,
                ).push(v@));
            }
            r.push(v);
            proof {
                assert(r@.map_values(|o: Vec<u8>| o@) =~= in_order(self.received@, start as nat, (k + 1) as nat));
            }
            self.next = self.next + 1;
        }
        proof {
            assert(in_order(self.received@, 0, self.next as nat) =~= in_order(self.received@, 0, start as nat)
                + in_order(self.received@, start as nat, self.next as nat));
            assert(in_order(self.received@, 0, start as nat) =~= in_order(old(self).received@, 0, start as nat));
        }
        r
    }
}

/// In input order, once the outputs of jobs `0` to `n - 1` have all been
/// handed in, whatever the order in which they arrived, everything released is
/// exactly those outputs in sequence order, as a serial run would print them.
pub proof fn lemma_input_order_is_serial(c: Collector, n: nat)
    requires
        c.wf(),
        c.order() is InputOrder,
        c.received().dom() == Set::new(|i: nat| i < n),
    ensures
        c.next_seq() == n,
        c.emitted() == in_order(c.received(), 0, n),
{
    if c.next_seq() < n {
        assert(Set::new(|i: nat| i < n).contains(c.next_seq()));
    }
    if c.next_seq() > n {
        assert(c.received().contains_key(n));
        assert(!Set::new(|i: nat| i < n).contains(n));
    }
}

} // verus!
