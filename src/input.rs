//! The shared input cursor that workers claim records from.

use vstd::prelude::*;

verus! {

/// The input source could not be read: the path, then the I/O error's text.
#[derive(Debug)]
pub enum InputIteratorErr {
    FileRead(String, String),
}

/// What a claim on the input hands back.
#[derive(Debug)]
pub enum Claim {
    /// Records claimed, with the sequence number of the first; the others
    /// follow it one by one.
    Batch(usize, Vec<String>),
    /// Nothing is available yet, but more records may still arrive.
    Wait,
    /// Every record has been claimed and no more will arrive.
    Exhausted,
}

/// The records of the input, in order, with a cursor at the first record not
/// yet claimed. A record's sequence number is its position.
pub struct InputsLock {
    records: Vec<String>,
    next: usize,
    closed: bool,
}

/// The records that a claim of up to `n` takes from position `next`.
pub open spec fn batch_of(records: Seq<Seq<char>>, next: nat, n: nat) -> Seq<Seq<char>> {
    let end = if next + n <= records.len() { next + n } else { records.len() as nat };
    records.subrange(next as int, end as int)
}

/// The records handed out by a run of claims of the given sizes, in claim
/// order, starting at position `next`.
pub open spec fn drain(records: Seq<Seq<char>>, next: nat, sizes: Seq<nat>) -> Seq<Seq<char>>
    decreases sizes.len(),
{
    if sizes.len() == 0 || next >= records.len() {
        Seq::empty()
    } else {
        let b = batch_of(records, next, sizes[0]);
        b + drain(records, next + b.len(), sizes.drop_first())
    }
}

/// The sum of a sequence of sizes.
pub open spec fn total(sizes: Seq<nat>) -> nat
    decreases sizes.len(),
{
    if sizes.len() == 0 {
        0
    } else {
        sizes[0] + total(sizes.drop_first())
    }
}

/// The estimate of the time left: the mean time per claimed record times the
/// records still to claim, when the total is known and some were claimed.
/// It is capped at the largest `u64`.
pub open spec fn eta_of(claimed: nat, total: Option<u64>, elapsed: nat) -> Option<nat> {
    match total {
        Some(t) => if claimed == 0 || claimed > t {
            None
        } else {
            let e = elapsed * ((t - claimed) as nat) / claimed;
            Some(if e > u64::MAX { u64::MAX as nat } else { e })
        },
        None => None,
    }
}

/// Estimated time left, in the unit of `elapsed`, from the records claimed so
/// far, the total if it is known, and the time spent.
pub fn estimate_remaining(claimed: u64, total: Option<u64>, elapsed: u64) -> (r: Option<u64>)
    ensures
        r.is_some() <==> eta_of(claimed as nat, total, elapsed as nat).is_some(),
        r.is_some() ==> r.unwrap() as nat == eta_of(claimed as nat, total, elapsed as nat).unwrap(),
{
    match total {
        Some(t) => {
            if claimed == 0 || claimed > t {
                None
            } else {
                let left = (t - claimed) as u128;
                assert(elapsed as u128 * left <= u64::MAX as u128 * u64::MAX as u128) by (nonlinear_arith)
                    requires left <= u64::MAX as u128, elapsed <= u64::MAX;
                let prod = (elapsed as u128) * left;
                let q = prod / (claimed as u128);
                if q > u64::MAX as u128 {
                    Some(u64::MAX)
                } else {
                    Some(q as u64)
                }
            }
        },
        None => None,
    }
}

impl InputsLock {
    /// The records, as character sequences.
    pub closed spec fn records(&self) -> Seq<Seq<char>> {
        self.records@.map_values(|r: String| r@)
    }

    /// The position of the first record not yet claimed.
    pub closed spec fn cursor(&self) -> nat {
        self.next as nat
    }

    /// Whether no more records will arrive.
    pub closed spec fn is_closed(&self) -> bool {
        self.closed
    }

    /// The cursor never passes the end of the records.
    pub closed spec fn wf(&self) -> bool {
        self.next <= self.records.len()
    }

    /// A source holding all of the given records, to which no more will come.
    pub fn new(records: Vec<String>) -> (r: InputsLock)
        ensures
            r.wf(),
            r.records() == records@.map_values(|s: String| s@),
            r.cursor() == 0,
            r.is_closed(),
    {
        InputsLock { records, next: 0, closed: true }
    }

    /// An empty source to which records are still to be added.
    pub fn streaming() -> (r: InputsLock)
        ensures
            r.wf(),
            r.records() == Seq::<Seq<char>>::empty(),
            r.cursor() == 0,
            !r.is_closed(),
    {
        InputsLock { records: Vec::new(), next: 0, closed: false }
    }

    /// Adds a record at the end of the input.
    pub fn push(&mut self, record: String)
        requires
            old(self).wf(),
        ensures
            final(self).wf(),
            final(self).records() == old(self).records().push(record@),
            final(self).cursor() == old(self).cursor(),
            final(self).is_closed() == old(self).is_closed(),
    {
        let ghost r = record@;
        self.records.push(record);
        proof {
            assert(self.records@.map_values(|s: String| s@) =~= old(self).records@.map_values(
                |s: String| s@,
            ).push(r));
        }
    }

    /// Marks the input as complete: no more records will arrive.
    pub fn close(&mut self)
        requires
            old(self).wf(),
        ensures
            final(self).wf(),
            final(self).records() == old(self).records(),
            final(self).cursor() == old(self).cursor(),
            final(self).is_closed(),
    {
        self.closed = true;
    }

    /// The number of records claimed so far.
    pub fn claimed(&self) -> (r: usize)
        ensures
            r as nat == self.cursor(),
    {
        self.next
    }

    /// The total number of records, once the input is complete.
    pub fn total(&self) -> (r: Option<usize>)
        requires
            self.wf(),
        ensures
            r == (if self.is_closed() { Some(self.records().len() as usize) } else { None::<usize> }),
    {
        if self.closed {
            Some(self.records.len())
        } else {
            None
        }
    }

    /// Estimated time left from the time spent so far; unavailable while the
    /// total is unknown or nothing has been claimed.
    pub fn eta(&self, elapsed: u64) -> (r: Option<u64>)
        requires
            self.wf(),
        ensures
            r.is_some() <==> eta_of(
                self.cursor(),
                if self.is_closed() { Some(self.records().len() as u64) } else { None },
                elapsed as nat,
            ).is_some(),
            r.is_some() ==> r.unwrap() as nat == eta_of(
                self.cursor(),
                if self.is_closed() { Some(self.records().len() as u64) } else { None },
                elapsed as nat,
            ).unwrap(),
    {
        let total = if self.closed {
            Some(self.records.len() as u64)
        } else {
            None
        };
        estimate_remaining(self.next as u64, total, elapsed)
    }

    /// Claims the next records, up to `n` of them. Each record is handed out
    /// once, in order, with its sequence number.
    pub fn next_batch(&mut self, n: usize) -> (r: Claim)
        requires
            old(self).wf(),
            n > 0,
        ensures
            final(self).wf(),
            final(self).records() == old(self).records(),
            final(self).is_closed() == old(self).is_closed(),
            old(self).cursor() < old(self).records().len() ==> match r {
                Claim::Batch(start, b) => {
                    &&& start as nat == old(self).cursor()
                    &&& b@.map_values(|s: String| s@) == batch_of(
                        old(self).records(),
                        old(self).cursor(),
                        n as nat,
                    )
                    &&& final(self).cursor() == old(self).cursor() + b@.len()
                },
                _ => false,
            },
            old(self).cursor() >= old(self).records().len() ==> {
                &&& final(self).cursor() == old(self).cursor()
                &&& (if old(self).is_closed() {
                    r is Exhausted
                } else {
                    r is Wait
                })
            },
    {
        let len = self.records.len();
        if self.next >= len {
            return if self.closed {
                Claim::Exhausted
            } else {
                Claim::Wait
            };
        }
        let start = self.next;
        let end = if n <= len - start {
            start + n
        } else {
            len
        };
        let mut b: Vec<String> = Vec::new();
        let mut i: usize = start;
        while i < end
            invariant
                start <= i <= end <= self.records.len(),
                b@.map_values(|s: String| s@) == self.records@.map_values(|s: String| s@).subrange(
                    start as int,
                    i as int,
                ),
            decreases end - i,
        {
            b.push(self.records[i].clone());
            proof {
                assert(self.records@.map_values(|s: String| s@).subrange(start as int, i + 1)
                    =~= self.records@.map_values(|s: String| s@).subrange(start as int, i as int).push(
                    self.records@[i as int]@,
                ));
                assert(b@.map_values(|s: String| s@) =~= self.records@.map_values(|s: String| s@).subrange(
                    start as int,
                    i as int,
                ).push(self.records@[i as int]@));
            }
            i = i + 1;
        }
        self.next = end;
        Claim::Batch(start, b)
    }
}

/// Claims never overlap and never skip: a run of claims of any positive sizes
/// that together ask for at least what is left hands out exactly the
/// remaining records, once each and in order.
pub proof fn lemma_claims_cover(records: Seq<Seq<char>>, next: nat, sizes: Seq<nat>)
    requires
        next <= records.len(),
        forall|i: int| 0 <= i < sizes.len() ==> sizes[i] > 0,
        total(sizes) + next >= records.len(),
    ensures
        drain(records, next, sizes) == records.subrange(next as int, records.len() as int),
    decreases sizes.len(),
{
    if next >= records.len() {
        assert(records.subrange(next as int, records.len() as int) =~= Seq::<Seq<char>>::empty());
    } else {
        let b = batch_of(records, next, sizes[0]);
        let rest = sizes.drop_first();
        assert forall|i: int| 0 <= i < rest.len() implies rest[i] > 0 by {
            assert(rest[i] == sizes[i + 1]);
        }
        lemma_claims_cover(records, next + b.len(), rest);
        assert(records.subrange(next as int, records.len() as int) =~= b + records.subrange(
            (next + b.len()) as int,
            records.len() as int,
        ));
    }
}

} // verus!
