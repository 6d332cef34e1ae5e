//! Admission control: a ceiling on concurrent jobs and a floor on free memory.

use vstd::prelude::*;

verus! {

/// Counts the running jobs against a ceiling, and holds the optional floor
/// of free memory below which no job starts.
pub struct Admission {
    ceiling: usize,
    running: usize,
    mem_floor: Option<u64>,
}

/// Whether a job may start: there is a free slot and, with a memory floor,
/// free memory is at least the floor.
pub open spec fn admits(ceiling: nat, running: nat, mem_floor: Option<u64>, free_mem: u64) -> bool {
    running < ceiling && match mem_floor {
        Some(f) => free_mem >= f,
        None => true,
    }
}

impl Admission {
    pub closed spec fn ceiling(&self) -> nat {
        self.ceiling as nat
    }

    pub closed spec fn running(&self) -> nat {
        self.running as nat
    }

    pub closed spec fn mem_floor(&self) -> Option<u64> {
        self.mem_floor
    }

    /// Never more jobs running than the ceiling allows.
    pub open spec fn wf(&self) -> bool {
        self.running() <= self.ceiling()
    }

    /// A controller with no job running.
    pub fn new(ceiling: usize, mem_floor: Option<u64>) -> (r: Admission)
        ensures
            r.wf(),
            r.ceiling() == ceiling,
            r.running() == 0,
            r.mem_floor() == mem_floor,
    {
        Admission { ceiling, running: 0, mem_floor }
    }

    /// The number of jobs running.
    pub fn running_jobs(&self) -> (r: usize)
        ensures
            r == self.running(),
    {
        self.running
    }

    /// Asks to start a job, given the free memory sampled just now. On
    /// success the job holds a slot until `release`.
    pub fn try_admit(&mut self, free_mem: u64) -> (r: bool)
        requires
            old(self).wf(),
        ensures
            final(self).wf(),
            r == admits(old(self).ceiling(), old(self).running(), old(self).mem_floor(), free_mem),
            final(self).running() == old(self).running() + (if r { 1nat } else { 0nat }),
            final(self).ceiling() == old(self).ceiling(),
            final(self).mem_floor() == old(self).mem_floor(),
    {
        let mem_ok = match self.mem_floor {
            Some(f) => free_mem >= f,
            None => true,
        };
        if self.running < self.ceiling && mem_ok {
            self.running = self.running + 1;
            true
        } else {
            false
        }
    }

    /// Gives back the slot of a job that has finished.
    pub fn release(&mut self)
        requires
            old(self).wf(),
            old(self).running() > 0,
        ensures
            final(self).wf(),
            final(self).running() == old(self).running() - 1,
            final(self).ceiling() == old(self).ceiling(),
            final(self).mem_floor() == old(self).mem_floor(),
    {
        self.running = self.running - 1;
    }
}

/// While free memory stays below the floor no job is admitted, however many
/// slots are free; once it reaches the floor, a free slot admits again.
pub proof fn lemma_memory_floor_gates(a: Admission, free_mem: u64)
    requires
        a.wf(),
        a.mem_floor() is Some,
    ensures
        free_mem < a.mem_floor().unwrap() ==> !admits(a.ceiling(), a.running(), a.mem_floor(), free_mem),
        free_mem >= a.mem_floor().unwrap() && a.running() < a.ceiling() ==> admits(
            a.ceiling(),
            a.running(),
            a.mem_floor(),
            free_mem,
        ),
{
}

/// The next wait while admission is refused: twice the last one, at least 1,
/// at most `max`.
pub open spec fn backoff_of(last: u64, max: u64) -> u64 {
    let d = if last == 0 { 1 } else { 2 * last };
    if d > max { max } else { d as u64 }
}

/// Bounded exponential backoff between admission attempts.
pub fn next_backoff(last: u64, max: u64) -> (r: u64)
    ensures
        r == backoff_of(last, max),
        r <= max,
{
    if last == 0 {
        if 1 > max { max } else { 1 }
    } else if last > max / 2 {
        max
    } else {
        2 * last
    }
}

} // verus!
