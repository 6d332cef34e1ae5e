//! The job log: one line per finished job, and the set of jobs that a resumed
//! run skips because the log records them as successful.

use vstd::prelude::*;
use vstd::string::StringExecFns;
use vstd::string::StrSliceExecFns;
use crate::supervisor::JobStatus;

verus! {

/// One finished job, as the log records it.
#[derive(Debug)]
pub struct LogEntry {
    pub seq: u64,
    pub status: JobStatus,
    pub start: u64,
    pub end: u64,
    pub command: String,
}

/// The decimal digit character for `d`, which is below ten.
pub open spec fn digit_char(d: nat) -> char {
    if d == 0 { '0' } else if d == 1 { '1' } else if d == 2 { '2' } else if d == 3 { '3' }
    else if d == 4 { '4' } else if d == 5 { '5' } else if d == 6 { '6' } else if d == 7 { '7' }
    else if d == 8 { '8' } else { '9' }
}

pub open spec fn is_digit(c: char) -> bool {
    '0' <= c && c <= '9'
}

/// The value of a decimal digit character.
pub open spec fn digit_value(c: char) -> nat {
    (c as u32 - '0' as u32) as nat
}

/// `n` written in decimal, with no leading zeros.
pub open spec fn dec(n: nat) -> Seq<char>
    decreases n,
{
    if n < 10 {
        seq![digit_char(n)]
    } else {
        dec(n / 10).push(digit_char(n % 10))
    }
}

/// The value of a string of decimal digits.
pub open spec fn dec_value(s: Seq<char>) -> nat
    decreases s.len(),
{
    if s.len() == 0 {
        0
    } else {
        dec_value(s.drop_last()) * 10 + digit_value(s.last())
    }
}

/// The word that names a status category in the log.
pub open spec fn status_word(s: JobStatus) -> Seq<char> {
    match s {
        JobStatus::Success => "success"@,
        JobStatus::Failure(_) => "failure"@,
        JobStatus::Signaled(_) => "signaled"@,
        JobStatus::TimedOut => "timeout"@,
        JobStatus::SpawnError => "spawn-error"@,
        JobStatus::OutputError => "output-error"@,
    }
}

/// A log line: sequence number, status, start and end times, and the command,
/// separated by tabs.
pub open spec fn entry_line(e: LogEntry) -> Seq<char> {
    dec(e.seq as nat) + "\t"@ + status_word(e.status) + "\t"@ + dec(e.start as nat) + "\t"@ + dec(
        e.end as nat,
    ) + "\t"@ + e.command@ + "\n"@
}

/// The line records job `n` as successful: it starts with the `k` digits of
/// `n`, followed by a tab and the word for success.
pub open spec fn records_success_at(line: Seq<char>, n: nat, k: nat) -> bool {
    &&& 0 < k && k + 9 <= line.len()
    &&& forall|i: int| 0 <= i < k ==> is_digit(#[trigger] line[i])
    &&& line[k as int] == '\t'
    &&& line.subrange(k + 1 as int, k + 9 as int) == "success\t"@
    &&& n == dec_value(line.subrange(0, k as int))
    &&& n <= u64::MAX
}

pub open spec fn records_success(line: Seq<char>, n: nat) -> bool {
    exists|k: nat| records_success_at(line, n, k)
}

fn digit_str(d: u64) -> (r: &'static str)
    requires
        d < 10,
    ensures
        r@ == seq![digit_char(d as nat)],
{
    proof {
        reveal_strlit("0");
        reveal_strlit("1");
        reveal_strlit("2");
        reveal_strlit("3");
        reveal_strlit("4");
        reveal_strlit("5");
        reveal_strlit("6");
        reveal_strlit("7");
        reveal_strlit("8");
        reveal_strlit("9");
    }
    if d == 0 { "0" } else if d == 1 { "1" } else if d == 2 { "2" } else if d == 3 { "3" }
    else if d == 4 { "4" } else if d == 5 { "5" } else if d == 6 { "6" } else if d == 7 { "7" }
    else if d == 8 { "8" } else { "9" }
}

/// Appends `n` in decimal.
fn append_dec(s: &mut String, n: u64)
    ensures
        final(s)@ == old(s)@ + dec(n as nat),
    decreases n,
{
    if n >= 10 {
        append_dec(s, n / 10);
    }
    s.append(digit_str(n % 10));
    proof {
        if n >= 10 {
            assert(old(s)@ + dec(n as nat) =~= old(s)@ + dec((n / 10) as nat) + seq![digit_char((n % 10) as nat)]);
        }
    }
}

fn status_str(s: JobStatus) -> (r: &'static str)
    ensures
        r@ == status_word(s),
{
    match s {
        JobStatus::Success => "success",
        JobStatus::Failure(_) => "failure",
        JobStatus::Signaled(_) => "signaled",
        JobStatus::TimedOut => "timeout",
        JobStatus::SpawnError => "spawn-error",
        JobStatus::OutputError => "output-error",
    }
}

impl LogEntry {
    /// The line that the log holds for this entry.
    pub fn to_line(&self) -> (r: String)
        ensures
            r@ == entry_line(*self),
    {
        let mut r = String::new();
        append_dec(&mut r, self.seq);
        r.append("\t");
        r.append(status_str(self.status));
        r.append("\t");
        append_dec(&mut r, self.start);
        r.append("\t");
        append_dec(&mut r, self.end);
        r.append("\t");
        r.append(self.command.as_str());
        r.append("\n");
        r
    }
}

/// The job number of a log line that records a success, if it does and the
/// number fits in a `u64`.
pub fn success_seq(line: &str) -> (r: Option<u64>)
    ensures
        r is Some ==> records_success(line@, r.unwrap() as nat),
        r is None ==> forall|n: nat| !records_success(line@, n),
{
    let len = line.unicode_len();
    let mut i: usize = 0;
    let mut value: u64 = 0;
    let mut overflow = false;
    while i < len && '0' <= line.get_char(i) && line.get_char(i) <= '9'
        invariant
            len == line@.len(),
            i <= len,
            forall|j: int| 0 <= j < i ==> is_digit(#[trigger] line@[j]),
            !overflow ==> value as nat == dec_value(line@.subrange(0, i as int)),
            overflow ==> dec_value(line@.subrange(0, i as int)) > u64::MAX,
        decreases len - i,
    {
        let c = line.get_char(i);
        let d = (c as u32 - '0' as u32) as u64;
        proof {
            let p = line@.subrange(0, i + 1);
            assert(p.drop_last() =~= line@.subrange(0, i as int));
            assert(p.last() == c);
            assert(dec_value(p) == dec_value(line@.subrange(0, i as int)) * 10 + d);
        }
        if !overflow {
            if value > (u64::MAX - d) / 10 {
                overflow = true;
            } else {
                value = value * 10 + d;
            }
        }
        i = i + 1;
    }
    let ghost k = i as nat;
    if i == 0 || overflow || len - i < 9 || line.get_char(i) != '\t' {
        proof {
            assert forall|n: nat| !records_success(line@, n) by {
                if exists|k2: nat| records_success_at(line@, n, k2) {
                    let k2 = choose|k2: nat| records_success_at(line@, n, k2);
                    if k2 < k {
                        assert(is_digit(line@[k2 as int]));
                    } else if k2 > k {
                        assert(is_digit(line@[k as int]));
                    }
                }
            }
        }
        return None;
    }
    let word = "success\t";
    proof {
        reveal_strlit("success\t");
    }
    let mut j: usize = 0;
    while j < 8
        invariant
            word@ == "success\t"@,
            word@.len() == 8,
            i + 9 <= len == line@.len(),
            k == i,
            i > 0,
            line@[i as int] == '\t',
            forall|m: int| 0 <= m < i ==> is_digit(#[trigger] line@[m]),
            j <= 8,
            forall|m: int| 0 <= m < j ==> line@[i + 1 + m] == word@[m],
        decreases 8 - j,
    {
        if line.get_char(i + 1 + j) != word.get_char(j) {
            proof {
                assert forall|n: nat| !records_success(line@, n) by {
                    if exists|k2: nat| records_success_at(line@, n, k2) {
                        let k2 = choose|k2: nat| records_success_at(line@, n, k2);
                        if k2 < k {
                            assert(is_digit(line@[k2 as int]));
                        } else if k2 > k {
                            assert(is_digit(line@[k as int]));
                        }
                        assert(k2 == k);
                        assert(line@.subrange(k + 1 as int, k + 9 as int)[j as int] == line@[i + 1 + j]);
                    }
                }
            }
            return None;
        }
        j = j + 1;
    }
    proof {
        assert(line@.subrange(k + 1 as int, k + 9 as int) =~= "success\t"@);
        assert(records_success_at(line@, value as nat, k));
    }
    Some(value)
}

proof fn lemma_dec(n: nat)
    ensures
        dec(n).len() > 0,
        forall|i: int| 0 <= i < dec(n).len() ==> is_digit(#[trigger] dec(n)[i]),
        dec_value(dec(n)) == n,
    decreases n,
{
    let d = n % 10;
    assert(digit_value(digit_char(d)) == d && is_digit(digit_char(d)));
    if n >= 10 {
        lemma_dec(n / 10);
        assert(dec(n).drop_last() =~= dec(n / 10));
        assert(dec(n).last() == digit_char(d));
        assert(dec_value(dec(n)) == dec_value(dec(n / 10)) * 10 + d);
        assert((n / 10) * 10 + d == n);
    } else {
        assert(dec(n).drop_last() =~= Seq::<char>::empty());
        assert(dec_value(Seq::<char>::empty()) == 0);
        assert(dec(n).last() == digit_char(d));
    }
}

/// The line written for a successful job is read back as that job's
/// number: a resumed run recognises every success that the log recorded.
pub proof fn lemma_log_round_trip(e: LogEntry)
    requires
        e.status == JobStatus::Success,
    ensures
        records_success(entry_line(e), e.seq as nat),
{
    let line = entry_line(e);
    let d = dec(e.seq as nat);
    let k = d.len();
    lemma_dec(e.seq as nat);
    reveal_strlit("\t");
    reveal_strlit("success");
    reveal_strlit("success\t");
    assert(line.subrange(0, k as int) =~= d);
    assert(line.subrange(k + 1 as int, k + 9 as int) =~= "success\t"@);
    assert(records_success_at(line, e.seq as nat, k));
}

/// The jobs that a resumed run skips: those that the log records as
/// successful.
pub struct Resume {
    done: Vec<u64>,
}

/// Some line of the log records job `n` as successful.
pub open spec fn logged_success(lines: Seq<Seq<char>>, n: nat) -> bool {
    exists|i: int| 0 <= i < lines.len() && records_success(#[trigger] lines[i], n)
}

impl Resume {
    /// The job numbers to skip.
    pub closed spec fn done(&self) -> Set<nat> {
        Set::new(|n: nat| exists|i: int| 0 <= i < self.done@.len() && self.done@[i] as nat == n)
    }

    /// A fresh run: nothing to skip.
    pub fn fresh() -> (r: Resume)
        ensures
            r.done() == Set::<nat>::empty(),
    {
        let r = Resume { done: Vec::new() };
        assert(r.done() =~= Set::<nat>::empty());
        r
    }

    /// Reads the lines of an earlier run's log.
    pub fn from_log(lines: &Vec<String>) -> (r: Resume)
        ensures
            forall|n: nat| r.done().contains(n) <==> logged_success(lines@.map_values(|l: String| l@), n),
    {
        let ghost ls = lines@.map_values(|l: String| l@);
        let mut done: Vec<u64> = Vec::new();
        let mut i: usize = 0;
        while i < lines.len()
            invariant
                i <= lines.len(),
                ls == lines@.map_values(|l: String| l@),
                forall|n: nat|
                    (exists|j: int| 0 <= j < done@.len() && done@[j] as nat == n) <==> logged_success(
                        ls.subrange(0, i as int),
                        n,
                    ),
            decreases lines.len() - i,
        {
            let got = success_seq(lines[i].as_str());
            let ghost old_done = done@;
            if let Some(n) = got {
                done.push(n);
            }
            proof {
                assert forall|n: nat|
                    (exists|j: int| 0 <= j < done@.len() && done@[j] as nat == n) <==> #[trigger] logged_success(
                        ls.subrange(0, i + 1),
                        n,
                    ) by {
                    let a = ls.subrange(0, i as int);
                    let b = ls.subrange(0, i + 1);
                    assert(b[i as int] == lines@[i as int]@);
                    if logged_success(b, n) {
                        let j = choose|j: int| 0 <= j < b.len() && records_success(#[trigger] b[j], n);
                        if j < i {
                            assert(a[j] == b[j]);
                            assert(logged_success(a, n));
                            let j2 = choose|j2: int| 0 <= j2 < old_done.len() && old_done[j2] as nat == n;
                            assert(done@[j2] == old_done[j2]);
                        } else {
                            assert(got is Some);
                            if got.unwrap() as nat != n {
                                let k1 = choose|k1: nat| records_success_at(b[j], n, k1);
                                let k2 = choose|k2: nat| records_success_at(b[j], got.unwrap() as nat, k2);
                                if k1 < k2 {
                                    assert(is_digit(b[j][k1 as int]));
                                } else if k2 < k1 {
                                    assert(is_digit(b[j][k2 as int]));
                                }
                            }
                            assert(done@[done@.len() - 1] as nat == n);
                        }
                    }
                    if exists|j: int| 0 <= j < done@.len() && done@[j] as nat == n {
                        let j = choose|j: int| 0 <= j < done@.len() && done@[j] as nat == n;
                        if j < old_done.len() {
                            assert(done@[j] == old_done[j]);
                            assert(old_done[j] as nat == n);
                            assert(logged_success(a, n));
                            let j3 = choose|j3: int| 0 <= j3 < a.len() && records_success(#[trigger] a[j3], n);
                            assert(b[j3] == a[j3]);
                        } else {
                            assert(records_success(b[i as int], n));
                        }
                    }
                }
            }
            i = i + 1;
        }
        assert(ls.subrange(0, i as int) =~= ls);
        Resume { done }
    }

    /// Whether job `seq` is to run: it is unless the log recorded it as a
    /// success.
    pub fn should_run(&self, seq: u64) -> (r: bool)
        ensures
            r == !self.done().contains(seq as nat),
    {
        let mut i: usize = 0;
        while i < self.done.len()
            invariant
                i <= self.done.len(),
                forall|j: int| 0 <= j < i ==> self.done@[j] != seq,
            decreases self.done.len() - i,
        {
            if self.done[i] == seq {
                return false;
            }
            i = i + 1;
        }
        true
    }
}

/// A resumed run over jobs `0` to `n - 1` runs exactly those the log does not
/// record as successful; together with the logged ones they are every job,
/// each once, as in one uninterrupted run.
pub proof fn lemma_resume_runs_rest(r: Resume, n: nat)
    ensures
        ({
            let all = Set::new(|i: nat| i < n);
            let rerun = Set::new(|i: nat| i < n && !r.done().contains(i));
            let kept = Set::new(|i: nat| i < n && r.done().contains(i));
            &&& rerun.union(kept) == all
            &&& rerun.disjoint(kept)
        }),
{
    let all = Set::new(|i: nat| i < n);
    let rerun = Set::new(|i: nat| i < n && !r.done().contains(i));
    let kept = Set::new(|i: nat| i < n && r.done().contains(i));
    assert(rerun.union(kept) =~= all);
}

} // verus!
