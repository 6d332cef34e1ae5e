//! The command builder: turns a group of input records into the argument
//! vector of a job, or into the text written to a shared pipe.

use vstd::prelude::*;
use vstd::string::StringExecFns;
use vstd::string::StrSliceExecFns;
use crate::job_log::{dec_value, is_digit};

verus! {

/// One token of a command template.
#[derive(Debug)]
pub enum Token {
    /// Literal text, passed on as it is.
    Text(String),
    /// `{}`: every record of the group, one argument each.
    Input,
    /// `{n}`: the `n`-th record of the group, counting from 1.
    Nth(usize),
}

/// A template asked for a record that the group does not have.
#[derive(Debug, PartialEq, Eq, Structural)]
pub enum BuildErr {
    /// The placeholder's position, counting from 1.
    MissingInput(usize),
}

/// Whether the template refers to the records anywhere.
pub open spec fn has_placeholder(t: Seq<Token>) -> bool {
    exists|i: int| 0 <= i < t.len() && !(#[trigger] t[i] is Text)
}

/// The arguments for a template with each placeholder replaced, or `None`
/// if one of them points past the group.
pub open spec fn expand(t: Seq<Token>, g: Seq<Seq<char>>) -> Option<Seq<Seq<char>>>
    decreases t.len(),
{
    if t.len() == 0 {
        Some(Seq::empty())
    } else {
        match expand(t.drop_last(), g) {
            None => None,
            Some(a) => match t.last() {
                Token::Text(s) => Some(a.push(s@)),
                Token::Input => Some(a + g),
                Token::Nth(i) => if 1 <= i <= g.len() {
                    Some(a.push(g[i - 1]))
                } else {
                    None
                },
            },
        }
    }
}

/// The argument vector for a group: the expanded template, followed by the
/// records themselves when the template names none of them.
pub open spec fn build_of(t: Seq<Token>, g: Seq<Seq<char>>) -> Option<Seq<Seq<char>>> {
    match expand(t, g) {
        None => None,
        Some(a) => Some(if has_placeholder(t) { a } else { a + g }),
    }
}

pub open spec fn views(v: Seq<String>) -> Seq<Seq<char>> {
    v.map_values(|s: String| s@)
}

/// Appends every string of `g` to `out`, each as a copy.
fn append_all(out: &mut Vec<String>, g: &Vec<String>)
    ensures
        views(final(out)@) == views(old(out)@) + views(g@),
{
    let mut i: usize = 0;
    while i < g.len()
        invariant
            i <= g.len(),
            views(out@) == views(old(out)@) + views(g@.subrange(0, i as int)),
        decreases g.len() - i,
    {
        let ghost prev = out@;
        out.push(g[i].clone());
        proof {
            assert(views(out@) =~= views(prev).push(g@[i as int]@));
            assert(views(g@.subrange(0, i + 1)) =~= views(g@.subrange(0, i as int)).push(g@[i as int]@));
            assert(views(out@) =~= views(old(out)@) + views(g@.subrange(0, i + 1)));
        }
        i = i + 1;
    }
    assert(g@.subrange(0, g.len() as int) =~= g@);
}

/// Builds the argument vector of a job from the template and its group of
/// records. Fails, before anything is spawned, when a placeholder points past
/// the group.
pub fn build(template: &Vec<Token>, group: &Vec<String>) -> (r: Result<Vec<String>, BuildErr>)
    ensures
        r is Ok <==> build_of(template@, views(group@)) is Some,
        r is Ok ==> views(r->Ok_0@) == build_of(template@, views(group@)).unwrap(),
        r matches Err(BuildErr::MissingInput(p)) ==> (exists|i: int|
            0 <= i < template@.len() && template@[i] == Token::Nth(p)) && !(1 <= p <= group@.len()),
{
    let ghost g = views(group@);
    let mut out: Vec<String> = Vec::new();
    let mut named = false;
    let mut i: usize = 0;
    while i < template.len()
        invariant
            i <= template.len(),
            g == views(group@),
            expand(template@.subrange(0, i as int), g) == Some(views(out@)),
            named == has_placeholder(template@.subrange(0, i as int)),
        decreases template.len() - i,
    {
        let ghost pre = template@.subrange(0, i as int);
        let ghost cur = template@.subrange(0, i + 1);
        proof {
            assert(cur.drop_last() =~= pre);
            assert(cur.last() == template@[i as int]);
        }
        match &template[i] {
            Token::Text(s) => {
                out.push(s.clone());
                proof {
                    assert(!has_placeholder(pre) ==> !has_placeholder(cur)) by {
                        if has_placeholder(cur) && !has_placeholder(pre) {
                            let j = choose|j: int| 0 <= j < cur.len() && !(#[trigger] cur[j] is Text);
                            if j < i {
                                assert(pre[j] == cur[j]);
                            }
                        }
                    }
                    assert(has_placeholder(pre) ==> has_placeholder(cur)) by {
                        if has_placeholder(pre) {
                            let j = choose|j: int| 0 <= j < pre.len() && !(#[trigger] pre[j] is Text);
                            assert(cur[j] == pre[j]);
                        }
                    }
                    assert(views(out@) =~= views(out@).drop_last().push(s@));
                }
            },
            Token::Input => {
                append_all(&mut out, group);
                named = true;
                proof {
                    assert(!(cur[i as int] is Text));
                }
            },
            Token::Nth(p) => {
                if *p == 0 || *p > group.len() {
                    proof {
                        assert(template@[i as int] == Token::Nth(*p));
                        assert forall|k: int| i < k <= template@.len() implies expand(
                            #[trigger] template@.subrange(0, k),
                            g,
                        ) is None by {
                            lemma_expand_stays_none(template@, g, i as int + 1, k);
                        }
                        assert(template@.subrange(0, template@.len() as int) =~= template@);
                    }
                    return Err(BuildErr::MissingInput(*p));
                }
                out.push(group[*p - 1].clone());
                named = true;
                proof {
                    assert(!(cur[i as int] is Text));
                    assert(views(out@) =~= views(out@).drop_last().push(g[*p - 1]));
                }
            },
        }
        i = i + 1;
    }
    assert(template@.subrange(0, template.len() as int) =~= template@);
    if !named {
        append_all(&mut out, group);
    }
    Ok(out)
}

proof fn lemma_expand_stays_none(t: Seq<Token>, g: Seq<Seq<char>>, j: int, k: int)
    requires
        0 < j <= k <= t.len(),
        expand(t.subrange(0, j), g) is None,
    ensures
        expand(t.subrange(0, k), g) is None,
    decreases k - j,
{
    if j < k {
        lemma_expand_stays_none(t, g, j, k - 1);
        assert(t.subrange(0, k).drop_last() =~= t.subrange(0, k - 1));
    }
}

/// The text written to the shared process in pipe mode: each record on a
/// line of its own.
pub open spec fn pipe_text(g: Seq<Seq<char>>) -> Seq<char>
    decreases g.len(),
{
    if g.len() == 0 {
        Seq::empty()
    } else {
        pipe_text(g.drop_last()) + g.last() + "\n"@
    }
}

/// Pipe mode: the records of a group as the lines written before a flush.
pub fn pipe_chunk(group: &Vec<String>) -> (r: String)
    ensures
        r@ == pipe_text(views(group@)),
{
    let mut r = String::new();
    let mut i: usize = 0;
    while i < group.len()
        invariant
            i <= group.len(),
            r@ == pipe_text(views(group@.subrange(0, i as int))),
        decreases group.len() - i,
    {
        r.append(group[i].as_str());
        r.append("\n");
        proof {
            assert(views(group@.subrange(0, i + 1)).drop_last() =~= views(group@.subrange(0, i as int)));
        }
        i = i + 1;
    }
    assert(group@.subrange(0, group.len() as int) =~= group@);
    r
}

/// The position that a raw argument of the form `{n}` names, if it has that
/// form with a decimal `n` that fits in a `usize`.
pub open spec fn nth_of(s: Seq<char>) -> Option<nat> {
    if s.len() >= 3 && s[0] == '{' && s.last() == '}' && (forall|i: int|
        1 <= i < s.len() - 1 ==> is_digit(#[trigger] s[i])) && dec_value(s.subrange(1, s.len() - 1))
        <= usize::MAX {
        Some(dec_value(s.subrange(1, s.len() - 1)))
    } else {
        None
    }
}

impl Token {
    /// Reads one raw template argument: `{}` stands for the whole group,
    /// `{n}` for its `n`-th record, anything else for itself.
    pub fn parse(s: &str) -> (r: Token)
        ensures
            s@ == "{}"@ ==> r == Token::Input,
            s@ != "{}"@ && nth_of(s@) is Some ==> r == Token::Nth(nth_of(s@).unwrap() as usize),
            s@ != "{}"@ && nth_of(s@) is None ==> (r matches Token::Text(t) && t@ == s@),
    {
        proof {
            reveal_strlit("{}");
        }
        let len = s.unicode_len();
        if len == 2 && s.get_char(0) == '{' && s.get_char(1) == '}' {
            assert(s@ =~= "{}"@);
            return Token::Input;
        }
        assert(s@ != "{}"@ ==> !(len == 2 && s@[0] == '{' && s@[1] == '}'));
        if len < 3 || s.get_char(0) != '{' || s.get_char(len - 1) != '}' {
            return Token::Text(String::from_str(s));
        }
        let mut i: usize = 1;
        let mut value: usize = 0;
        assert(s@ != "{}"@);
        while i < len - 1
            invariant
                s@ != "{}"@,
                s@[0] == '{' && s@[len - 1] == '}',
                len == s@.len() >= 3,
                1 <= i <= len - 1,
                forall|j: int| 1 <= j < i ==> is_digit(#[trigger] s@[j]),
                value as nat == dec_value(s@.subrange(1, i as int)),
            decreases len - i,
        {
            let c = s.get_char(i);
            if !('0' <= c && c <= '9') {
                proof {
                    assert(!is_digit(s@[i as int]));
                }
                return Token::Text(String::from_str(s));
            }
            let d = (c as u32 - '0' as u32) as usize;
            proof {
                let p = s@.subrange(1, i + 1);
                assert(p.drop_last() =~= s@.subrange(1, i as int));
                assert(p.last() == c);
            }
            if value > (usize::MAX - d) / 10 {
                proof {
                    assert(dec_value(s@.subrange(1, i + 1)) > usize::MAX);
                    lemma_dec_value_grows(s@.subrange(1, len - 1), i as int);
                    assert(s@.subrange(1, len - 1).subrange(0, i as int) =~= s@.subrange(1, i + 1));
                }
                return Token::Text(String::from_str(s));
            }
            value = value * 10 + d;
            i = i + 1;
        }
        Token::Nth(value)
    }
}

/// Extending a string of digits never lowers its value.
proof fn lemma_dec_value_grows(s: Seq<char>, k: int)
    requires
        0 <= k <= s.len(),
    ensures
        dec_value(s) >= dec_value(s.subrange(0, k)),
    decreases s.len() - k,
{
    if k < s.len() {
        lemma_dec_value_grows(s, k + 1);
        assert(s.subrange(0, k + 1).drop_last() =~= s.subrange(0, k));
    } else {
        assert(s.subrange(0, k) =~= s);
    }
}

/// How jobs are fed: a template filled in for each job, or one long-lived
/// process that receives the records on its input.
#[derive(Debug)]
pub enum Strategy {
    Template(Vec<Token>),
    Pipe,
}

/// What a job is given.
#[derive(Debug)]
pub enum Payload {
    /// The argument vector of a process of its own.
    Args(Vec<String>),
    /// Text for the shared process's input.
    Text(String),
}

/// A job ready to run: its sequence number and what it is given.
#[derive(Debug)]
pub struct JobSpec {
    pub seq: usize,
    pub payload: Payload,
}

/// Prepares job `seq` from its group of records with the chosen strategy.
pub fn prepare(strategy: &Strategy, seq: usize, group: &Vec<String>) -> (r: Result<JobSpec, BuildErr>)
    ensures
        match strategy {
            Strategy::Pipe => (r matches Ok(j) && j.seq == seq && (j.payload matches Payload::Text(t) && t@
                == pipe_text(views(group@)))),
            Strategy::Template(t) => match build_of(t@, views(group@)) {
                Some(a) => (r matches Ok(j) && j.seq == seq && (j.payload matches Payload::Args(v) && views(v@)
                    == a)),
                None => r is Err,
            },
        },
{
    match strategy {
        Strategy::Pipe => Ok(JobSpec { seq, payload: Payload::Text(pipe_chunk(group)) }),
        Strategy::Template(t) => match build(t, group) {
            Ok(args) => Ok(JobSpec { seq, payload: Payload::Args(args) }),
            Err(e) => Err(e),
        },
    }
}

} // verus!
