//! Trace files: one JSON entry per line. Reading one back keeps every line
//! that is not blank.

use vstd::prelude::*;
use vstd::string::*;

use crate::network_sim::qdisc::{lit, string_views};
use crate::observability::server::ObservabilityError;
use crate::text::{char_is_ws, is_ws, str_chars, string_from_chars};

verus! {

/// A line without its `\r` when it ended in `\r\n`.
pub open spec fn strip_cr(line: Seq<char>) -> Seq<char> {
    if line.len() > 0 && line.last() == '\r' {
        line.drop_last()
    } else {
        line
    }
}

/// Left-to-right scan of a text: the lines completed by `\n` (without their
/// line ending), and the line being read.
pub open spec fn lines_scan(s: Seq<char>) -> (Seq<Seq<char>>, Seq<char>)
    decreases s.len(),
{
    if s.len() == 0 {
        (Seq::empty(), Seq::empty())
    } else {
        let (done, cur) = lines_scan(s.drop_last());
        if s.last() == '\n' {
            (done.push(strip_cr(cur)), Seq::empty())
        } else {
            (done, cur.push(s.last()))
        }
    }
}

/// The lines of a text as `str::lines` gives them: split at `\n`, a `\r`
/// before the `\n` removed, and no empty last line after a final `\n`.
pub open spec fn text_lines(s: Seq<char>) -> Seq<Seq<char>> {
    let (done, cur) = lines_scan(s);
    if cur.len() > 0 {
        done.push(cur)
    } else {
        done
    }
}

/// A line of white space only.
pub open spec fn is_blank(line: Seq<char>) -> bool {
    forall|i: int| 0 <= i < line.len() ==> is_ws(#[trigger] line[i])
}

/// The lines that are not blank, in order.
pub open spec fn nonblank(lines: Seq<Seq<char>>) -> Seq<Seq<char>>
    decreases lines.len(),
{
    if lines.len() == 0 {
        Seq::empty()
    } else if is_blank(lines.last()) {
        nonblank(lines.drop_last())
    } else {
        nonblank(lines.drop_last()).push(lines.last())
    }
}

fn blank(line: &Vec<char>) -> (r: bool)
    ensures
        r == is_blank(line@),
{
    let mut i: usize = 0;
    while i < line.len()
        invariant
            i <= line.len(),
            forall|k: int| 0 <= k < i ==> is_ws(#[trigger] line@[k]),
        decreases line.len() - i,
    {
        if !char_is_ws(line[i]) {
            return false;
        }
        i = i + 1;
    }
    true
}

fn push_if_nonblank(out: &mut Vec<String>, line: &Vec<char>)
    ensures
        string_views(final(out)@) == if is_blank(line@) {
            string_views(old(out)@)
        } else {
            string_views(old(out)@).push(line@)
        },
{
    if !blank(line) {
        let ghost before = out@;
        out.push(string_from_chars(line));
        assert(string_views(out@) =~= string_views(before).push(line@));
    }
}

/// The lines of a trace file that hold entries: all lines that are not
/// blank, in order.
pub fn entry_lines(content: &str) -> (r: Vec<String>)
    ensures
        string_views(r@) == nonblank(text_lines(content@)),
{
    let cs = str_chars(content);
    let mut out: Vec<String> = Vec::new();
    let mut cur: Vec<char> = Vec::new();
    let mut i: usize = 0;
    while i < cs.len()
        invariant
            i <= cs.len(),
            cs@ == content@,
            cur@ == lines_scan(cs@.take(i as int)).1,
            string_views(out@) == nonblank(lines_scan(cs@.take(i as int)).0),
        decreases cs.len() - i,
    {
        let c = cs[i];
        assert(cs@.take(i as int + 1).drop_last() =~= cs@.take(i as int));
        if c == '\n' {
            if cur.len() > 0 && cur[cur.len() - 1] == '\r' {
                cur.pop();
            }
            proof {
                let done = lines_scan(cs@.take(i as int)).0;
                assert(done.push(cur@).drop_last() =~= done);
            }
            push_if_nonblank(&mut out, &cur);
            cur = Vec::new();
        } else {
            cur.push(c);
        }
        i = i + 1;
    }
    assert(cs@.take(cs.len() as int) =~= cs@);
    if cur.len() > 0 {
        proof {
            let done = lines_scan(cs@).0;
            assert(done.push(cur@).drop_last() =~= done);
        }
        push_if_nonblank(&mut out, &cur);
    }
    out
}

/// The error of replaying before a schedule was loaded.
pub fn schedule_not_loaded() -> (e: ObservabilityError)
    ensures
        e matches ObservabilityError::Trace(m) && m@ == "Schedule not loaded"@,
{
    ObservabilityError::Trace(lit("Schedule not loaded"))
}

} // verus!
