//! Cutting the upstream stream into the lines that carry one event each.
use vstd::prelude::*;
use crate::text::{split, split_seq, trim, trim_seq, views};

verus! {

/// The lines of a chunk that hold more than white space, in order.
pub open spec fn event_lines(lines: Seq<Seq<char>>) -> Seq<Seq<char>>
    decreases lines.len(),
{
    if lines.len() == 0 {
        Seq::empty()
    } else {
        let rest = event_lines(lines.drop_last());
        if trim_seq(lines.last()).len() > 0 {
            rest.push(lines.last())
        } else {
            rest
        }
    }
}

/// The lines of a chunk of the stream that may hold an event: those with
/// more than white space, untrimmed, in order.
pub fn stream_lines(chunk: &str) -> (r: Vec<String>)
    ensures
        views(r@) == event_lines(split_seq(chunk@, '\n')),
{
    let lines = split(chunk, '\n');
    let ghost ls = split_seq(chunk@, '\n');
    let mut out: Vec<String> = Vec::new();
    let mut i: usize = 0;
    while i < lines.len()
        invariant
            views(lines@) == ls,
            ls == split_seq(chunk@, '\n'),
            i <= lines@.len(),
            views(out@) == event_lines(ls.subrange(0, i as int)),
        decreases lines@.len() - i,
    {
        assert(ls.subrange(0, i + 1).drop_last() =~= ls.subrange(0, i as int));
        assert(ls[i as int] == lines@[i as int]@);
        let t = trim(lines[i].as_str());
        if t.unicode_len() > 0 {
            let ghost before = out@;
            out.push(lines[i].clone());
            assert(views(out@) =~= views(before).push(lines@[i as int]@));
        }
        i += 1;
    }
    assert(ls.subrange(0, i as int) =~= ls);
    out
}

} // verus!
