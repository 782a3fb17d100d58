//! The app bar: which of its items go to the left, the center and the right.
use vstd::prelude::*;
use crate::protocol::BarItemAlignment;

verus! {

/// The indices of the items of `s` with alignment `a`, in order.
pub open spec fn indices_with(s: Seq<BarItemAlignment>, a: BarItemAlignment) -> Seq<usize>
    decreases s.len(),
{
    if s.len() == 0 {
        Seq::empty()
    } else {
        let rest = indices_with(s.drop_last(), a);
        if s.last() == a {
            rest.push((s.len() - 1) as usize)
        } else {
            rest
        }
    }
}

/// Splits the bar items, given by their alignments, into the left, center and
/// right groups, each keeping the order of the items.
pub fn split_by_alignment(alignments: &Vec<BarItemAlignment>) -> (r: (Vec<usize>, Vec<usize>, Vec<usize>))
    ensures
        r.0@ == indices_with(alignments@, BarItemAlignment::Left),
        r.1@ == indices_with(alignments@, BarItemAlignment::Center),
        r.2@ == indices_with(alignments@, BarItemAlignment::Right),
{
    let mut left: Vec<usize> = Vec::new();
    let mut center: Vec<usize> = Vec::new();
    let mut right: Vec<usize> = Vec::new();
    let mut i: usize = 0;
    while i < alignments.len()
        invariant
            i <= alignments@.len(),
            left@ == indices_with(alignments@.take(i as int), BarItemAlignment::Left),
            center@ == indices_with(alignments@.take(i as int), BarItemAlignment::Center),
            right@ == indices_with(alignments@.take(i as int), BarItemAlignment::Right),
        decreases alignments@.len() - i,
    {
        assert(alignments@.take(i as int + 1).drop_last() == alignments@.take(i as int));
        match alignments[i] {
            BarItemAlignment::Left => left.push(i),
            BarItemAlignment::Center => center.push(i),
            BarItemAlignment::Right => right.push(i),
        }
        i += 1;
    }
    assert(alignments@.take(alignments@.len() as int) == alignments@);
    (left, center, right)
}

} // verus!
