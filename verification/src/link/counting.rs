//! Counting the packets of several lines.
use vstd::prelude::*;

verus! {

/// The number of packets in `lines`, all of them together.
pub open spec fn total_len<T>(lines: Seq<Seq<T>>) -> nat
    decreases lines.len(),
{
    if lines.len() == 0 {
        0
    } else {
        total_len(lines.drop_last()) + lines.last().len()
    }
}

/// One more packet in one line is one more packet in all.
pub proof fn lemma_total_len_grows<T>(before: Seq<Seq<T>>, after: Seq<Seq<T>>, line: int)
    requires
        before.len() == after.len(),
        0 <= line < before.len(),
        after[line].len() == before[line].len() + 1,
        forall|other: int|
            0 <= other < before.len() && other != line ==> (#[trigger] after[other]).len()
                == before[other].len(),
    ensures
        total_len(after) == total_len(before) + 1,
    decreases before.len(),
{
    if line < before.len() - 1 {
        lemma_total_len_grows(before.drop_last(), after.drop_last(), line);
    } else {
        lemma_total_len_same(before.drop_last(), after.drop_last());
    }
}

/// Lines of the same lengths hold the same number of packets.
pub proof fn lemma_total_len_same<T>(before: Seq<Seq<T>>, after: Seq<Seq<T>>)
    requires
        before.len() == after.len(),
        forall|line: int|
            0 <= line < before.len() ==> (#[trigger] after[line]).len() == before[line].len(),
    ensures
        total_len(after) == total_len(before),
    decreases before.len(),
{
    if before.len() > 0 {
        lemma_total_len_same(before.drop_last(), after.drop_last());
    }
}

/// Empty lines hold no packet.
pub proof fn lemma_total_len_of_empty<T>(lines: nat)
    ensures
        total_len(Seq::new(lines, |line: int| Seq::<T>::empty())) == 0,
    decreases lines,
{
    if lines > 0 {
        let all = Seq::new(lines, |line: int| Seq::<T>::empty());
        lemma_total_len_of_empty::<T>((lines - 1) as nat);
        lemma_total_len_same(Seq::new((lines - 1) as nat, |line: int| Seq::<T>::empty()), all.drop_last());
    }
}

} // verus!
