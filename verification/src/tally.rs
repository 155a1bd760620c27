use vstd::prelude::*;

verus! {

/// The exact sum of a history of accepted scores.
pub open spec fn sum_of(s: Seq<u64>) -> int
    decreases s.len(),
{
    if s.len() == 0 {
        0
    } else {
        sum_of(s.drop_last()) + s.last()
    }
}

/// The maximum of a history of accepted scores; zero for the empty history,
/// matching the zeroed field of a fresh record.
pub open spec fn max_of(s: Seq<u64>) -> int
    decreases s.len(),
{
    if s.len() == 0 {
        0
    } else if s.last() > max_of(s.drop_last()) {
        s.last() as int
    } else {
        max_of(s.drop_last())
    }
}

pub proof fn lemma_sum_push(s: Seq<u64>, x: u64)
    ensures
        sum_of(s.push(x)) == sum_of(s) + x,
{
    assert(s.push(x).drop_last() =~= s);
}

pub proof fn lemma_max_push(s: Seq<u64>, x: u64)
    ensures
        max_of(s.push(x)) == if x > max_of(s) {
            x as int
        } else {
            max_of(s)
        },
{
    assert(s.push(x).drop_last() =~= s);
}

} // verus!
