//! Arranging instants newest first.

use vstd::prelude::*;

use crate::time::Timestamp;

verus! {

/// Whether `order` arranges the places of `keys` so that the instants never
/// ascend: every place occurs exactly once, and no instant is followed by a
/// later one.
pub open spec fn is_newest_first(keys: Seq<Timestamp>, order: Seq<usize>) -> bool {
    &&& order.len() == keys.len()
    &&& order.no_duplicates()
    &&& forall|t: int| 0 <= t < order.len() ==> (#[trigger] order[t]) < keys.len()
    &&& forall|x: usize| x < keys.len() ==> order.contains(x)
    &&& forall|s: int, t: int|
        0 <= s < t < order.len() ==> keys[(#[trigger] order[s]) as int]@ >= keys[(
        #[trigger] order[t]) as int]@
}

/// The places of `keys`, newest instant first. Equal instants keep the order
/// of their places.
pub fn newest_first(keys: &Vec<Timestamp>) -> (order: Vec<usize>)
    ensures
        is_newest_first(keys@, order@),
{
    let mut order: Vec<usize> = Vec::new();
    let mut i: usize = 0;
    while i < keys.len()
        invariant
            i <= keys.len(),
            order@.len() == i,
            order@.no_duplicates(),
            forall|t: int| 0 <= t < order@.len() ==> (#[trigger] order@[t]) < i,
            forall|x: usize| x < i ==> order@.contains(x),
            forall|s: int, t: int|
                0 <= s < t < order@.len() ==> keys@[(#[trigger] order@[s]) as int]@ >= keys@[(
                #[trigger] order@[t]) as int]@,
        decreases keys.len() - i,
    {
        let mut p: usize = 0;
        while p < order.len() && !keys[order[p]].is_before(&keys[i])
            invariant
                p <= order.len(),
                order@.len() == i,
                i < keys.len(),
                forall|t: int| 0 <= t < order@.len() ==> (#[trigger] order@[t]) < i,
                forall|t: int|
                    0 <= t < p ==> keys@[(#[trigger] order@[t]) as int]@ >= keys@[i as int]@,
            decreases order.len() - p,
        {
            p += 1;
        }
        let ghost before = order@;
        order.insert(p, i);
        proof {
            let after = order@;
            assert(after.len() == before.len() + 1);
            assert forall|t: int| 0 <= t < after.len() implies (#[trigger] after[t]) < i + 1 by {
                if t < p {
                    assert(after[t] == before[t]);
                } else if t > p {
                    assert(after[t] == before[t - 1]);
                }
            }
            assert forall|s: int, t: int| 0 <= s < t < after.len() implies after[s] != after[t] by {
                let a = if s < p {
                    before[s]
                } else if s == p {
                    i
                } else {
                    before[s - 1]
                };
                let b = if t < p {
                    before[t]
                } else if t == p {
                    i
                } else {
                    before[t - 1]
                };
                assert(after[s] == a && after[t] == b);
            }
            assert forall|x: usize| x < i + 1 implies after.contains(x) by {
                if x == i {
                    assert(after[p as int] == x);
                } else {
                    assert(before.contains(x));
                    let t = choose|t: int| 0 <= t < before.len() && before[t] == x;
                    if t < p {
                        assert(after[t] == x);
                    } else {
                        assert(after[t + 1] == x);
                    }
                }
            }
            assert forall|s: int, t: int| 0 <= s < t < after.len() implies keys@[(
            #[trigger] after[s]) as int]@ >= keys@[(#[trigger] after[t]) as int]@ by {
                if p < before.len() {
                    assert(keys@[before[p as int] as int]@ < keys@[i as int]@);
                }
                if s < p {
                    assert(after[s] == before[s]);
                } else if s > p {
                    assert(after[s] == before[s - 1]);
                }
                if t < p {
                    assert(after[t] == before[t]);
                } else if t > p {
                    assert(after[t] == before[t - 1]);
                    if t - 1 > p {
                        assert(keys@[before[p as int] as int]@ >= keys@[before[t - 1] as int]@);
                    }
                }
            }
        }
        i += 1;
    }
    order
}

} // verus!
