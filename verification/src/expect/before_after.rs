//! What a persistent pattern's handler asks for, and the order in which
//! persistent patterns are checked: enabled ones only, lowest priority first,
//! ties in the order given.
use vstd::prelude::*;

verus! {

/// What a pattern handler asks for.
#[derive(Debug, Clone, PartialEq, Eq)]
pub enum HandlerAction {
    /// Go on with the expect operation.
    Continue,
    /// End the expect operation with this value.
    Return(String),
    /// Abort with this error message.
    Abort(String),
    /// Send this response and go on.
    Respond(String),
}

impl Default for HandlerAction {
    fn default() -> (r: Self)
        ensures
            r is Continue,
    {
        HandlerAction::Continue
    }
}

/// Whether entry `a` is checked before entry `b`: lower priority first,
/// then the order given.
pub open spec fn checked_before(prio: Seq<(bool, i32)>, a: int, b: int) -> bool {
    prio[a].1 < prio[b].1 || (prio[a].1 == prio[b].1 && a < b)
}

/// Whether `order` lists exactly the enabled entries, each once, in
/// checking order.
pub open spec fn is_check_order(prio: Seq<(bool, i32)>, order: Seq<usize>) -> bool {
    &&& forall|k: int| 0 <= k < order.len() ==> (#[trigger] order[k]) < prio.len() && prio[order[k] as int].0
    &&& forall|i: int| 0 <= i < prio.len() && (#[trigger] prio[i]).0 ==> exists|k: int| 0 <= k < order.len() && order[k] == i
    &&& forall|k: int, m: int| 0 <= k < m < order.len() ==> checked_before(prio, #[trigger] order[k] as int, #[trigger] order[m] as int)
}

/// The indices of the enabled entries (`(enabled, priority)` each), in the
/// order they are checked: by priority, ties in the order given.
pub fn check_order(prio: &[(bool, i32)]) -> (r: Vec<usize>)
    ensures
        is_check_order(prio@, r@),
{
    let mut out: Vec<usize> = Vec::new();
    let mut i: usize = 0;
    while i < prio.len()
        invariant
            i <= prio@.len(),
            forall|k: int| 0 <= k < out@.len() ==> (#[trigger] out@[k]) < i && prio@[out@[k] as int].0,
            forall|j: int| 0 <= j < i && (#[trigger] prio@[j]).0 ==> exists|k: int| 0 <= k < out@.len() && out@[k] == j,
            forall|k: int, m: int| 0 <= k < m < out@.len() ==> checked_before(prio@, #[trigger] out@[k] as int, #[trigger] out@[m] as int),
        decreases prio.len() - i,
    {
        if prio[i].0 {
            let p = prio[i].1;
            let mut pos: usize = 0;
            while pos < out.len() && prio[out[pos]].1 <= p
                invariant
                    pos <= out@.len(),
                    forall|k: int| 0 <= k < out@.len() ==> (#[trigger] out@[k]) < i,
                    forall|k: int| 0 <= k < pos ==> prio@[(#[trigger] out@[k]) as int].1 <= p,
                    i < prio@.len(),
                decreases out.len() - pos,
            {
                pos = pos + 1;
            }
            proof {
                // Entries from `pos` on come later in checking order.
                assert forall|k: int| pos <= k < out@.len() implies prio@[(#[trigger] out@[k]) as int].1 > p by {
                    if pos < out@.len() {
                        assert(prio@[out@[pos as int] as int].1 > p);
                        if k > pos {
                            assert(checked_before(prio@, out@[pos as int] as int, out@[k] as int));
                        }
                    }
                }
            }
            let ghost before = out@;
            out.insert(pos, i);
            proof {
                assert forall|k: int, m: int| 0 <= k < m < out@.len() implies checked_before(prio@, #[trigger] out@[k] as int, #[trigger] out@[m] as int) by {
                    if m < pos {
                        assert(out@[k] == before[k] && out@[m] == before[m]);
                    } else if m == pos {
                        assert(out@[k] == before[k]);
                    } else if k == pos {
                        assert(out@[m] == before[m - 1]);
                    } else if k < pos {
                        assert(out@[k] == before[k] && out@[m] == before[m - 1]);
                        assert(checked_before(prio@, before[k] as int, before[m - 1] as int));
                    } else {
                        assert(out@[k] == before[k - 1] && out@[m] == before[m - 1]);
                        assert(checked_before(prio@, before[k - 1] as int, before[m - 1] as int));
                    }
                }
                assert forall|j: int| 0 <= j < i + 1 && (#[trigger] prio@[j]).0 implies exists|k: int| 0 <= k < out@.len() && out@[k] == j by {
                    if j == i {
                        assert(out@[pos as int] == i);
                    } else {
                        let k = choose|k: int| 0 <= k < before.len() && before[k] == j;
                        if k < pos {
                            assert(out@[k] == j);
                        } else {
                            assert(out@[k + 1] == j);
                        }
                    }
                }
                assert forall|k: int| 0 <= k < out@.len() implies (#[trigger] out@[k]) < i + 1 && prio@[out@[k] as int].0 by {
                    if k < pos {
                        assert(out@[k] == before[k]);
                    } else if k > pos {
                        assert(out@[k] == before[k - 1]);
                    }
                }
            }
        }
        i = i + 1;
    }
    out
}

} // verus!
