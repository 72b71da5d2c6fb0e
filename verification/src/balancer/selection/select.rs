//! Picking the upstream node for the next request: the best-scoring node
//! among those that are not erroring, or among all of them when every node
//! is erroring.

use vstd::prelude::*;

use crate::rpc::types::Rpc;

verus! {

/// How much latency and throughput count against rank.
#[derive(Debug, Clone, Copy, PartialEq, Eq, Structural)]
pub struct Weights {
    /// Score lost per microsecond of latency.
    pub latency: u32,
    /// Score gained per request per second of throughput.
    pub throughput: u32,
}

/// The score of a node: its rank, less its weighted latency, plus its
/// weighted throughput.
pub open spec fn score(rpc: Rpc, weights: Weights) -> int {
    rpc.rank - weights.latency * rpc.status.latency + weights.throughput * rpc.status.throughput
}

/// Every node of `list` is erroring.
pub open spec fn all_erroring(list: Seq<Rpc>) -> bool {
    forall|i: int| 0 <= i < list.len() ==> (#[trigger] list[i]).status.is_erroring
}

/// The node at `i` may be chosen: it is not erroring, or no node is healthy.
pub open spec fn is_candidate(list: Seq<Rpc>, i: int) -> bool {
    0 <= i < list.len() && (!list[i].status.is_erroring || all_erroring(list))
}

/// The node at `i` is the one to choose: no candidate scores higher, and
/// every candidate before it scores lower.
pub open spec fn is_best(list: Seq<Rpc>, weights: Weights, i: int) -> bool {
    &&& is_candidate(list, i)
    &&& forall|j: int| #[trigger]
        is_candidate(list, j) ==> score(list[j], weights) <= score(list[i], weights)
    &&& forall|j: int| #[trigger]
        is_candidate(list, j) && j < i ==> score(list[j], weights) < score(list[i], weights)
}

/// There is only one node to choose.
pub proof fn lemma_best_is_unique(list: Seq<Rpc>, weights: Weights, i: int, j: int)
    requires
        is_best(list, weights, i),
        is_best(list, weights, j),
    ensures
        i == j,
{
    if i < j {
        assert(is_candidate(list, i));
        assert(score(list[i], weights) < score(list[j], weights));
        assert(is_candidate(list, j));
        assert(score(list[j], weights) <= score(list[i], weights));
    } else if j < i {
        assert(is_candidate(list, j));
        assert(score(list[j], weights) < score(list[i], weights));
        assert(is_candidate(list, i));
        assert(score(list[i], weights) <= score(list[j], weights));
    }
}

/// With weights that are not zero, a node scores strictly higher than
/// another that differs from it in one respect only: a lower rank, a higher
/// latency, or a lower throughput.
pub proof fn lemma_score_is_monotonic(better: Rpc, worse: Rpc, weights: Weights)
    requires
        weights.latency > 0,
        weights.throughput > 0,
        better.rank >= worse.rank,
        better.status.latency <= worse.status.latency,
        better.status.throughput >= worse.status.throughput,
        better.rank != worse.rank || better.status.latency != worse.status.latency
            || better.status.throughput != worse.status.throughput,
    ensures
        score(better, weights) > score(worse, weights),
{
    let wl = weights.latency as int;
    let wt = weights.throughput as int;
    let bl = better.status.latency as int;
    let wol = worse.status.latency as int;
    let bt = better.status.throughput as int;
    let wot = worse.status.throughput as int;
    assert(wl * bl <= wl * wol) by (nonlinear_arith)
        requires
            wl > 0,
            bl <= wol,
    ;
    assert(bl < wol ==> wl * bl < wl * wol) by (nonlinear_arith)
        requires
            wl > 0,
    ;
    assert(wt * bt >= wt * wot) by (nonlinear_arith)
        requires
            wt > 0,
            bt >= wot,
    ;
    assert(bt > wot ==> wt * bt > wt * wot) by (nonlinear_arith)
        requires
            wt > 0,
    ;
}

/// The score of `rpc`.
pub fn score_of(rpc: &Rpc, weights: &Weights) -> (value: i128)
    ensures
        value == score(*rpc, *weights),
{
    assert(0 <= weights.latency * rpc.status.latency <= 0xffff_ffff * 0xffff_ffff_ffff_ffff)
        by (nonlinear_arith)
        requires
            0 <= weights.latency <= 0xffff_ffff,
            0 <= rpc.status.latency <= 0xffff_ffff_ffff_ffff,
    ;
    assert(0 <= weights.throughput * rpc.status.throughput <= 0xffff_ffff * 0xffff_ffff_ffff_ffff)
        by (nonlinear_arith)
        requires
            0 <= weights.throughput <= 0xffff_ffff,
            0 <= rpc.status.throughput <= 0xffff_ffff_ffff_ffff,
    ;
    let latency: i128 = weights.latency as i128 * rpc.status.latency as i128;
    let throughput: i128 = weights.throughput as i128 * rpc.status.throughput as i128;
    rpc.rank as i128 - latency + throughput
}

/// Whether some node of `list` is not erroring.
fn any_healthy(list: &Vec<Rpc>) -> (healthy: bool)
    ensures
        healthy == !all_erroring(list@),
{
    let mut i: usize = 0;
    while i < list.len()
        invariant
            i <= list@.len(),
            forall|j: int| 0 <= j < i ==> (#[trigger] list@[j]).status.is_erroring,
        decreases list@.len() - i,
    {
        if !list[i].status.is_erroring {
            return true;
        }
        i += 1;
    }
    false
}

/// Picks the node for the next request from a registry that is not empty,
/// and returns it with its position.
///
/// Nodes that are erroring are passed over, unless all are: then every node
/// is a candidate, since a doubtful node is better than none. Among the
/// candidates the highest score wins, and among equal scores the first.
pub fn pick(list: &Vec<Rpc>, weights: &Weights) -> (chosen: (Rpc, usize))
    requires
        list@.len() > 0,
    ensures
        is_best(list@, *weights, chosen.1 as int),
        chosen.0 == list@[chosen.1 as int],
{
    let healthy = any_healthy(list);
    let mut best: usize = 0;
    let mut best_score: i128 = 0;
    let mut found = false;
    let mut i: usize = 0;
    while i < list.len()
        invariant
            i <= list@.len(),
            healthy == !all_erroring(list@),
            !found ==> forall|j: int| 0 <= j < i ==> !is_candidate(list@, j),
            found ==> {
                &&& best < i
                &&& is_candidate(list@, best as int)
                &&& best_score == score(list@[best as int], *weights)
                &&& forall|j: int|
                    0 <= j < i && #[trigger] is_candidate(list@, j) ==> score(list@[j], *weights)
                        <= best_score
                &&& forall|j: int|
                    0 <= j < best && #[trigger] is_candidate(list@, j) ==> score(
                        list@[j],
                        *weights,
                    ) < best_score
            },
        decreases list@.len() - i,
    {
        if !healthy || !list[i].status.is_erroring {
            let value = score_of(&list[i], weights);
            if !found || value > best_score {
                best = i;
                best_score = value;
                found = true;
            }
        }
        i += 1;
    }
    proof {
        if !found {
            if all_erroring(list@) {
                assert(is_candidate(list@, 0));
            } else {
                let j = choose|j: int| 0 <= j < list@.len() && !(#[trigger] list@[j]).status.is_erroring;
                assert(is_candidate(list@, j));
            }
        }
    }
    (list[best].clone(), best)
}

} // verus!
