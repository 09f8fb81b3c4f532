use vstd::prelude::*;

use crate::resource::{capacity, ResourceConfig};
use crate::types::NodeId;

verus! {

/// A requirement `(name, amount)` is met when the configuration advertises
/// `name` with a capacity of at least `amount`.
pub open spec fn requirement_met(cfg: Seq<(String, usize)>, req: (String, usize)) -> bool {
    match capacity(cfg, req.0@) {
        Some(cap) => req.1 <= cap,
        None => false,
    }
}

/// Every requirement of a call is met by the configuration.
pub open spec fn satisfies(reqs: Seq<(String, usize)>, cfg: Seq<(String, usize)>) -> bool {
    forall|i: int| 0 <= i < reqs.len() ==> requirement_met(cfg, #[trigger] reqs[i])
}

/// The peers, in order, whose configuration satisfies every requirement.
pub open spec fn eligible(reqs: Seq<(String, usize)>, peers: Seq<(NodeId, ResourceConfig)>) -> Seq<
    NodeId,
>
    decreases peers.len(),
{
    if peers.len() == 0 {
        Seq::empty()
    } else {
        let rest = eligible(reqs, peers.drop_last());
        if satisfies(reqs, peers.last().1@) {
            rest.push(peers.last().0)
        } else {
            rest
        }
    }
}

/// Whether a node with configuration `resources` can run a call with
/// requirements `reqs`.
pub fn can_execute(reqs: &Vec<(String, usize)>, resources: &ResourceConfig) -> (r: bool)
    requires
        resources.wf(),
    ensures
        r == satisfies(reqs@, resources@),
{
    let mut i: usize = 0;
    while i < reqs.len()
        invariant
            resources.wf(),
            i <= reqs@.len(),
            forall|j: int| 0 <= j < i ==> requirement_met(resources@, #[trigger] reqs@[j]),
        decreases reqs@.len() - i,
    {
        let met = match resources.get(&reqs[i].0) {
            Some(cap) => reqs[i].1 <= cap,
            None => false,
        };
        if !met {
            assert(!requirement_met(resources@, reqs@[i as int]));
            return false;
        }
        i = i + 1;
    }
    true
}

/// The peers that can run a call with requirements `reqs`, in the order given.
pub fn eligible_peers(reqs: &Vec<(String, usize)>, peers: &Vec<(NodeId, ResourceConfig)>) -> (r: Vec<
    NodeId,
>)
    requires
        forall|i: int| 0 <= i < peers@.len() ==> (#[trigger] peers@[i]).1.wf(),
    ensures
        r@ == eligible(reqs@, peers@),
{
    let mut r: Vec<NodeId> = Vec::new();
    let mut i: usize = 0;
    while i < peers.len()
        invariant
            i <= peers@.len(),
            forall|k: int| 0 <= k < peers@.len() ==> (#[trigger] peers@[k]).1.wf(),
            r@ == eligible(reqs@, peers@.subrange(0, i as int)),
        decreases peers@.len() - i,
    {
        let ghost before = peers@.subrange(0, i as int);
        assert(peers@.subrange(0, i + 1).drop_last() =~= before);
        if can_execute(reqs, &peers[i].1) {
            r.push(peers[i].0);
        }
        i = i + 1;
    }
    assert(peers@.subrange(0, peers@.len() as int) =~= peers@);
    r
}

/// Why a call cannot be placed.
#[derive(PartialEq, Eq, Structural, Debug, Clone, Copy)]
pub enum ScheduleError {
    /// No peer advertises enough of every resource the call requires.
    NoEligiblePeer,
}

/// Places a call given a draw: the eligible peer at position `draw`,
/// counted round the eligible peers.
pub fn place_with(reqs: &Vec<(String, usize)>, peers: &Vec<(NodeId, ResourceConfig)>, draw: usize) -> (r:
    Result<NodeId, ScheduleError>)
    requires
        forall|i: int| 0 <= i < peers@.len() ==> (#[trigger] peers@[i]).1.wf(),
    ensures
        match r {
            Ok(p) => {
                let e = eligible(reqs@, peers@);
                e.len() > 0 && p == e[draw as int % e.len() as int]
            },
            Err(err) => err == ScheduleError::NoEligiblePeer && eligible(reqs@, peers@).len() == 0,
        },
{
    let e = eligible_peers(reqs, peers);
    if e.len() == 0 {
        return Err(ScheduleError::NoEligiblePeer);
    }
    Ok(e[draw % e.len()])
}

/// Places a call: one of the peers that can run it, drawn uniformly at
/// random; the only one if there is one.
pub fn place(reqs: &Vec<(String, usize)>, peers: &Vec<(NodeId, ResourceConfig)>) -> (r: Result<
    NodeId,
    ScheduleError,
>)
    requires
        forall|i: int| 0 <= i < peers@.len() ==> (#[trigger] peers@[i]).1.wf(),
    ensures
        match r {
            Ok(p) => eligible(reqs@, peers@).contains(p),
            Err(err) => err == ScheduleError::NoEligiblePeer && eligible(reqs@, peers@).len() == 0,
        },
        eligible(reqs@, peers@).len() == 1 ==> r == Ok::<NodeId, ScheduleError>(
            eligible(reqs@, peers@)[0],
        ),
{
    let e = eligible_peers(reqs, peers);
    match pick_index(e.len()) {
        Some(i) => {
            assert(e@.contains(e@[i as int]));
            Ok(e[i])
        },
        None => Err(ScheduleError::NoEligiblePeer),
    }
}

/// A random position below `n`.
///
/// Relies on rand 0.8's `IteratorRandom::choose` over the range `0..n` with
/// `thread_rng`: a range reports its exact length, so `choose` returns one of
/// its elements, and `None` only when the range is empty.
#[verifier::external_body]
fn pick_index(n: usize) -> (r: Option<usize>)
    ensures
        r.is_some() == (n > 0),
        r.is_some() ==> r.unwrap() < n,
{
    rand::seq::IteratorRandom::choose(0..n, &mut rand::thread_rng())
}

/// Scheduler admissibility: a peer is eligible for a call only if it appears
/// among the peers with a configuration that meets every requirement.
pub proof fn lemma_eligible_admissible(
    reqs: Seq<(String, usize)>,
    peers: Seq<(NodeId, ResourceConfig)>,
    p: NodeId,
)
    requires
        eligible(reqs, peers).contains(p),
    ensures
        exists|i: int|
            0 <= i < peers.len() && (#[trigger] peers[i]).0 == p && satisfies(reqs, peers[i].1@),
    decreases peers.len(),
{
    let rest = eligible(reqs, peers.drop_last());
    if satisfies(reqs, peers.last().1@) && p == peers.last().0 {
        assert(peers[peers.len() - 1].0 == p);
    } else {
        if satisfies(reqs, peers.last().1@) {
            let k = choose|k: int| 0 <= k < eligible(reqs, peers).len() && eligible(reqs, peers)[k]
                == p;
            assert(k < rest.len());
            assert(rest[k] == p);
        }
        lemma_eligible_admissible(reqs, peers.drop_last(), p);
        let i = choose|i: int|
            0 <= i < peers.drop_last().len() && (#[trigger] peers.drop_last()[i]).0 == p
                && satisfies(reqs, peers.drop_last()[i].1@);
        assert(peers[i] == peers.drop_last()[i]);
    }
}

} // verus!
