//! Event handlers invoked by a connection's receiver, and the selection
//! logic behind the default attempt-connect policy.
//!
//! The receiver hands its actions to an opaque pair of capabilities: one
//! observes completed Ping round trips, the other takes the names a peer
//! reports as connected. The default policy dials every reported name the
//! local configuration knows that is not already `Up`; `connect_candidates`
//! is that selection, and it never picks a peer that is `Up` already.

use crate::chatter::ChatterMessage;
use crate::config::{clone_general_config, clone_names, Config, GeneralConfig, NodeView};
use crate::registry::{NodeManager, NodeStatus};
use crate::scheme::str_eq;
use vstd::prelude::*;

verus! {

/// The capability to react to the names a peer reports as connected.
pub trait AttemptConnectHandler {
    fn attempt_connect(&mut self, names: &Vec<String>);
}

/// The capability to observe a completed round trip.
pub trait PongHandler {
    fn pong(&mut self, id: u32);
}

/// A test double: records everything it is told.
pub struct MockEv {
    pub pongs: Vec<u32>,
    pub batches: Vec<Vec<String>>,
}

impl MockEv {
    pub fn new() -> (r: MockEv)
        ensures
            r.pongs@ == Seq::<u32>::empty(),
            r.batches@ == Seq::<Vec<String>>::empty(),
    {
        MockEv { pongs: Vec::new(), batches: Vec::new() }
    }
}

impl AttemptConnectHandler for MockEv {
    fn attempt_connect(&mut self, names: &Vec<String>) {
        let copy = clone_names(names);
        self.batches.push(copy);
    }
}

impl PongHandler for MockEv {
    fn pong(&mut self, id: u32) {
        self.pongs.push(id);
    }
}

/// Both capabilities together, as a connection requires them.
pub trait EventHandlers: AttemptConnectHandler + PongHandler {
}

impl EventHandlers for MockEv {

}

/// Whether a name list holds this name.
pub fn contains_name(names: &Vec<String>, name: &str) -> (r: bool)
    ensures
        r == names@.map_values(|s: String| s@).contains(name@),
{
    let ghost nv = names@.map_values(|s: String| s@);
    let mut i: usize = 0;
    while i < names.len()
        invariant
            i <= names@.len(),
            nv == names@.map_values(|s: String| s@),
            forall|j: int| 0 <= j < i ==> nv[j] != name@,
        decreases names@.len() - i,
    {
        if str_eq(names[i].as_str(), name) {
            proof {
                assert(nv[i as int] == name@);
            }
            return true;
        }
        i = i + 1;
    }
    proof {
        assert(forall|j: int| 0 <= j < nv.len() ==> nv[j] != name@);
    }
    false
}

/// The indices of the configured nodes that a peer's name list asks us to
/// dial: reported by the peer, and not currently `Up`.
pub open spec fn spec_candidates<C>(
    nodes: Seq<NodeView>,
    names: Seq<Seq<char>>,
    mgr: NodeManager<C>,
) -> Seq<int>
    decreases nodes.len(),
{
    if nodes.len() == 0 {
        Seq::empty()
    } else {
        let rest = spec_candidates(nodes.drop_last(), names, mgr);
        if names.contains(nodes.last().name) && !(mgr.spec_get(nodes.last().name) is Up) {
            rest + seq![nodes.len() - 1]
        } else {
            rest
        }
    }
}

/// Selects which configured nodes to dial after a Hello: those the peer
/// reports, that the local configuration knows, and that are not already
/// `Up`. Returns their indices into `config.nodes`, in order.
pub fn connect_candidates<C>(
    names: &Vec<String>,
    config: &GeneralConfig,
    mgr: &NodeManager<C>,
) -> (r: Vec<usize>)
    requires
        mgr.wf(),
    ensures
        r@.map_values(|u: usize| u as int) == spec_candidates(
            config@.nodes,
            names@.map_values(|s: String| s@),
            *mgr,
        ),
{
    let ghost cn = config@.nodes;
    let ghost nv = names@.map_values(|s: String| s@);
    let mut r: Vec<usize> = Vec::new();
    let mut i: usize = 0;
    while i < config.nodes.len()
        invariant
            i <= config.nodes@.len(),
            cn == config@.nodes,
            nv == names@.map_values(|s: String| s@),
            mgr.wf(),
            cn.len() == config.nodes@.len(),
            r@.map_values(|u: usize| u as int) == spec_candidates(cn.take(i as int), nv, *mgr),
        decreases config.nodes@.len() - i,
    {
        let ghost pre = r@.map_values(|u: usize| u as int);
        let reported = contains_name(names, config.nodes[i].name.as_str());
        let mut pick = false;
        if reported {
            let st = mgr.get(config.nodes[i].name.as_str());
            if !st.is_up() {
                pick = true;
            }
        }
        proof {
            assert(cn.take(i + 1 as int).drop_last() =~= cn.take(i as int));
            assert(cn.take(i + 1 as int).last() == cn[i as int]);
            assert(cn[i as int].name == config.nodes@[i as int].name@);
        }
        if pick {
            r.push(i);
            proof {
                assert(r@.map_values(|u: usize| u as int) =~= pre.push(i as int));
                assert(spec_candidates(cn.take(i + 1 as int), nv, *mgr) =~= pre.push(i as int));
            }
        } else {
            proof {
                assert(spec_candidates(cn.take(i + 1 as int), nv, *mgr) =~= pre);
            }
        }
        i = i + 1;
    }
    proof {
        assert(cn.take(cn.len() as int) =~= cn);
    }
    r
}

/// No candidate is already `Up`: the dial list skips live peers.
pub proof fn lemma_candidates_not_up<C>(
    nodes: Seq<NodeView>,
    names: Seq<Seq<char>>,
    mgr: NodeManager<C>,
    k: int,
)
    requires
        0 <= k < spec_candidates(nodes, names, mgr).len(),
    ensures
        ({
            let i = spec_candidates(nodes, names, mgr)[k];
            &&& 0 <= i < nodes.len()
            &&& names.contains(nodes[i].name)
            &&& !(mgr.spec_get(nodes[i].name) is Up)
        }),
    decreases nodes.len(),
{
    if nodes.len() == 0 {
    } else {
        let rest = spec_candidates(nodes.drop_last(), names, mgr);
        if k < rest.len() {
            lemma_candidates_not_up(nodes.drop_last(), names, mgr, k);
            assert(nodes.drop_last()[rest[k]] == nodes[rest[k]]);
        }
    }
}

/// When every reported name is already `Up`, the attempt-connect policy
/// dials nobody: it is a no-op.
pub proof fn lemma_attempt_connect_no_op<C>(
    nodes: Seq<NodeView>,
    names: Seq<Seq<char>>,
    mgr: NodeManager<C>,
)
    requires
        forall|n: Seq<char>| names.contains(n) ==> mgr.spec_get(n) is Up,
    ensures
        spec_candidates(nodes, names, mgr) == Seq::<int>::empty(),
    decreases nodes.len(),
{
    if nodes.len() == 0 {
    } else {
        lemma_attempt_connect_no_op(nodes.drop_last(), names, mgr);
        if names.contains(nodes.last().name) {
            assert(mgr.spec_get(nodes.last().name) is Up);
        }
        assert(spec_candidates(nodes, names, mgr) =~= Seq::<int>::empty());
    }
}

/// The indices of the peers this node dials at startup: every configured
/// node whose name is not its own (the self-filter).
pub open spec fn spec_peer_targets(nodes: Seq<NodeView>, self_name: Seq<char>) -> Seq<int>
    decreases nodes.len(),
{
    if nodes.len() == 0 {
        Seq::empty()
    } else {
        let rest = spec_peer_targets(nodes.drop_last(), self_name);
        if nodes.last().name != self_name {
            rest + seq![nodes.len() - 1]
        } else {
            rest
        }
    }
}

/// The peers to dial at startup, as indices into `config.nodes`, in order.
pub fn peer_targets(config: &GeneralConfig, self_name: &str) -> (r: Vec<usize>)
    ensures
        r@.map_values(|u: usize| u as int) == spec_peer_targets(config@.nodes, self_name@),
{
    let ghost cn = config@.nodes;
    let mut r: Vec<usize> = Vec::new();
    let mut i: usize = 0;
    while i < config.nodes.len()
        invariant
            i <= config.nodes@.len(),
            cn == config@.nodes,
            cn.len() == config.nodes@.len(),
            r@.map_values(|u: usize| u as int) == spec_peer_targets(cn.take(i as int), self_name@),
        decreases config.nodes@.len() - i,
    {
        let ghost pre = r@.map_values(|u: usize| u as int);
        proof {
            assert(cn.take(i + 1 as int).drop_last() =~= cn.take(i as int));
            assert(cn.take(i + 1 as int).last() == cn[i as int]);
            assert(cn[i as int].name == config.nodes@[i as int].name@);
        }
        if !str_eq(config.nodes[i].name.as_str(), self_name) {
            r.push(i);
            proof {
                assert(r@.map_values(|u: usize| u as int) =~= pre.push(i as int));
                assert(spec_peer_targets(cn.take(i + 1 as int), self_name@) =~= pre.push(i as int));
            }
        } else {
            proof {
                assert(spec_peer_targets(cn.take(i + 1 as int), self_name@) =~= pre);
            }
        }
        i = i + 1;
    }
    proof {
        assert(cn.take(cn.len() as int) =~= cn);
    }
    r
}

/// The Hello a node sends the moment a connection opens: its cluster
/// configuration, its own priority, and the names it sees as connected.
pub fn hello_message(config: &Config, connected: Vec<String>) -> (r: ChatterMessage)
    ensures
        r@ == (crate::chatter::ChatterMessageView::Hello {
            config: config@.general,
            priority: config@.node.priority,
            connected: connected@.map_values(|s: String| s@),
        }),
{
    let r = ChatterMessage::Hello {
        config: clone_general_config(&config.general),
        priority: config.node.priority,
        connected,
    };
    proof {
        assert(r@ =~= (crate::chatter::ChatterMessageView::Hello {
            config: config@.general,
            priority: config@.node.priority,
            connected: connected@.map_values(|s: String| s@),
        }));
    }
    r
}

} // verus!
