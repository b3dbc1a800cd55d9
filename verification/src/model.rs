//! The fabric data model: nodes, ports, and counter-query targets.

use vstd::prelude::*;

verus! {

/// Port number that stands for the aggregated whole-switch counters.
pub const AGG_COUNTERS_PORT: i32 = 255;

/// A counter-query target: a node's LID and one port number.
#[derive(Clone, Copy, Debug, PartialEq, Eq, Structural)]
pub struct LidPort {
    pub lid: u16,
    pub number: i32,
}

/// One switch port, with the label of the node on the far side of the link
/// (empty when the link is down or the remote is unknown).
#[derive(Clone, Debug)]
pub struct Port {
    pub number: i32,
    pub remote_node_description: String,
}

/// One fabric node: a switch, or a host channel adapter listed with an
/// empty port list.
#[derive(Clone, Debug)]
pub struct Node {
    pub guid: u64,
    pub node_description: String,
    pub ports: Vec<Port>,
    pub lid: u16,
}

/// One aggregate target per node.
pub open spec fn spec_agg_targets(nodes: Seq<Node>) -> Seq<LidPort> {
    Seq::new(nodes.len(), |i: int| LidPort { lid: nodes[i].lid, number: AGG_COUNTERS_PORT })
}

/// One target per port of the node, under the node's LID.
pub open spec fn spec_node_targets(n: Node) -> Seq<LidPort> {
    Seq::new(n.ports@.len(), |i: int| LidPort { lid: n.lid, number: n.ports@[i].number })
}

/// A port list as the model demands: numbers without duplicates, each in
/// one to two hundred fifty-four — neither the management port zero nor
/// the aggregate pseudo-port appears as a real port.
pub open spec fn ports_wf(ports: Seq<Port>) -> bool {
    &&& forall|i: int| 0 <= i < ports.len() ==> 1 <= (#[trigger] ports[i]).number <= 254
    &&& forall|i: int, j: int| 0 <= i < j < ports.len() ==> ports[i].number != ports[j].number
}

pub open spec fn node_wf(n: Node) -> bool {
    ports_wf(n.ports@)
}

/// The node set's invariants: GUIDs unique and every port list well
/// formed.  LID uniqueness is not guaranteed by the fabric and is not
/// assumed.
pub open spec fn nodes_wf(nodes: Seq<Node>) -> bool {
    &&& forall|i: int| 0 <= i < nodes.len() ==> node_wf(#[trigger] nodes[i])
    &&& forall|i: int, j: int| 0 <= i < j < nodes.len() ==> nodes[i].guid != nodes[j].guid
}

/// Law: the per-port targets of a well-formed node never name the
/// aggregate pseudo-port, all carry the node's LID, and are pairwise
/// distinct.
pub proof fn lemma_node_targets_wf(n: Node)
    requires
        node_wf(n),
    ensures
        forall|i: int| 0 <= i < spec_node_targets(n).len() ==> (#[trigger] spec_node_targets(
            n,
        )[i]).number != AGG_COUNTERS_PORT && spec_node_targets(n)[i].lid == n.lid,
        forall|i: int, j: int| 0 <= i < j < spec_node_targets(n).len() ==> spec_node_targets(
            n,
        )[i] != spec_node_targets(n)[j],
{
    assert forall|i: int, j: int|
        0 <= i < j < spec_node_targets(n).len() implies spec_node_targets(n)[i]
        != spec_node_targets(n)[j] by {
        assert(n.ports@[i].number != n.ports@[j].number);
    }
}

/// The first position holding a node with the given GUID, or -1.
pub open spec fn first_guid_idx(nodes: Seq<Node>, guid: u64) -> int
    decreases nodes.len(),
{
    if nodes.len() == 0 {
        -1
    } else {
        let r = first_guid_idx(nodes.drop_last(), guid);
        if r >= 0 {
            r
        } else if nodes.last().guid == guid {
            nodes.len() - 1
        } else {
            -1
        }
    }
}

pub proof fn lemma_first_guid_idx_extend(nodes: Seq<Node>, guid: u64, k: int)
    requires
        0 <= k <= nodes.len(),
        first_guid_idx(nodes.take(k), guid) >= 0,
    ensures
        first_guid_idx(nodes, guid) == first_guid_idx(nodes.take(k), guid),
    decreases nodes.len() - k,
{
    if k < nodes.len() {
        assert(nodes.take(k + 1).drop_last() =~= nodes.take(k));
        lemma_first_guid_idx_extend(nodes, guid, k + 1);
    } else {
        assert(nodes.take(k) =~= nodes);
    }
}

/// The first-found bounds: a non-negative answer points at a node with
/// the GUID.
pub proof fn lemma_first_guid_idx_props(nodes: Seq<Node>, guid: u64)
    ensures
        first_guid_idx(nodes, guid) == -1 || (0 <= first_guid_idx(nodes, guid) < nodes.len()
            && nodes[first_guid_idx(nodes, guid)].guid == guid),
    decreases nodes.len(),
{
    if nodes.len() > 0 {
        lemma_first_guid_idx_props(nodes.drop_last(), guid);
    }
}

/// Finds the node carrying the given GUID, first match winning.
pub fn find_node_by_guid(nodes: &Vec<Node>, guid: u64) -> (r: Option<&Node>)
    ensures
        match r {
            Some(n) => first_guid_idx(nodes@, guid) >= 0 && *n == nodes@[first_guid_idx(
                nodes@,
                guid,
            )],
            None => first_guid_idx(nodes@, guid) == -1,
        },
{
    let mut i: usize = 0;
    while i < nodes.len()
        invariant
            i <= nodes@.len(),
            first_guid_idx(nodes@.take(i as int), guid) == -1,
        decreases nodes@.len() - i,
    {
        proof {
            assert(nodes@.take(i + 1).drop_last() =~= nodes@.take(i as int));
            assert(nodes@.take(i + 1).last() == nodes@[i as int]);
        }
        if nodes[i].guid == guid {
            proof {
                assert(first_guid_idx(nodes@.take(i + 1), guid) == i);
                lemma_first_guid_idx_extend(nodes@, guid, i + 1);
            }
            return Some(&nodes[i]);
        }
        i += 1;
    }
    proof {
        assert(nodes@.take(nodes@.len() as int) =~= nodes@);
    }
    None
}

/// One target per port of the node.
pub fn node_targets(n: &Node) -> (targets: Vec<LidPort>)
    ensures
        targets@ == spec_node_targets(*n),
{
    let mut targets: Vec<LidPort> = Vec::new();
    let mut i: usize = 0;
    while i < n.ports.len()
        invariant
            i <= n.ports@.len(),
            targets@.len() == i,
            forall|j: int| 0 <= j < i ==> targets@[j] == (LidPort {
                lid: n.lid,
                number: n.ports@[j].number,
            }),
        decreases n.ports@.len() - i,
    {
        targets.push(LidPort { lid: n.lid, number: n.ports[i].number });
        i += 1;
    }
    proof {
        assert(targets@ =~= spec_node_targets(*n));
    }
    targets
}

/// Targets one aggregate query per known node.
pub fn aggregate_targets(nodes: &Vec<Node>) -> (targets: Vec<LidPort>)
    ensures
        targets@ == spec_agg_targets(nodes@),
        targets@.len() == nodes@.len(),
        forall|i: int| 0 <= i < nodes@.len() ==> targets@[i] == (LidPort {
            lid: nodes@[i].lid,
            number: AGG_COUNTERS_PORT,
        }),
{
    let mut targets: Vec<LidPort> = Vec::new();
    let mut i: usize = 0;
    while i < nodes.len()
        invariant
            i <= nodes@.len(),
            targets@.len() == i,
            forall|j: int| 0 <= j < i ==> targets@[j] == (LidPort {
                lid: nodes@[j].lid,
                number: AGG_COUNTERS_PORT,
            }),
        decreases nodes@.len() - i,
    {
        targets.push(LidPort { lid: nodes[i].lid, number: AGG_COUNTERS_PORT });
        i += 1;
    }
    proof {
        assert(targets@ =~= spec_agg_targets(nodes@));
    }
    targets
}

} // verus!
