//! The raw topology that discovery hands back, and its conversion into
//! the flat node model.
//!
//! The fabric graph is cyclic: each port refers to its peer, which refers
//! back.  Here it is held as an arena — a vector of nodes — with ports
//! carrying non-owning back-references as indexes into that arena.  The
//! conversion dereferences each back-reference once to fetch the remote
//! node's label; a broken reference becomes the empty string, never a
//! failure.

use vstd::prelude::*;

use crate::model::{Node, Port};

verus! {

/// What kind of device a discovered node is.
#[derive(Clone, Copy, Debug, PartialEq, Eq, Structural)]
pub enum RawNodeType {
    Switch,
    Ca,
    Router,
    Other,
}

/// The link state discovery reported for a port.
#[derive(Clone, Copy, Debug, PartialEq, Eq, Structural)]
pub enum RawLinkState {
    Down,
    Init,
    Armed,
    Active,
    Unknown,
}

/// One discovered port; `remote` points at the peer port as indexes into
/// the topology's node arena, when the link partner is known.
#[derive(Clone, Debug)]
pub struct RawPort {
    pub number: u8,
    pub link_state: RawLinkState,
    pub lid: u16,
    pub remote: Option<(usize, usize)>,
}

/// One discovered node.
#[derive(Clone, Debug)]
pub struct RawNode {
    pub node_type: RawNodeType,
    pub guid: u64,
    pub lid: u16,
    pub description: Option<String>,
    pub ports: Vec<RawPort>,
}

/// A discovered fabric: the node arena.
#[derive(Clone, Debug)]
pub struct RawTopology {
    pub nodes: Vec<RawNode>,
}

/// Ports the conversion keeps: not the management port zero, and with the
/// link up or coming up.
pub open spec fn port_kept(p: RawPort) -> bool {
    p.number != 0 && (p.link_state == RawLinkState::Active || p.link_state == RawLinkState::Init)
}

/// The kept ports, in stored order.
pub open spec fn kept_ports(ports: Seq<RawPort>) -> Seq<RawPort>
    decreases ports.len(),
{
    if ports.len() == 0 {
        Seq::empty()
    } else {
        let rest = kept_ports(ports.drop_last());
        if port_kept(ports.last()) {
            rest.push(ports.last())
        } else {
            rest
        }
    }
}

/// The label of the node on the far side of a port's link: the peer
/// port's node's description.  A missing or dangling back-reference, or
/// a node without a description, gives the empty string.
pub open spec fn spec_remote_desc_of(all: Seq<RawNode>, p: RawPort) -> Seq<char> {
    match p.remote {
        Some((ni, pi)) => if ni < all.len() {
            match all[ni as int].description {
                Some(d) => d@,
                None => Seq::empty(),
            }
        } else {
            Seq::empty()
        },
        None => Seq::empty(),
    }
}

/// A converted port carries the raw port's number and its resolved
/// remote label.
pub open spec fn port_matches_raw(p: Port, r: RawPort, all: Seq<RawNode>) -> bool {
    &&& p.number == r.number as i32
    &&& p.remote_node_description@ == spec_remote_desc_of(all, r)
}

/// The node's description, or the empty string when discovery had none.
pub open spec fn spec_raw_desc(r: RawNode) -> Seq<char> {
    match r.description {
        Some(d) => d@,
        None => Seq::empty(),
    }
}

/// Converts one node's ports: management port zero and down links are
/// dropped, and each kept port's remote label is resolved through its
/// back-reference.
pub fn convert_ports(all: &Vec<RawNode>, node: &RawNode) -> (ports: Vec<Port>)
    ensures
        ports@.len() == kept_ports(node.ports@).len(),
        forall|j: int| 0 <= j < ports@.len() ==> port_matches_raw(
            #[trigger] ports@[j],
            kept_ports(node.ports@)[j],
            all@,
        ),
{
    let mut ports: Vec<Port> = Vec::new();
    let n = node.ports.len();
    let mut i: usize = 0;
    while i < n
        invariant
            i <= n,
            n == node.ports@.len(),
            ports@.len() == kept_ports(node.ports@.take(i as int)).len(),
            forall|j: int| 0 <= j < ports@.len() ==> port_matches_raw(
                #[trigger] ports@[j],
                kept_ports(node.ports@.take(i as int))[j],
                all@,
            ),
        decreases n - i,
    {
        proof {
            assert(node.ports@.take(i + 1).drop_last() =~= node.ports@.take(i as int));
            assert(node.ports@.take(i + 1).last() == node.ports@[i as int]);
        }
        let p = &node.ports[i];
        let keep = p.number != 0 && (matches!(p.link_state, RawLinkState::Active) || matches!(
            p.link_state,
            RawLinkState::Init,
        ));
        if keep {
            let remote_desc: String = match p.remote {
                Some((ni, _pi)) => {
                    if ni < all.len() {
                        match &all[ni].description {
                            Some(d) => d.clone(),
                            None => String::new(),
                        }
                    } else {
                        String::new()
                    }
                },
                None => String::new(),
            };
            ports.push(Port { number: p.number as i32, remote_node_description: remote_desc });
        }
        i += 1;
    }
    proof {
        assert(node.ports@.take(n as int) =~= node.ports@);
    }
    ports
}

/// The discovered nodes the conversion keeps: switches always, channel
/// adapters only when asked for.
pub open spec fn node_converted(r: RawNode, include_hcas: bool) -> bool {
    r.node_type == RawNodeType::Switch || (r.node_type == RawNodeType::Ca && include_hcas)
}

pub open spec fn kept_nodes(nodes: Seq<RawNode>, include_hcas: bool) -> Seq<RawNode>
    decreases nodes.len(),
{
    if nodes.len() == 0 {
        Seq::empty()
    } else {
        let rest = kept_nodes(nodes.drop_last(), include_hcas);
        if node_converted(nodes.last(), include_hcas) {
            rest.push(nodes.last())
        } else {
            rest
        }
    }
}

/// A converted node: identity and label carried over; a switch keeps its
/// kept ports, a channel adapter is listed with no ports.
pub open spec fn node_matches_raw(n: Node, r: RawNode, all: Seq<RawNode>) -> bool {
    &&& n.guid == r.guid
    &&& n.lid == r.lid
    &&& n.node_description@ == spec_raw_desc(r)
    &&& if r.node_type == RawNodeType::Switch {
        n.ports@.len() == kept_ports(r.ports@).len() && forall|j: int|
            0 <= j < n.ports@.len() ==> port_matches_raw(
                #[trigger] n.ports@[j],
                kept_ports(r.ports@)[j],
                all,
            )
    } else {
        n.ports@.len() == 0
    }
}

/// Converts a discovered fabric into the flat node model: switches
/// unconditionally, channel adapters only when asked for and without
/// ports, everything else dropped.
pub fn convert_fabric_nodes(topology: &RawTopology, include_hcas: bool) -> (nodes: Vec<Node>)
    ensures
        nodes@.len() == kept_nodes(topology.nodes@, include_hcas).len(),
        forall|j: int| 0 <= j < nodes@.len() ==> node_matches_raw(
            #[trigger] nodes@[j],
            kept_nodes(topology.nodes@, include_hcas)[j],
            topology.nodes@,
        ),
{
    let mut nodes: Vec<Node> = Vec::new();
    let n = topology.nodes.len();
    let mut i: usize = 0;
    while i < n
        invariant
            i <= n,
            n == topology.nodes@.len(),
            nodes@.len() == kept_nodes(topology.nodes@.take(i as int), include_hcas).len(),
            forall|j: int| 0 <= j < nodes@.len() ==> node_matches_raw(
                #[trigger] nodes@[j],
                kept_nodes(topology.nodes@.take(i as int), include_hcas)[j],
                topology.nodes@,
            ),
        decreases n - i,
    {
        proof {
            assert(topology.nodes@.take(i + 1).drop_last() =~= topology.nodes@.take(i as int));
            assert(topology.nodes@.take(i + 1).last() == topology.nodes@[i as int]);
        }
        let r = &topology.nodes[i];
        let description: String = match &r.description {
            Some(d) => d.clone(),
            None => String::new(),
        };
        match r.node_type {
            RawNodeType::Switch => {
                let ports = convert_ports(&topology.nodes, r);
                nodes.push(
                    Node { guid: r.guid, node_description: description, ports, lid: r.lid },
                );
            },
            RawNodeType::Ca => {
                if include_hcas {
                    nodes.push(
                        Node {
                            guid: r.guid,
                            node_description: description,
                            ports: Vec::new(),
                            lid: r.lid,
                        },
                    );
                }
            },
            _ => {},
        }
        i += 1;
    }
    proof {
        assert(topology.nodes@.take(n as int) =~= topology.nodes@);
    }
    nodes
}

} // verus!
