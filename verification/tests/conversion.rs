//! Discovery conversion and counter-record materialisation.

use ibtop::services::{perf_sample_to_map, PerfSample};
use ibtop::topology::{convert_fabric_nodes, convert_ports, RawLinkState, RawNode, RawNodeType, RawPort, RawTopology};

fn build_node(guid: u64, lid: u16, description: &str, node_type: RawNodeType) -> RawNode {
    RawNode {
        node_type,
        guid,
        lid,
        description: Some(description.to_string()),
        ports: Vec::new(),
    }
}

fn add_port(node: &mut RawNode, number: u8, lid: u16) {
    node.ports.push(RawPort {
        number,
        link_state: RawLinkState::Active,
        lid,
        remote: None,
    });
}

fn link_ports(topology: &mut RawTopology, a: (usize, usize), b: (usize, usize)) {
    topology.nodes[a.0].ports[a.1].remote = Some(b);
    topology.nodes[b.0].ports[b.1].remote = Some(a);
}

#[test]
fn convert_ports_populates_remote_description() {
    let mut switch_a = build_node(1, 10, "switch-a", RawNodeType::Switch);
    let mut switch_b = build_node(2, 20, "switch-b", RawNodeType::Switch);
    add_port(&mut switch_a, 1, 10);
    add_port(&mut switch_b, 1, 20);
    let mut topology = RawTopology { nodes: vec![switch_a, switch_b] };
    link_ports(&mut topology, (0, 0), (1, 0));

    let node = topology.nodes[0].clone();
    let ports = convert_ports(&topology.nodes, &node);
    assert_eq!(ports.len(), 1);
    assert_eq!(ports[0].remote_node_description, "switch-b");
}

#[test]
fn convert_fabric_nodes_returns_all_switches() {
    let mut switch_a = build_node(1, 10, "switch-a", RawNodeType::Switch);
    let mut switch_b = build_node(2, 20, "switch-b", RawNodeType::Switch);
    let ca_node = build_node(3, 30, "host-ca", RawNodeType::Ca);
    add_port(&mut switch_a, 1, 10);
    add_port(&mut switch_b, 1, 20);
    let mut topology = RawTopology { nodes: vec![switch_a, switch_b, ca_node] };
    link_ports(&mut topology, (0, 0), (1, 0));

    let result = convert_fabric_nodes(&topology, false);
    assert_eq!(result.len(), 2);
    assert!(result.iter().all(|n| n.node_description.starts_with("switch")));
}

#[test]
fn convert_fabric_nodes_includes_hcas_when_requested() {
    let mut switch = build_node(1, 10, "switch", RawNodeType::Switch);
    let ca_node = build_node(2, 20, "host-ca", RawNodeType::Ca);
    add_port(&mut switch, 1, 10);
    let topology = RawTopology { nodes: vec![switch, ca_node] };

    let result_without_hcas = convert_fabric_nodes(&topology, false);
    let result_with_hcas = convert_fabric_nodes(&topology, true);

    assert_eq!(result_without_hcas.len(), 1);
    assert_eq!(result_with_hcas.len(), 2);
    assert!(result_with_hcas.iter().any(|n| n.node_description == "host-ca"));
}

#[test]
fn perf_mad_to_map_extracts_expected_counters() {
    let mut perf = PerfSample::default();
    perf.port_xmit_data = 123;
    perf.port_rcv_data = 456;
    perf.port_xmit_pkts = 789;
    perf.vl15_dropped = 42;

    let counters = perf_sample_to_map(&perf);

    assert_eq!(counters.get("xmt_bytes"), Some(123));
    assert_eq!(counters.get("rcv_bytes"), Some(456));
    assert_eq!(counters.get("xmt_pkts"), Some(789));
    assert_eq!(counters.get("vl15dropped"), Some(42));
}

#[test]
fn convert_ports_drops_management_port_and_down_links() {
    let mut switch = build_node(1, 10, "switch", RawNodeType::Switch);
    switch.ports.push(RawPort { number: 0, link_state: RawLinkState::Active, lid: 10, remote: None });
    switch.ports.push(RawPort { number: 1, link_state: RawLinkState::Down, lid: 10, remote: None });
    switch.ports.push(RawPort { number: 2, link_state: RawLinkState::Init, lid: 10, remote: None });
    let topology = RawTopology { nodes: vec![switch] };

    let node = topology.nodes[0].clone();
    let ports = convert_ports(&topology.nodes, &node);
    assert_eq!(ports.len(), 1);
    assert_eq!(ports[0].number, 2);
}

#[test]
fn convert_ports_broken_reference_gives_empty_label() {
    let mut switch = build_node(1, 10, "switch", RawNodeType::Switch);
    switch.ports.push(RawPort { number: 1, link_state: RawLinkState::Active, lid: 10, remote: Some((9, 0)) });
    let topology = RawTopology { nodes: vec![switch] };

    let node = topology.nodes[0].clone();
    let ports = convert_ports(&topology.nodes, &node);
    assert_eq!(ports.len(), 1);
    assert_eq!(ports[0].remote_node_description, "");
}
