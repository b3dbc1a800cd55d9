//! The discovery and counter services' logic: the transport traits, the
//! deterministic test transport, and the counter service's partitioning
//! of targets over its worker pool.

use vstd::prelude::*;

use crate::app::{utc_now_nanos, AppConfig};
use crate::counters::{CounterRecord, CounterStore};
use crate::model::{nodes_wf, LidPort, Node, Port};
use crate::text::{spec_dec_digits, u64_to_string};

verus! {

/// A transport that can discover the fabric.
pub trait DiscoverService {
    fn get_nodes(&self) -> Vec<Node>;
}

/// A transport that can read counters for a list of targets.
pub trait CountersService {
    fn get_counters(&self, nodes: Vec<LidPort>) -> CounterStore;
}

/// `a + b`, stopping at the largest value.
pub open spec fn spec_sat_add(a: int, b: int) -> int {
    if a + b <= u64::MAX {
        a + b
    } else {
        u64::MAX as int
    }
}

/// `a * b`, stopping at the largest value.
pub open spec fn spec_sat_mul(a: int, b: int) -> int {
    if a * b <= u64::MAX {
        a * b
    } else {
        u64::MAX as int
    }
}

fn sat_add(a: u64, b: u64) -> (r: u64)
    ensures
        r as int == spec_sat_add(a as int, b as int),
{
    if a <= u64::MAX - b {
        a + b
    } else {
        u64::MAX
    }
}

fn sat_mul(a: u64, b: u64) -> (r: u64)
    ensures
        r as int == spec_sat_mul(a as int, b as int),
{
    proof {
        assert(a as int * b as int <= 0xffff_ffff_ffff_ffffu64 * 0xffff_ffff_ffff_ffffu64)
            by (nonlinear_arith)
            requires
                a <= 0xffff_ffff_ffff_ffffu64,
                b <= 0xffff_ffff_ffff_ffffu64,
        ;
    }
    let p: u128 = a as u128 * b as u128;
    if p > u64::MAX as u128 {
        u64::MAX
    } else {
        p as u64
    }
}

/// The fabricated fleet: one switch per index, with sequential LIDs from
/// seventeen up, ports numbered from one, labelled by its one-based
/// position.
pub open spec fn test_node_matches(n: Node, i: int, ports_per_node: int) -> bool {
    &&& n.guid == i + 1
    &&& n.lid == 17 + i
    &&& n.node_description@ == "switch-"@ + spec_dec_digits(i + 1)
    &&& n.ports@.len() == ports_per_node
    &&& forall|p: int| 0 <= p < ports_per_node ==> (#[trigger] n.ports@[p]).number == p + 1
        && n.ports@[p].remote_node_description@ == Seq::<char>::empty()
}

/// Fabricates the test fleet.
pub fn fabricate_nodes(num_nodes: usize, ports_per_node: usize) -> (nodes: Vec<Node>)
    requires
        num_nodes + 17 <= u16::MAX,
        ports_per_node <= 254,
    ensures
        nodes@.len() == num_nodes,
        forall|i: int| 0 <= i < num_nodes ==> test_node_matches(
            #[trigger] nodes@[i],
            i,
            ports_per_node as int,
        ),
        nodes_wf(nodes@),
{
    let mut nodes: Vec<Node> = Vec::new();
    let mut i: usize = 0;
    while i < num_nodes
        invariant
            i <= num_nodes,
            num_nodes + 17 <= u16::MAX,
            ports_per_node <= 254,
            nodes@.len() == i,
            forall|j: int| 0 <= j < i ==> test_node_matches(
                #[trigger] nodes@[j],
                j,
                ports_per_node as int,
            ),
        decreases num_nodes - i,
    {
        let mut ports: Vec<Port> = Vec::new();
        let mut p: usize = 0;
        while p < ports_per_node
            invariant
                p <= ports_per_node,
                ports_per_node <= 254,
                ports@.len() == p,
                forall|q: int| 0 <= q < p ==> (#[trigger] ports@[q]).number == q + 1
                    && ports@[q].remote_node_description@ == Seq::<char>::empty(),
            decreases ports_per_node - p,
        {
            ports.push(Port { number: (p + 1) as i32, remote_node_description: String::new() });
            p += 1;
        }
        let mut description = "switch-".to_owned();
        let suffix = u64_to_string((i + 1) as u64);
        description.append(suffix.as_str());
        nodes.push(
            Node {
                guid: (i + 1) as u64,
                node_description: description,
                ports,
                lid: (17 + i) as u16,
            },
        );
        i += 1;
    }
    nodes
}

/// The fabricated discovery backend: a fixed number of switches, each
/// with the same number of ports.
pub struct TestDiscoverService {
    pub num_nodes: usize,
    pub ports_per_node: usize,
}

impl TestDiscoverService {
    pub fn new(config: AppConfig) -> (r: Self)
        ensures
            r.num_nodes == 8,
            r.ports_per_node == 4,
    {
        let _ = config;
        TestDiscoverService { num_nodes: 8, ports_per_node: 4 }
    }
}

/// The configured node count, brought back to the default where it would
/// not fit a LID.
pub open spec fn clamped_num_nodes(configured: usize) -> int {
    if configured <= 65535 - 17 {
        configured as int
    } else {
        8
    }
}

/// The configured ports per node, brought back to the default where a
/// number would leave the real-port range.
pub open spec fn clamped_ports_per_node(configured: usize) -> int {
    if configured <= 254 {
        configured as int
    } else {
        4
    }
}

impl DiscoverService for TestDiscoverService {
    /// The fabricated fleet the configuration names.
    fn get_nodes(&self) -> (nodes: Vec<Node>)
        ensures
            nodes@.len() == clamped_num_nodes(self.num_nodes),
            forall|i: int| 0 <= i < nodes@.len() ==> test_node_matches(
                #[trigger] nodes@[i],
                i,
                clamped_ports_per_node(self.ports_per_node),
            ),
            nodes_wf(nodes@),
    {
        let num_nodes = if self.num_nodes <= 65535 - 17 {
            self.num_nodes
        } else {
            8
        };
        let ports_per_node = if self.ports_per_node <= 254 {
            self.ports_per_node
        } else {
            4
        };
        fabricate_nodes(num_nodes, ports_per_node)
    }
}

/// The LID plus the port number; a negative port number counts as zero.
pub open spec fn test_target_sum(lid: u16, number: i32) -> int {
    lid + (if number >= 0 {
        number as int
    } else {
        0
    })
}

/// The fabricated counters of one target: steadily growing with elapsed
/// time, larger for larger LIDs and port numbers, with the timestamps
/// bracketing one simulated second of work.
pub open spec fn spec_test_record(lid: u16, number: i32, elapsed: u64, now: u64) -> Map<
    Seq<char>,
    u64,
> {
    let su = test_target_sum(lid, number);
    let base = spec_sat_add(spec_sat_mul(elapsed as int, 1000), su * 10);
    let traffic = spec_sat_mul(spec_sat_mul(base, 100000), su);
    let waits = spec_sat_mul(spec_sat_mul(base, 10000), su);
    let err = spec_sat_mul(base, lid as int);
    Map::<Seq<char>, u64>::empty().insert("xmt_bytes"@, traffic as u64).insert(
        "rcv_bytes"@,
        traffic as u64,
    ).insert("xmit_waits"@, waits as u64).insert("start_timestamp"@, now).insert(
        "end_timestamp"@,
        spec_sat_add(now as int, 1_000_000_000) as u64,
    ).insert("symbol_errors"@, err as u64).insert("link_recovers"@, err as u64).insert(
        "link_downed"@,
        err as u64,
    ).insert("rcv_errors"@, err as u64).insert("phys_rcv_errors"@, err as u64).insert(
        "switch_rel_errors"@,
        err as u64,
    ).insert("excess_overrun_errors"@, err as u64).insert("vl15dropped"@, err as u64).insert(
        "qp1_drops"@,
        err as u64,
    )
}

/// The fabricated store for a target list: one record per target, later
/// duplicates overwriting earlier ones.
pub open spec fn spec_test_store(targets: Seq<LidPort>, elapsed: u64, now: u64) -> Map<
    LidPort,
    Map<Seq<char>, u64>,
>
    decreases targets.len(),
{
    if targets.len() == 0 {
        Map::empty()
    } else {
        spec_test_store(targets.drop_last(), elapsed, now).insert(
            targets.last(),
            spec_test_record(targets.last().lid, targets.last().number, elapsed, now),
        )
    }
}

fn test_record(lid: u16, number: i32, elapsed: u64, now: u64) -> (rec: CounterRecord)
    ensures
        rec.wf(),
        rec@ == spec_test_record(lid, number, elapsed, now),
{
    let su: u64 = lid as u64 + (if number >= 0 {
        number as u64
    } else {
        0
    });
    let base = sat_add(sat_mul(elapsed, 1000), su * 10);
    let traffic = sat_mul(sat_mul(base, 100000), su);
    let waits = sat_mul(sat_mul(base, 10000), su);
    let err = sat_mul(base, lid as u64);
    let mut rec = CounterRecord::new();
    rec.insert("xmt_bytes".to_owned(), traffic);
    rec.insert("rcv_bytes".to_owned(), traffic);
    rec.insert("xmit_waits".to_owned(), waits);
    rec.insert("start_timestamp".to_owned(), now);
    rec.insert("end_timestamp".to_owned(), sat_add(now, 1_000_000_000));
    rec.insert("symbol_errors".to_owned(), err);
    rec.insert("link_recovers".to_owned(), err);
    rec.insert("link_downed".to_owned(), err);
    rec.insert("rcv_errors".to_owned(), err);
    rec.insert("phys_rcv_errors".to_owned(), err);
    rec.insert("switch_rel_errors".to_owned(), err);
    rec.insert("excess_overrun_errors".to_owned(), err);
    rec.insert("vl15dropped".to_owned(), err);
    rec.insert("qp1_drops".to_owned(), err);
    rec
}

/// Fabricates the counters of every target for one moment in time.
pub fn synth_counters(lid_ports: &Vec<LidPort>, elapsed: u64, now: u64) -> (store: CounterStore)
    ensures
        store.wf(),
        store@ == spec_test_store(lid_ports@, elapsed, now),
{
    let mut store = CounterStore::new();
    let mut i: usize = 0;
    while i < lid_ports.len()
        invariant
            i <= lid_ports@.len(),
            store.wf(),
            store@ == spec_test_store(lid_ports@.take(i as int), elapsed, now),
        decreases lid_ports@.len() - i,
    {
        proof {
            assert(lid_ports@.take(i + 1).drop_last() =~= lid_ports@.take(i as int));
            assert(lid_ports@.take(i + 1).last() == lid_ports@[i as int]);
        }
        let lp = lid_ports[i];
        let rec = test_record(lp.lid, lp.number, elapsed, now);
        store.insert(lp, rec);
        i += 1;
    }
    proof {
        assert(lid_ports@.take(lid_ports@.len() as int) =~= lid_ports@);
    }
    store
}

/// The fabricated counter backend.  Counters grow with the time elapsed
/// since construction.
pub struct TestCountersService {
    pub start_nanos: u64,
}

impl TestCountersService {
    pub fn new(config: AppConfig) -> Self {
        let _ = config;
        TestCountersService { start_nanos: utc_now_nanos() }
    }
}

impl CountersService for TestCountersService {
    /// Fabricated counters for the targets, at whatever moment the clock
    /// gave: the store is the synthesised one for some elapsed time and
    /// timestamp.
    fn get_counters(&self, lid_ports: Vec<LidPort>) -> (store: CounterStore)
        ensures
            store.wf(),
            exists|elapsed: u64, now: u64| store@ == spec_test_store(lid_ports@, elapsed, now),
    {
        let now = utc_now_nanos();
        let elapsed_secs: u64 = if now >= self.start_nanos {
            (now - self.start_nanos) / 1_000_000_000
        } else {
            0
        };
        let store = synth_counters(&lid_ports, elapsed_secs, now);
        proof {
            assert(store@ == spec_test_store(lid_ports@, elapsed_secs, now));
        }
        store
    }
}

/// The size of each worker's chunk: the target count divided by the
/// worker count, rounded up.
pub open spec fn spec_chunk_size(len: int, workers: int) -> int {
    let w = if workers >= 1 {
        workers
    } else {
        1
    };
    if w >= len {
        1
    } else {
        (len - 1) / w + 1
    }
}

/// The chunks read back to back.
pub open spec fn concat_chunks(chunks: Seq<Seq<LidPort>>) -> Seq<LidPort>
    decreases chunks.len(),
{
    if chunks.len() == 0 {
        Seq::empty()
    } else {
        concat_chunks(chunks.drop_last()) + chunks.last()
    }
}

/// Splits the targets into contiguous chunks, one per pool worker: each
/// chunk holds the rounded-up share except a shorter last one, no chunk
/// is empty, and read back to back the chunks give back the targets.
pub fn chunk_targets(targets: &Vec<LidPort>, workers: usize) -> (chunks: Vec<Vec<LidPort>>)
    ensures
        concat_chunks(chunks@.map_values(|c: Vec<LidPort>| c@)) == targets@,
        forall|i: int| 0 <= i < chunks@.len() ==> 0 < (#[trigger] chunks@[i])@.len()
            <= spec_chunk_size(targets@.len() as int, workers as int),
        forall|i: int| 0 <= i < chunks@.len() - 1 ==> (#[trigger] chunks@[i])@.len()
            == spec_chunk_size(targets@.len() as int, workers as int),
{
    let len = targets.len();
    if len == 0 {
        let chunks: Vec<Vec<LidPort>> = Vec::new();
        proof {
            assert(chunks@.map_values(|c: Vec<LidPort>| c@) =~= Seq::<Seq<LidPort>>::empty());
        }
        return chunks;
    }
    let w: usize = if workers >= 1 {
        workers
    } else {
        1
    };
    let size: usize = if w >= len {
        1
    } else {
        (len - 1) / w + 1
    };
    let mut chunks: Vec<Vec<LidPort>> = Vec::new();
    let mut i: usize = 0;
    while i < len
        invariant
            i <= len,
            len == targets@.len(),
            size == spec_chunk_size(len as int, workers as int),
            size >= 1,
            concat_chunks(chunks@.map_values(|c: Vec<LidPort>| c@)) == targets@.take(i as int),
            forall|j: int| 0 <= j < chunks@.len() ==> 0 < (#[trigger] chunks@[j])@.len() <= size,
            forall|j: int| 0 <= j < chunks@.len() - 1 ==> (#[trigger] chunks@[j])@.len() == size,
            i < len ==> forall|j: int| 0 <= j < chunks@.len() ==> (#[trigger] chunks@[j])@.len()
                == size,
        decreases len - i,
    {
        let end: usize = if len - i < size {
            len
        } else {
            i + size
        };
        let mut chunk: Vec<LidPort> = Vec::new();
        let mut k: usize = i;
        while k < end
            invariant
                i <= k <= end <= len,
                len == targets@.len(),
                chunk@ == targets@.subrange(i as int, k as int),
            decreases end - k,
        {
            proof {
                assert(targets@.subrange(i as int, k + 1) =~= targets@.subrange(
                    i as int,
                    k as int,
                ).push(targets@[k as int]));
            }
            chunk.push(targets[k]);
            k += 1;
        }
        let ghost prev_mapped = chunks@.map_values(|c: Vec<LidPort>| c@);
        let ghost chunk_view = chunk@;
        proof {
            assert(chunks@.push(chunk).map_values(|c: Vec<LidPort>| c@) =~= prev_mapped.push(
                chunk_view,
            ));
            assert(prev_mapped.push(chunk_view).drop_last() =~= prev_mapped);
            assert(targets@.take(i as int) + targets@.subrange(i as int, end as int)
                =~= targets@.take(end as int));
        }
        chunks.push(chunk);
        i = end;
    }
    proof {
        assert(targets@.take(len as int) =~= targets@);
    }
    chunks
}

/// One extended performance query's counters, as plain values; the
/// transport adapter fills it from the management datagram it received.
pub struct PerfSample {
    pub port_xmit_data: u64,
    pub port_rcv_data: u64,
    pub port_xmit_pkts: u64,
    pub port_rcv_pkts: u64,
    pub port_unicast_xmit_pkts: u64,
    pub port_unicast_rcv_pkts: u64,
    pub port_multicast_xmit_pkts: u64,
    pub port_multicast_rcv_pkts: u64,
    pub symbol_error_counter: u64,
    pub link_error_recovery_counter: u64,
    pub link_downed_counter: u64,
    pub port_rcv_errors: u64,
    pub port_rcv_remote_physical_errors: u64,
    pub port_rcv_switch_relay_errors: u64,
    pub port_xmit_discards: u64,
    pub port_xmit_constraint_errors: u64,
    pub port_rcv_constraint_errors: u64,
    pub local_link_integrity_errors: u64,
    pub excessive_buffer_overrun_errors: u64,
    pub vl15_dropped: u64,
    pub port_xmit_wait: u64,
    pub qp1_dropped: u64,
}

impl Default for PerfSample {
    /// A sample with every counter at zero.
    fn default() -> (r: Self)
        ensures
            r == (PerfSample {
                port_xmit_data: 0,
                port_rcv_data: 0,
                port_xmit_pkts: 0,
                port_rcv_pkts: 0,
                port_unicast_xmit_pkts: 0,
                port_unicast_rcv_pkts: 0,
                port_multicast_xmit_pkts: 0,
                port_multicast_rcv_pkts: 0,
                symbol_error_counter: 0,
                link_error_recovery_counter: 0,
                link_downed_counter: 0,
                port_rcv_errors: 0,
                port_rcv_remote_physical_errors: 0,
                port_rcv_switch_relay_errors: 0,
                port_xmit_discards: 0,
                port_xmit_constraint_errors: 0,
                port_rcv_constraint_errors: 0,
                local_link_integrity_errors: 0,
                excessive_buffer_overrun_errors: 0,
                vl15_dropped: 0,
                port_xmit_wait: 0,
                qp1_dropped: 0,
            }),
    {
        PerfSample {
            port_xmit_data: 0,
            port_rcv_data: 0,
            port_xmit_pkts: 0,
            port_rcv_pkts: 0,
            port_unicast_xmit_pkts: 0,
            port_unicast_rcv_pkts: 0,
            port_multicast_xmit_pkts: 0,
            port_multicast_rcv_pkts: 0,
            symbol_error_counter: 0,
            link_error_recovery_counter: 0,
            link_downed_counter: 0,
            port_rcv_errors: 0,
            port_rcv_remote_physical_errors: 0,
            port_rcv_switch_relay_errors: 0,
            port_xmit_discards: 0,
            port_xmit_constraint_errors: 0,
            port_rcv_constraint_errors: 0,
            local_link_integrity_errors: 0,
            excessive_buffer_overrun_errors: 0,
            vl15_dropped: 0,
            port_xmit_wait: 0,
            qp1_dropped: 0,
        }
    }
}

/// The counter record a performance sample materialises: each typed
/// counter under its record name.
pub open spec fn spec_perf_record(s: PerfSample) -> Map<Seq<char>, u64> {
    Map::<Seq<char>, u64>::empty().insert("xmt_bytes"@, s.port_xmit_data).insert(
        "rcv_bytes"@,
        s.port_rcv_data,
    ).insert("xmt_pkts"@, s.port_xmit_pkts).insert("rcv_pkts"@, s.port_rcv_pkts).insert(
        "xmt_upkts"@,
        s.port_unicast_xmit_pkts,
    ).insert("rcv_upkts"@, s.port_unicast_rcv_pkts).insert(
        "xmt_mpkts"@,
        s.port_multicast_xmit_pkts,
    ).insert("rcv_mpkts"@, s.port_multicast_rcv_pkts).insert(
        "symbol_errors"@,
        s.symbol_error_counter,
    ).insert("link_recovers"@, s.link_error_recovery_counter).insert(
        "link_downed"@,
        s.link_downed_counter,
    ).insert("rcv_errors"@, s.port_rcv_errors).insert(
        "phys_rcv_errors"@,
        s.port_rcv_remote_physical_errors,
    ).insert("switch_rel_errors"@, s.port_rcv_switch_relay_errors).insert(
        "xmt_discards"@,
        s.port_xmit_discards,
    ).insert("xmt_constraint_errors"@, s.port_xmit_constraint_errors).insert(
        "rcv_constraint_errors"@,
        s.port_rcv_constraint_errors,
    ).insert("local_integrity_errors"@, s.local_link_integrity_errors).insert(
        "excess_overrun_errors"@,
        s.excessive_buffer_overrun_errors,
    ).insert("vl15dropped"@, s.vl15_dropped).insert("xmit_waits"@, s.port_xmit_wait).insert(
        "qp1_drops"@,
        s.qp1_dropped,
    )
}

/// Materialises the counter record of one performance sample.
pub fn perf_sample_to_map(s: &PerfSample) -> (rec: CounterRecord)
    ensures
        rec.wf(),
        rec@ == spec_perf_record(*s),
{
    let mut rec = CounterRecord::new();
    rec.insert("xmt_bytes".to_owned(), s.port_xmit_data);
    rec.insert("rcv_bytes".to_owned(), s.port_rcv_data);
    rec.insert("xmt_pkts".to_owned(), s.port_xmit_pkts);
    rec.insert("rcv_pkts".to_owned(), s.port_rcv_pkts);
    rec.insert("xmt_upkts".to_owned(), s.port_unicast_xmit_pkts);
    rec.insert("rcv_upkts".to_owned(), s.port_unicast_rcv_pkts);
    rec.insert("xmt_mpkts".to_owned(), s.port_multicast_xmit_pkts);
    rec.insert("rcv_mpkts".to_owned(), s.port_multicast_rcv_pkts);
    rec.insert("symbol_errors".to_owned(), s.symbol_error_counter);
    rec.insert("link_recovers".to_owned(), s.link_error_recovery_counter);
    rec.insert("link_downed".to_owned(), s.link_downed_counter);
    rec.insert("rcv_errors".to_owned(), s.port_rcv_errors);
    rec.insert("phys_rcv_errors".to_owned(), s.port_rcv_remote_physical_errors);
    rec.insert("switch_rel_errors".to_owned(), s.port_rcv_switch_relay_errors);
    rec.insert("xmt_discards".to_owned(), s.port_xmit_discards);
    rec.insert("xmt_constraint_errors".to_owned(), s.port_xmit_constraint_errors);
    rec.insert("rcv_constraint_errors".to_owned(), s.port_rcv_constraint_errors);
    rec.insert("local_integrity_errors".to_owned(), s.local_link_integrity_errors);
    rec.insert("excess_overrun_errors".to_owned(), s.excessive_buffer_overrun_errors);
    rec.insert("vl15dropped".to_owned(), s.vl15_dropped);
    rec.insert("xmit_waits".to_owned(), s.port_xmit_wait);
    rec.insert("qp1_drops".to_owned(), s.qp1_dropped);
    rec
}

} // verus!
