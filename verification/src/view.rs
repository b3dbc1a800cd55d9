//! The view model: the sorted, filtered rows of the main table, and the
//! per-port rows of the details popup.  Pure projections of the state.

use vstd::multiset::Multiset;
use vstd::prelude::*;

use crate::app::CounterMode;
use crate::counters::CounterStore;
use crate::filter::{filter_matches, matching_nodes, spec_filtered_len};
use crate::metrics::{
    count_errors, get_bw, get_bw_loss, get_error_strings, spec_bw_loss_milli, spec_bw_milli,
    spec_count_errors, spec_error_strings,
};
use crate::model::{LidPort, Node, Port, AGG_COUNTERS_PORT};
use crate::text::{lemma_lex_le_total, lemma_lex_le_trans, lex_le, str_le};

verus! {

broadcast use {vstd::seq_lib::group_to_multiset_ensures, vstd::multiset::group_multiset_axioms};

/// One row of the main table, with bandwidth in milli-gigabits per second
/// and `index` its place before sorting.
#[derive(Clone, Debug)]
pub struct NodeRow {
    pub guid: u64,
    pub lid: u16,
    pub node_description: String,
    pub port_count: usize,
    pub recv_bw: u128,
    pub xmit_bw: u128,
    pub bw_loss: u128,
    pub error_count: u128,
    pub error_strings: String,
    pub index: usize,
}

/// The aggregate-counters target of a node.
pub open spec fn agg_key(n: Node) -> LidPort {
    LidPort { lid: n.lid, number: AGG_COUNTERS_PORT }
}

/// The derived columns of a row, against the record they were read from
/// (or no record, in which case they are all empty).
pub open spec fn row_metrics_match(
    recv_bw: u128,
    xmit_bw: u128,
    bw_loss: u128,
    error_count: u128,
    error_strings: Seq<char>,
    counters: Option<Map<Seq<char>, u64>>,
    mode: CounterMode,
) -> bool {
    match counters {
        Some(m) => {
            &&& recv_bw as int == spec_bw_milli(m, "rcv_bytes"@, mode)
            &&& xmit_bw as int == spec_bw_milli(m, "xmt_bytes"@, mode)
            &&& bw_loss as int == spec_bw_loss_milli(m, "xmit_waits"@, mode)
            &&& error_count as int == spec_count_errors(m)
            &&& error_strings == spec_error_strings(m)
        },
        None => {
            &&& recv_bw == 0
            &&& xmit_bw == 0
            &&& bw_loss == 0
            &&& error_count == 0
            &&& error_strings == Seq::<char>::empty()
        },
    }
}

/// A main-table row read from one node: its identity columns, and the
/// metrics of its aggregate counter record in the display store.
pub open spec fn row_matches_node(
    row: NodeRow,
    n: Node,
    display: Map<LidPort, Map<Seq<char>, u64>>,
    mode: CounterMode,
    index: int,
) -> bool {
    &&& row.guid == n.guid
    &&& row.lid == n.lid
    &&& row.node_description@ == n.node_description@
    &&& row.port_count == n.ports@.len()
    &&& row.index == index
    &&& row_metrics_match(
        row.recv_bw,
        row.xmit_bw,
        row.bw_loss,
        row.error_count,
        row.error_strings@,
        if display.contains_key(agg_key(n)) {
            Some(display[agg_key(n)])
        } else {
            None
        },
        mode,
    )
}

/// Some row carries this filtered position as its `index`.
pub open spec fn takes_index(rs: Seq<NodeRow>, k: int) -> bool {
    exists|j: int| 0 <= j < rs.len() && (#[trigger] rs[j]).index == k
}

/// The table's rows for this state, pinned one-to-one: exactly one row
/// per filter-admitted node — each row's `index` names its node's
/// filtered position, and every filtered position is taken — sorted by
/// the column key in the chosen direction with ties in filtered order.
pub open spec fn sorted_projection(
    rs: Seq<NodeRow>,
    pattern: Seq<char>,
    nodes: Seq<Node>,
    display: Map<LidPort, Map<Seq<char>, u64>>,
    mode: CounterMode,
    column: i32,
    ascending: bool,
) -> bool {
    &&& rs.len() == spec_filtered_len(pattern, nodes)
    &&& rows_sorted(rs, column, ascending)
    &&& forall|j: int| 0 <= j < rs.len() ==> 0 <= (#[trigger] rs[j]).index < rs.len()
        && row_matches_node(
            rs[j],
            matching_nodes(pattern, nodes)[rs[j].index as int],
            display,
            mode,
            rs[j].index as int,
        )
    &&& forall|k: int| 0 <= k < rs.len() ==> #[trigger] takes_index(rs, k)
}

/// The cached selected row: the row standing at the given position of
/// the state's sorted projection.
pub open spec fn cached_row_ok(
    row: NodeRow,
    sel: int,
    pattern: Seq<char>,
    nodes: Seq<Node>,
    display: Map<LidPort, Map<Seq<char>, u64>>,
    mode: CounterMode,
    column: i32,
    ascending: bool,
) -> bool {
    exists|rs: Seq<NodeRow>|
        #[trigger] sorted_projection(rs, pattern, nodes, display, mode, column, ascending)
            && 0 <= sel < rs.len() && row == rs[sel]
}

/// Reads one node's row from the display store.
fn build_row(n: &Node, display: &CounterStore, mode: &CounterMode, index: usize) -> (row: NodeRow)
    requires
        display.wf(),
    ensures
        row_matches_node(row, *n, display@, *mode, index as int),
{
    let key = LidPort { lid: n.lid, number: AGG_COUNTERS_PORT };
    match display.get(key) {
        Some(ctrs) => NodeRow {
            guid: n.guid,
            lid: n.lid,
            node_description: n.node_description.clone(),
            port_count: n.ports.len(),
            recv_bw: get_bw(ctrs, "rcv_bytes", mode),
            xmit_bw: get_bw(ctrs, "xmt_bytes", mode),
            bw_loss: get_bw_loss(ctrs, "xmit_waits", mode),
            error_count: count_errors(ctrs),
            error_strings: get_error_strings(ctrs),
            index,
        },
        None => NodeRow {
            guid: n.guid,
            lid: n.lid,
            node_description: n.node_description.clone(),
            port_count: n.ports.len(),
            recv_bw: 0,
            xmit_bw: 0,
            bw_loss: 0,
            error_count: 0,
            error_strings: String::new(),
            index,
        },
    }
}

/// Projects the filtered nodes into rows, in stored order, with `index`
/// numbering the rows.
fn project_rows(pattern: &str, nodes: &Vec<Node>, display: &CounterStore, mode: &CounterMode) -> (
    rows: Vec<NodeRow>)
    requires
        display.wf(),
    ensures
        rows@.len() == spec_filtered_len(pattern@, nodes@),
        forall|j: int| 0 <= j < rows@.len() ==> row_matches_node(
            rows@[j],
            matching_nodes(pattern@, nodes@)[j],
            display@,
            *mode,
            j,
        ),
{
    let mut rows: Vec<NodeRow> = Vec::new();
    let mut i: usize = 0;
    while i < nodes.len()
        invariant
            i <= nodes@.len(),
            display.wf(),
            rows@.len() == matching_nodes(pattern@, nodes@.take(i as int)).len(),
            rows@.len() <= i,
            forall|j: int| 0 <= j < rows@.len() ==> row_matches_node(
                rows@[j],
                matching_nodes(pattern@, nodes@.take(i as int))[j],
                display@,
                *mode,
                j,
            ),
        decreases nodes@.len() - i,
    {
        proof {
            assert(nodes@.take(i + 1).drop_last() =~= nodes@.take(i as int));
            assert(nodes@.take(i + 1).last() == nodes@[i as int]);
        }
        if filter_matches(pattern, nodes[i].node_description.as_str()) {
            let row = build_row(&nodes[i], display, mode, rows.len());
            rows.push(row);
        }
        i += 1;
    }
    proof {
        assert(nodes@.take(nodes@.len() as int) =~= nodes@);
    }
    rows
}

/// Whether `a`'s sort key in the given column is at most `b`'s.  Column 0
/// (and any column out of range) orders nothing: every pair ties.
pub open spec fn key_le(a: NodeRow, b: NodeRow, column: i32) -> bool {
    if column == 1 {
        a.lid <= b.lid
    } else if column == 2 {
        lex_le(a.node_description@, b.node_description@)
    } else if column == 3 {
        a.port_count <= b.port_count
    } else if column == 4 {
        a.recv_bw <= b.recv_bw
    } else if column == 5 {
        a.xmit_bw <= b.xmit_bw
    } else if column == 6 {
        a.bw_loss <= b.bw_loss
    } else if column == 7 {
        a.error_count <= b.error_count
    } else if column == 8 {
        lex_le(a.error_strings@, b.error_strings@)
    } else {
        true
    }
}

/// Whether the two rows tie in the given column.
pub open spec fn key_equiv(a: NodeRow, b: NodeRow, column: i32) -> bool {
    key_le(a, b, column) && key_le(b, a, column)
}

/// The key order in the chosen direction.
pub open spec fn dir_le(a: NodeRow, b: NodeRow, column: i32, ascending: bool) -> bool {
    if ascending {
        key_le(a, b, column)
    } else {
        key_le(b, a, column)
    }
}

/// The table's row order: by the column key in the chosen direction, with
/// ties kept in pre-sort order — which makes the sort stable.
pub open spec fn row_before(a: NodeRow, b: NodeRow, column: i32, ascending: bool) -> bool {
    (dir_le(a, b, column, ascending) && !key_equiv(a, b, column)) || (key_equiv(a, b, column)
        && a.index <= b.index)
}

pub open spec fn rows_sorted(s: Seq<NodeRow>, column: i32, ascending: bool) -> bool {
    forall|i: int, j: int| 0 <= i < j < s.len() ==> row_before(s[i], s[j], column, ascending)
}

/// Law: the column key orders any two rows one way or the other.
pub proof fn lemma_key_le_total(a: NodeRow, b: NodeRow, column: i32)
    ensures
        key_le(a, b, column) || key_le(b, a, column),
{
    if column == 2 {
        lemma_lex_le_total(a.node_description@, b.node_description@);
    } else if column == 8 {
        lemma_lex_le_total(a.error_strings@, b.error_strings@);
    }
}

/// Law: the column key order is transitive.
pub proof fn lemma_key_le_trans(a: NodeRow, b: NodeRow, c: NodeRow, column: i32)
    requires
        key_le(a, b, column),
        key_le(b, c, column),
    ensures
        key_le(a, c, column),
{
    if column == 2 {
        lemma_lex_le_trans(a.node_description@, b.node_description@, c.node_description@);
    } else if column == 8 {
        lemma_lex_le_trans(a.error_strings@, b.error_strings@, c.error_strings@);
    }
}

/// Law: the table's row order is total — any two rows stand in it one way
/// or the other.
pub proof fn lemma_row_order_total(a: NodeRow, b: NodeRow, column: i32, ascending: bool)
    ensures
        row_before(a, b, column, ascending) || row_before(b, a, column, ascending),
{
    lemma_key_le_total(a, b, column);
}

/// Law: the table's row order is transitive.
pub proof fn lemma_row_order_trans(a: NodeRow, b: NodeRow, c: NodeRow, column: i32, ascending:
    bool)
    requires
        row_before(a, b, column, ascending),
        row_before(b, c, column, ascending),
    ensures
        row_before(a, c, column, ascending),
{
    if key_le(a, b, column) && key_le(b, c, column) {
        lemma_key_le_trans(a, b, c, column);
    }
    if key_le(c, b, column) && key_le(b, a, column) {
        lemma_key_le_trans(c, b, a, column);
    }
    if key_le(b, a, column) && key_le(a, c, column) {
        lemma_key_le_trans(b, a, c, column);
    }
    if key_le(a, c, column) && key_le(c, b, column) {
        lemma_key_le_trans(a, c, b, column);
    }
    if key_le(c, a, column) && key_le(a, b, column) {
        lemma_key_le_trans(c, a, b, column);
    }
    if key_le(b, c, column) && key_le(c, a, column) {
        lemma_key_le_trans(b, c, a, column);
    }
}

fn key_le_exec(a: &NodeRow, b: &NodeRow, column: i32) -> (r: bool)
    ensures
        r == key_le(*a, *b, column),
{
    if column == 1 {
        a.lid <= b.lid
    } else if column == 2 {
        str_le(a.node_description.as_str(), b.node_description.as_str())
    } else if column == 3 {
        a.port_count <= b.port_count
    } else if column == 4 {
        a.recv_bw <= b.recv_bw
    } else if column == 5 {
        a.xmit_bw <= b.xmit_bw
    } else if column == 6 {
        a.bw_loss <= b.bw_loss
    } else if column == 7 {
        a.error_count <= b.error_count
    } else if column == 8 {
        str_le(a.error_strings.as_str(), b.error_strings.as_str())
    } else {
        true
    }
}

fn row_before_exec(a: &NodeRow, b: &NodeRow, column: i32, ascending: bool) -> (r: bool)
    ensures
        r == row_before(*a, *b, column, ascending),
{
    let ab = key_le_exec(a, b, column);
    let ba = key_le_exec(b, a, column);
    let equiv = ab && ba;
    let d = if ascending {
        ab
    } else {
        ba
    };
    (d && !equiv) || (equiv && a.index <= b.index)
}

/// Puts one row into a sorted row vector, after every row that precedes it.
fn insert_row_sorted(out: &mut Vec<NodeRow>, x: NodeRow, column: i32, ascending: bool)
    requires
        rows_sorted(old(out)@, column, ascending),
    ensures
        rows_sorted(final(out)@, column, ascending),
        final(out)@.to_multiset() == old(out)@.to_multiset().insert(x),
{
    let n = out.len();
    let mut p: usize = 0;
    while p < n && row_before_exec(&out[p], &x, column, ascending)
        invariant
            *out == *old(out),
            n == out@.len(),
            p <= n,
            forall|j: int| 0 <= j < p ==> row_before(out@[j], x, column, ascending),
        decreases n - p,
    {
        p += 1;
    }
    let ghost before = out@;
    out.insert(p, x);
    proof {
        assert forall|i: int, j: int|
            0 <= i < j < out@.len() implies row_before(out@[i], out@[j], column, ascending) by {
            if j < p {
                assert(out@[i] == before[i] && out@[j] == before[j]);
            } else if j == p {
                assert(out@[i] == before[i]);
            } else {
                // j > p: out@[j] == before[j - 1]
                if i < p {
                    assert(out@[i] == before[i] && out@[j] == before[j - 1]);
                } else if i == p {
                    // x before every element from p on
                    lemma_row_order_total(before[p as int], x, column, ascending);
                    assert(row_before(x, before[p as int], column, ascending));
                    if j - 1 > p {
                        assert(row_before(before[p as int], before[j - 1], column, ascending));
                        lemma_row_order_trans(
                            x,
                            before[p as int],
                            before[j - 1],
                            column,
                            ascending,
                        );
                    }
                    assert(out@[j] == before[j - 1]);
                } else {
                    assert(out@[i] == before[i - 1] && out@[j] == before[j - 1]);
                }
            }
        }
    }
}

/// Sorts the rows by the chosen column and direction.  Ties keep their
/// pre-sort order (the `index` field), which makes the sort stable; the
/// result holds exactly the input rows.
pub fn sort_rows(rows: Vec<NodeRow>, column: i32, ascending: bool) -> (out: Vec<NodeRow>)
    ensures
        out@.to_multiset() == rows@.to_multiset(),
        rows_sorted(out@, column, ascending),
{
    let ghost orig_ms = rows@.to_multiset();
    let mut rest = rows;
    let mut out: Vec<NodeRow> = Vec::new();
    while rest.len() > 0
        invariant
            out@.to_multiset().add(rest@.to_multiset()) == orig_ms,
            rows_sorted(out@, column, ascending),
        decreases rest@.len(),
    {
        let ghost rest_before = rest@;
        let ghost out_ms = out@.to_multiset();
        let x = rest.remove(0);
        insert_row_sorted(&mut out, x, column, ascending);
        proof {
            assert(rest@.to_multiset() == rest_before.to_multiset().remove(rest_before[0]));
            assert(rest_before.to_multiset().contains(rest_before[0]));
            assert(out@.to_multiset() == out_ms.insert(rest_before[0]));
            assert(out@.to_multiset().add(rest@.to_multiset()) =~= out_ms.add(
                rest_before.to_multiset(),
            ));
        }
    }
    proof {
        assert(rest@.to_multiset() =~= Multiset::<NodeRow>::empty());
        assert(out@.to_multiset() =~= orig_ms);
    }
    out
}

/// The main table's rows: the nodes the filter admits, their metrics read
/// from the display store, sorted by the chosen column and direction with
/// ties in stored node order.
pub fn build_rows(
    pattern: &str,
    nodes: &Vec<Node>,
    display: &CounterStore,
    mode: &CounterMode,
    sort_column: i32,
    sort_ascending: bool,
) -> (rows: Vec<NodeRow>)
    requires
        display.wf(),
    ensures
        sorted_projection(rows@, pattern@, nodes@, display@, *mode, sort_column, sort_ascending),
        rows@.len() == spec_filtered_len(pattern@, nodes@),
        rows_sorted(rows@, sort_column, sort_ascending),
{
    let unsorted = project_rows(pattern, nodes, display, mode);
    let ghost unsorted_view = unsorted@;
    let rows = sort_rows(unsorted, sort_column, sort_ascending);
    proof {
        vstd::seq_lib::to_multiset_len(rows@);
        vstd::seq_lib::to_multiset_len(unsorted_view);
        assert(rows@.len() == unsorted_view.len());
        assert forall|j: int| 0 <= j < rows@.len() implies 0 <= (#[trigger] rows@[j]).index
            < rows@.len() && row_matches_node(
            rows@[j],
            matching_nodes(pattern@, nodes@)[rows@[j].index as int],
            display@,
            *mode,
            rows@[j].index as int,
        ) by {
            assert(rows@.contains(rows@[j]));
            assert(rows@.to_multiset().contains(rows@[j]));
            assert(unsorted_view.to_multiset().contains(rows@[j]));
            assert(unsorted_view.contains(rows@[j]));
            let k = choose|k: int| 0 <= k < unsorted_view.len() && unsorted_view[k] == rows@[j];
            assert(row_matches_node(
                rows@[j],
                matching_nodes(pattern@, nodes@)[k],
                display@,
                *mode,
                k,
            ));
            assert(rows@[j].index == k);
        }
        assert forall|k: int| 0 <= k < rows@.len() implies #[trigger] takes_index(
            rows@,
            k,
        ) by {
            assert(row_matches_node(
                unsorted_view[k],
                matching_nodes(pattern@, nodes@)[k],
                display@,
                *mode,
                k,
            ));
            assert(unsorted_view[k].index == k);
            assert(unsorted_view.contains(unsorted_view[k]));
            assert(unsorted_view.to_multiset().contains(unsorted_view[k]));
            assert(rows@.to_multiset().contains(unsorted_view[k]));
            assert(rows@.contains(unsorted_view[k]));
            let j = choose|j: int| 0 <= j < rows@.len() && rows@[j] == unsorted_view[k];
            assert(rows@[j].index == k);
        }
    }
    rows
}

/// Sequences sorted strictly by an asymmetric order and holding the same
/// rows are equal.
proof fn lemma_strict_sorted_unique<A>(x: Seq<A>, y: Seq<A>, lt: spec_fn(A, A) -> bool)
    requires
        forall|i: int, j: int| 0 <= i < j < x.len() ==> lt(x[i], x[j]),
        forall|i: int, j: int| 0 <= i < j < y.len() ==> lt(y[i], y[j]),
        forall|a: A, b: A| #[trigger] lt(a, b) ==> !lt(b, a),
        x.to_multiset() == y.to_multiset(),
    ensures
        x =~= y,
    decreases x.len(),
{
    x.to_multiset_ensures();
    y.to_multiset_ensures();
    if x.len() == 0 {
        assert(y.to_multiset().len() == 0);
    } else if y.len() == 0 {
        assert(x.to_multiset().len() == 0);
    } else {
        assert(x.contains(x[0]));
        assert(y.to_multiset().contains(x[0]));
        assert(y.contains(x[0]));
        let j = choose|j: int| 0 <= j < y.len() && y[j] == x[0];
        assert(y.contains(y[0]));
        assert(x.to_multiset().contains(y[0]));
        assert(x.contains(y[0]));
        let i = choose|i: int| 0 <= i < x.len() && x[i] == y[0];
        if x[0] != y[0] {
            assert(j != 0 && i != 0);
            assert(lt(y[0], y[j]));
            assert(lt(x[0], x[i]));
            assert(false);
        }
        assert(x.drop_first() =~= x.remove(0));
        assert(y.drop_first() =~= y.remove(0));
        vstd::seq_lib::to_multiset_remove(x, 0);
        vstd::seq_lib::to_multiset_remove(y, 0);
        assert(x.drop_first().to_multiset() =~= x.to_multiset().remove(x[0]));
        assert(y.drop_first().to_multiset() =~= y.to_multiset().remove(y[0]));
        assert(forall|a: int, b: int|
            0 <= a < b < x.drop_first().len() ==> lt(x.drop_first()[a], x.drop_first()[b]));
        assert(forall|a: int, b: int|
            0 <= a < b < y.drop_first().len() ==> lt(y.drop_first()[a], y.drop_first()[b]));
        lemma_strict_sorted_unique(x.drop_first(), y.drop_first(), lt);
        assert(x =~= Seq::<A>::empty().push(x.first()) + x.drop_first());
        assert(y =~= Seq::<A>::empty().push(y.first()) + y.drop_first());
    }
}

/// Law: when no two rows tie in the sort column, a row sequence sorted
/// ascending and one sorted descending over the same rows are each
/// other's reverses.
pub proof fn lemma_sort_reverse(asc_rows: Seq<NodeRow>, desc_rows: Seq<NodeRow>, column: i32)
    requires
        rows_sorted(asc_rows, column, true),
        rows_sorted(desc_rows, column, false),
        asc_rows.to_multiset() == desc_rows.to_multiset(),
        forall|i: int, j: int| 0 <= i < j < asc_rows.len() ==> !key_equiv(
            asc_rows[i],
            asc_rows[j],
            column,
        ),
        forall|i: int, j: int| 0 <= i < j < desc_rows.len() ==> !key_equiv(
            desc_rows[i],
            desc_rows[j],
            column,
        ),
    ensures
        desc_rows =~= asc_rows.reverse(),
{
    let lt = |a: NodeRow, b: NodeRow| key_le(b, a, column) && !key_le(a, b, column);
    assert forall|i: int, j: int|
        0 <= i < j < desc_rows.len() implies lt(desc_rows[i], desc_rows[j]) by {
        assert(row_before(desc_rows[i], desc_rows[j], column, false));
        lemma_key_le_total(desc_rows[i], desc_rows[j], column);
    }
    let rev = asc_rows.reverse();
    assert forall|i: int, j: int| 0 <= i < j < rev.len() implies lt(rev[i], rev[j]) by {
        let n = asc_rows.len() as int;
        assert(rev[i] == asc_rows[n - 1 - i] && rev[j] == asc_rows[n - 1 - j]);
        assert(row_before(asc_rows[n - 1 - j], asc_rows[n - 1 - i], column, true));
        lemma_key_le_total(asc_rows[n - 1 - j], asc_rows[n - 1 - i], column);
    }
    asc_rows.lemma_reverse_to_multiset();
    lemma_strict_sorted_unique(desc_rows, rev, lt);
}

/// One row of the details popup: one port of the selected node.
#[derive(Clone, Debug)]
pub struct PortRow {
    pub port: i32,
    pub remote_desc: String,
    pub recv_bw: u128,
    pub xmit_bw: u128,
    pub bw_loss: u128,
    pub error_count: u128,
    pub error_strings: String,
}

/// The first position holding a node with the given LID, or -1.
pub open spec fn first_node_idx(nodes: Seq<Node>, lid: u16) -> int
    decreases nodes.len(),
{
    if nodes.len() == 0 {
        -1
    } else {
        let r = first_node_idx(nodes.drop_last(), lid);
        if r >= 0 {
            r
        } else if nodes.last().lid == lid {
            nodes.len() - 1
        } else {
            -1
        }
    }
}

/// The first position holding a port with the given number, or -1.
pub open spec fn first_port_idx(ports: Seq<Port>, number: i32) -> int
    decreases ports.len(),
{
    if ports.len() == 0 {
        -1
    } else {
        let r = first_port_idx(ports.drop_last(), number);
        if r >= 0 {
            r
        } else if ports.last().number == number {
            ports.len() - 1
        } else {
            -1
        }
    }
}

proof fn lemma_first_node_idx_extend(nodes: Seq<Node>, lid: u16, k: int)
    requires
        0 <= k <= nodes.len(),
        first_node_idx(nodes.take(k), lid) >= 0,
    ensures
        first_node_idx(nodes, lid) == first_node_idx(nodes.take(k), lid),
    decreases nodes.len() - k,
{
    if k < nodes.len() {
        assert(nodes.take(k + 1).drop_last() =~= nodes.take(k));
        lemma_first_node_idx_extend(nodes, lid, k + 1);
    } else {
        assert(nodes.take(k) =~= nodes);
    }
}

proof fn lemma_first_port_idx_extend(ports: Seq<Port>, number: i32, k: int)
    requires
        0 <= k <= ports.len(),
        first_port_idx(ports.take(k), number) >= 0,
    ensures
        first_port_idx(ports, number) == first_port_idx(ports.take(k), number),
    decreases ports.len() - k,
{
    if k < ports.len() {
        assert(ports.take(k + 1).drop_last() =~= ports.take(k));
        lemma_first_port_idx_extend(ports, number, k + 1);
    } else {
        assert(ports.take(k) =~= ports);
    }
}

/// The label of a details row: the remote description recorded on the
/// first port with that number of the first node with that LID, or empty.
pub open spec fn spec_remote_desc(nodes: Seq<Node>, key: LidPort) -> Seq<char> {
    let ni = first_node_idx(nodes, key.lid);
    if ni < 0 {
        Seq::empty()
    } else {
        let ports = nodes[ni].ports@;
        let pi = first_port_idx(ports, key.number);
        if pi < 0 {
            Seq::empty()
        } else {
            ports[pi].remote_node_description@
        }
    }
}

/// Looks the remote description of a counter target up in the node list.
fn lookup_remote_desc(nodes: &Vec<Node>, key: LidPort) -> (r: String)
    ensures
        r@ == spec_remote_desc(nodes@, key),
{
    let mut i: usize = 0;
    while i < nodes.len()
        invariant
            i <= nodes@.len(),
            first_node_idx(nodes@.take(i as int), key.lid) == -1,
        decreases nodes@.len() - i,
    {
        proof {
            assert(nodes@.take(i + 1).drop_last() =~= nodes@.take(i as int));
            assert(nodes@.take(i + 1).last() == nodes@[i as int]);
        }
        if nodes[i].lid == key.lid {
            proof {
                assert(first_node_idx(nodes@.take(i + 1), key.lid) == i);
                lemma_first_node_idx_extend(nodes@, key.lid, i + 1);
            }
            let ports = &nodes[i].ports;
            let mut p: usize = 0;
            while p < ports.len()
                invariant
                    p <= ports@.len(),
                    ports@ == nodes@[i as int].ports@,
                    i < nodes@.len(),
                    first_node_idx(nodes@, key.lid) == i,
                    first_port_idx(ports@.take(p as int), key.number) == -1,
                decreases ports@.len() - p,
            {
                proof {
                    assert(ports@.take(p + 1).drop_last() =~= ports@.take(p as int));
                    assert(ports@.take(p + 1).last() == ports@[p as int]);
                }
                if ports[p].number == key.number {
                    proof {
                        assert(first_port_idx(ports@.take(p + 1), key.number) == p);
                        lemma_first_port_idx_extend(ports@, key.number, p + 1);
                    }
                    return ports[p].remote_node_description.clone();
                }
                p += 1;
            }
            proof {
                assert(ports@.take(ports@.len() as int) =~= ports@);
            }
            return String::new();
        }
        i += 1;
    }
    proof {
        assert(nodes@.take(nodes@.len() as int) =~= nodes@);
    }
    String::new()
}

/// The stored targets that name a real port, the aggregate pseudo-port
/// left out, in stored order.
pub open spec fn detail_keys(keys: Seq<LidPort>) -> Seq<LidPort>
    decreases keys.len(),
{
    if keys.len() == 0 {
        Seq::empty()
    } else {
        let rest = detail_keys(keys.drop_last());
        if keys.last().number != AGG_COUNTERS_PORT {
            rest.push(keys.last())
        } else {
            rest
        }
    }
}

/// A details row read from one stored target: its port number, the remote
/// label looked up in the node list, and the record's metrics.
pub open spec fn row_matches_port(
    row: PortRow,
    key: LidPort,
    display: Map<LidPort, Map<Seq<char>, u64>>,
    nodes: Seq<Node>,
    mode: CounterMode,
) -> bool {
    &&& row.port == key.number
    &&& row.remote_desc@ == spec_remote_desc(nodes, key)
    &&& display.contains_key(key)
    &&& row_metrics_match(
        row.recv_bw,
        row.xmit_bw,
        row.bw_loss,
        row.error_count,
        row.error_strings@,
        Some(display[key]),
        mode,
    )
}

pub open spec fn port_rows_sorted(s: Seq<PortRow>) -> bool {
    forall|i: int, j: int| 0 <= i < j < s.len() ==> s[i].port <= s[j].port
}

/// The row stands for one of the store's real-port targets.
pub open spec fn row_is_port_projection(
    row: PortRow,
    display_keys: Seq<LidPort>,
    display: Map<LidPort, Map<Seq<char>, u64>>,
    nodes: Seq<Node>,
    mode: CounterMode,
) -> bool {
    exists|k: int|
        0 <= k < detail_keys(display_keys).len() && row_matches_port(
            row,
            #[trigger] detail_keys(display_keys)[k],
            display,
            nodes,
            mode,
        )
}

fn insert_port_row_sorted(out: &mut Vec<PortRow>, x: PortRow)
    requires
        port_rows_sorted(old(out)@),
    ensures
        port_rows_sorted(final(out)@),
        final(out)@.to_multiset() == old(out)@.to_multiset().insert(x),
{
    let n = out.len();
    let mut p: usize = 0;
    while p < n && out[p].port <= x.port
        invariant
            *out == *old(out),
            n == out@.len(),
            p <= n,
            forall|j: int| 0 <= j < p ==> out@[j].port <= x.port,
        decreases n - p,
    {
        p += 1;
    }
    let ghost before = out@;
    out.insert(p, x);
    proof {
        assert forall|i: int, j: int|
            0 <= i < j < out@.len() implies out@[i].port <= out@[j].port by {
            if j < p {
                assert(out@[i] == before[i] && out@[j] == before[j]);
            } else if j == p {
                assert(out@[i] == before[i]);
            } else {
                if i < p {
                    assert(out@[i] == before[i] && out@[j] == before[j - 1]);
                } else if i == p {
                    assert(out@[j] == before[j - 1]);
                    assert(x.port <= before[p as int].port);
                } else {
                    assert(out@[i] == before[i - 1] && out@[j] == before[j - 1]);
                }
            }
        }
    }
}

/// Some details row reads this stored target.
pub open spec fn has_port_row(
    rows: Seq<PortRow>,
    key: LidPort,
    display: Map<LidPort, Map<Seq<char>, u64>>,
    nodes: Seq<Node>,
    mode: CounterMode,
) -> bool {
    exists|j: int|
        0 <= j < rows.len() && row_matches_port(#[trigger] rows[j], key, display, nodes, mode)
}

/// The details popup's rows: one per stored real-port target, the
/// aggregate pseudo-port left out, sorted by port number.
pub fn details_rows(display: &CounterStore, nodes: &Vec<Node>, mode: &CounterMode) -> (rows: Vec<
    PortRow,
>)
    requires
        display.wf(),
    ensures
        port_rows_sorted(rows@),
        rows@.len() == detail_keys(display.spec_keys()).len(),
        forall|j: int| 0 <= j < rows@.len() ==> row_is_port_projection(
            #[trigger] rows@[j],
            display.spec_keys(),
            display@,
            nodes@,
            *mode,
        ),
        forall|k: int| 0 <= k < detail_keys(display.spec_keys()).len() ==> has_port_row(
            rows@,
            #[trigger] detail_keys(display.spec_keys())[k],
            display@,
            nodes@,
            *mode,
        ),
{
    let n = display.len();
    proof {
        display.lemma_keys();
    }
    let mut unsorted: Vec<PortRow> = Vec::new();
    let mut i: usize = 0;
    while i < n
        invariant
            i <= n,
            n == display.spec_keys().len(),
            display.wf(),
            unsorted@.len() == detail_keys(display.spec_keys().take(i as int)).len(),
            forall|j: int| 0 <= j < unsorted@.len() ==> row_matches_port(
                unsorted@[j],
                detail_keys(display.spec_keys().take(i as int))[j],
                display@,
                nodes@,
                *mode,
            ),
        decreases n - i,
    {
        proof {
            assert(display.spec_keys().take(i + 1).drop_last() =~= display.spec_keys().take(
                i as int,
            ));
            assert(display.spec_keys().take(i + 1).last() == display.spec_keys()[i as int]);
        }
        let (key, rec) = display.entry_at(i);
        if key.number != AGG_COUNTERS_PORT {
            let row = PortRow {
                port: key.number,
                remote_desc: lookup_remote_desc(nodes, key),
                recv_bw: get_bw(rec, "rcv_bytes", mode),
                xmit_bw: get_bw(rec, "xmt_bytes", mode),
                bw_loss: get_bw_loss(rec, "xmit_waits", mode),
                error_count: count_errors(rec),
                error_strings: get_error_strings(rec),
            };
            unsorted.push(row);
        }
        i += 1;
    }
    proof {
        assert(display.spec_keys().take(n as int) =~= display.spec_keys());
    }
    let ghost unsorted_view = unsorted@;
    let ghost orig_ms = unsorted@.to_multiset();
    let mut rest = unsorted;
    let mut rows: Vec<PortRow> = Vec::new();
    while rest.len() > 0
        invariant
            rows@.to_multiset().add(rest@.to_multiset()) == orig_ms,
            port_rows_sorted(rows@),
        decreases rest@.len(),
    {
        let ghost rest_before = rest@;
        let ghost rows_ms = rows@.to_multiset();
        let x = rest.remove(0);
        insert_port_row_sorted(&mut rows, x);
        proof {
            assert(rest@.to_multiset() == rest_before.to_multiset().remove(rest_before[0]));
            assert(rest_before.to_multiset().contains(rest_before[0]));
            assert(rows@.to_multiset() == rows_ms.insert(rest_before[0]));
            assert(rows@.to_multiset().add(rest@.to_multiset()) =~= rows_ms.add(
                rest_before.to_multiset(),
            ));
        }
    }
    proof {
        assert(rest@.to_multiset() =~= Multiset::<PortRow>::empty());
        assert(rows@.to_multiset() =~= orig_ms);
        vstd::seq_lib::to_multiset_len(rows@);
        vstd::seq_lib::to_multiset_len(unsorted_view);
        assert forall|j: int| 0 <= j < rows@.len() implies row_is_port_projection(
            #[trigger] rows@[j],
            display.spec_keys(),
            display@,
            nodes@,
            *mode,
        ) by {
            assert(rows@.contains(rows@[j]));
            assert(rows@.to_multiset().contains(rows@[j]));
            assert(unsorted_view.to_multiset().contains(rows@[j]));
            assert(unsorted_view.contains(rows@[j]));
            let k = choose|k: int| 0 <= k < unsorted_view.len() && unsorted_view[k] == rows@[j];
            assert(row_matches_port(
                rows@[j],
                detail_keys(display.spec_keys())[k],
                display@,
                nodes@,
                *mode,
            ));
        }
        assert forall|k: int| 0 <= k < detail_keys(display.spec_keys()).len() implies has_port_row(
            rows@,
            #[trigger] detail_keys(display.spec_keys())[k],
            display@,
            nodes@,
            *mode,
        ) by {
            assert(row_matches_port(
                unsorted_view[k],
                detail_keys(display.spec_keys())[k],
                display@,
                nodes@,
                *mode,
            ));
            assert(unsorted_view.contains(unsorted_view[k]));
            assert(unsorted_view.to_multiset().contains(unsorted_view[k]));
            assert(rows@.to_multiset().contains(unsorted_view[k]));
            assert(rows@.contains(unsorted_view[k]));
            let j = choose|j: int| 0 <= j < rows@.len() && rows@[j] == unsorted_view[k];
            assert(row_matches_port(
                rows@[j],
                detail_keys(display.spec_keys())[k],
                display@,
                nodes@,
                *mode,
            ));
        }
    }
    rows
}

} // verus!
