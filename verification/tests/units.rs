//! Unit and property checks: counter deltas, metrics, sorting, text
//! utilities, the scope parser, geometry, and backpressure.

use ibtop::app::{Action, App, AppConfig, CounterMode, Popup, Status};
use ibtop::counters::{calc_counters_delta, CounterRecord, CounterStore};
use ibtop::events::{CounterEvent, DiscoveryEvent, Event, Key};
use ibtop::forms::SearchForm;
use ibtop::helpers::{centered_rect_percent, centered_rect_percent_w_lines_h, compute_column_widths, Region};
use ibtop::metrics::{count_errors, get_bw, get_bw_loss, get_error_strings};
use ibtop::model::{aggregate_targets, LidPort, Node, Port};
use ibtop::scope::{parse_scope_lines, parse_u64_dec, parse_u64_hex, split_commas};
use ibtop::services::{chunk_targets, fabricate_nodes, synth_counters};
use ibtop::text::{str_le, trim_str, truncate_fit, u64_to_string};
use ibtop::view::{build_rows, details_rows, sort_rows, NodeRow};

fn record(entries: &[(&str, u64)]) -> CounterRecord {
    let mut rec = CounterRecord::new();
    for (k, v) in entries {
        rec.insert(k.to_string(), *v);
    }
    rec
}

fn test_config() -> AppConfig {
    AppConfig {
        hca: "mlx5_0".to_string(),
        pkey: 0,
        threads: 16,
        service_type: "test".to_string(),
        update_interval: 2,
        include_hcas: false,
        timeout: 250,
        retries: 2,
    }
}

fn row(lid: u16, description: &str, recv_bw: u128, index: usize) -> NodeRow {
    NodeRow {
        guid: lid as u64,
        lid,
        node_description: description.to_string(),
        port_count: 1,
        recv_bw,
        xmit_bw: 0,
        bw_loss: 0,
        error_count: 0,
        error_strings: String::new(),
        index,
    }
}

#[test]
fn delta_subtracts_and_keeps_resets() {
    let old_map = record(&[("a", 5), ("b", 10), ("only_old", 9)]);
    let new_map = record(&[("a", 7), ("b", 3), ("c", 4)]);
    let delta = calc_counters_delta(&old_map, &new_map);
    // grown: the increase; shrunk (reset suspected): the raw new value;
    // unknown to the old record: the raw new value
    assert_eq!(delta.get("a"), Some(2));
    assert_eq!(delta.get("b"), Some(3));
    assert_eq!(delta.get("c"), Some(4));
    // a counter only the old record knew is dropped
    assert_eq!(delta.get("only_old"), None);
}

#[test]
fn display_keyset_follows_current() {
    let mut app = App::new(test_config());
    app.handle_key_event(Key::Char('D'));
    let mut store = CounterStore::new();
    store.insert(LidPort { lid: 1, number: 255 }, record(&[("x", 1), ("y", 2)]));
    app.handle_event(Event::Counters(CounterEvent::Response(store)));
    let shown = app.display_counters.get(LidPort { lid: 1, number: 255 }).unwrap();
    assert_eq!(shown.get("x"), Some(1));
    assert_eq!(shown.get("y"), Some(2));
    assert_eq!(shown.get("z"), None);
    assert_eq!(app.display_counters.len(), 1);
}

#[test]
fn whole_mode_reprocessing_reproduces_current() {
    let mut app = App::new(test_config());
    let store = |v: u64| {
        let mut s = CounterStore::new();
        s.insert(LidPort { lid: 3, number: 255 }, record(&[("x", v)]));
        s
    };
    app.handle_event(Event::Counters(CounterEvent::Response(store(41))));
    app.handle_event(Event::Counters(CounterEvent::Response(store(41))));
    let shown = app.display_counters.get(LidPort { lid: 3, number: 255 }).unwrap();
    let cur = app.current_counters.get(LidPort { lid: 3, number: 255 }).unwrap();
    assert_eq!(shown.get("x"), cur.get("x"));
    assert_eq!(shown.get("x"), Some(41));
}

#[test]
fn fresh_baseline_shows_zero_for_unchanged() {
    let mut app = App::new(test_config());
    let store = |v: u64| {
        let mut s = CounterStore::new();
        s.insert(LidPort { lid: 3, number: 255 }, record(&[("x", v)]));
        s
    };
    app.handle_event(Event::Counters(CounterEvent::Response(store(7))));
    app.handle_key_event(Key::Char('B'));
    app.handle_event(Event::Counters(CounterEvent::Response(store(7))));
    let shown = app.display_counters.get(LidPort { lid: 3, number: 255 }).unwrap();
    assert_eq!(shown.get("x"), Some(0));
}

#[test]
fn pending_counter_update_blocks_new_requests() {
    let mut app = App::new(test_config());
    let nodes = fabricate_nodes(2, 2);
    app.handle_event(Event::Discover(DiscoveryEvent::Response(nodes)));

    let first = app.handle_key_event(Key::Char('u'));
    assert!(matches!(first, Action::Counters(_)));
    assert!(app.pending_counter_update);

    // a second press while pending issues nothing
    let second = app.handle_key_event(Key::Char('u'));
    assert!(matches!(second, Action::Idle));
    assert!(matches!(app.status, Status::CountersPending));

    // ticks do not issue either, however long overdue
    app.auto_update = true;
    app.auto_update_counter = 100;
    for _ in 0..40 {
        let action = app.on_tick();
        assert!(matches!(action, Action::Idle));
    }

    // exactly one reply clears the flag
    let store = synth_counters(&aggregate_targets(&app.nodes), 1, 1_000_000_000);
    app.handle_event(Event::Counters(CounterEvent::Response(store)));
    assert!(!app.pending_counter_update);
}

#[test]
fn counter_error_clears_pending() {
    let mut app = App::new(test_config());
    let nodes = fabricate_nodes(2, 2);
    app.handle_event(Event::Discover(DiscoveryEvent::Response(nodes)));
    app.handle_key_event(Key::Char('u'));
    assert!(app.pending_counter_update);
    app.handle_event(Event::Counters(CounterEvent::Error));
    assert!(!app.pending_counter_update);
    assert!(matches!(app.status, Status::CounterUpdateFailed));
}

#[test]
fn discovery_error_reports_failure() {
    let mut app = App::new(test_config());
    app.handle_event(Event::Discover(DiscoveryEvent::Error));
    assert!(matches!(app.status, Status::DiscoveryFailed));
    assert_eq!(app.nodes.len(), 0);
}

#[test]
fn sort_orders_and_reverses_distinct_keys() {
    let rows = vec![
        row(3, "c", 30, 0),
        row(1, "a", 10, 1),
        row(2, "b", 20, 2),
    ];
    let asc = sort_rows(rows.clone(), 1, true);
    let lids_asc: Vec<u16> = asc.iter().map(|r| r.lid).collect();
    assert_eq!(lids_asc, vec![1, 2, 3]);

    let rows2 = vec![
        row(3, "c", 30, 0),
        row(1, "a", 10, 1),
        row(2, "b", 20, 2),
    ];
    let desc = sort_rows(rows2, 1, false);
    let lids_desc: Vec<u16> = desc.iter().map(|r| r.lid).collect();
    assert_eq!(lids_desc, vec![3, 2, 1]);
}

#[test]
fn sort_is_stable_on_ties() {
    let rows = vec![
        row(5, "first", 10, 0),
        row(5, "second", 10, 1),
        row(4, "third", 10, 2),
    ];
    // column 0 orders nothing: every pair ties, so the order is kept
    let unchanged = sort_rows(rows.clone(), 0, true);
    let names: Vec<String> = unchanged.iter().map(|r| r.node_description.clone()).collect();
    assert_eq!(names, vec!["first", "second", "third"]);

    // ties in the sorted column keep their pre-sort order
    let by_lid = sort_rows(rows, 1, true);
    let names: Vec<String> = by_lid.iter().map(|r| r.node_description.clone()).collect();
    assert_eq!(names, vec!["third", "first", "second"]);
}

#[test]
fn filter_counts_matching_nodes() {
    let mut app = App::new(test_config());
    let nodes = fabricate_nodes(8, 2);
    app.handle_event(Event::Discover(DiscoveryEvent::Response(nodes)));
    assert_eq!(app.filtered_len(), 8);
    app.search_form = SearchForm::new("Search");
    app.search_form.on_key_press(Key::Char('s'));
    app.search_form.on_key_press(Key::Char('w'));
    assert_eq!(app.filtered_len(), 8);
    for c in "itch-3".chars() {
        app.search_form.on_key_press(Key::Char(c));
    }
    assert_eq!(app.filtered_len(), 1);
    // case-insensitive
    app.search_form = SearchForm::new("Search");
    for c in "SWITCH-3".chars() {
        app.search_form.on_key_press(Key::Char(c));
    }
    assert_eq!(app.filtered_len(), 1);
    // an invalid pattern matches everything
    app.search_form = SearchForm::new("Search");
    app.search_form.on_key_press(Key::Char('('));
    assert_eq!(app.filtered_len(), 8);
    // rows match the count
    let rows = build_rows("(", &app.nodes, &app.display_counters, &app.counter_mode, 0, false);
    assert_eq!(rows.len(), 8);
}

#[test]
fn navigation_keeps_selection_visible() {
    let mut app = App::new(test_config());
    let nodes = fabricate_nodes(8, 2);
    app.handle_event(Event::Discover(DiscoveryEvent::Response(nodes)));
    app.set_visible_rows(3);

    app.handle_key_event(Key::End);
    assert_eq!(app.selected, 7);
    assert!(app.table_offset <= 7 && 7 < app.table_offset + 3);
    assert_eq!(app.table_offset, 5);

    app.handle_key_event(Key::Home);
    assert_eq!(app.selected, 0);
    assert_eq!(app.table_offset, 0);

    app.handle_key_event(Key::PageDown);
    assert_eq!(app.selected, 3);
    assert!(app.table_offset <= 3 && 3 < app.table_offset + 3);

    app.handle_key_event(Key::Up);
    assert_eq!(app.selected, 2);
    app.handle_key_event(Key::PageUp);
    assert_eq!(app.selected, 0);
}

#[test]
fn details_popup_lists_ports_sorted() {
    let nodes = vec![Node {
        guid: 9,
        node_description: "sw".to_string(),
        ports: vec![
            Port { number: 1, remote_node_description: "peer-one".to_string() },
            Port { number: 2, remote_node_description: "peer-two".to_string() },
        ],
        lid: 40,
    }];
    let mut store = CounterStore::new();
    store.insert(LidPort { lid: 40, number: 2 }, record(&[("rcv_bytes", 1_000_000_000)]));
    store.insert(LidPort { lid: 40, number: 1 }, record(&[("rcv_bytes", 2_000_000_000)]));
    store.insert(LidPort { lid: 40, number: 255 }, record(&[("rcv_bytes", 5)]));

    let rows = details_rows(&store, &nodes, &CounterMode::Whole);
    assert_eq!(rows.len(), 2);
    assert_eq!(rows[0].port, 1);
    assert_eq!(rows[0].remote_desc, "peer-one");
    assert_eq!(rows[1].port, 2);
    assert_eq!(rows[1].remote_desc, "peer-two");
    assert_eq!(rows[0].recv_bw, 64000);
}

#[test]
fn bandwidth_formulas() {
    // Whole mode: the divisor is one second's worth of nanoseconds,
    // whatever the timestamp says.
    let rec = record(&[("rcv_bytes", 1_000_000_000), ("end_timestamp", 2_000_000_000)]);
    assert_eq!(get_bw(&rec, "rcv_bytes", &CounterMode::Whole), 32000);
    // Delta mode divides by the sample's end timestamp.
    assert_eq!(get_bw(&rec, "rcv_bytes", &CounterMode::Delta), 16000);
    // Baseline behaves like Whole here.
    assert_eq!(get_bw(&rec, "rcv_bytes", &CounterMode::Baseline), 32000);
    // A missing counter reads zero.
    assert_eq!(get_bw(&rec, "xmt_bytes", &CounterMode::Whole), 0);

    let rec = record(&[("xmit_waits", 1_000_000_000), ("end_timestamp", 2_000_000_000)]);
    assert_eq!(get_bw_loss(&rec, "xmit_waits", &CounterMode::Whole), 64000);
    assert_eq!(get_bw_loss(&rec, "xmit_waits", &CounterMode::Delta), 32000);
}

#[test]
fn error_summaries() {
    let rec = record(&[
        ("symbol_errors", 2),
        ("link_downed", 0),
        ("vl15dropped", 3),
        ("qp1_drops", 1),
        ("unrelated", 100),
    ]);
    assert_eq!(count_errors(&rec), 6);
    assert_eq!(get_error_strings(&rec), "symbol_errors,vl15dropped,qp1_drops");

    let clean = record(&[("symbol_errors", 0)]);
    assert_eq!(count_errors(&clean), 0);
    assert_eq!(get_error_strings(&clean), "");

    let keys = rec.keys();
    assert_eq!(keys.len(), 5);
    assert!(keys.iter().any(|k| k == "unrelated"));
}

#[test]
fn text_utilities() {
    assert_eq!(truncate_fit("hello", 4), "hel\u{2026}");
    assert_eq!(truncate_fit("hi", 4), "hi");
    assert_eq!(truncate_fit("hello", 5), "hello");
    assert!(str_le("abc", "abd"));
    assert!(str_le("abc", "abc"));
    assert!(!str_le("abd", "abc"));
    assert!(str_le("ab", "abc"));
    assert_eq!(u64_to_string(0), "0");
    assert_eq!(u64_to_string(1234), "1234");
    assert_eq!(trim_str(" \tx y\r\n"), "x y");
    assert_eq!(split_commas("a,b,,c"), vec!["a", "b", "", "c"]);
    assert_eq!(split_commas("plain"), vec!["plain"]);
}

#[test]
fn number_parsing() {
    assert_eq!(parse_u64_dec("123"), Some(123));
    assert_eq!(parse_u64_dec("18446744073709551615"), Some(u64::MAX));
    assert_eq!(parse_u64_dec("18446744073709551616"), None);
    assert_eq!(parse_u64_dec(""), None);
    assert_eq!(parse_u64_dec("12x"), None);
    assert_eq!(parse_u64_hex("1A"), Some(26));
    assert_eq!(parse_u64_hex("ff"), Some(255));
    assert_eq!(parse_u64_hex(""), None);
    assert_eq!(parse_u64_hex("g"), None);
}

#[test]
fn scope_lines_merge_by_guid() {
    let lines: Vec<String> = vec![
        "guid,description,lid,port,remote".to_string(),
        "0x10,switch-a,5,1,peer-a".to_string(),
        "".to_string(),
        "garbage line".to_string(),
        "16, switch-a ,5,2".to_string(),
        "17,switch-b,6,1".to_string(),
    ];
    let nodes = parse_scope_lines(&lines);
    assert_eq!(nodes.len(), 2);
    assert_eq!(nodes[0].guid, 0x10);
    assert_eq!(nodes[0].node_description, "switch-a");
    assert_eq!(nodes[0].lid, 5);
    assert_eq!(nodes[0].ports.len(), 2);
    assert_eq!(nodes[0].ports[0].number, 1);
    assert_eq!(nodes[0].ports[0].remote_node_description, "peer-a");
    assert_eq!(nodes[0].ports[1].number, 2);
    assert_eq!(nodes[0].ports[1].remote_node_description, "");
    assert_eq!(nodes[1].guid, 17);
    assert_eq!(nodes[1].lid, 6);
}

#[test]
fn geometry() {
    assert_eq!(compute_column_widths(100, &vec![40, 320, 5]), vec![4, 32, 2]);
    let r = Region { x: 0, y: 0, width: 100, height: 50 };
    let c = centered_rect_percent(60, 80, r);
    assert_eq!((c.x, c.y, c.width, c.height), (20, 5, 60, 40));
    let c = centered_rect_percent_w_lines_h(60, 3, r);
    assert_eq!((c.x, c.y, c.width, c.height), (20, 23, 60, 3));
}

#[test]
fn chunking_partitions_targets() {
    let targets: Vec<LidPort> = (0..10).map(|i| LidPort { lid: i as u16, number: 255 }).collect();
    let chunks = chunk_targets(&targets, 3);
    let sizes: Vec<usize> = chunks.iter().map(|c| c.len()).collect();
    assert_eq!(sizes, vec![4, 4, 2]);
    let flat: Vec<LidPort> = chunks.into_iter().flatten().collect();
    assert_eq!(flat, targets);

    let chunks = chunk_targets(&targets, 0);
    assert_eq!(chunks.len(), 1);
    assert_eq!(chunks[0].len(), 10);

    let none = chunk_targets(&Vec::new(), 4);
    assert_eq!(none.len(), 0);
}

#[test]
fn search_form_edits() {
    let mut form = SearchForm::new("Search");
    assert_eq!(form.label, "Search");
    form.on_key_press(Key::Char('a'));
    form.on_key_press(Key::Char('b'));
    assert_eq!(form.value, "ab");
    form.on_key_press(Key::Backspace);
    assert_eq!(form.value, "a");
    form.on_key_press(Key::Backspace);
    form.on_key_press(Key::Backspace);
    assert_eq!(form.value, "");
    form.on_key_press(Key::Char('x'));
    assert_eq!(form.cursor_offset(), (2, 0));
}

#[test]
fn enter_opens_details_and_clears_history() {
    let mut app = App::new(test_config());
    let nodes = fabricate_nodes(3, 2);
    app.handle_event(Event::Discover(DiscoveryEvent::Response(nodes)));
    let store = synth_counters(&aggregate_targets(&app.nodes), 1, 1_000_000_000);
    app.handle_key_event(Key::Char('u'));
    app.handle_event(Event::Counters(CounterEvent::Response(store)));
    assert_eq!(app.display_counters.len(), 3);

    app.handle_key_event(Key::Enter);
    assert!(matches!(app.active_popup, Popup::Details));
    assert_eq!(app.display_counters.len(), 0);
    assert_eq!(app.current_counters.len(), 0);
    assert_eq!(app.previous_counters.len(), 0);
    assert_eq!(app.popup_selected, 0);
    assert_eq!(app.popup_table_offset, 0);

    app.handle_key_event(Key::Esc);
    assert!(matches!(app.active_popup, Popup::Closed));
}

#[test]
fn quit_and_mode_keys() {
    let mut app = App::new(test_config());
    assert!(matches!(app.handle_key_event(Key::Char('q')), Action::Quit));
    assert!(matches!(app.handle_key_event(Key::Esc), Action::Quit));
    assert!(matches!(app.handle_key_event(Key::CtrlC), Action::Quit));
    assert!(matches!(app.handle_key_event(Key::Char('d')), Action::Discover));
    assert!(matches!(app.status, Status::Discovering));
    app.handle_key_event(Key::Char('D'));
    assert!(matches!(app.counter_mode, CounterMode::Delta));
    app.handle_key_event(Key::Char('W'));
    assert!(matches!(app.counter_mode, CounterMode::Whole));
    app.handle_key_event(Key::Char('U'));
    assert!(app.auto_update);
    assert_eq!(app.sort_column, 0);
    app.handle_key_event(Key::Char('s'));
    assert_eq!(app.sort_column, 1);
    for _ in 0..8 {
        app.handle_key_event(Key::Char('s'));
    }
    assert_eq!(app.sort_column, 0);
    assert!(!app.sort_ascending);
    app.handle_key_event(Key::Char('S'));
    assert!(app.sort_ascending);
}

#[test]
fn tick_auto_update_cycle() {
    let mut app = App::new(test_config());
    let nodes = fabricate_nodes(2, 2);
    app.handle_event(Event::Discover(DiscoveryEvent::Response(nodes)));
    app.auto_update = true;

    // update_interval is two tick wraps: the first sixty ticks fire once
    let mut fired = 0;
    for _ in 0..60 {
        if matches!(app.handle_event(Event::Tick), Action::Counters(_)) {
            fired += 1;
        }
    }
    assert_eq!(fired, 1);
    assert!(app.pending_counter_update);
}

#[test]
fn quit_event_stops_the_loop() {
    let mut app = App::new(test_config());
    assert!(app.running);
    app.handle_event(Event::App(ibtop::events::AppEvent::Quit));
    assert!(!app.running);
}
