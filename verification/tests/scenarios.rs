//! End-to-end scenarios over the coordinator with the test transport.

use ibtop::app::{Action, App, AppConfig, CounterMode, Popup};
use ibtop::events::{CounterEvent, DiscoveryEvent, Event, Key};
use ibtop::model::LidPort;
use ibtop::services::{synth_counters, DiscoverService, TestDiscoverService};
use ibtop::view::build_rows;

fn test_config() -> AppConfig {
    AppConfig {
        hca: "mlx5_0".to_string(),
        pkey: 0,
        threads: 16,
        service_type: "test".to_string(),
        update_interval: 2,
        include_hcas: false,
        timeout: 250,
        retries: 2,
    }
}

/// Runs discovery with the test transport and feeds the reply in.
fn discovered_app() -> App {
    let mut app = App::new(test_config());
    let disc = TestDiscoverService::new(test_config());
    let nodes = disc.get_nodes();
    let action = app.handle_event(Event::Discover(DiscoveryEvent::Response(nodes)));
    assert!(matches!(action, Action::Idle));
    app
}

/// Presses `u` and answers the resulting counter request with counters
/// synthesised for the given moment.
fn update_counters_at(app: &mut App, elapsed: u64, now: u64) {
    let action = app.handle_key_event(Key::Char('u'));
    let targets = match action {
        Action::Counters(ts) => ts,
        _ => panic!("expected a counter request"),
    };
    let store = synth_counters(&targets, elapsed, now);
    let action = app.handle_event(Event::Counters(CounterEvent::Response(store)));
    assert!(matches!(action, Action::Idle));
}

#[test]
fn s1_discovery_baseline() {
    let app = discovered_app();
    assert_eq!(app.nodes.len(), 8);
    for (i, node) in app.nodes.iter().enumerate() {
        assert_eq!(node.lid, 17 + i as u16);
    }
    assert_eq!(app.selected, 0);
}

#[test]
fn s2_single_update_whole() {
    let mut app = discovered_app();
    update_counters_at(&mut app, 1, 1_000_000_000);

    assert!(matches!(app.counter_mode, CounterMode::Whole));
    assert_eq!(app.display_counters.len(), 8);
    for lid in 17u16..=24 {
        let key = LidPort { lid, number: 255 };
        assert!(app.display_counters.get(key).is_some());
    }
    let rows = build_rows(
        "",
        &app.nodes,
        &app.display_counters,
        &app.counter_mode,
        app.sort_column,
        app.sort_ascending,
    );
    assert_eq!(rows.len(), 8);
    for row in &rows {
        assert!(row.recv_bw > 0);
    }
}

#[test]
fn s3_two_updates_delta() {
    let mut app = discovered_app();
    update_counters_at(&mut app, 1, 1_000_000_000);
    let action = app.handle_key_event(Key::Char('D'));
    assert!(matches!(action, Action::Idle));
    update_counters_at(&mut app, 5, 2_000_000_000);

    for lid in 17u16..=24 {
        let key = LidPort { lid, number: 255 };
        let shown = app.display_counters.get(key).unwrap().get("xmt_bytes").unwrap();
        let current = app.current_counters.get(key).unwrap().get("xmt_bytes").unwrap();
        let previous = app.previous_counters.get(key).unwrap().get("xmt_bytes").unwrap();
        assert!(current > previous);
        assert_eq!(shown, current - previous);
    }

    // Sorting by RECV_BW descending puts the fastest-growing row first:
    // growth rises with the LID.
    let rows = build_rows("", &app.nodes, &app.display_counters, &app.counter_mode, 4, false);
    assert_eq!(rows[0].lid, 24);
    assert_eq!(rows[7].lid, 17);
}

#[test]
fn s4_baseline() {
    let mut app = discovered_app();
    update_counters_at(&mut app, 1, 1_000_000_000);
    update_counters_at(&mut app, 2, 2_000_000_000);

    let action = app.handle_key_event(Key::Char('B'));
    assert!(matches!(action, Action::Idle));
    assert!(matches!(app.counter_mode, CounterMode::Baseline));

    // The snapshot holds the sample at the time of the key press.
    let key = LidPort { lid: 17, number: 255 };
    let snap = app.baseline_counters.get(key).unwrap().get("xmt_bytes").unwrap();
    let cur = app.current_counters.get(key).unwrap().get("xmt_bytes").unwrap();
    assert_eq!(snap, cur);

    update_counters_at(&mut app, 3, 3_000_000_000);
    for lid in 17u16..=24 {
        let k = LidPort { lid, number: 255 };
        let shown = app.display_counters.get(k).unwrap().get("xmt_bytes").unwrap();
        let current = app.current_counters.get(k).unwrap().get("xmt_bytes").unwrap();
        let snapshot = app.baseline_counters.get(k).unwrap().get("xmt_bytes").unwrap();
        assert_eq!(shown, current - snapshot);
    }

    // Re-entering Baseline snapshots anew; a counter that then grows by
    // exactly one hundred shows exactly one hundred.
    let action = app.handle_key_event(Key::Char('B'));
    assert!(matches!(action, Action::Idle));
    let grown = {
        let base = app.current_counters.get(key).unwrap().get("xmt_bytes").unwrap();
        let mut rec = ibtop::counters::CounterRecord::new();
        rec.insert("xmt_bytes".to_string(), base + 100);
        let mut store = ibtop::counters::CounterStore::new();
        store.insert(key, rec);
        store
    };
    let action = app.handle_key_event(Key::Char('u'));
    assert!(matches!(action, Action::Counters(_)));
    app.handle_event(Event::Counters(CounterEvent::Response(grown)));
    let shown = app.display_counters.get(key).unwrap().get("xmt_bytes").unwrap();
    assert_eq!(shown, 100);
}

#[test]
fn s5_filter_and_navigate() {
    let mut app = discovered_app();
    app.handle_key_event(Key::Char('/'));
    assert!(matches!(app.active_popup, Popup::Search));
    for c in "switch-1".chars() {
        app.handle_key_event(Key::Char(c));
    }
    app.handle_key_event(Key::Enter);
    assert!(matches!(app.active_popup, Popup::Closed));
    assert_eq!(app.search_form.value, "switch-1");
    assert_eq!(app.filtered_len(), 1);

    // The selection cannot move past the last filtered row.
    app.handle_key_event(Key::Down);
    assert_eq!(app.selected, 0);
    app.handle_key_event(Key::Down);
    assert_eq!(app.selected, 0);
}

#[test]
fn s6_details_scope() {
    let mut app = discovered_app();
    let action = app.handle_key_event(Key::Enter);
    assert!(matches!(action, Action::Idle));
    assert!(matches!(app.active_popup, Popup::Details));
    assert!(app.selected_node.is_some());

    // The next counter request targets each port of the selected node,
    // not the aggregate pseudo-port.
    let action = app.handle_key_event(Key::Char('u'));
    let targets = match action {
        Action::Counters(ts) => ts,
        _ => panic!("expected a counter request"),
    };
    assert_eq!(targets.len(), 4);
    for (i, t) in targets.iter().enumerate() {
        assert_eq!(t.lid, 17);
        assert_eq!(t.number, (i + 1) as i32);
    }
    assert!(targets.iter().all(|t| t.number != 255));
}
