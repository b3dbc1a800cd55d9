//! The coordinator's state and its transitions.  Every change to the
//! application state happens here, in response to one event at a time;
//! the front end only renders the state and carries out the returned
//! actions.

use vstd::prelude::*;

use crate::counters::CounterStore;
use crate::events::{AppEvent, CounterEvent, DiscoveryEvent, Event, Key};
use crate::filter::spec_filtered_len;
use crate::forms::{spec_edited, NodeDetailsForm, SearchForm};
use crate::model::{
    aggregate_targets, find_node_by_guid, first_guid_idx, lemma_first_guid_idx_props,
    lemma_node_targets_wf, node_targets, nodes_wf, spec_agg_targets, spec_node_targets, LidPort,
    Node,
};
use crate::view::{build_rows, cached_row_ok, sorted_projection, NodeRow};

verus! {

pub const TICK_RESET_INTERVAL: usize = 30;

pub const MAX_SORT_COLUMNS: i32 = 9;

pub const SEARCH_POPUP_PERCENT_WIDTH: u16 = 60;

pub const SEARCH_POPUP_LINES_HEIGHT: u16 = 3;

pub const DETAILS_POPUP_PERCENT_WIDTH: u16 = 90;

pub const DETAILS_POPUP_PERCENT_HEIGHT: u16 = 80;

/// How counter values are presented.
#[derive(Clone, Copy, Debug, PartialEq, Eq, Structural)]
pub enum CounterMode {
    /// Raw counter values.
    Whole,
    /// Difference from the previous update.
    Delta,
    /// Difference from a user-taken snapshot.
    Baseline,
}

/// The currently active popup dialog.
#[derive(Clone, Copy, Debug, PartialEq, Eq, Structural)]
pub enum Popup {
    /// No popup is open.
    Closed,
    Search,
    Details,
}

/// The status line's content; the front end renders it as text.
pub enum Status {
    Empty,
    Discovering,
    DiscoveryComplete(usize),
    DiscoveryFailed,
    UnknownDiscoveryEvent,
    UnknownCounterEvent,
    CounterUpdateFailed,
    UpdatingCounters,
    CountersUpdated(usize),
    CountersPending,
    NoNodes,
    NodeLabel(String),
}

/// Configuration the coordinator is constructed with.
pub struct AppConfig {
    pub hca: String,
    pub pkey: u32,
    pub threads: usize,
    pub service_type: String,
    pub update_interval: usize,
    pub include_hcas: bool,
    pub timeout: u32,
    pub retries: u32,
}

/// Command-line arguments, as plain values.
pub struct Args {
    pub hca: String,
    pub pkey: u32,
    pub threads: usize,
    pub service_type: String,
    pub update_interval: usize,
    pub timeout: u32,
    pub retries: u32,
    pub include_hcas: bool,
    pub scope_file: Option<String>,
    pub verbose: bool,
    pub tracing: bool,
}

/// What the front end must do after a state transition.
pub enum Action {
    /// Nothing beyond the state change.
    Idle,
    /// Shut the application down.
    Quit,
    /// Send one discovery request.
    Discover,
    /// Send one counter request for the given targets.
    Counters(Vec<LidPort>),
}

/// Relies on chrono's conversion from the system clock and
/// chrono::DateTime::timestamp_nanos_opt: the wall-clock time in
/// nanoseconds since the epoch, zero before the epoch or out of range.
/// The conversion, unlike chrono::Utc::now, does not panic on a clock
/// before the epoch.  Nothing is assumed of the value.
#[verifier::external_body]
pub(crate) fn utc_now_nanos() -> u64 {
    let now = chrono::DateTime::<chrono::Utc>::from(std::time::SystemTime::now());
    match now.timestamp_nanos_opt() {
        Some(ns) if ns >= 0 => ns as u64,
        _ => 0,
    }
}

/// The main application state.
pub struct App {
    pub running: bool,
    pub config: AppConfig,
    pub nodes: Vec<Node>,
    /// The row of the currently selected node, cached at selection time.
    pub selected_node: Option<NodeRow>,
    /// What the table shows, derived from `current_counters` under the mode.
    pub display_counters: CounterStore,
    /// The most recent sample.
    pub current_counters: CounterStore,
    /// The sample before `current_counters`.
    pub previous_counters: CounterStore,
    /// The user-taken snapshot that Baseline mode compares against.
    pub baseline_counters: CounterStore,
    pub pending_counter_update: bool,
    /// Nanoseconds since the epoch of the last counter reply.
    pub last_counter_update: Option<u64>,
    pub counter_mode: CounterMode,
    pub status: Status,
    pub tick: usize,
    pub auto_update: bool,
    pub auto_update_interval: usize,
    pub auto_update_counter: usize,
    pub sort_column: i32,
    pub sort_ascending: bool,
    pub search_form: SearchForm,
    pub node_details_form: NodeDetailsForm,
    pub table_offset: usize,
    pub popup_table_offset: usize,
    pub popup_selected: usize,
    /// Row capacity of the last rendered table, reported by the front end.
    pub visible_rows: usize,
    pub selected: usize,
    pub active_popup: Popup,
}

/// Keys that move the main table's selection.
pub open spec fn is_nav_key(key: Key) -> bool {
    ||| key == Key::Up
    ||| key == Key::Down
    ||| key == Key::PageUp
    ||| key == Key::PageDown
    ||| key == Key::Home
    ||| key == Key::End
}

/// Keys that quit the application from the main view.
pub open spec fn is_quit_key(key: Key) -> bool {
    key == Key::Esc || key == Key::Char('q') || key == Key::CtrlC
}

/// The targets of the next counter request: every port of the selected
/// node while the details popup shows it, else one aggregate query per
/// known node.
pub open spec fn update_targets(app: App) -> Seq<LidPort> {
    if app.active_popup == Popup::Details {
        match app.selected_node {
            Some(row) => {
                let gi = first_guid_idx(app.nodes@, row.guid);
                if gi >= 0 {
                    spec_node_targets(app.nodes@[gi])
                } else {
                    spec_agg_targets(app.nodes@)
                }
            },
            None => spec_agg_targets(app.nodes@),
        }
    } else {
        spec_agg_targets(app.nodes@)
    }
}

/// Law: when the details popup shows a node of a well-formed node set,
/// the counter request formed for it names only real ports — never the
/// aggregate pseudo-port — and no target twice.
pub proof fn lemma_update_targets_no_aggregate(app: App)
    requires
        nodes_wf(app.nodes@),
        app.active_popup is Details,
        app.selected_node is Some,
        first_guid_idx(app.nodes@, app.selected_node->Some_0.guid) >= 0,
    ensures
        forall|i: int| 0 <= i < update_targets(app).len() ==> (#[trigger] update_targets(
            app,
        )[i]).number != crate::model::AGG_COUNTERS_PORT,
        forall|i: int, j: int| 0 <= i < j < update_targets(app).len() ==> update_targets(app)[i]
            != update_targets(app)[j],
{
    let gi = first_guid_idx(app.nodes@, app.selected_node->Some_0.guid);
    lemma_first_guid_idx_props(app.nodes@, app.selected_node->Some_0.guid);
    lemma_node_targets_wf(app.nodes@[gi]);
}

/// The action carries a counter request for exactly these targets.
pub open spec fn action_is_counters(action: Action, targets: Seq<LidPort>) -> bool {
    match action {
        Action::Counters(ts) => ts@ == targets,
        _ => false,
    }
}

/// The status set when a counter request goes out: the selected node's
/// label while the details popup shows it, else the updating notice.
pub open spec fn update_status(app: App) -> Status {
    if app.active_popup == Popup::Details {
        match app.selected_node {
            Some(row) => {
                let gi = first_guid_idx(app.nodes@, row.guid);
                if gi >= 0 {
                    Status::NodeLabel(app.nodes@[gi].node_description)
                } else {
                    Status::UpdatingCounters
                }
            },
            None => Status::UpdatingCounters,
        }
    } else {
        Status::UpdatingCounters
    }
}

/// The number of rows the table currently filters down to.
pub open spec fn spec_app_filtered_len(app: App) -> int {
    spec_filtered_len(app.search_form.value@, app.nodes@)
}

/// The selected row lies inside the visible window.
pub open spec fn selected_visible(app: App) -> bool {
    let vis = if app.visible_rows > 0 {
        app.visible_rows as int
    } else {
        1
    };
    app.table_offset <= app.selected < app.table_offset + vis
}

impl App {
    /// The stores are well formed, and the cyclic counters in range.
    pub open spec fn wf(self) -> bool {
        &&& self.display_counters.wf()
        &&& self.current_counters.wf()
        &&& self.previous_counters.wf()
        &&& self.baseline_counters.wf()
        &&& self.tick < TICK_RESET_INTERVAL
        &&& 0 <= self.sort_column < MAX_SORT_COLUMNS
    }

    /// A fresh coordinator: empty stores, Whole mode, nothing pending,
    /// nothing selected.
    pub fn new(config: AppConfig) -> (app: App)
        ensures
            app.wf(),
            app.running,
            app.config == config,
            app.nodes@.len() == 0,
            app.selected_node is None,
            app.display_counters@ == Map::<LidPort, Map<Seq<char>, u64>>::empty(),
            app.current_counters@ == Map::<LidPort, Map<Seq<char>, u64>>::empty(),
            app.previous_counters@ == Map::<LidPort, Map<Seq<char>, u64>>::empty(),
            app.baseline_counters@ == Map::<LidPort, Map<Seq<char>, u64>>::empty(),
            !app.pending_counter_update,
            app.last_counter_update is None,
            app.counter_mode == CounterMode::Whole,
            app.status == Status::Empty,
            app.tick == 0,
            !app.auto_update,
            app.auto_update_interval == config.update_interval,
            app.auto_update_counter == 0,
            app.sort_column == 0,
            !app.sort_ascending,
            app.search_form.value@ == Seq::<char>::empty(),
            app.table_offset == 0,
            app.popup_table_offset == 0,
            app.popup_selected == 0,
            app.visible_rows == 0,
            app.selected == 0,
            app.active_popup == Popup::Closed,
    {
        let update_interval = config.update_interval;
        App {
            running: true,
            config,
            nodes: Vec::new(),
            selected_node: None,
            display_counters: CounterStore::new(),
            current_counters: CounterStore::new(),
            previous_counters: CounterStore::new(),
            baseline_counters: CounterStore::new(),
            pending_counter_update: false,
            last_counter_update: None,
            counter_mode: CounterMode::Whole,
            status: Status::Empty,
            tick: 0,
            auto_update: false,
            auto_update_interval: update_interval,
            auto_update_counter: 0,
            sort_column: 0,
            sort_ascending: false,
            search_form: SearchForm::new("Search"),
            node_details_form: NodeDetailsForm::new("Details"),
            table_offset: 0,
            popup_table_offset: 0,
            popup_selected: 0,
            visible_rows: 0,
            selected: 0,
            active_popup: Popup::Closed,
        }
    }

    /// Stops the event loop.
    pub fn quit(&mut self)
        ensures
            *final(self) == (App { running: false, ..*old(self) }),
    {
        self.running = false;
    }

    /// Records the rendered table's row capacity.
    pub fn set_visible_rows(&mut self, rows: usize)
        ensures
            *final(self) == (App { visible_rows: rows, ..*old(self) }),
    {
        self.visible_rows = rows;
    }

    /// How many rows the filter leaves.
    pub fn filtered_len(&self) -> (n: usize)
        ensures
            n == spec_app_filtered_len(*self),
    {
        crate::filter::count_matching(self.search_form.value.as_str(), &self.nodes)
    }

    /// Asks for a fabric discovery.
    pub fn discover_fabric(&mut self) -> (action: Action)
        ensures
            *final(self) == (App { status: Status::Discovering, ..*old(self) }),
            action is Discover,
    {
        self.status = Status::Discovering;
        Action::Discover
    }

    /// Cycles the sort column through none and the eight data columns.
    pub fn increment_sort_column(&mut self)
        requires
            old(self).wf(),
        ensures
            final(self).wf(),
            *final(self) == (App {
                sort_column: ((old(self).sort_column + 1) % (MAX_SORT_COLUMNS as int)) as i32,
                ..*old(self)
            }),
    {
        self.sort_column = (self.sort_column + 1) % MAX_SORT_COLUMNS;
    }

    /// Asks for a counter update, unless one is already pending or no
    /// nodes are known; while one is pending no new request goes out.
    pub fn update_counters(&mut self) -> (action: Action)
        requires
            old(self).wf(),
        ensures
            final(self).wf(),
            old(self).pending_counter_update ==> *final(self) == (App {
                status: Status::CountersPending,
                ..*old(self)
            }) && action is Idle,
            !old(self).pending_counter_update && old(self).nodes@.len() == 0 ==> *final(self)
                == (App { status: Status::NoNodes, ..*old(self) }) && action is Idle,
            !old(self).pending_counter_update && old(self).nodes@.len() > 0 ==> *final(self)
                == (App {
                status: update_status(*old(self)),
                pending_counter_update: true,
                ..*old(self)
            }) && action_is_counters(action, update_targets(*old(self))),
    {
        if self.pending_counter_update {
            self.status = Status::CountersPending;
            return Action::Idle;
        }
        if self.nodes.len() == 0 {
            self.status = Status::NoNodes;
            return Action::Idle;
        }
        self.status = Status::UpdatingCounters;
        self.pending_counter_update = true;

        let targets: Vec<LidPort> = if matches!(self.active_popup, Popup::Details) {
            match &self.selected_node {
                Some(row) => {
                    let guid = row.guid;
                    proof {
                        lemma_first_guid_idx_props(self.nodes@, guid);
                    }
                    match find_node_by_guid(&self.nodes, guid) {
                        Some(node) => {
                            self.status = Status::NodeLabel(node.node_description.clone());
                            node_targets(node)
                        },
                        None => aggregate_targets(&self.nodes),
                    }
                },
                None => aggregate_targets(&self.nodes),
            }
        } else {
            aggregate_targets(&self.nodes)
        };
        Action::Counters(targets)
    }

    /// Takes one counter reply: the samples rotate, and the display store
    /// is rebuilt from the new sample under the presentation mode.  The
    /// reply clears the pending flag.  The display holds exactly the new
    /// sample's targets, each with exactly its sample's counter names.
    pub fn handle_counters_update(&mut self, counters: CounterStore)
        requires
            old(self).wf(),
            counters.wf(),
        ensures
            final(self).wf(),
            *final(self) == (App {
                display_counters: final(self).display_counters,
                current_counters: final(self).current_counters,
                previous_counters: final(self).previous_counters,
                status: final(self).status,
                pending_counter_update: final(self).pending_counter_update,
                ..*old(self)
            }),
            final(self).previous_counters@ == old(self).current_counters@,
            final(self).current_counters@ == counters@,
            !final(self).pending_counter_update,
            match final(self).status {
                Status::CountersUpdated(n) => n == counters@.dom().len(),
                _ => false,
            },
            final(self).display_counters@.dom() =~= counters@.dom(),
            forall|k: LidPort| #[trigger] counters@.contains_key(k)
                ==> final(self).display_counters@[k] == crate::counters::spec_display_record(
                old(self).counter_mode,
                old(self).current_counters@,
                old(self).baseline_counters@,
                counters@,
                k,
            ),
            old(self).counter_mode is Whole ==> final(self).display_counters@ =~= counters@,
    {
        let prev = self.current_counters.duplicate();
        self.previous_counters = prev;
        self.current_counters = counters;
        let display = crate::counters::derive_display(
            &self.counter_mode,
            &self.previous_counters,
            &self.baseline_counters,
            &self.current_counters,
        );
        self.display_counters = display;
        let n = self.current_counters.len();
        self.status = Status::CountersUpdated(n);
        self.pending_counter_update = false;
    }

    /// Takes one discovery reply: the node list is replaced; when it is
    /// not empty the selection returns to the first row.
    pub fn handle_discovery_response(&mut self, nodes: Vec<Node>)
        requires
            old(self).wf(),
        ensures
            final(self).wf(),
            *final(self) == (App {
                nodes: final(self).nodes,
                status: final(self).status,
                selected: final(self).selected,
                selected_node: final(self).selected_node,
                ..*old(self)
            }),
            final(self).nodes == nodes,
            match final(self).status {
                Status::DiscoveryComplete(n) => n == nodes@.len(),
                _ => false,
            },
            nodes@.len() == 0 ==> final(self).selected == old(self).selected
                && final(self).selected_node == old(self).selected_node,
            nodes@.len() > 0 ==> final(self).selected == 0,
            nodes@.len() > 0 && spec_app_filtered_len(*final(self)) > 0 ==> (
            match final(self).selected_node {
                Some(row) => cached_row_ok(
                    row,
                    0,
                    final(self).search_form.value@,
                    final(self).nodes@,
                    final(self).display_counters@,
                    final(self).counter_mode,
                    final(self).sort_column,
                    final(self).sort_ascending,
                ),
                None => false,
            }),
    {
        let n = nodes.len();
        self.status = Status::DiscoveryComplete(n);
        self.nodes = nodes;
        if self.nodes.len() > 0 {
            self.selected = 0;
            self.set_selected_node_guid();
        }
    }

    /// Recomputes the cached selected row: the selection is clamped to
    /// the filtered rows and the row at the selection is cached, or
    /// cleared when the filter leaves nothing.
    pub fn set_selected_node_guid(&mut self)
        requires
            old(self).wf(),
        ensures
            final(self).wf(),
            *final(self) == (App {
                selected: final(self).selected,
                selected_node: final(self).selected_node,
                ..*old(self)
            }),
            spec_app_filtered_len(*old(self)) == 0 ==> final(self).selected == 0
                && final(self).selected_node is None,
            spec_app_filtered_len(*old(self)) > 0 ==> final(self).selected as int == (
            if old(self).selected < spec_app_filtered_len(*old(self)) {
                old(self).selected as int
            } else {
                spec_app_filtered_len(*old(self)) - 1
            }) && (match final(self).selected_node {
                Some(row) => cached_row_ok(
                    row,
                    final(self).selected as int,
                    old(self).search_form.value@,
                    old(self).nodes@,
                    old(self).display_counters@,
                    old(self).counter_mode,
                    old(self).sort_column,
                    old(self).sort_ascending,
                ),
                None => false,
            }),
    {
        let mut rows = build_rows(
            self.search_form.value.as_str(),
            &self.nodes,
            &self.display_counters,
            &self.counter_mode,
            self.sort_column,
            self.sort_ascending,
        );
        let ghost rows_view = rows@;
        if rows.len() == 0 {
            self.selected = 0;
            self.selected_node = None;
        } else {
            if self.selected >= rows.len() {
                self.selected = rows.len() - 1;
            }
            let row = rows.remove(self.selected);
            self.selected_node = Some(row);
            proof {
                assert(sorted_projection(
                    rows_view,
                    old(self).search_form.value@,
                    old(self).nodes@,
                    old(self).display_counters@,
                    old(self).counter_mode,
                    old(self).sort_column,
                    old(self).sort_ascending,
                ) && 0 <= self.selected < rows_view.len() && row == rows_view[
                    self.selected as int
                ]);
            }
        }
    }

    /// Clamps the table offset so the selected row stays visible.
    pub fn ensure_selected_visible(&mut self)
        requires
            old(self).wf(),
        ensures
            final(self).wf(),
            *final(self) == (App { table_offset: final(self).table_offset, ..*old(self) }),
            final(self).table_offset as int == spec_adjusted_offset(*old(self)),
    {
        let vis: usize = if self.visible_rows > 0 {
            self.visible_rows
        } else {
            1
        };
        let len = self.filtered_len();
        let max_offset: usize = if len >= vis {
            len - vis
        } else {
            0
        };
        if self.selected < self.table_offset {
            self.table_offset = if self.selected < max_offset {
                self.selected
            } else {
                max_offset
            };
        } else if self.selected - self.table_offset >= vis {
            let new_offset = self.selected - (vis - 1);
            self.table_offset = if new_offset < max_offset {
                new_offset
            } else {
                max_offset
            };
        } else {
            if self.table_offset > max_offset {
                self.table_offset = max_offset;
            }
        }
    }
}

/// The table offset after clamping: moved up to a selection above the
/// window, down to one below it, and never past the last full window.
pub open spec fn spec_adjusted_offset(app: App) -> int {
    let vis = if app.visible_rows > 0 {
        app.visible_rows as int
    } else {
        1
    };
    let len = spec_app_filtered_len(app);
    let max_offset = if len >= vis {
        len - vis
    } else {
        0
    };
    if app.selected < app.table_offset {
        if app.selected < max_offset {
            app.selected as int
        } else {
            max_offset
        }
    } else if app.selected >= app.table_offset + vis {
        let moved = app.selected + 1 - vis;
        if moved < max_offset {
            moved
        } else {
            max_offset
        }
    } else {
        if app.table_offset < max_offset {
            app.table_offset as int
        } else {
            max_offset
        }
    }
}

/// Law: after the clamp, a selection inside the filtered rows lies in
/// the visible window.
pub proof fn lemma_adjusted_offset_window(app: App)
    requires
        app.selected < spec_app_filtered_len(app),
    ensures
        ({
            let vis = if app.visible_rows > 0 {
                app.visible_rows as int
            } else {
                1
            };
            spec_adjusted_offset(app) <= app.selected < spec_adjusted_offset(app) + vis
        }),
{
}


/// Where a navigation key moves the selection, before clamping: one or a
/// page up or down, or to either end of the filtered rows.
pub open spec fn spec_nav_selected(key: Key, sel: int, len: int, vis: int) -> int {
    let maxi = if len > 0 {
        len - 1
    } else {
        0
    };
    if key == Key::Down {
        if sel + 1 < maxi {
            sel + 1
        } else {
            maxi
        }
    } else if key == Key::Up {
        if sel > 0 {
            sel - 1
        } else {
            0
        }
    } else if key == Key::PageDown {
        if sel + vis < maxi {
            sel + vis
        } else {
            maxi
        }
    } else if key == Key::PageUp {
        if sel - vis > 0 {
            sel - vis
        } else {
            0
        }
    } else if key == Key::Home {
        0
    } else if key == Key::End {
        maxi
    } else {
        sel
    }
}

/// The selection clamped to the filtered rows.
pub open spec fn spec_clamped_sel(sel: int, len: int) -> int {
    if len == 0 {
        0
    } else if sel < len {
        sel
    } else {
        len - 1
    }
}

impl App {
    /// Advances the cyclic tick; on each wrap the auto-update counter
    /// grows, and when auto-update is on, nothing is pending, and the
    /// counter has reached the interval, a counter request goes out and
    /// the counter resets.  While an update is pending no request is
    /// issued.
    pub fn on_tick(&mut self) -> (action: Action)
        requires
            old(self).wf(),
        ensures
            final(self).wf(),
            *final(self) == (App {
                tick: final(self).tick,
                auto_update_counter: final(self).auto_update_counter,
                status: final(self).status,
                pending_counter_update: final(self).pending_counter_update,
                ..*old(self)
            }),
            final(self).tick as int == (old(self).tick + 1) % (TICK_RESET_INTERVAL as int),
            old(self).pending_counter_update ==> action is Idle
                && final(self).pending_counter_update,
            action is Counters ==> final(self).pending_counter_update,
            ({
                let c1: int = if (old(self).tick + 1) % (TICK_RESET_INTERVAL as int) == 0 {
                    if old(self).auto_update_counter < usize::MAX {
                        old(self).auto_update_counter + 1
                    } else {
                        usize::MAX as int
                    }
                } else {
                    old(self).auto_update_counter as int
                };
                let fire = old(self).auto_update && !old(self).pending_counter_update && c1
                    >= old(self).auto_update_interval;
                &&& (!fire ==> final(self).auto_update_counter == c1 && final(self).status
                    == old(self).status && final(self).pending_counter_update == old(self).pending_counter_update && action is Idle)
                &&& (fire && old(self).nodes@.len() == 0 ==> final(self).auto_update_counter
                    == 0 && final(self).status == old(self).status && final(self).pending_counter_update == old(self).pending_counter_update
                    && action is Idle)
                &&& (fire && old(self).nodes@.len() > 0 ==> final(self).auto_update_counter
                    == 0 && final(self).pending_counter_update && action_is_counters(
                    action,
                    update_targets(*old(self)),
                ) && final(self).status == update_status(*old(self)))
            }),
    {
        self.tick = (self.tick + 1) % TICK_RESET_INTERVAL;
        if self.tick == 0 {
            if self.auto_update_counter < usize::MAX {
                self.auto_update_counter = self.auto_update_counter + 1;
            }
        }
        if self.auto_update && !self.pending_counter_update && self.auto_update_counter
            >= self.auto_update_interval {
            let action = if self.nodes.len() > 0 {
                self.status = Status::UpdatingCounters;
                self.update_counters()
            } else {
                Action::Idle
            };
            self.auto_update_counter = 0;
            action
        } else {
            Action::Idle
        }
    }

    /// Dispatches one key press.  From the main view: quit, discovery and
    /// counter requests, mode and sort changes, navigation, and opening
    /// the popups; within a popup: closing it, editing the filter, or
    /// scrolling the port list.
    #[verifier::rlimit(100)]
    pub fn handle_key_event(&mut self, key: Key) -> (action: Action)
        requires
            old(self).wf(),
        ensures
            final(self).wf(),
            // backpressure: while a counter update is pending no key
            // issues a new counter request, and a request raises the flag
            old(self).pending_counter_update ==> !(action is Counters),
            action is Counters ==> final(self).pending_counter_update,
            // main view: quitting changes nothing else
            old(self).active_popup is Closed && is_quit_key(key) ==> *final(self) == *old(self)
                && action is Quit,
            // main view: discovery request
            old(self).active_popup is Closed && key == Key::Char('d') ==> *final(self) == (App {
                status: Status::Discovering,
                ..*old(self)
            }) && action is Discover,
            // counter request, from the main view or the details popup
            (old(self).active_popup is Closed || old(self).active_popup is Details) && key
                == Key::Char('u') ==> ({
                &&& old(self).nodes@.len() == 0 ==> *final(self) == (App {
                    status: Status::NoNodes,
                    ..*old(self)
                }) && action is Idle
                &&& old(self).nodes@.len() > 0 && old(self).pending_counter_update ==> *final(self) == (App { status: Status::CountersPending, ..*old(self) }) && action is Idle
                &&& old(self).nodes@.len() > 0 && !old(self).pending_counter_update ==> *final(self) == (App {
                    status: update_status(*old(self)),
                    pending_counter_update: true,
                    ..*old(self)
                }) && action_is_counters(action, update_targets(*old(self)))
            }),
            // toggles and modes from the main view
            old(self).active_popup is Closed && key == Key::Char('U') ==> *final(self) == (App {
                auto_update: !old(self).auto_update,
                ..*old(self)
            }) && action is Idle,
            old(self).active_popup is Closed && key == Key::Char('W') ==> *final(self) == (App {
                counter_mode: CounterMode::Whole,
                ..*old(self)
            }) && action is Idle,
            old(self).active_popup is Closed && key == Key::Char('D') ==> *final(self) == (App {
                counter_mode: CounterMode::Delta,
                ..*old(self)
            }) && action is Idle,
            // entering Baseline snapshots the current sample anew
            old(self).active_popup is Closed && key == Key::Char('B') ==> *final(self) == (App {
                baseline_counters: final(self).baseline_counters,
                counter_mode: CounterMode::Baseline,
                ..*old(self)
            }) && final(self).baseline_counters@ == old(self).current_counters@
                && action is Idle,
            old(self).active_popup is Closed && key == Key::Char('s') ==> *final(self) == (App {
                sort_column: ((old(self).sort_column + 1) % (MAX_SORT_COLUMNS as int)) as i32,
                ..*old(self)
            }) && action is Idle,
            old(self).active_popup is Closed && key == Key::Char('S') ==> *final(self) == (App {
                sort_ascending: !old(self).sort_ascending,
                ..*old(self)
            }) && action is Idle,
            // navigation: the selection stays inside the filtered rows
            // and the visible window
            old(self).active_popup is Closed && is_nav_key(key) && old(self).nodes@.len() > 0
                ==> ({
                let len = spec_app_filtered_len(*old(self));
                let vis: int = if old(self).visible_rows > 0 {
                    old(self).visible_rows as int
                } else {
                    1
                };
                &&& *final(self) == (App {
                    selected: final(self).selected,
                    selected_node: final(self).selected_node,
                    table_offset: final(self).table_offset,
                    ..*old(self)
                })
                &&& final(self).selected as int == spec_clamped_sel(
                    spec_nav_selected(key, old(self).selected as int, len, vis),
                    len,
                )
                &&& final(self).selected < (if len > 0 {
                    len
                } else {
                    1
                })
                &&& len > 0 ==> selected_visible(*final(self))
                &&& len > 0 ==> match final(self).selected_node {
                    Some(row) => cached_row_ok(
                        row,
                        final(self).selected as int,
                        old(self).search_form.value@,
                        old(self).nodes@,
                        old(self).display_counters@,
                        old(self).counter_mode,
                        old(self).sort_column,
                        old(self).sort_ascending,
                    ),
                    None => false,
                }
                &&& action is Idle
            }),
            old(self).active_popup is Closed && is_nav_key(key) && old(self).nodes@.len() == 0
                ==> *final(self) == *old(self) && action is Idle,
            // opening the details popup clears the sample history
            old(self).active_popup is Closed && key == Key::Enter ==> ({
                &&& *final(self) == (App {
                    display_counters: final(self).display_counters,
                    current_counters: final(self).current_counters,
                    previous_counters: final(self).previous_counters,
                    popup_table_offset: final(self).popup_table_offset,
                    popup_selected: final(self).popup_selected,
                    active_popup: final(self).active_popup,
                    selected: final(self).selected,
                    selected_node: final(self).selected_node,
                    ..*old(self)
                })
                &&& spec_app_filtered_len(*old(self)) > 0 ==> (match final(self).selected_node {
                    Some(row) => cached_row_ok(
                        row,
                        final(self).selected as int,
                        old(self).search_form.value@,
                        old(self).nodes@,
                        old(self).display_counters@,
                        old(self).counter_mode,
                        old(self).sort_column,
                        old(self).sort_ascending,
                    ),
                    None => false,
                }) && final(self).selected as int == (
                if old(self).selected < spec_app_filtered_len(*old(self)) {
                    old(self).selected as int
                } else {
                    spec_app_filtered_len(*old(self)) - 1
                }) && final(self).active_popup is Details && final(self).display_counters@
                    == Map::<LidPort, Map<Seq<char>, u64>>::empty() && final(self).current_counters@ == Map::<LidPort, Map<Seq<char>, u64>>::empty() && final(self).previous_counters@ == Map::<LidPort, Map<Seq<char>, u64>>::empty() && final(self).popup_table_offset == 0 && final(self).popup_selected == 0
                &&& spec_app_filtered_len(*old(self)) == 0 ==> final(self).active_popup
                    is Closed && final(self).selected_node is None
                &&& action is Idle
            }),
            old(self).active_popup is Closed && key == Key::Char('/') ==> *final(self) == (App {
                active_popup: Popup::Search,
                ..*old(self)
            }) && action is Idle,
            // search popup: closing returns to the first row
            old(self).active_popup is Search && (key == Key::Esc || key == Key::Enter) ==> ({
                &&& *final(self) == (App {
                    active_popup: Popup::Closed,
                    selected: final(self).selected,
                    selected_node: final(self).selected_node,
                    ..*old(self)
                })
                &&& old(self).nodes@.len() > 0 ==> final(self).selected == 0
                &&& old(self).nodes@.len() > 0 && spec_app_filtered_len(*final(self)) > 0 ==> (
                match final(self).selected_node {
                    Some(row) => cached_row_ok(
                        row,
                        0,
                        old(self).search_form.value@,
                        old(self).nodes@,
                        old(self).display_counters@,
                        old(self).counter_mode,
                        old(self).sort_column,
                        old(self).sort_ascending,
                    ),
                    None => false,
                })
                &&& old(self).nodes@.len() == 0 ==> final(self).selected == old(self).selected
                    && final(self).selected_node == old(self).selected_node
                &&& action is Idle
            }),
            // search popup: other keys edit the filter
            old(self).active_popup is Search && !(key == Key::Esc || key == Key::Enter) ==> ({
                &&& *final(self) == (App { search_form: final(self).search_form, ..*old(self) })
                &&& final(self).search_form.value@ == spec_edited(
                    old(self).search_form.value@,
                    key,
                )
                &&& final(self).search_form.label == old(self).search_form.label
                &&& action is Idle
            }),
            // details popup: closing
            old(self).active_popup is Details && (key == Key::Esc || key == Key::Enter)
                ==> *final(self) == (App { active_popup: Popup::Closed, ..*old(self) })
                && action is Idle,
            // details popup: scrolling the port list
            old(self).active_popup is Details && key == Key::Down ==> ({
                let dlen = old(self).display_counters@.dom().len();
                let vis: int = if old(self).visible_rows > 0 {
                    old(self).visible_rows as int
                } else {
                    1
                };
                let ps: int = if old(self).popup_selected + 1 < dlen {
                    old(self).popup_selected + 1
                } else {
                    if dlen > 0 {
                        dlen - 1
                    } else {
                        0
                    }
                };
                let max_off: int = if dlen >= vis {
                    dlen - vis
                } else {
                    0
                };
                let pto: int = if ps >= old(self).popup_table_offset + vis {
                    if old(self).popup_table_offset + 1 < max_off {
                        old(self).popup_table_offset + 1
                    } else {
                        max_off
                    }
                } else {
                    old(self).popup_table_offset as int
                };
                &&& dlen == 0 ==> *final(self) == *old(self)
                &&& dlen > 0 ==> *final(self) == (App {
                    popup_selected: final(self).popup_selected,
                    popup_table_offset: final(self).popup_table_offset,
                    ..*old(self)
                }) && final(self).popup_selected as int == ps && final(self).popup_table_offset as int == pto
                &&& action is Idle
            }),
            old(self).active_popup is Details && key == Key::Up ==> ({
                let dlen = old(self).display_counters@.dom().len();
                let ps: int = if old(self).popup_selected > 0 {
                    old(self).popup_selected - 1
                } else {
                    0
                };
                let pto: int = if ps < old(self).popup_table_offset {
                    if old(self).popup_table_offset > 0 {
                        old(self).popup_table_offset - 1
                    } else {
                        0
                    }
                } else {
                    old(self).popup_table_offset as int
                };
                &&& dlen == 0 ==> *final(self) == *old(self)
                &&& dlen > 0 ==> *final(self) == (App {
                    popup_selected: final(self).popup_selected,
                    popup_table_offset: final(self).popup_table_offset,
                    ..*old(self)
                }) && final(self).popup_selected as int == ps && final(self).popup_table_offset as int == pto
                &&& action is Idle
            }),
    {
        if !matches!(self.active_popup, Popup::Closed) {
            match self.active_popup {
                Popup::Closed => Action::Idle,
                Popup::Search => {
                    match key {
                        Key::Esc | Key::Enter => {
                            self.active_popup = Popup::Closed;
                            if self.nodes.len() > 0 {
                                self.selected = 0;
                                self.set_selected_node_guid();
                            }
                            Action::Idle
                        },
                        _ => {
                            self.search_form.on_key_press(key);
                            Action::Idle
                        },
                    }
                },
                Popup::Details => {
                    match key {
                        Key::Esc | Key::Enter => {
                            self.active_popup = Popup::Closed;
                            Action::Idle
                        },
                        Key::Down => {
                            if !self.display_counters.is_empty() {
                                let dlen = self.display_counters.len();
                                let max_idx = dlen - 1;
                                if self.popup_selected < max_idx {
                                    self.popup_selected = self.popup_selected + 1;
                                } else {
                                    self.popup_selected = max_idx;
                                }
                                let vis: usize = if self.visible_rows > 0 {
                                    self.visible_rows
                                } else {
                                    1
                                };
                                let max_offset: usize = if dlen >= vis {
                                    dlen - vis
                                } else {
                                    0
                                };
                                if self.popup_selected >= self.popup_table_offset
                                    && self.popup_selected - self.popup_table_offset >= vis {
                                    if self.popup_table_offset + 1 < max_offset {
                                        self.popup_table_offset = self.popup_table_offset + 1;
                                    } else {
                                        self.popup_table_offset = max_offset;
                                    }
                                }
                            }
                            Action::Idle
                        },
                        Key::Up => {
                            if !self.display_counters.is_empty() {
                                if self.popup_selected > 0 {
                                    self.popup_selected = self.popup_selected - 1;
                                }
                                if self.popup_selected < self.popup_table_offset {
                                    if self.popup_table_offset > 0 {
                                        self.popup_table_offset = self.popup_table_offset - 1;
                                    }
                                }
                            }
                            Action::Idle
                        },
                        Key::Char(c) => {
                            if c == 'u' {
                                if self.nodes.len() == 0 {
                                    self.status = Status::NoNodes;
                                    Action::Idle
                                } else {
                                    self.update_counters()
                                }
                            } else {
                                Action::Idle
                            }
                        },
                        _ => Action::Idle,
                    }
                },
            }
        } else {
            match key {
                Key::Esc | Key::CtrlC => Action::Quit,
                Key::Char(c) => {
                    if c == 'q' {
                        Action::Quit
                    } else if c == 'd' {
                        self.discover_fabric()
                    } else if c == 'u' {
                        if self.nodes.len() == 0 {
                            self.status = Status::NoNodes;
                            Action::Idle
                        } else {
                            self.update_counters()
                        }
                    } else if c == 'U' {
                        self.auto_update = !self.auto_update;
                        Action::Idle
                    } else if c == 'W' {
                        self.counter_mode = CounterMode::Whole;
                        Action::Idle
                    } else if c == 'D' {
                        self.counter_mode = CounterMode::Delta;
                        Action::Idle
                    } else if c == 'B' {
                        self.baseline_counters = self.current_counters.duplicate();
                        self.counter_mode = CounterMode::Baseline;
                        Action::Idle
                    } else if c == 's' {
                        self.increment_sort_column();
                        Action::Idle
                    } else if c == 'S' {
                        self.sort_ascending = !self.sort_ascending;
                        Action::Idle
                    } else if c == '/' {
                        self.active_popup = Popup::Search;
                        Action::Idle
                    } else {
                        Action::Idle
                    }
                },
                Key::Down | Key::Up | Key::PageDown | Key::PageUp | Key::Home | Key::End => {
                    if self.nodes.len() > 0 {
                        self.navigate(key);
                    }
                    Action::Idle
                },
                Key::Enter => {
                    self.set_selected_node_guid();
                    if self.selected_node.is_some() {
                        self.display_counters.clear();
                        self.current_counters.clear();
                        self.previous_counters.clear();
                        self.popup_table_offset = 0;
                        self.popup_selected = 0;
                        self.active_popup = Popup::Details;
                    } else {
                        self.active_popup = Popup::Closed;
                    }
                    Action::Idle
                },
                _ => Action::Idle,
            }
        }
    }

    /// Moves the selection by one navigation key, clamps it to the
    /// filtered rows, refreshes the cached row, and keeps it visible.
    #[verifier::rlimit(60)]
    fn navigate(&mut self, key: Key)
        requires
            old(self).wf(),
            is_nav_key(key),
        ensures
            final(self).wf(),
            *final(self) == (App {
                selected: final(self).selected,
                selected_node: final(self).selected_node,
                table_offset: final(self).table_offset,
                ..*old(self)
            }),
            ({
                let len = spec_app_filtered_len(*old(self));
                let vis: int = if old(self).visible_rows > 0 {
                    old(self).visible_rows as int
                } else {
                    1
                };
                &&& final(self).selected as int == spec_clamped_sel(
                    spec_nav_selected(key, old(self).selected as int, len, vis),
                    len,
                )
                &&& final(self).selected < (if len > 0 {
                    len
                } else {
                    1
                })
                &&& len > 0 ==> selected_visible(*final(self))
                &&& len > 0 ==> match final(self).selected_node {
                    Some(row) => cached_row_ok(
                        row,
                        final(self).selected as int,
                        old(self).search_form.value@,
                        old(self).nodes@,
                        old(self).display_counters@,
                        old(self).counter_mode,
                        old(self).sort_column,
                        old(self).sort_ascending,
                    ),
                    None => false,
                }
            }),
    {
        let len = self.filtered_len();
        let max_idx: usize = if len > 0 {
            len - 1
        } else {
            0
        };
        let vis: usize = if self.visible_rows > 0 {
            self.visible_rows
        } else {
            1
        };
        match key {
            Key::Down => {
                self.selected = if self.selected < max_idx {
                    self.selected + 1
                } else {
                    max_idx
                };
            },
            Key::Up => {
                if self.selected > 0 {
                    self.selected = self.selected - 1;
                }
            },
            Key::PageDown => {
                self.selected = if self.selected < max_idx && max_idx - self.selected > vis {
                    self.selected + vis
                } else {
                    max_idx
                };
            },
            Key::PageUp => {
                self.selected = if self.selected > vis {
                    self.selected - vis
                } else {
                    0
                };
            },
            Key::Home => {
                self.selected = 0;
            },
            Key::End => {
                self.selected = max_idx;
            },
            _ => {},
        }
        self.set_selected_node_guid();
        self.ensure_selected_visible();
        proof {
            if spec_app_filtered_len(*old(self)) > 0 {
                lemma_adjusted_offset_window(
                    App {
                        selected: final(self).selected,
                        selected_node: final(self).selected_node,
                        ..*old(self)
                    },
                );
            }
        }
    }
}


impl App {
    /// Consumes one event and hands back what the front end must do.
    /// While a counter update is pending no new counter request is
    /// issued; exactly one counter reply (success or error) clears the
    /// pending flag.
    pub fn handle_event(&mut self, event: Event) -> (action: Action)
        requires
            old(self).wf(),
            match event {
                Event::Counters(CounterEvent::Response(counters)) => counters.wf(),
                _ => true,
            },
        ensures
            final(self).wf(),
            old(self).pending_counter_update ==> !(action is Counters),
            action is Counters ==> final(self).pending_counter_update,
            match event {
                Event::Tick => final(self).tick as int == (old(self).tick + 1) % (
                TICK_RESET_INTERVAL as int),
                Event::Key(_) => true,
                Event::App(ae) => match ae {
                    AppEvent::Quit => *final(self) == (App { running: false, ..*old(self) })
                        && action is Idle,
                    _ => *final(self) == *old(self) && action is Idle,
                },
                Event::Discover(de) => match de {
                    DiscoveryEvent::Response(nodes) => {
                        &&& *final(self) == (App {
                            nodes: final(self).nodes,
                            status: final(self).status,
                            selected: final(self).selected,
                            selected_node: final(self).selected_node,
                            ..*old(self)
                        })
                        &&& final(self).nodes == nodes
                        &&& match final(self).status {
                            Status::DiscoveryComplete(n) => n == nodes@.len(),
                            _ => false,
                        }
                        &&& nodes@.len() > 0 ==> final(self).selected == 0
                        &&& nodes@.len() > 0 && spec_app_filtered_len(*final(self)) > 0 ==> (
                        match final(self).selected_node {
                            Some(row) => cached_row_ok(
                                row,
                                0,
                                final(self).search_form.value@,
                                final(self).nodes@,
                                final(self).display_counters@,
                                final(self).counter_mode,
                                final(self).sort_column,
                                final(self).sort_ascending,
                            ),
                            None => false,
                        })
                        &&& action is Idle
                    },
                    DiscoveryEvent::Error => *final(self) == (App {
                        status: Status::DiscoveryFailed,
                        ..*old(self)
                    }) && action is Idle,
                    DiscoveryEvent::Exit => *final(self) == *old(self) && action is Idle,
                    DiscoveryEvent::Request => *final(self) == (App {
                        status: Status::UnknownDiscoveryEvent,
                        ..*old(self)
                    }) && action is Idle,
                },
                Event::Counters(ce) => match ce {
                    CounterEvent::Response(counters) => {
                        &&& final(self).previous_counters@ == old(self).current_counters@
                        &&& final(self).current_counters@ == counters@
                        &&& !final(self).pending_counter_update
                        &&& final(self).last_counter_update is Some
                        &&& final(self).display_counters@.dom() =~= counters@.dom()
                        &&& forall|k: LidPort| #[trigger] counters@.contains_key(k) ==> final(self).display_counters@[k] == crate::counters::spec_display_record(
                            old(self).counter_mode,
                            old(self).current_counters@,
                            old(self).baseline_counters@,
                            counters@,
                            k,
                        )
                        &&& action is Idle
                    },
                    CounterEvent::Error => *final(self) == (App {
                        status: Status::CounterUpdateFailed,
                        pending_counter_update: false,
                        ..*old(self)
                    }) && action is Idle,
                    CounterEvent::Exit => *final(self) == *old(self) && action is Idle,
                    CounterEvent::Request(_) => *final(self) == (App {
                        status: Status::UnknownCounterEvent,
                        ..*old(self)
                    }) && action is Idle,
                },
            },
    {
        match event {
            Event::Tick => self.on_tick(),
            Event::Key(k) => self.handle_key_event(k),
            Event::App(ae) => {
                if matches!(ae, AppEvent::Quit) {
                    self.quit();
                }
                Action::Idle
            },
            Event::Discover(de) => {
                match de {
                    DiscoveryEvent::Response(nodes) => {
                        self.handle_discovery_response(nodes);
                    },
                    DiscoveryEvent::Error => {
                        self.status = Status::DiscoveryFailed;
                    },
                    DiscoveryEvent::Exit => {},
                    DiscoveryEvent::Request => {
                        self.status = Status::UnknownDiscoveryEvent;
                    },
                }
                Action::Idle
            },
            Event::Counters(ce) => {
                match ce {
                    CounterEvent::Response(counters) => {
                        self.handle_counters_update(counters);
                        self.last_counter_update = Some(utc_now_nanos());
                    },
                    CounterEvent::Error => {
                        self.status = Status::CounterUpdateFailed;
                        self.pending_counter_update = false;
                    },
                    CounterEvent::Exit => {},
                    CounterEvent::Request(_) => {
                        self.status = Status::UnknownCounterEvent;
                    },
                }
                Action::Idle
            },
        }
    }
}

impl App {
    /// The marker printed beside a column header: an up arrow when the
    /// table sorts by that column ascending, a down arrow descending,
    /// nothing otherwise.
    pub fn get_sort_indicator(&self, col_idx: i32) -> (r: &'static str)
        ensures
            self.sort_column == col_idx && self.sort_ascending ==> r@ == "\u{25b2}"@,
            self.sort_column == col_idx && !self.sort_ascending ==> r@ == "\u{25bc}"@,
            self.sort_column != col_idx ==> r@ == ""@,
    {
        if self.sort_column == col_idx {
            if self.sort_ascending {
                "\u{25b2}"
            } else {
                "\u{25bc}"
            }
        } else {
            ""
        }
    }
}

} // verus!
