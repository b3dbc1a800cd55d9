//! Events flowing between the front end, the services, and the coordinator.

use vstd::prelude::*;

use crate::counters::CounterStore;
use crate::model::{LidPort, Node};

verus! {

/// Which transport backend serves discovery and counter queries.
pub enum ServiceType {
    Ibmad,
    Test,
}

/// Messages exchanged with the discovery service.
pub enum DiscoveryEvent {
    /// Ask for one fabric discovery.
    Request,
    /// The discovered nodes.
    Response(Vec<Node>),
    /// Discovery could not run or failed.
    Error,
    /// Shut the service down.
    Exit,
}

/// Messages exchanged with the counter service.
pub enum CounterEvent {
    /// Ask for the counters of the given targets.
    Request(Vec<LidPort>),
    /// The counters that could be read, one record per reachable target.
    Response(CounterStore),
    /// The counter service could not run.
    Error,
    /// Shut the service down.
    Exit,
}

/// Requests the coordinator sends outward.
pub enum AppEvent {
    Discover(DiscoveryEvent),
    Counters(CounterEvent),
    Quit,
}

/// A keyboard key, as the coordinator sees it.
#[derive(Clone, Copy, PartialEq, Eq, Structural)]
pub enum Key {
    Char(char),
    CtrlC,
    Esc,
    Enter,
    Backspace,
    Up,
    Down,
    PageUp,
    PageDown,
    Home,
    End,
    Other,
}

/// One event consumed by the coordinator's loop.
pub enum Event {
    /// Periodic tick.
    Tick,
    /// A key press.
    Key(Key),
    /// An application-level request reflected back to the loop.
    App(AppEvent),
    /// A discovery service reply.
    Discover(DiscoveryEvent),
    /// A counter service reply.
    Counters(CounterEvent),
}

} // verus!
