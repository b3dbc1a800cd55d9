//! Core of an interactive InfiniBand fabric monitor: the node model produced
//! by discovery, counter stores with whole/delta/baseline presentation, the
//! event-driven application state, and the pure view-model projections that
//! a terminal front end renders.

pub mod app;
pub mod assoc;
pub mod counters;
pub mod events;
pub mod filter;
pub mod forms;
pub mod helpers;
pub mod metrics;
pub mod model;
pub mod scope;
pub mod services;
pub mod text;
pub mod topology;
pub mod view;
