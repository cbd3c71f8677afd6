//! A deterministic, fixed-point network simulation core: typed nodes, a random
//! topology of connections, named condition scenarios, per-tick condition
//! evolution, protocol adaptation and before/after metrics aggregation.
//!
//! Every metric is a fixed-point integer: `fixed::SCALE` units make one whole
//! unit (one millisecond, one Kbps, a packet-loss fraction of one, one percent).

pub mod credentials;
pub mod fixed;
pub mod normalize;
pub mod nodes;
pub mod rng;
pub mod scenarios;
pub mod stats;
pub mod metrics;
pub mod network;
pub mod visualizer;
pub mod simulator;
pub mod interfaces;
pub mod adaptor;
