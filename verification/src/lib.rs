//! Verified core of the Thunder edge-function runtime: metrics bookkeeping,
//! outbound connection leasing, routing and naming rules, and the decision
//! logic of the command-line front end.

pub mod bundle;
pub mod check;
pub mod connection_manager;
pub mod embedded_assert;
pub mod handler;
pub mod lifecycle;
pub mod memory;
pub mod metrics;
pub mod registry;
pub mod snapshot;
pub mod start;
pub mod telemetry;
pub mod tenant_table;
pub mod text;
pub mod types;
pub mod watch;
