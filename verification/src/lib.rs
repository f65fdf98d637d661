//! Core logic of a multi-cloud container control plane.
//!
//! The crate covers the four closed loops of the system: fleet
//! reconciliation against desired-state rules, container self-healing
//! with bounded retries, rollout execution (blue/green, linear,
//! exponential), and periodic health checking.  Everything that talks
//! to the network lives outside; this crate holds the decisions and
//! proves them.

pub mod builder;
pub mod errors;
pub mod healer;
pub mod health;
pub mod reconcile;
pub mod regions;
pub mod metrics;
pub mod models;
pub mod rollout;
pub mod rules;
pub mod stamp;
pub mod strutil;
pub mod volumes;
