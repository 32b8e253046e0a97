//! Live transit feed fusion.
//!
//! - `schedule`: the immutable schedule index, loaded from a ZIP of CSV
//!   tables (`csv_table`, with the entity readers in `route`, `stop`,
//!   `trip`, `shape` and `stop_time`), with each trip's stops and each
//!   stop's trips joined from the stop times.
//! - `feed` and `vehicle`: decoded realtime feeds, the cache that publishes
//!   only newer ones, and the vehicles they describe.
//! - `fusion`: the active stops of a feed against a schedule, and the two
//!   broadcast payloads.
//! - `hub`: the latest payloads, the coalescing transmission slot, the
//!   per-address connection counts and the ping interval.
//! - `freshness`: the schedule fetcher's conditional-request decisions.
//! - `negotiate`: the choice between JSON and CBOR from an `Accept` header.
//! - `versioned`, `timeframe`, `numeric`: the wire envelope, durations and
//!   decimal numbers.

pub mod csv_table;
pub mod feed;
pub mod freshness;
pub mod fusion;
pub mod hub;
pub mod negotiate;
pub mod numeric;
pub mod route;
pub mod schedule;
pub mod shape;
pub mod stop;
pub mod stop_time;
pub mod timeframe;
pub mod trip;
pub mod vehicle;
pub mod versioned;
