//! Checkpoint tracking for groups moving through an ordered course of posts:
//! the arrival/departure state machine of a scan, the durations derived from
//! scans, and the leaderboard built from those durations.
pub mod auth;
pub mod model;
pub mod routes;
pub mod stats;
