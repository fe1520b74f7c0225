//! A port-scanning core: port ranges, banner classification, probe outcomes,
//! result lines and the bookkeeping of a bounded-concurrency scan.
//!
//! Everything here is pure: sockets, clocks and files belong to the caller,
//! who feeds what it observed into these functions.

pub mod classify;
pub mod commands;
pub mod dispatch;
pub mod hostinfo;
pub mod inspect;
pub mod outcome;
pub mod ports;
pub mod report;
pub mod scheduler;
pub mod text;
