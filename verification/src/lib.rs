//! Pulsive: a reactive simulation engine with deterministic time, randomness,
//! hashing, partitioning and conflict handling, verified with Verus.
#![allow(unused_imports)]

pub mod identity;
pub mod text;
pub mod value;
pub mod entity;
pub mod actor;
pub mod msg;
pub mod time;
pub mod rng;
pub mod config;
pub mod hash;
pub mod expr;
pub mod evaluate;
pub mod effect;
pub mod write_set;
pub mod model;
pub mod commit;
pub mod input_buffer;
pub mod cores;
pub mod partition;
pub mod conflict;
pub mod error;
pub mod hub_error;
pub mod cmd;
pub mod runtime;
pub mod journal;
pub mod auditor;
pub mod journal_text;
pub mod journal_error;
pub mod replayer;
pub mod rollback;
pub mod collect;
pub mod execute;
pub mod dispatch;
pub mod journaled;
pub mod hub_core;
pub mod group;
pub mod tick_sync;
pub mod snapshot;
pub mod hub;
pub mod prediction;
pub mod reconciliation;
pub mod compare;
pub mod interpolation;
pub mod schema;
pub mod script_error;
pub mod loader;
pub mod transport;
pub mod storage;
