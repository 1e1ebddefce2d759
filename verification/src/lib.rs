//! Planning and bookkeeping for directory-based SQL schema migrations.
//!
//! A migration is a directory with `up.sql`, `down.sql` and `seed.sql`; the
//! database records what was applied in a tracking table. This crate compares
//! the two and says what to run to bring them into agreement. It touches
//! neither the disk nor a database: the caller reads both, and runs what it
//! is handed.
//!
//! - [`migration`], [`naming`], [`digest`]: the migration record, its
//!   compound name and its content hash.
//! - [`planner`], [`reconcile`], [`plan`], [`error`]: the status listing and
//!   the plans for `up`, `down`, `redo` and `fix`, with what each is defined
//!   to be.
//! - [`executor`], [`script`], [`marker`], [`db`], [`sql`]: what carrying
//!   out a plan asks of an adapter, and what an adapter runs, in which
//!   transactions.
//! - [`ledger`], [`effects`], [`laws`]: the tracking table as a value, and
//!   what is proved of plans and of their effect on it.
//! - [`commands`], [`connect`], [`dir`], [`dump`], [`render`], [`paint`],
//!   [`text`]: the commands and what they need around the planner.

pub mod commands;
pub mod connect;
pub mod db;
pub mod digest;
pub mod dir;
pub mod dump;
pub mod effects;
pub mod error;
pub mod executor;
pub mod laws;
pub mod ledger;
pub mod marker;
pub mod migration;
pub mod naming;
pub mod paint;
pub mod plan;
pub mod planner;
pub mod reconcile;
pub mod render;
pub mod script;
pub mod sql;
pub mod text;
