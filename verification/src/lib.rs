//! Core logic of a stream-notification chat bot.
//!
//! The bot tracks a fixed roster of creators partitioned into waves, lets
//! users subscribe to individual creators, and periodically matches upcoming
//! streams against the roster to notify every subscriber once per stream.
//! This crate holds the verified decision logic: the store model with its
//! invariants, the poll-match-notify cycle, the subscription menu rendering,
//! and the callback payload codec. Network transport, the relational store
//! itself, and process bootstrap live outside the crate and hand plain
//! values in and out.

pub mod config;
pub mod handlers;
pub mod markup;
pub mod notify;
pub mod payload;
pub mod queries;
pub mod reported_stream;
pub mod seq_util;
pub mod store;
pub mod text;
pub mod user;
pub mod video;
pub mod vtuber;
