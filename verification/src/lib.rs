//! Core library for a resilient real-time messaging client.
//!
//! The heart of the crate is the per-channel connection state machine
//! ([`channel`]) together with the registry that routes operations to
//! channels by identifier ([`registry`]).  Around it stand the wire
//! codec for protocol frames ([`codec`]), the input validation rules
//! ([`validation`]), and the supporting data model ([`models`]).
//!
//! All network, disk and clock effects live outside this crate; the
//! library computes decisions, frames and state transitions from plain
//! values, and its contracts say exactly which.

pub mod auth;
pub mod channel;
pub mod codec;
pub mod crypto;
pub mod errors;
pub mod fanout;
pub mod files;
pub mod messaging;
pub mod models;
pub mod numfmt;
pub mod outside;
pub mod query_optimizer;
pub mod registry;
pub mod security;
pub mod storage;
pub mod strutil;
pub mod validation;
