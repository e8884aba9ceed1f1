//! Broker for sandboxed execution domains ("jails").
//!
//! A privileged portal process accepts client requests over a local
//! rendezvous socket and arbitrates the creation of isolated execution
//! domains according to named profiles.  This crate holds the broker's
//! core: the wire codec for the typed protocol messages, the session
//! state machine governing one client connection, the command registry,
//! and the domain manager that serializes access to the domain table.
use vstd::prelude::*;

pub mod cmd;
pub mod codec;
pub mod config;
pub mod fsm_kage;
pub mod manager;
pub mod opts;
pub mod portal;
pub mod run;
pub mod util;

verus! {

/// Well-known filesystem path where the portal listens for clients.
pub const PORTAL_SOCKET_PATH: &'static str = "/tmp/stemjail-portal";

} // verus!
