//! LumeHub: a controller for addressable LED strips, driven over MQTT and
//! integrated with Home Assistant.
//!
//! The library holds the controller's logic: the store of zones, effects,
//! scenes and their layers; the routing of command topics and what each
//! command does; the light's running state; and what is published to the
//! broker and to Home Assistant.
use vstd::prelude::*;

pub mod builtin;
pub mod config;
pub mod discovery;
pub mod handlers;
pub mod model;
pub mod persistence;
pub mod publish;
pub mod runtime;
pub mod session;
pub mod store;
pub mod text;
pub mod topics;
pub mod types;

verus! {

} // verus!
