//! A request/response broker for the Majordomo Protocol v0.2, with the
//! registry of workers it routes to and the frames it exchanges with clients
//! and workers.

pub mod client;
pub mod data_structures;
pub mod errors;
pub mod frames;
pub mod handlers;
pub mod majordomo_context;
pub mod mmi_handler;
pub mod monitor;
pub mod registry;
pub mod text;
pub mod worker;
