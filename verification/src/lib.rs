//! The decision core of a live-media fan-out proxy.
//!
//! One upstream fetch per channel feeds many downstream clients. This crate
//! holds the shared state (routing tables, account quotas, live channels) and
//! every decision taken on it: which upstream a channel connects to, when a
//! quota slot is taken or released, how the control plane reshapes the tables,
//! how received bytes are cut into chunks, and what a client session or an
//! upstream task does next. Each operation is specified over a mathematical
//! model of the state, [`machine::StateView`].

pub mod control;
pub mod laws;
pub mod machine;
pub mod models;
pub mod signal;
pub mod state;
pub mod status;
pub mod stream;
pub mod table;
pub mod upstream;
pub mod wire;
