//! Simulation engine for telemetry-producing devices.
//!
//! The engine is a set of pure state machines: every function maps a state
//! and an event to the next state and the effects that the surrounding
//! program has to perform. Timers, sockets and rendering live outside.

pub mod claims;
pub mod command;
pub mod config;
pub mod connection;
pub mod entries;
pub mod mqtt;
pub mod number;
pub mod payload;
pub mod publish;
pub mod sender;
pub mod settings;
pub mod simulator;
pub mod simulations;
pub mod string_map;
pub mod target;
pub mod text;
