//! Simulation of digital logic networks: a circuit graph of tri-state
//! signals wired through primitive gates, relocatable patterns captured from
//! sub-networks, and deterministic evaluation passes over the graph.

pub mod error;
pub mod signal;
pub mod node;
pub mod misc;
pub mod pattern;
pub mod circuit;
pub mod sequential;
pub mod combinational;
pub mod table;
pub mod gate;
pub mod repl;
pub mod component;
pub mod transparency;
