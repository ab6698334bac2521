//! Tools for working with DDC/CI monitor capabilities: a verified parser for
//! the MCCS capabilities string a monitor returns, a symbolic model of VCP
//! feature codes and input-source values, a renderer that turns a parsed
//! document into a readable report, and a small profile store.

pub mod capabilities;
pub mod config;
pub mod digits;
pub mod render;
pub mod text;
pub mod vcp;
