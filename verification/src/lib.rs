//! Monitor discovery for a desktop display-control tool: the rules that turn
//! what the platform reports about attached monitors (DDC/CI physical
//! monitors and EDID blocks) into the monitor list that the user interface
//! shows, together with the parsers for DDC/CI capability strings and EDID
//! base blocks.

pub mod adapter;
pub mod application;
pub mod assoc;
pub mod bootstrap;
pub mod infra;
pub mod text;
