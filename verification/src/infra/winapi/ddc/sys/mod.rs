pub mod caps_parse;
pub mod error;
pub mod vcp;
