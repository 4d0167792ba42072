pub mod common;
pub mod ddc;
pub mod edid;
