pub mod ddc;
pub mod edid;
