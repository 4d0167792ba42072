pub mod fake_get_monitors_adapter;
pub mod get_monitors_adapter;
pub mod ports;
