pub mod fake_monitor_data;
pub mod fake_port;
