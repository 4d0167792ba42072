pub mod fake_monitor_data;
