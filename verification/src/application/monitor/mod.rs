pub mod get_monitors;
