pub mod fake;
pub mod winapi;
