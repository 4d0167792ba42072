pub mod error;
pub mod sys;
