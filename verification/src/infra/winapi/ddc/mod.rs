pub mod sys;
