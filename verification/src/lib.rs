pub mod cli;
pub mod platform;
pub mod registration;
pub mod text;
