pub mod address;
pub mod command;
pub mod number;
pub mod run;
pub mod text;
pub mod types;
