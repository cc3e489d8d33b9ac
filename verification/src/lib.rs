pub mod command;
pub mod config;
pub mod document;
pub mod projects;
