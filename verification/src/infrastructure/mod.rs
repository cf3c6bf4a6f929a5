pub mod config;
pub mod repository;
