pub mod domain;
pub mod infra;
pub mod storage;
pub mod handler;
pub mod config;
