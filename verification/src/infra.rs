pub mod redb;
