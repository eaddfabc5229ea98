pub mod date;
pub mod range;
pub mod time;
