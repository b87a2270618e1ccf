pub mod chars;
pub mod decimal;
pub mod escape;
pub mod folding;
pub mod line;
pub mod time;
pub mod snowflake;
pub mod ical;
pub mod discord;
