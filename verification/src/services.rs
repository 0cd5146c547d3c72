pub mod trace;
pub mod users;
