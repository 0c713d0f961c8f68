pub mod controller;
pub mod io;
pub mod message;
pub mod worker;
