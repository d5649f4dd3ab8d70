pub mod collector;
pub mod descriptor;
pub mod dispatch;
pub mod events;
pub mod rest;
pub mod server;
