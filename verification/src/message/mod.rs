pub mod binary;
pub mod client;
pub mod common;
pub mod proxy;
pub mod server;
pub mod ws;
