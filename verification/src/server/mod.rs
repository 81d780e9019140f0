pub mod pong_server;
pub mod server;
