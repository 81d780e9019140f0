pub mod message;
pub mod ws_client;
pub mod ws_event;
pub mod ws_server;
