//! Game logic of a networked pong game: the event queues that connect the
//! network to the game, the wire messages, the server's lobby and match
//! state machine, and the client-side simulation.

pub mod event_stream;
pub mod geometry;
pub mod network;
pub mod paddle;
pub mod server;
pub mod simple_pong;
pub mod client_game_loop;
pub mod server_game_loop;
