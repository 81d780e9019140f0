use crate::network::message::Message;
use vstd::prelude::*;

verus! {

/// What happens on a connection, as the game sees it.
#[derive(Debug, Clone, PartialEq)]
pub enum WsEvent {
    Opened,
    Message(Message),
    Error(String),
    Closed,
}

} // verus!
