use crate::event_stream::EventStream;
use crate::network::message::{ClientMessage, Message};
use crate::network::ws_event::WsEvent;
use crate::network::ws_server::{Frame, ReaderStep};
use vstd::prelude::*;

verus! {

/// The events of a client's connection right after it opened: just `Opened`.
pub fn opened_stream() -> (stream: EventStream<WsEvent>)
    ensures
        stream@ == seq![WsEvent::Opened],
{
    let mut stream = EventStream::new();
    stream.push(WsEvent::Opened);
    assert(stream@ =~= seq![WsEvent::Opened]);
    stream
}

/// What the client's reader does with one frame from the server: a message
/// is queued; a failure queues nothing and reading goes on; at the end of
/// the connection reading stops. (A frame that holds no message is refused
/// before it gets here.)
pub open spec fn client_reader_step(frame: Frame<Message>) -> (Seq<WsEvent>, bool) {
    match frame {
        Frame::Text(msg) => (seq![WsEvent::Message(msg)], true),
        Frame::Failed => (Seq::empty(), true),
        _ => (Seq::empty(), false),
    }
}

/// Handles one frame read from the connection to the server.
pub fn client_read(frame: Frame<Message>) -> (step: ReaderStep<WsEvent>)
    requires
        !(frame is Other),
    ensures
        (step.events@, step.keep_reading) == client_reader_step(frame),
{
    let mut events: Vec<WsEvent> = Vec::new();
    match frame {
        Frame::Text(msg) => {
            events.push(WsEvent::Message(msg));
            assert(events@ =~= seq![WsEvent::Message(msg)]);
            ReaderStep { events, keep_reading: true }
        },
        Frame::Failed => {
            assert(events@ =~= Seq::<WsEvent>::empty());
            ReaderStep { events, keep_reading: true }
        },
        _ => {
            assert(events@ =~= Seq::<WsEvent>::empty());
            ReaderStep { events, keep_reading: false }
        },
    }
}

/// The message that carries a request from the client.
pub fn client_message(msg: ClientMessage) -> (out: Message)
    ensures
        out == Message::ClientMessage(msg),
{
    Message::ClientMessage(msg)
}


/// The client's reader goes on reading after a message or a failure and
/// stops only at the end of the connection; it queues a message for each
/// message frame and nothing otherwise.
pub proof fn lemma_client_reader(frame: Frame<Message>)
    requires
        !(frame is Other),
    ensures
        client_reader_step(frame).1 <==> !(frame is End),
        frame matches Frame::Text(m) ==> client_reader_step(frame).0 == seq![WsEvent::Message(m)],
        !(frame is Text) ==> client_reader_step(frame).0.len() == 0,
{
}

} // verus!
