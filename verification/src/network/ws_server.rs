use crate::event_stream::EventStream;
use crate::network::message::Message;
use crate::network::ws_event::WsEvent;
use vstd::prelude::*;

verus! {

/// A connected player as the game sees it: an id by which its connection is
/// found again, the name the server gave it, and the events that arrived on
/// its connection and were not handled yet.
pub struct WebsocketClient {
    pub id: u64,
    pub name: Option<String>,
    pub event_stream: EventStream<WsEvent>,
}

/// A connected player in specifications.
pub ghost struct ClientView {
    pub id: u64,
    pub name: Option<Seq<char>>,
    pub events: Seq<WsEvent>,
}

/// A name as a sequence of characters.
pub open spec fn name_view(name: Option<String>) -> Option<Seq<char>> {
    match name {
        Some(n) => Some(n@),
        None => None,
    }
}

impl View for WebsocketClient {
    type V = ClientView;

    open spec fn view(&self) -> ClientView {
        ClientView { id: self.id, name: name_view(self.name), events: self.event_stream@ }
    }
}

/// The name shown for a player: its name, or "N/A" when it has none.
pub open spec fn shown_name(name: Option<Seq<char>>) -> Seq<char> {
    match name {
        Some(n) => n,
        None => "N/A"@,
    }
}

impl WebsocketClient {
    /// A client that has just connected: no name, no events.
    pub fn new(id: u64) -> (client: WebsocketClient)
        ensures
            client@ == (ClientView { id, name: None, events: Seq::empty() }),
    {
        WebsocketClient { id, name: None, event_stream: EventStream::new() }
    }

    /// The name shown for this player.
    pub fn shown_name(&self) -> (name: String)
        ensures
            name@ == shown_name(self@.name),
    {
        match &self.name {
            Some(n) => n.clone(),
            None => "N/A".to_owned(),
        }
    }
}

/// What arrives on a connection's read side, with the text frames' content
/// read as `M`.
pub enum Frame<M> {
    /// A text frame that holds a message.
    Text(M),
    /// Any other frame (binary, ping, pong, close, or text that is no message).
    Other,
    /// The connection failed.
    Failed,
    /// The connection has nothing more to read.
    End,
}

/// What the reader of a connection does with one frame: the events it queues
/// for the game, in order, and whether it goes on reading.
pub struct ReaderStep<E> {
    pub events: Vec<E>,
    pub keep_reading: bool,
}

/// The events that reading `frame` queues, and whether reading goes on: a
/// message is queued and reading goes on; a failure queues `Closed` and ends
/// the loop, after which `Closed` is queued once more; any other frame, or the
/// end of the connection, ends the loop, after which `Closed` is queued.
pub open spec fn reader_step(frame: Frame<Message>) -> (Seq<WsEvent>, bool) {
    match frame {
        Frame::Text(msg) => (seq![WsEvent::Message(msg)], true),
        Frame::Other => (seq![WsEvent::Closed], false),
        Frame::Failed => (seq![WsEvent::Closed, WsEvent::Closed], false),
        Frame::End => (seq![WsEvent::Closed], false),
    }
}

/// Handles one frame read from a player's connection.
pub fn read_frame(frame: Frame<Message>) -> (step: ReaderStep<WsEvent>)
    ensures
        (step.events@, step.keep_reading) == reader_step(frame),
{
    let mut events: Vec<WsEvent> = Vec::new();
    match frame {
        Frame::Text(msg) => {
            events.push(WsEvent::Message(msg));
            assert(events@ =~= seq![WsEvent::Message(msg)]);
            ReaderStep { events, keep_reading: true }
        },
        Frame::Other => {
            events.push(WsEvent::Closed);
            assert(events@ =~= seq![WsEvent::Closed]);
            ReaderStep { events, keep_reading: false }
        },
        Frame::Failed => {
            events.push(WsEvent::Closed);
            events.push(WsEvent::Closed);
            assert(events@ =~= seq![WsEvent::Closed, WsEvent::Closed]);
            ReaderStep { events, keep_reading: false }
        },
        Frame::End => {
            events.push(WsEvent::Closed);
            assert(events@ =~= seq![WsEvent::Closed]);
            ReaderStep { events, keep_reading: false }
        },
    }
}

/// The listening side of the game server: whether it still accepts
/// connections, the players that connected and were not taken yet, and the
/// id that the next player gets.
pub struct WebsocketServer {
    running: bool,
    event_stream: EventStream<WebsocketClient>,
    next_id: u64,
}

/// The listening side in specifications.
pub ghost struct WebsocketServerView {
    pub running: bool,
    pub pending: Seq<ClientView>,
    pub next_id: nat,
}

impl View for WebsocketServer {
    type V = WebsocketServerView;

    closed spec fn view(&self) -> WebsocketServerView {
        WebsocketServerView {
            running: self.running,
            pending: self.event_stream@.map_values(|c: WebsocketClient| c@),
            next_id: self.next_id as nat,
        }
    }
}

impl WebsocketServerView {
    /// Every player waiting to be taken has an id below the next one, and the
    /// ids of waiting players increase from the oldest to the newest.
    pub open spec fn wf(self) -> bool {
        &&& forall|i: int| 0 <= i < self.pending.len() ==> #[trigger] self.pending[i].id < self.next_id
        &&& forall|i: int, j: int|
            0 <= i < j < self.pending.len() ==> #[trigger] self.pending[i].id
                < #[trigger] self.pending[j].id
    }
}

impl WebsocketServer {
    /// A server that accepts connections and has no waiting players.
    pub fn new() -> (server: WebsocketServer)
        ensures
            server@.running,
            server@.pending == Seq::<ClientView>::empty(),
            server@.next_id == 0,
            server@.wf(),
    {
        let server = WebsocketServer { running: true, event_stream: EventStream::new(), next_id: 0 };
        assert(server@.pending =~= Seq::<ClientView>::empty());
        server
    }

    /// Whether connections are still accepted.
    pub fn is_running(&self) -> (running: bool)
        ensures
            running == self@.running,
    {
        self.running
    }

    /// Stops accepting connections; the waiting players stay.
    pub fn close(&mut self)
        ensures
            final(self)@ == (WebsocketServerView { running: false, ..old(self)@ }),
    {
        self.running = false;
    }

    /// Registers a new connection. While the server accepts connections and
    /// ids are left, the player gets the next id and waits to be taken;
    /// otherwise nothing changes and `None` is returned.
    pub fn connect(&mut self) -> (id: Option<u64>)
        requires
            old(self)@.wf(),
        ensures
            final(self)@.wf(),
            old(self)@.running && old(self)@.next_id < u64::MAX ==> {
                &&& id == Some(old(self)@.next_id as u64)
                &&& final(self)@ == (WebsocketServerView {
                    pending: old(self)@.pending.push(
                        ClientView { id: old(self)@.next_id as u64, name: None, events: Seq::empty() },
                    ),
                    next_id: old(self)@.next_id + 1,
                    ..old(self)@
                })
            },
            !(old(self)@.running && old(self)@.next_id < u64::MAX) ==> {
                &&& id is None
                &&& final(self)@ == old(self)@
            },
    {
        if self.running && self.next_id < u64::MAX {
            let id = self.next_id;
            let ghost before = self.event_stream@;
            let client = WebsocketClient::new(id);
            self.event_stream.push(client);
            self.next_id = id + 1;
            assert(self.event_stream@ == before.push(client));
            assert(self@.pending =~= old(self)@.pending.push(client@));
            Some(id)
        } else {
            None
        }
    }

    /// Takes the player that has waited longest, if any.
    pub fn next_client(&mut self) -> (client: Option<WebsocketClient>)
        requires
            old(self)@.wf(),
        ensures
            final(self)@.wf(),
            final(self)@.running == old(self)@.running,
            final(self)@.next_id == old(self)@.next_id,
            old(self)@.pending.len() == 0 ==> client is None && final(self)@ == old(self)@,
            old(self)@.pending.len() > 0 ==> {
                &&& client is Some
                &&& client.unwrap()@ == old(self)@.pending[0]
                &&& final(self)@.pending == old(self)@.pending.drop_first()
            },
    {
        let ghost before = self.event_stream@;
        let client = self.event_stream.next();
        proof {
            if before.len() > 0 {
                assert(self.event_stream@ == before.drop_first());
                assert(self@.pending =~= old(self)@.pending.drop_first());
            } else {
                assert(self@.pending =~= old(self)@.pending);
            }
        }
        client
    }
}

/// Ids that the server hands out are never handed out twice: of two players
/// waiting at once, the one that connected first has the smaller id.
pub proof fn lemma_ids_unique(server: WebsocketServerView, i: int, j: int)
    requires
        server.wf(),
        0 <= i < server.pending.len(),
        0 <= j < server.pending.len(),
        i != j,
    ensures
        server.pending[i].id != server.pending[j].id,
{
    if i < j {
        assert(server.pending[i].id < server.pending[j].id);
    } else {
        assert(server.pending[j].id < server.pending[i].id);
    }
}


/// Reading a message keeps a player's reader reading; a failure, another
/// frame or the end of the connection stops it, and then only `Closed` is
/// queued, at least once. A message queues exactly that message.
pub proof fn lemma_reader(frame: Frame<Message>)
    ensures
        reader_step(frame).1 <==> frame is Text,
        frame matches Frame::Text(m) ==> reader_step(frame).0 == seq![WsEvent::Message(m)],
        !(frame is Text) ==> reader_step(frame).0.len() >= 1 && forall|i: int|
            0 <= i < reader_step(frame).0.len() ==> #[trigger] reader_step(frame).0[i]
                == WsEvent::Closed,
{
}


/// A failed connection queues `Closed` twice (once when the failure is read,
/// once when reading ends); any other frame or the end queues it once.
pub proof fn lemma_reader_closes(frame: Frame<Message>)
    ensures
        frame is Failed ==> reader_step(frame).0.len() == 2,
        (frame is Other || frame is End) ==> reader_step(frame).0.len() == 1,
{
}

} // verus!
