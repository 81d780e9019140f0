use crate::event_stream::EventStream;
use crate::network::ws_server::{Frame, ReaderStep};
use crate::simple_pong::{ContactCheck, SimplePong, SimplePongView};
use std::collections::VecDeque;
use vstd::prelude::*;

verus! {

/// What happens on a connection of the relay server, whose messages are
/// plain text.
#[derive(Debug, Clone, PartialEq)]
pub enum TextEvent {
    Opened,
    Message(String),
    Error(String),
    Closed,
}

/// The events that reading `frame` queues on a relay connection, and whether
/// reading goes on: a text is queued and reading goes on; a failure queues
/// `Closed` and ends the loop, after which `Closed` is queued once more; any
/// other frame, or the end of the connection, ends the loop, after which
/// `Closed` is queued.
pub open spec fn text_reader_step(frame: Frame<String>) -> (Seq<TextEvent>, bool) {
    match frame {
        Frame::Text(text) => (seq![TextEvent::Message(text)], true),
        Frame::Other => (seq![TextEvent::Closed], false),
        Frame::Failed => (seq![TextEvent::Closed, TextEvent::Closed], false),
        Frame::End => (seq![TextEvent::Closed], false),
    }
}

/// Handles one frame read from a relay connection.
pub fn read_text_frame(frame: Frame<String>) -> (step: ReaderStep<TextEvent>)
    ensures
        (step.events@, step.keep_reading) == text_reader_step(frame),
{
    let mut events: Vec<TextEvent> = Vec::new();
    match frame {
        Frame::Text(text) => {
            events.push(TextEvent::Message(text));
            assert(events@ =~= seq![TextEvent::Message(text)]);
            ReaderStep { events, keep_reading: true }
        },
        Frame::Failed => {
            events.push(TextEvent::Closed);
            events.push(TextEvent::Closed);
            assert(events@ =~= seq![TextEvent::Closed, TextEvent::Closed]);
            ReaderStep { events, keep_reading: false }
        },
        _ => {
            events.push(TextEvent::Closed);
            assert(events@ =~= seq![TextEvent::Closed]);
            ReaderStep { events, keep_reading: false }
        },
    }
}

/// A player of the relay server: the id of its connection and the events
/// that arrived on it and were not handled yet.
pub struct TextClient {
    pub id: u64,
    pub event_stream: EventStream<TextEvent>,
}

pub ghost struct TextClientView {
    pub id: u64,
    pub events: Seq<TextEvent>,
}

impl View for TextClient {
    type V = TextClientView;

    open spec fn view(&self) -> TextClientView {
        TextClientView { id: self.id, events: self.event_stream@ }
    }
}

/// The decimal digits of `n`, most significant first.
pub open spec fn decimal(n: nat) -> Seq<char>
    decreases n,
{
    if n < 10 {
        seq![(48 + n) as char]
    } else {
        decimal(n / 10).push((48 + n % 10) as char)
    }
}

/// A relayed message: the index of its sender, a space, then the text.
pub open spec fn tagged(index: nat, text: Seq<char>) -> Seq<char> {
    decimal(index) + seq![' '] + text
}

/// The text of the decimal digit `d`.
fn digit(d: usize) -> (text: &'static str)
    requires
        d < 10,
    ensures
        text@ == seq![(48 + d) as char],
{
    proof {
        reveal_strlit("0");
        reveal_strlit("1");
        reveal_strlit("2");
        reveal_strlit("3");
        reveal_strlit("4");
        reveal_strlit("5");
        reveal_strlit("6");
        reveal_strlit("7");
        reveal_strlit("8");
        reveal_strlit("9");
    }
    match d {
        0 => "0",
        1 => "1",
        2 => "2",
        3 => "3",
        4 => "4",
        5 => "5",
        6 => "6",
        7 => "7",
        8 => "8",
        _ => "9",
    }
}

/// Appends the decimal digits of `n` to `text`.
fn push_decimal(text: &mut String, n: usize)
    ensures
        final(text)@ == old(text)@ + decimal(n as nat),
    decreases n,
{
    if n >= 10 {
        push_decimal(text, n / 10);
    }
    text.append(digit(n % 10));
    proof {
        if n >= 10 {
            assert(decimal(n as nat) == decimal((n / 10) as nat).push((48 + n % 10) as char));
        } else {
            assert(n % 10 == n);
        }
    }
    assert(final(text)@ =~= old(text)@ + decimal(n as nat));
}

/// The relayed form of `text` sent by the player at `index`.
fn tag(index: usize, text: &str) -> (s: String)
    ensures
        s@ == tagged(index as nat, text@),
{
    let mut s = String::new();
    push_decimal(&mut s, index);
    proof {
        reveal_strlit(" ");
    }
    s.append(" ");
    s.append(text);
    assert(s@ =~= tagged(index as nat, text@));
    s
}

/// The relayed texts that the events of the player at `index` give, in
/// order: one per message.
pub open spec fn texts_in(index: nat, events: Seq<TextEvent>) -> Seq<Seq<char>>
    decreases events.len(),
{
    if events.len() == 0 {
        Seq::empty()
    } else {
        let before = texts_in(index, events.drop_last());
        match events.last() {
            TextEvent::Message(m) => before.push(tagged(index, m@)),
            _ => before,
        }
    }
}

/// The texts relayed in a round: those of the first player, then of the
/// second, and so on.
pub open spec fn round_texts(players: Seq<TextClientView>) -> Seq<Seq<char>>
    decreases players.len(),
{
    if players.len() == 0 {
        Seq::empty()
    } else {
        round_texts(players.drop_last()) + texts_in(
            (players.len() - 1) as nat,
            players.last().events,
        )
    }
}

/// Whether one of `events` says that the connection closed.
pub open spec fn has_closed(events: Seq<TextEvent>) -> bool {
    events.contains(TextEvent::Closed)
}

/// A player with all its events handled.
pub open spec fn drained(c: TextClientView) -> TextClientView {
    TextClientView { events: Seq::empty(), ..c }
}

/// A server that relays every text message to every player, tagged with the
/// index of its sender, and runs a simulation alongside.
pub struct RelayServer {
    players: VecDeque<TextClient>,
    simple_pong: SimplePong,
}

pub ghost struct RelayServerView {
    pub players: Seq<TextClientView>,
    pub pong: SimplePongView,
}

impl View for RelayServer {
    type V = RelayServerView;

    closed spec fn view(&self) -> RelayServerView {
        RelayServerView {
            players: self.players@.map_values(|c: TextClient| c@),
            pong: self.simple_pong@,
        }
    }
}

/// What a round hands to the network: every text to send to every
/// recipient, in order, and what the simulation needs tested.
pub struct RelayRound {
    pub messages: Vec<String>,
    pub recipients: Vec<u64>,
    pub contact: Option<ContactCheck>,
}

/// The players that stay after a round, in their order, with all their
/// events handled: exactly those whose events did not include that the
/// connection closed.
pub open spec fn survivors(players: Seq<TextClientView>) -> Seq<TextClientView>
    decreases players.len(),
{
    if players.len() == 0 {
        Seq::empty()
    } else {
        let kept = survivors(players.drop_last());
        if has_closed(players.last().events) {
            kept
        } else {
            kept.push(drained(players.last()))
        }
    }
}

impl RelayServerView {
    /// The players after a round: all events handled, and every player whose
    /// connection closed gone.
    pub open spec fn players_after_round(self) -> Seq<TextClientView> {
        survivors(self.players)
    }
}

impl RelayServer {
    pub fn new() -> (server: Self)
        ensures
            server@.players == Seq::<TextClientView>::empty(),
            server@.pong == crate::simple_pong::initial_simple_pong(),
            server@.pong.wf(),
    {
        let server = RelayServer { players: VecDeque::new(), simple_pong: SimplePong::new() };
        assert(server@.players =~= Seq::<TextClientView>::empty());
        server
    }

    /// A new connection joins as the last player.
    pub fn connect(&mut self, id: u64)
        ensures
            final(self)@ == (RelayServerView {
                players: old(self)@.players.push(TextClientView { id, events: Seq::empty() }),
                ..old(self)@
            }),
    {
        let ghost before = self.players@;
        let c = TextClient { id, event_stream: EventStream::new() };
        self.players.push_back(c);
        assert(self.players@ == before.push(c));
        assert(self@.players =~= old(self)@.players.push(c@));
    }

    /// Queues `event` for the first player with id `id`; returns whether
    /// there is one (if not, nothing changes).
    pub fn deliver(&mut self, id: u64, event: TextEvent) -> (found: bool)
        ensures
            found == exists|k: int|
                0 <= k < old(self)@.players.len() && #[trigger] old(self)@.players[k].id == id,
            !found ==> final(self)@ == old(self)@,
            found ==> exists|k: int|
                0 <= k < old(self)@.players.len() && old(self)@.players[k].id == id && (forall|j: int|
                    0 <= j < k ==> #[trigger] old(self)@.players[j].id != id) && final(self)@ == (
                RelayServerView {
                    players: old(self)@.players.update(
                        k,
                        TextClientView {
                            events: old(self)@.players[k].events.push(event),
                            ..old(self)@.players[k]
                        },
                    ),
                    ..old(self)@
                }),
    {
        let n = self.players.len();
        for i in 0..n
            invariant
                n == self.players@.len(),
                self@ == old(self)@,
                forall|j: int| 0 <= j < i ==> #[trigger] self@.players[j].id != id,
        {
            if self.players[i].id == id {
                let ghost before = self.players@;
                let mut c = self.players.remove(i).unwrap();
                let ghost cv = c@;
                c.event_stream.push(event);
                self.players.insert(i, c);
                proof {
                    assert(self.players@ == before.remove(i as int).insert(i as int, c));
                    assert(self@.players =~= old(self)@.players.update(
                        i as int,
                        TextClientView { events: cv.events.push(event), ..cv },
                    ));
                    assert(old(self)@.players[i as int].id == id);
                }
                return true;
            }
        }
        false
    }

    /// Hands the outcome of the contact test that `round` asked for to the
    /// simulation; see `SimplePong::resolve_contacts`.
    pub fn resolve_contacts(&mut self, hits_left: bool, hits_right: bool)
        ensures
            final(self)@ == (RelayServerView {
                pong: old(self)@.pong.contacts_resolved(hits_left, hits_right),
                ..old(self)@
            }),
            final(self)@.pong.wf(),
    {
        self.simple_pong.resolve_contacts(hits_left, hits_right);
    }

    /// Handles every event of one player: returns the tagged texts of its
    /// messages, and whether one of its events said that the connection
    /// closed.
    fn drain_player(client: &mut TextClient, index: usize) -> (out: (Vec<String>, bool))
        ensures
            final(client)@ == drained(old(client)@),
            out.0@.map_values(|s: String| s@) == texts_in(index as nat, old(client)@.events),
            out.1 == has_closed(old(client)@.events),
    {
        let ghost events = client.event_stream@;
        let mut texts: Vec<String> = Vec::new();
        let mut closed = false;
        let ghost mut k: int = 0;
        assert(events.take(0) =~= Seq::<TextEvent>::empty());
        assert(texts@.map_values(|s: String| s@) =~= Seq::<Seq<char>>::empty());
        loop
            invariant_except_break
                0 <= k <= events.len(),
                client.event_stream@ == events.skip(k),
                client.id == old(client).id,
                texts@.map_values(|s: String| s@) == texts_in(index as nat, events.take(k)),
                closed == has_closed(events.take(k)),
            ensures
                client.event_stream@ == Seq::<TextEvent>::empty(),
                client.id == old(client).id,
                texts@.map_values(|s: String| s@) == texts_in(index as nat, events),
                closed == has_closed(events),
            decreases client.event_stream@.len(),
        {
            let ghost before_texts = texts@;
            let ghost before_take = events.take(k);
            match client.event_stream.next() {
                None => {
                    assert(k == events.len());
                    assert(events.take(k) =~= events);
                    break;
                },
                Some(event) => {
                    assert(event == events[k]);
                    assert(events.take(k + 1) =~= before_take.push(event));
                    assert(events.take(k + 1).drop_last() =~= before_take);
                    assert(events.take(k + 1).last() == event);
                    proof {
                        lemma_contains_push(before_take, event, TextEvent::Closed);
                    }
                    match event {
                        TextEvent::Message(m) => {
                            let s = tag(index, m.as_str());
                            texts.push(s);
                            assert(texts@.map_values(|s: String| s@) =~= before_texts.map_values(
                                |s: String| s@,
                            ).push(tagged(index as nat, m@)));
                        },
                        TextEvent::Closed => {
                            closed = true;
                        },
                        _ => {},
                    }
                    proof {
                        k = k + 1;
                    }
                    assert(client.event_stream@ =~= events.skip(k));
                },
            }
        }
        assert(client@ == drained(old(client)@));
        (texts, closed)
    }

    /// One round: every player's events are handled in order of the players;
    /// each text message becomes a text tagged with its sender's index;
    /// every player whose connection closed is removed; every tagged text is
    /// to be sent to every remaining player; and the simulation ticks.
    pub fn round(&mut self) -> (out: RelayRound)
        ensures
            final(self)@.players == old(self)@.players_after_round(),
            final(self)@.pong == old(self)@.pong.ticked(),
            final(self)@.pong.wf(),
            out.messages@.map_values(|s: String| s@) == round_texts(old(self)@.players),
            out.recipients@ == final(self)@.players.map_values(|c: TextClientView| c.id),
            old(self)@.pong.paused ==> out.contact is None,
            !old(self)@.pong.paused ==> match out.contact {
                Some(c) => {
                    &&& c.ball == final(self)@.pong.ball.position
                    &&& c.ball_radius == final(self)@.pong.ball.shape.radius
                    &&& c.left_paddle == final(self)@.pong.left_paddle.position
                    &&& c.right_paddle == final(self)@.pong.right_paddle.position
                    &&& c.half_extents == final(self)@.pong.left_paddle.shape.half_extents
                    &&& c.half_extents == final(self)@.pong.right_paddle.shape.half_extents
                },
                None => false,
            },
    {
        let mut remaining: VecDeque<TextClient> = VecDeque::new();
        std::mem::swap(&mut remaining, &mut self.players);
        let ghost orig = remaining@;
        let ghost origv = orig.map_values(|c: TextClient| c@);
        assert(origv == old(self)@.players);
        let mut players: VecDeque<TextClient> = VecDeque::new();
        let mut messages: Vec<String> = Vec::new();
        let n = remaining.len();
        assert(origv.take(0) =~= Seq::<TextClientView>::empty());
        assert(players@.map_values(|c: TextClient| c@) =~= Seq::<TextClientView>::empty());
        assert(messages@.map_values(|s: String| s@) =~= Seq::<Seq<char>>::empty());
        for i in 0..n
            invariant
                n == orig.len(),
                origv == orig.map_values(|c: TextClient| c@),
                remaining@ == orig.skip(i as int),
                players@.map_values(|c: TextClient| c@) == survivors(origv.take(i as int)),
                messages@.map_values(|s: String| s@) == round_texts(origv.take(i as int)),
        {
            let ghost before_players = players@;
            let ghost before_messages = messages@;
            let mut c = remaining.pop_front().unwrap();
            assert(c == orig[i as int]);
            assert(c@ == origv[i as int]);
            let (texts, closed) = Self::drain_player(&mut c, i);
            assert(c@ == drained(origv[i as int]));
            let mut texts = texts;
            let ghost texts_v = texts@;
            messages.append(&mut texts);
            proof {
                let pre = origv.take(i + 1);
                assert(pre.drop_last() =~= origv.take(i as int));
                assert(pre.last() == origv[i as int]);
                assert(messages@ == before_messages + texts_v);
                assert(messages@.map_values(|s: String| s@) =~= before_messages.map_values(
                    |s: String| s@,
                ) + texts_v.map_values(|s: String| s@));
            }
            if !closed {
                players.push_back(c);
                assert(players@ == before_players.push(c));
                assert(players@.map_values(|c: TextClient| c@) =~= before_players.map_values(
                    |c: TextClient| c@,
                ).push(c@));
            }
            assert(remaining@ =~= orig.skip(i + 1));
        }
        assert(origv.take(n as int) =~= origv);
        self.players = players;
        let ghost final_players = self@.players;
        let mut recipients: Vec<u64> = Vec::new();
        let m = self.players.len();
        for i in 0..m
            invariant
                m == self.players@.len(),
                final_players == self.players@.map_values(|c: TextClient| c@),
                recipients@ == final_players.take(i as int).map_values(|c: TextClientView| c.id),
        {
            recipients.push(self.players[i].id);
            assert(final_players.take(i + 1).map_values(|c: TextClientView| c.id)
                =~= final_players.take(i as int).map_values(|c: TextClientView| c.id).push(
                self.players@[i as int].id,
            ));
        }
        assert(final_players.take(m as int) =~= final_players);
        let contact = self.simple_pong.tick();
        RelayRound { messages, recipients, contact }
    }
}

/// `s` with `x` appended holds `y` exactly when `s` holds it or `x` is `y`.
pub proof fn lemma_contains_push<T>(s: Seq<T>, x: T, y: T)
    ensures
        s.push(x).contains(y) == (s.contains(y) || x == y),
{
    if s.contains(y) {
        let k = choose|k: int| 0 <= k < s.len() && s[k] == y;
        assert(s.push(x)[k] == y);
    }
    if x == y {
        assert(s.push(x)[s.len() as int] == y);
    }
    if s.push(x).contains(y) {
        let k = choose|k: int| 0 <= k < s.push(x).len() && s.push(x)[k] == y;
        if k < s.len() {
            assert(s[k] == y);
        }
    }
}

/// After a round exactly the players whose connection closed are gone: the
/// players that stay are the others, in their order, with their events
/// handled.
pub proof fn lemma_only_closed_removed(players: Seq<TextClientView>)
    ensures
        survivors(players) == players.filter(|p: TextClientView| !has_closed(p.events)).map_values(
            |p: TextClientView| drained(p),
        ),
    decreases players.len(),
{
    reveal(Seq::filter);
    let pred = |p: TextClientView| !has_closed(p.events);
    if players.len() > 0 {
        lemma_only_closed_removed(players.drop_last());
        let init = players.drop_last();
        assert(players.filter(pred) == if pred(players.last()) {
            init.filter(pred).push(players.last())
        } else {
            init.filter(pred)
        });
        if pred(players.last()) {
            assert(init.filter(pred).push(players.last()).map_values(|p: TextClientView| drained(p))
                =~= init.filter(pred).map_values(|p: TextClientView| drained(p)).push(
                drained(players.last()),
            ));
        }
    } else {
        assert(players.filter(pred) =~= Seq::<TextClientView>::empty());
    }
}


/// The number that a string of decimal digits stands for.
pub open spec fn numeral_value(digits: Seq<char>) -> int
    decreases digits.len(),
{
    if digits.len() == 0 {
        0
    } else {
        numeral_value(digits.drop_last()) * 10 + (digits.last() as int - 48)
    }
}

/// `decimal(n)` is the base-10 numeral of `n`: it is made of the digits
/// `0`-`9`, reads as `n`, most significant digit first, and has no leading
/// zero.
pub proof fn lemma_decimal_is_numeral(n: nat)
    ensures
        decimal(n).len() > 0,
        forall|k: int| 0 <= k < decimal(n).len() ==> '0' <= #[trigger] decimal(n)[k] <= '9',
        numeral_value(decimal(n)) == n,
        n >= 10 ==> decimal(n)[0] != '0',
    decreases n,
{
    if n >= 10 {
        lemma_decimal_is_numeral(n / 10);
        let d = decimal(n);
        assert(d.drop_last() =~= decimal(n / 10));
        assert(n == (n / 10) * 10 + n % 10);
        assert(d.last() == (48 + n % 10) as char);
        assert(((48 + n % 10) as char) as int == 48 + n % 10);
        assert forall|k: int| 0 <= k < d.len() implies '0' <= #[trigger] d[k] <= '9' by {
            if k < d.len() - 1 {
                assert(d[k] == decimal(n / 10)[k]);
            }
        }
        if n / 10 >= 10 {
            assert(d[0] == decimal(n / 10)[0]);
        } else {
            assert(d[0] == decimal(n / 10)[0]);
            assert(decimal(n / 10)[0] == (48 + n / 10) as char);
        }
    } else {
        let d = decimal(n);
        assert(d.drop_last() =~= Seq::<char>::empty());
        assert(numeral_value(d.drop_last()) == 0);
        assert(d.last() == (48 + n) as char);
        assert(((48 + n) as char) as int == 48 + n);
    }
}

/// Reading a text keeps a relay reader reading; a failure, another frame or
/// the end of the connection stops it, and then only `Closed` is queued, at
/// least once. A text queues exactly that text.
pub proof fn lemma_text_reader(frame: Frame<String>)
    ensures
        text_reader_step(frame).1 <==> frame is Text,
        frame matches Frame::Text(t) ==> text_reader_step(frame).0 == seq![TextEvent::Message(t)],
        !(frame is Text) ==> text_reader_step(frame).0.len() >= 1 && forall|i: int|
            0 <= i < text_reader_step(frame).0.len() ==> #[trigger] text_reader_step(frame).0[i]
                == TextEvent::Closed,
{
}


/// A failed relay connection queues `Closed` twice; any other frame or the
/// end queues it once.
pub proof fn lemma_text_reader_closes(frame: Frame<String>)
    ensures
        frame is Failed ==> text_reader_step(frame).0.len() == 2,
        (frame is Other || frame is End) ==> text_reader_step(frame).0.len() == 1,
{
}

} // verus!
