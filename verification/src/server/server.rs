use crate::event_stream::first_event;
use crate::network::message::{ClientMessage, Message, ServerMessage};
use crate::network::ws_event::WsEvent;
use crate::network::ws_server::{ClientView, WebsocketClient};
use crate::server::pong_server::{after_event, with_event, Broadcast, PongServer, PongServerView};
use rand::Rng;
use std::collections::VecDeque;
use vstd::prelude::*;

verus! {

/// A character from `A`-`Z`, `a`-`z` or `0`-`9`.
pub open spec fn is_alphanumeric(c: char) -> bool {
    ||| ('A' <= c && c <= 'Z')
    ||| ('a' <= c && c <= 'z')
    ||| ('0' <= c && c <= '9')
}

/// The length of the names that the server gives to new players.
pub const NAME_LEN: usize = 5;

/// Samples `rand`'s `Alphanumeric` distribution `len` times with the
/// thread-local generator and collects the characters. Each sample is taken
/// from `A`-`Z`, `a`-`z`, `0`-`9` (rand's documented charset); which
/// characters come out is left open, as it rests on chance.
#[verifier::external_body]
fn random_alphanumeric(len: usize) -> (name: String)
    ensures
        name@.len() == len,
        forall|i: int| 0 <= i < len ==> is_alphanumeric(#[trigger] name@[i]),
{
    rand::thread_rng().sample_iter(&rand::distributions::Alphanumeric).take(len).map(char::from).collect()
}

/// The game server: whether it runs, the players that connected and have not
/// entered the game yet (oldest first), and the match.
pub struct Server {
    running: bool,
    pre_lobby_players: VecDeque<WebsocketClient>,
    pong_server: PongServer,
    new_player_in_game: bool,
}

/// The game server in specifications.
pub ghost struct ServerView {
    pub running: bool,
    pub lobby: Seq<ClientView>,
    pub game: PongServerView,
    pub new_player_in_game: bool,
}

impl View for Server {
    type V = ServerView;

    closed spec fn view(&self) -> ServerView {
        ServerView {
            running: self.running,
            lobby: self.pre_lobby_players@.map_values(|c: WebsocketClient| c@),
            game: self.pong_server@,
            new_player_in_game: self.new_player_in_game,
        }
    }
}

/// The lobby after each waiting player's oldest event was handled: players
/// that asked to enter the game leave the lobby for it (second, in order),
/// players whose connection closed leave, the others stay (first, in order).
pub open spec fn lobby_sorted(lobby: Seq<ClientView>) -> (Seq<ClientView>, Seq<ClientView>)
    decreases lobby.len(),
{
    if lobby.len() == 0 {
        (Seq::empty(), Seq::empty())
    } else {
        let (kept, entering) = lobby_sorted(lobby.drop_last());
        let c = lobby.last();
        let event = first_event(c.events);
        if event == Some(WsEvent::Message(Message::ClientMessage(ClientMessage::EnterGame))) {
            (kept, entering.push(after_event(c)))
        } else if event == Some(WsEvent::Closed) {
            (kept, entering)
        } else {
            (kept.push(after_event(c)), entering)
        }
    }
}

/// The match after `entering` joined as observers, in order.
pub open spec fn joined(game: PongServerView, entering: Seq<ClientView>) -> PongServerView {
    if entering.len() == 0 {
        game
    } else {
        PongServerView { observers: game.observers + entering, send_gamestate: true, ..game }
    }
}

impl ServerView {
    /// The server after its lobby was sorted, before the match ticks.
    pub open spec fn lobby_handled(self) -> ServerView {
        let (kept, entering) = lobby_sorted(self.lobby);
        ServerView {
            lobby: kept,
            game: joined(self.game, entering),
            new_player_in_game: entering.len() > 0,
            ..self
        }
    }

    /// The server after one round: lobby sorted, then the match ticked.
    pub open spec fn after_round(self) -> ServerView {
        let s = self.lobby_handled();
        ServerView { game: s.game.after_tick(), new_player_in_game: false, ..s }
    }

    pub open spec fn has_waiting(self, id: u64) -> bool {
        exists|k: int| 0 <= k < self.lobby.len() && #[trigger] self.lobby[k].id == id
    }

    /// The place in the lobby of the first waiting player with id `id`.
    pub open spec fn first_waiting(self, id: u64) -> int
        recommends
            self.has_waiting(id),
    {
        choose|k: int|
            0 <= k < self.lobby.len() && self.lobby[k].id == id && forall|j: int|
                0 <= j < k ==> #[trigger] self.lobby[j].id != id
    }

    /// The server after `event` arrived for the player with id `id`: a player
    /// waiting in the lobby gets it first, else the match's player.
    pub open spec fn delivered(self, id: u64, event: WsEvent) -> ServerView {
        if self.has_waiting(id) {
            let k = self.first_waiting(id);
            ServerView { lobby: self.lobby.update(k, with_event(self.lobby[k], event)), ..self }
        } else {
            ServerView { game: self.game.delivered(id, event), ..self }
        }
    }

    pub proof fn lemma_first_waiting(self, id: u64, i: int)
        requires
            0 <= i < self.lobby.len(),
            self.lobby[i].id == id,
            forall|j: int| 0 <= j < i ==> #[trigger] self.lobby[j].id != id,
        ensures
            self.has_waiting(id),
            self.first_waiting(id) == i,
    {
        assert(self.lobby[i].id == id);
        let k = self.first_waiting(id);
        assert(0 <= k < self.lobby.len() && self.lobby[k].id == id);
        if k < i {
            assert(self.lobby[k].id != id);
        } else if k > i {
            assert(self.lobby[i].id != id);
        }
    }
}

impl Server {
    /// A running server with an empty lobby and a new match.
    pub fn new() -> (server: Server)
        ensures
            server@ == (ServerView {
                running: true,
                lobby: Seq::empty(),
                game: crate::server::pong_server::initial_server(),
                new_player_in_game: false,
            }),
    {
        let server = Server {
            running: true,
            pre_lobby_players: VecDeque::new(),
            pong_server: PongServer::default(),
            new_player_in_game: false,
        };
        assert(server@.lobby =~= Seq::<ClientView>::empty());
        server
    }

    pub fn is_running(&self) -> (running: bool)
        ensures
            running == self@.running,
    {
        self.running
    }

    /// Stops the server's loop after the current round.
    pub fn stop(&mut self)
        ensures
            final(self)@ == (ServerView { running: false, ..old(self)@ }),
    {
        self.running = false;
    }

    /// Welcomes a newly connected player under `name`: the player waits in
    /// the lobby with that name, and the message that tells it its name is
    /// returned, to be sent to it.
    pub fn welcome_named(&mut self, client: WebsocketClient, name: String) -> (msg: Message)
        ensures
            msg matches Message::ServerMessage(ServerMessage::SetName(n)) && n@ == name@,
            final(self)@ == (ServerView {
                lobby: old(self)@.lobby.push(ClientView { name: Some(name@), ..client@ }),
                ..old(self)@
            }),
    {
        let mut client = client;
        client.name = Some(name.clone());
        let ghost cv = client@;
        let ghost before = self.pre_lobby_players@;
        self.pre_lobby_players.push_back(client);
        assert(self.pre_lobby_players@ == before.push(client));
        assert(self@.lobby =~= old(self)@.lobby.push(cv));
        Message::ServerMessage(ServerMessage::SetName(name))
    }

    /// Welcomes a newly connected player under a random name of `NAME_LEN`
    /// letters and digits; see `welcome_named`.
    pub fn welcome(&mut self, client: WebsocketClient) -> (msg: Message)
        ensures
            msg matches Message::ServerMessage(ServerMessage::SetName(n)) && {
                &&& n@.len() == NAME_LEN
                &&& forall|i: int| 0 <= i < NAME_LEN ==> is_alphanumeric(#[trigger] n@[i])
                &&& final(self)@ == (ServerView {
                    lobby: old(self)@.lobby.push(ClientView { name: Some(n@), ..client@ }),
                    ..old(self)@
                })
            },
    {
        let name = random_alphanumeric(NAME_LEN);
        self.welcome_named(client, name)
    }

    /// Handles the oldest event of every player in the lobby, in order:
    /// players that ask to enter the game join the match as observers,
    /// players whose connection closed are dropped, the others stay.
    fn sort_lobby(&mut self)
        ensures
            final(self)@ == old(self)@.lobby_handled(),
    {
        let mut remaining: VecDeque<WebsocketClient> = VecDeque::new();
        std::mem::swap(&mut remaining, &mut self.pre_lobby_players);
        let ghost orig = remaining@;
        let ghost origv = orig.map_values(|c: WebsocketClient| c@);
        let ghost game0 = self.pong_server@;
        let ghost running0 = self.running;
        assert(origv == old(self)@.lobby);
        let mut kept: VecDeque<WebsocketClient> = VecDeque::new();
        let mut entered = false;
        let ghost mut i: int = 0;
        assert(origv.take(0) =~= Seq::<ClientView>::empty());
        assert(kept@.map_values(|c: WebsocketClient| c@) =~= Seq::<ClientView>::empty());
        while remaining.len() > 0
            invariant
                0 <= i <= orig.len(),
                origv == orig.map_values(|c: WebsocketClient| c@),
                remaining@ == orig.skip(i),
                kept@.map_values(|c: WebsocketClient| c@) == lobby_sorted(origv.take(i)).0,
                self.pong_server@ == joined(game0, lobby_sorted(origv.take(i)).1),
                entered == (lobby_sorted(origv.take(i)).1.len() > 0),
                self.running == running0,
            decreases remaining@.len(),
        {
            let ghost before_kept = kept@;
            let ghost game_before = self.pong_server@;
            let mut c = remaining.pop_front().unwrap();
            assert(c == orig[i]);
            let ghost cv = c@;
            let event = c.event_stream.next();
            assert(c@ == after_event(cv));
            assert(origv.take(i + 1).drop_last() =~= origv.take(i));
            assert(origv.take(i + 1).last() == cv);
            let ghost (k0, e0) = lobby_sorted(origv.take(i));
            match event {
                Some(WsEvent::Message(Message::ClientMessage(ClientMessage::EnterGame))) => {
                    self.pong_server.add_player(c);
                    entered = true;
                    assert(self.pong_server@ =~= joined(game0, e0.push(after_event(cv))));
                },
                Some(WsEvent::Closed) => {},
                _ => {
                    kept.push_back(c);
                    assert(kept@ == before_kept.push(c));
                    assert(kept@.map_values(|c: WebsocketClient| c@) =~= before_kept.map_values(
                        |c: WebsocketClient| c@,
                    ).push(c@));
                },
            }
            proof {
                i = i + 1;
            }
            assert(remaining@ =~= orig.skip(i));
        }
        assert(origv.take(i) =~= origv);
        self.pre_lobby_players = kept;
        self.new_player_in_game = entered;
    }

    /// One round of the server: the lobby is sorted, then the match ticks.
    /// Returns the state to broadcast, if one is owed; see `PongServer::tick`.
    pub fn tick(&mut self) -> (out: Option<Broadcast>)
        ensures
            final(self)@ == old(self)@.after_round(),
            old(self)@.lobby_handled().game.ticked().send_gamestate ==> match out {
                Some(b) => {
                    &&& b.recipients@ == old(self)@.lobby_handled().game.ticked().recipients()
                    &&& b.message matches Message::ServerMessage(ServerMessage::GameState(state))
                        && old(self)@.lobby_handled().game.ticked().describes(state)
                },
                None => false,
            },
            !old(self)@.lobby_handled().game.ticked().send_gamestate ==> out is None,
    {
        self.sort_lobby();
        self.new_player_in_game = false;
        self.pong_server.tick()
    }

    /// Queues `event` for the player with id `id`, in the lobby or in the
    /// match. Returns whether such a player was found; if none was, nothing
    /// changes.
    pub fn deliver(&mut self, id: u64, event: WsEvent) -> (found: bool)
        ensures
            found == (old(self)@.has_waiting(id) || old(self)@.game.has_player(id)),
            final(self)@ == old(self)@.delivered(id, event),
    {
        let n = self.pre_lobby_players.len();
        for i in 0..n
            invariant
                n == self.pre_lobby_players@.len(),
                self@ == old(self)@,
                forall|j: int| 0 <= j < i ==> #[trigger] self@.lobby[j].id != id,
        {
            if self.pre_lobby_players[i].id == id {
                let ghost before = self.pre_lobby_players@;
                let mut c = self.pre_lobby_players.remove(i).unwrap();
                c.event_stream.push(event);
                self.pre_lobby_players.insert(i, c);
                proof {
                    assert(self.pre_lobby_players@ == before.remove(i as int).insert(i as int, c));
                    assert(self@.lobby =~= old(self)@.lobby.update(
                        i as int,
                        with_event(old(self)@.lobby[i as int], event),
                    ));
                    old(self)@.lemma_first_waiting(id, i as int);
                }
                return true;
            }
        }
        assert(!old(self)@.has_waiting(id));
        self.pong_server.deliver(id, event)
    }
}


/// The event by which a waiting player asks to enter the game.
pub open spec fn enter_game_event() -> WsEvent {
    WsEvent::Message(Message::ClientMessage(ClientMessage::EnterGame))
}

/// Nobody is lost from the lobby: a waiting player whose oldest event asks to
/// enter the game is among those who enter, one whose oldest event is that
/// the connection closed is gone, and every other one stays in the lobby,
/// each with that event taken.
pub proof fn lemma_lobby_members(lobby: Seq<ClientView>)
    ensures
        forall|k: int|
            0 <= k < lobby.len() && first_event(#[trigger] lobby[k].events) == Some(
                enter_game_event(),
            ) ==> lobby_sorted(lobby).1.contains(after_event(lobby[k])),
        forall|k: int|
            0 <= k < lobby.len() && first_event(#[trigger] lobby[k].events) != Some(
                enter_game_event(),
            ) && first_event(lobby[k].events) != Some(WsEvent::Closed) ==> lobby_sorted(
                lobby,
            ).0.contains(after_event(lobby[k])),
        lobby_sorted(lobby).0.len() + lobby_sorted(lobby).1.len() <= lobby.len(),
    decreases lobby.len(),
{
    if lobby.len() > 0 {
        let init = lobby.drop_last();
        lemma_lobby_members(init);
        let (kept, entering) = lobby_sorted(init);
        let c = lobby.last();
        let (k2, e2) = lobby_sorted(lobby);
        assert forall|k: int|
            0 <= k < lobby.len() && first_event(#[trigger] lobby[k].events) == Some(
                enter_game_event(),
            ) implies e2.contains(after_event(lobby[k])) by {
            if k < lobby.len() - 1 {
                assert(lobby[k] == init[k]);
                let w = choose|w: int| 0 <= w < entering.len() && entering[w] == after_event(init[k]);
                if e2 != entering {
                    assert(e2 == entering.push(after_event(c)));
                    assert(e2[w] == entering[w]);
                }
            } else {
                assert(e2 == entering.push(after_event(c)));
                assert(e2[entering.len() as int] == after_event(c));
            }
        }
        assert forall|k: int|
            0 <= k < lobby.len() && first_event(#[trigger] lobby[k].events) != Some(
                enter_game_event(),
            ) && first_event(lobby[k].events) != Some(WsEvent::Closed) implies k2.contains(
            after_event(lobby[k]),
        ) by {
            if k < lobby.len() - 1 {
                assert(lobby[k] == init[k]);
                let w = choose|w: int| 0 <= w < kept.len() && kept[w] == after_event(init[k]);
                if k2 != kept {
                    assert(k2 == kept.push(after_event(c)));
                    assert(k2[w] == kept[w]);
                }
            } else {
                assert(k2 == kept.push(after_event(c)));
                assert(k2[kept.len() as int] == after_event(c));
            }
        }
    }
}

/// The players who enter the game in a round join the match as its newest
/// observers, in the order in which they waited, and the match owes a new
/// state; the players already watching or playing stay where they were.
pub proof fn lemma_entering_join_last(s: ServerView)
    ensures
        ({
            let entering = lobby_sorted(s.lobby).1;
            let g = s.lobby_handled().game;
            &&& g.observers == s.game.observers + entering
            &&& g.left_player == s.game.left_player
            &&& g.right_player == s.game.right_player
            &&& entering.len() > 0 ==> g.send_gamestate
        }),
{
    let entering = lobby_sorted(s.lobby).1;
    if entering.len() == 0 {
        assert(s.game.observers + entering =~= s.game.observers);
    }
}


/// How many of `lobby` have as oldest event that their connection closed.
pub open spec fn closing_count(lobby: Seq<ClientView>) -> nat
    decreases lobby.len(),
{
    if lobby.len() == 0 {
        0
    } else {
        closing_count(lobby.drop_last()) + if first_event(lobby.last().events) == Some(
            WsEvent::Closed,
        ) {
            1nat
        } else {
            0nat
        }
    }
}

/// Exactly the waiting players whose connection closed leave without
/// entering: the players that stay and those that enter number all the
/// others.
pub proof fn lemma_lobby_count(lobby: Seq<ClientView>)
    ensures
        lobby_sorted(lobby).0.len() + lobby_sorted(lobby).1.len() == lobby.len() - closing_count(
            lobby,
        ),
    decreases lobby.len(),
{
    if lobby.len() > 0 {
        lemma_lobby_count(lobby.drop_last());
    }
}

} // verus!
