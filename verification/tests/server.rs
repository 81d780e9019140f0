use webpong::network::message::{ClientMessage, GameState, Message, ServerMessage};
use webpong::network::ws_event::WsEvent;
use webpong::network::ws_server::WebsocketClient;
use webpong::server::server::Server;

fn cmd(m: ClientMessage) -> WsEvent {
    WsEvent::Message(Message::ClientMessage(m))
}

fn state_of(m: &Message) -> GameState {
    match m {
        Message::ServerMessage(ServerMessage::GameState(s)) => s.clone(),
        other => panic!("not a game state: {:?}", other),
    }
}

#[test]
fn welcome_gives_a_random_name() {
    let mut server = Server::new();
    let msg = server.welcome(WebsocketClient::new(0));
    match msg {
        Message::ServerMessage(ServerMessage::SetName(name)) => {
            assert_eq!(name.chars().count(), 5);
            assert!(name.chars().all(|c| c.is_ascii_alphanumeric()));
        }
        other => panic!("unexpected {:?}", other),
    }
}

#[test]
fn lobby_players_enter_the_game_in_order() {
    let mut server = Server::new();
    assert!(server.is_running());
    server.welcome_named(WebsocketClient::new(1), String::from("one"));
    server.welcome_named(WebsocketClient::new(2), String::from("two"));
    server.welcome_named(WebsocketClient::new(3), String::from("three"));
    assert!(server.tick().is_none());
    assert!(server.deliver(2, cmd(ClientMessage::EnterGame)));
    assert!(server.deliver(1, WsEvent::Error(String::from("e"))));
    assert!(server.deliver(3, cmd(ClientMessage::EnterGame)));
    let b = server.tick().expect("new players owe a state");
    assert_eq!(b.recipients, vec![2, 3]);
    let s = state_of(&b.message);
    assert_eq!(s.left_player_name, "two");
    assert_eq!(s.right_player_name, "three");
    // player 1 still waits in the lobby
    assert!(server.deliver(1, cmd(ClientMessage::EnterGame)));
    let b = server.tick().unwrap();
    assert_eq!(b.recipients, vec![2, 3, 1]);
    server.stop();
    assert!(!server.is_running());
}

#[test]
fn closed_lobby_players_are_dropped() {
    let mut server = Server::new();
    server.welcome_named(WebsocketClient::new(1), String::from("one"));
    assert!(server.deliver(1, WsEvent::Closed));
    assert!(server.tick().is_none());
    assert!(!server.deliver(1, WsEvent::Opened));
}

#[test]
fn welcome_named_sends_the_name() {
    let mut server = Server::new();
    let msg = server.welcome_named(WebsocketClient::new(4), String::from("Richo"));
    assert_eq!(
        msg,
        Message::ServerMessage(ServerMessage::SetName(String::from("Richo")))
    );
}
