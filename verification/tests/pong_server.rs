use webpong::geometry::{Point2, Vector2};
use webpong::network::message::{ClientMessage, GameState, Message, PaddleState, ServerMessage};
use webpong::network::ws_event::WsEvent;
use webpong::network::ws_server::WebsocketClient;
use webpong::server::pong_server::{Broadcast, PongServer};

fn client(id: u64, name: &str) -> WebsocketClient {
    let mut c = WebsocketClient::new(id);
    c.name = Some(String::from(name));
    c
}

fn state_of(b: &Broadcast) -> GameState {
    match &b.message {
        Message::ServerMessage(ServerMessage::GameState(s)) => s.clone(),
        other => panic!("not a game state: {:?}", other),
    }
}

fn cmd(m: ClientMessage) -> WsEvent {
    WsEvent::Message(Message::ClientMessage(m))
}

#[test]
fn new_match_is_paused_at_start_positions() {
    let mut server = PongServer::default();
    assert_eq!(server.get_drawables(), (50, 50, Point2 { x: 500, y: 50 }));
    assert!(server.tick().is_none());
    assert_eq!(server.get_drawables(), (50, 50, Point2 { x: 500, y: 50 }));
}

#[test]
fn observers_are_promoted_and_receive_state() {
    let mut server = PongServer::default();
    server.add_player(client(1, "alice"));
    server.add_player(client(2, "bob"));
    server.add_player(client(3, "carol"));
    let b = server.tick().expect("a state is owed");
    assert_eq!(b.recipients, vec![1, 2, 3]);
    let s = state_of(&b);
    assert_eq!(s.left_player_name, "alice");
    assert_eq!(s.right_player_name, "bob");
    assert_eq!(s.left_paddle_y, 50);
    assert_eq!(s.right_paddle_y, 50);
    assert_eq!(s.left_paddle_state, PaddleState::Still);
    assert_eq!(s.ball_position, Point2 { x: 500, y: 50 });
    assert_eq!(s.ball_velocity, Vector2 { x: -5, y: 5 });
    assert!(s.paused);
    assert!(server.tick().is_none());
}

#[test]
fn paddle_commands_move_paddles_and_send_state() {
    let mut server = PongServer::default();
    server.add_player(client(1, "alice"));
    server.add_player(client(2, "bob"));
    server.tick();
    assert!(server.deliver(1, cmd(ClientMessage::PaddleUp)));
    assert!(server.deliver(2, cmd(ClientMessage::PaddleDown)));
    let b = server.tick().expect("state owed after a command");
    let s = state_of(&b);
    assert_eq!(s.left_paddle_state, PaddleState::Up);
    assert_eq!(s.right_paddle_state, PaddleState::Down);
    assert_eq!(s.left_paddle_y, 42);
    assert_eq!(s.right_paddle_y, 58);
    assert!(server.tick().is_none());
    assert_eq!(server.get_drawables().0, 34);
    assert_eq!(server.get_drawables().1, 66);
    assert!(server.deliver(1, cmd(ClientMessage::PaddleStop)));
    let s = state_of(&server.tick().unwrap());
    assert_eq!(s.left_paddle_state, PaddleState::Still);
    assert_eq!(s.left_paddle_y, 34);
    assert_eq!(s.right_paddle_y, 74);
}

#[test]
fn other_events_are_dropped_without_state() {
    let mut server = PongServer::default();
    server.add_player(client(1, "alice"));
    server.add_player(client(2, "bob"));
    server.tick();
    assert!(server.deliver(1, cmd(ClientMessage::EnterGame)));
    assert!(server.deliver(2, WsEvent::Error(String::from("oops"))));
    assert!(server.deliver(1, cmd(ClientMessage::TogglePause)));
    assert!(server.tick().is_none());
    assert!(server.tick().is_none());
    assert!(!server.deliver(9, WsEvent::Opened));
}

#[test]
fn a_closed_player_is_replaced_by_an_observer() {
    let mut server = PongServer::default();
    server.add_player(client(1, "alice"));
    server.add_player(client(2, "bob"));
    server.add_player(client(3, "carol"));
    server.tick();
    assert!(server.deliver(1, WsEvent::Closed));
    let b = server.tick().expect("closing owes a state");
    assert_eq!(b.recipients, vec![2, 3]);
    let s = state_of(&b);
    assert_eq!(s.left_player_name, "N/A");
    // the free place is filled, but promotion alone owes no state
    assert!(server.tick().is_none());
    assert!(server.deliver(3, cmd(ClientMessage::PaddleUp)));
    let b = server.tick().expect("a command owes a state");
    assert_eq!(b.recipients, vec![3, 2]);
    assert_eq!(state_of(&b).left_player_name, "carol");
    assert!(!server.deliver(1, WsEvent::Opened));
}

#[test]
fn closed_observers_leave() {
    let mut server = PongServer::default();
    for id in 1..=4 {
        server.add_player(client(id, "p"));
    }
    server.tick();
    assert!(server.deliver(3, WsEvent::Closed));
    assert!(server.tick().is_none());
    assert!(!server.deliver(3, WsEvent::Opened));
    assert!(server.deliver(4, WsEvent::Opened));
    server.add_player(client(5, "q"));
    let b = server.tick().unwrap();
    assert_eq!(b.recipients, vec![1, 2, 4, 5]);
}

#[test]
fn set_paddle_state_and_pause() {
    let mut server = PongServer::default();
    server.set_paddle_state(true, false, true);
    server.set_paddle_state(false, false, false);
    assert!(server.tick().is_none());
    assert_eq!(server.get_drawables(), (42, 58, Point2 { x: 500, y: 50 }));
    server.set_paddle_state(true, true, false);
    server.set_paddle_state(false, true, true);
    server.tick();
    assert_eq!(server.get_drawables(), (42, 58, Point2 { x: 500, y: 50 }));
    server.toggle_pause();
    server.add_player(client(1, "a"));
    let s = state_of(&server.tick().unwrap());
    assert!(!s.paused);
    server.toggle_pause();
    server.add_player(client(2, "b"));
    assert!(state_of(&server.tick().unwrap()).paused);
}
