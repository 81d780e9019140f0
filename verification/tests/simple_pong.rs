use webpong::client_game_loop::{ClientGame, Key};
use webpong::geometry::Point2;
use webpong::network::message::{ClientMessage, Message, PaddleId, ServerMessage};
use webpong::network::ws_event::WsEvent;
use webpong::simple_pong::SimplePong;

#[test]
fn paused_simulation_moves_only_paddles() {
    let mut p = SimplePong::new();
    assert!(p.is_paused());
    p.set_paddle_state(true, false, true);
    assert!(p.tick().is_none());
    assert_eq!(p.get_drawables(), (42, 50, Point2 { x: 500, y: 50 }));
}

#[test]
fn running_simulation_moves_the_ball() {
    let mut p = SimplePong::new();
    p.toggle_pause();
    let check = p.tick().expect("ball moved");
    assert_eq!(check.ball, Point2 { x: 495, y: 55 });
    assert_eq!(check.ball_radius, 5);
    assert_eq!(check.left_paddle, Point2 { x: 20, y: 50 });
    assert_eq!(check.right_paddle, Point2 { x: 1570, y: 50 });
    assert_eq!(check.half_extents.x, 10);
    assert_eq!(check.half_extents.y, 100);
    p.resolve_contacts(true, false);
    p.tick();
    assert_eq!(p.get_drawables().2, Point2 { x: 500, y: 60 });
    p.resolve_contacts(true, true);
    p.tick();
    assert_eq!(p.get_drawables().2, Point2 { x: 505, y: 65 });
}

#[test]
fn ball_stops_past_the_left_edge() {
    let mut p = SimplePong::new();
    p.toggle_pause();
    for _ in 0..98 {
        p.tick();
    }
    // x = 500 - 98 * 5 = 10, still inside
    assert_eq!(p.get_drawables().2.x, 10);
    p.tick();
    assert_eq!(p.get_drawables().2.x, 5);
    p.tick();
    assert_eq!(p.get_drawables().2.x, 5);
}

#[test]
fn ball_bounces_off_the_bottom() {
    let mut p = SimplePong::new();
    p.toggle_pause();
    for _ in 0..60 {
        p.resolve_contacts(false, false);
        p.tick();
    }
    // y = 50 + 60 * 5 = 350; x = 500 - 300 = 200
    assert_eq!(p.get_drawables().2, Point2 { x: 200, y: 350 });
    p.resolve_contacts(true, false);
    for _ in 0..89 {
        p.tick();
    }
    // y = 350 + 89 * 5 = 795 is past the bottom: the ball turns upwards
    assert_eq!(p.get_drawables().2, Point2 { x: 645, y: 795 });
    p.tick();
    assert_eq!(p.get_drawables().2, Point2 { x: 650, y: 790 });
}

#[test]
fn keys_send_requests_once() {
    let mut g = ClientGame::new();
    assert_eq!(g.on_key(Key::W, true), Some(ClientMessage::PaddleUp));
    assert_eq!(g.on_key(Key::W, true), None);
    assert_eq!(g.on_key(Key::W, false), Some(ClientMessage::PaddleStop));
    assert_eq!(g.on_key(Key::S, true), Some(ClientMessage::PaddleDown));
    assert_eq!(g.on_key(Key::S, true), None);
    assert_eq!(g.on_key(Key::S, false), Some(ClientMessage::PaddleStop));
    assert_eq!(g.on_key(Key::Other, true), None);
    assert!(g.is_paused());
    assert_eq!(g.on_key(Key::P, true), None);
    assert!(!g.is_paused());
    assert_eq!(g.on_key(Key::P, false), None);
    assert!(!g.is_paused());
    assert_eq!(g.on_key(Key::P, true), None);
    assert!(g.is_paused());
}

#[test]
fn server_commands_move_local_paddles() {
    let mut g = ClientGame::new();
    g.on_event(WsEvent::Message(Message::ServerMessage(ServerMessage::PaddleUp(PaddleId::Left))));
    g.on_event(WsEvent::Message(Message::ServerMessage(ServerMessage::PaddleDown(PaddleId::Right))));
    g.on_event(WsEvent::Opened);
    assert!(g.tick().is_none());
    assert_eq!(g.get_drawables(), (42, 58, Point2 { x: 500, y: 50 }));
    g.on_event(WsEvent::Message(Message::ServerMessage(ServerMessage::PaddleStop(PaddleId::Left))));
    g.tick();
    assert_eq!(g.get_drawables(), (42, 66, Point2 { x: 500, y: 50 }));
    g.on_key(Key::P, true);
    assert!(g.tick().is_some());
    g.resolve_contacts(false, false);
}
