use webpong::geometry::{shift, Point2, Vector2};
use webpong::network::message::{ClientMessage, Message, PaddleState};
use webpong::network::ws_client::{client_message, client_read, opened_stream};
use webpong::network::ws_event::WsEvent;
use webpong::network::ws_server::{read_frame, Frame, WebsocketClient, WebsocketServer};

#[test]
fn paddle_state_defaults_to_still() {
    assert_eq!(PaddleState::default(), PaddleState::Still);
}

#[test]
fn shift_moves_and_saturates() {
    assert_eq!(shift(50, -8), 42);
    assert_eq!(shift(50, 8), 58);
    assert_eq!(shift(i64::MAX - 3, 8), i64::MAX);
    assert_eq!(shift(i64::MIN + 3, -8), i64::MIN);
    assert_eq!(Point2::new(1, 2), Point2 { x: 1, y: 2 });
    assert_eq!(Vector2::new(-5, 5), Vector2 { x: -5, y: 5 });
}

#[test]
fn server_reader_queues_messages_and_closes() {
    let m = Message::ClientMessage(ClientMessage::PaddleUp);
    let step = read_frame(Frame::Text(m.clone()));
    assert_eq!(step.events, vec![WsEvent::Message(m)]);
    assert!(step.keep_reading);

    let step = read_frame(Frame::Other);
    assert_eq!(step.events, vec![WsEvent::Closed]);
    assert!(!step.keep_reading);

    let step = read_frame(Frame::Failed);
    assert_eq!(step.events, vec![WsEvent::Closed, WsEvent::Closed]);
    assert!(!step.keep_reading);

    let step = read_frame(Frame::End);
    assert_eq!(step.events, vec![WsEvent::Closed]);
    assert!(!step.keep_reading);
}

#[test]
fn client_reader_queues_messages_only() {
    let m = Message::Ping;
    let step = client_read(Frame::Text(m.clone()));
    assert_eq!(step.events, vec![WsEvent::Message(m)]);
    assert!(step.keep_reading);
    let step = client_read(Frame::Failed);
    assert!(step.events.is_empty());
    assert!(step.keep_reading);
    let step = client_read(Frame::End);
    assert!(step.events.is_empty());
    assert!(!step.keep_reading);
}

#[test]
fn client_stream_starts_opened() {
    let mut s = opened_stream();
    assert_eq!(s.next(), Some(WsEvent::Opened));
    assert_eq!(s.next(), None);
    assert_eq!(
        client_message(ClientMessage::EnterGame),
        Message::ClientMessage(ClientMessage::EnterGame)
    );
}

#[test]
fn listener_hands_out_fresh_ids_until_closed() {
    let mut server = WebsocketServer::new();
    assert!(server.is_running());
    assert_eq!(server.connect(), Some(0));
    assert_eq!(server.connect(), Some(1));
    let first = server.next_client().unwrap();
    assert_eq!(first.id, 0);
    assert_eq!(first.name, None);
    server.close();
    assert!(!server.is_running());
    assert_eq!(server.connect(), None);
    assert_eq!(server.next_client().unwrap().id, 1);
    assert!(server.next_client().is_none());
}

#[test]
fn unnamed_client_shows_na() {
    let mut c = WebsocketClient::new(7);
    assert_eq!(c.shown_name(), "N/A");
    c.name = Some(String::from("abc"));
    assert_eq!(c.shown_name(), "abc");
}
