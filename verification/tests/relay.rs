use webpong::server_game_loop::{RelayServer, TextEvent};

fn text(s: &str) -> TextEvent {
    TextEvent::Message(String::from(s))
}

#[test]
fn messages_are_tagged_and_relayed_to_all() {
    let mut r = RelayServer::new();
    r.connect(10);
    r.connect(11);
    assert!(r.deliver(11, text("hello")));
    assert!(r.deliver(10, text("hi")));
    assert!(r.deliver(10, TextEvent::Opened));
    assert!(r.deliver(10, text("again")));
    assert!(!r.deliver(12, text("x")));
    let round = r.round();
    assert_eq!(round.messages, vec!["0 hi", "0 again", "1 hello"]);
    assert_eq!(round.recipients, vec![10, 11]);
    assert!(round.contact.is_none());
    let round = r.round();
    assert!(round.messages.is_empty());
}

#[test]
fn closed_players_are_removed() {
    let mut r = RelayServer::new();
    r.connect(1);
    r.connect(2);
    r.connect(3);
    r.deliver(2, TextEvent::Closed);
    r.deliver(3, text("bye"));
    let round = r.round();
    assert_eq!(round.messages, vec!["2 bye"]);
    assert_eq!(round.recipients, vec![1, 3]);
}

#[test]
fn a_double_close_removes_only_that_player() {
    let mut r = RelayServer::new();
    r.connect(1);
    r.connect(2);
    r.connect(3);
    r.deliver(2, TextEvent::Closed);
    r.deliver(2, TextEvent::Closed);
    let round = r.round();
    assert_eq!(round.recipients, vec![1, 3]);
}

#[test]
fn tags_use_decimal_indices() {
    let mut r = RelayServer::new();
    for id in 0..12 {
        r.connect(id);
    }
    r.deliver(11, text("x"));
    assert_eq!(r.round().messages, vec!["11 x"]);
}

#[test]
fn a_closed_sender_is_relayed_but_removed() {
    let mut r = RelayServer::new();
    r.connect(1);
    r.connect(2);
    r.deliver(1, text("last words"));
    r.deliver(1, TextEvent::Closed);
    r.deliver(2, TextEvent::Error(String::from("e")));
    let round = r.round();
    assert_eq!(round.messages, vec!["0 last words"]);
    assert_eq!(round.recipients, vec![2]);
    let round = r.round();
    assert_eq!(round.recipients, vec![2]);
}
