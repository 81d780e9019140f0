use webpong::event_stream::EventStream;

#[test]
fn new_stream_is_empty() {
    let mut s: EventStream<u32> = EventStream::new();
    assert_eq!(s.len(), 0);
    assert_eq!(s.next(), None);
    assert_eq!(s.next_event(), None);
}

#[test]
fn events_come_out_in_order() {
    let mut s = EventStream::new();
    s.push(1);
    s.push(2);
    s.buffer().push_back(3);
    assert_eq!(s.len(), 3);
    assert_eq!(s.next(), Some(1));
    assert_eq!(s.next_event(), Some(2));
    assert_eq!(s.next(), Some(3));
    assert_eq!(s.next(), None);
}

#[test]
fn buffer_gives_access_to_the_queue() {
    let mut s = EventStream::new();
    s.push("a");
    assert_eq!(s.buffer().len(), 1);
    assert_eq!(s.buffer().pop_front(), Some("a"));
    assert_eq!(s.next(), None);
}
