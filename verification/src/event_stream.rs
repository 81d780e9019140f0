use std::collections::VecDeque;
use vstd::prelude::*;

verus! {

/// A first-in, first-out queue of events. Producers (the network side) append
/// to the back of the buffer; the game takes events from the front.
pub struct EventStream<T> {
    buffer: VecDeque<T>,
}

impl<T> View for EventStream<T> {
    type V = Seq<T>;

    /// The queued events, oldest first.
    closed spec fn view(&self) -> Seq<T> {
        self.buffer@
    }
}

/// What taking one event from a queue holding `events` gives back: the oldest
/// event, or `None` when the queue is empty.
pub open spec fn first_event<T>(events: Seq<T>) -> Option<T> {
    if events.len() == 0 {
        None
    } else {
        Some(events[0])
    }
}

/// The queue that is left after taking one event from `events`.
pub open spec fn rest_events<T>(events: Seq<T>) -> Seq<T> {
    if events.len() == 0 {
        events
    } else {
        events.drop_first()
    }
}

/// The events that a queue holding `events` hands out, one per call, until it
/// is empty.
pub open spec fn drained<T>(events: Seq<T>) -> Seq<T>
    decreases events.len(),
{
    if events.len() == 0 {
        Seq::empty()
    } else {
        seq![events[0]] + drained(events.drop_first())
    }
}

impl<T> EventStream<T> {
    /// An empty stream.
    pub fn new() -> (stream: EventStream<T>)
        ensures
            stream@ == Seq::<T>::empty(),
    {
        EventStream { buffer: VecDeque::new() }
    }

    /// The underlying buffer, for producers to append events to (or to take
    /// them from). What is done to it is what the stream holds afterwards.
    pub fn buffer(&mut self) -> (buffer: &mut VecDeque<T>)
        ensures
            buffer@ == old(self)@,
            final(self)@ == final(buffer)@,
    {
        &mut self.buffer
    }

    /// Takes the oldest event, if there is one, without waiting: the same as
    /// `next`, under the name that the asynchronous loops use.
    pub fn next_event(&mut self) -> (event: Option<T>)
        ensures
            event == first_event(old(self)@),
            final(self)@ == rest_events(old(self)@),
    {
        self.buffer.pop_front()
    }

    /// Takes the oldest event, if there is one.
    pub fn next(&mut self) -> (event: Option<T>)
        ensures
            event == first_event(old(self)@),
            final(self)@ == rest_events(old(self)@),
    {
        self.buffer.pop_front()
    }

    /// Appends an event at the back of the queue.
    pub fn push(&mut self, event: T)
        ensures
            final(self)@ == old(self)@.push(event),
    {
        self.buffer.push_back(event);
    }

    /// The number of queued events.
    pub fn len(&self) -> (n: usize)
        ensures
            n == self@.len(),
    {
        self.buffer.len()
    }
}

/// Events come out in the order in which they were put in: a stream that
/// held `events` and then received `event` hands out everything it held,
/// then `event`.
pub proof fn lemma_fifo<T>(events: Seq<T>, event: T)
    ensures
        drained(events.push(event)) == drained(events).push(event),
    decreases events.len(),
{
    if events.len() == 0 {
        assert(events.push(event).drop_first() =~= Seq::<T>::empty());
        assert(drained(Seq::<T>::empty()) == Seq::<T>::empty());
        assert(drained(events.push(event)) =~= seq![event]);
    } else {
        assert(events.push(event).drop_first() =~= events.drop_first().push(event));
        lemma_fifo(events.drop_first(), event);
        assert(drained(events.push(event)) =~= drained(events).push(event));
    }
}

/// Draining a stream hands out exactly what it holds, in order.
pub proof fn lemma_drained_is_contents<T>(events: Seq<T>)
    ensures
        drained(events) == events,
    decreases events.len(),
{
    if events.len() > 0 {
        lemma_drained_is_contents(events.drop_first());
        assert(seq![events[0]] + events.drop_first() =~= events);
    }
}

/// An event put into an empty stream is the next one out, and the stream is
/// empty again afterwards.
pub proof fn lemma_push_then_next<T>(event: T)
    ensures
        first_event(Seq::<T>::empty().push(event)) == Some(event),
        rest_events(Seq::<T>::empty().push(event)) == Seq::<T>::empty(),
{
    assert(Seq::<T>::empty().push(event).drop_first() =~= Seq::<T>::empty());
}

} // verus!
