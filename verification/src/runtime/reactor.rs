use vstd::prelude::*;
use std::collections::VecDeque;

verus! {

/// Something the event loop has to hand to a waiting task.
#[derive(Debug, Clone, Copy, PartialEq, Eq, Structural)]
pub enum ReactorEvent {
    Readable { token: u64 },
    Writable { token: u64 },
    TimerFired { timer_id: u64 },
}

/// The token of the task an event wakes.
pub open spec fn event_token(e: ReactorEvent) -> u64 {
    match e {
        ReactorEvent::Readable { token } => token,
        ReactorEvent::Writable { token } => token,
        ReactorEvent::TimerFired { timer_id } => timer_id,
    }
}

/// A first-in, first-out queue of pending events.
#[derive(Debug)]
pub struct Reactor {
    pending_events: VecDeque<ReactorEvent>,
}

impl Reactor {
    /// The pending events, oldest first.
    pub closed spec fn spec_events(&self) -> Seq<ReactorEvent> {
        self.pending_events@
    }

    pub fn new() -> (r: Self)
        ensures
            r.spec_events() == Seq::<ReactorEvent>::empty(),
    {
        Reactor { pending_events: VecDeque::new() }
    }

    pub fn push_event(&mut self, event: ReactorEvent)
        ensures
            final(self).spec_events() == old(self).spec_events().push(event),
    {
        self.pending_events.push_back(event);
    }

    /// The oldest pending event, taken off the queue.
    pub fn pop_event(&mut self) -> (r: Option<ReactorEvent>)
        ensures
            old(self).spec_events().len() == 0 ==> r is None && final(self).spec_events()
                == old(self).spec_events(),
            old(self).spec_events().len() > 0 ==> r == Some(old(self).spec_events()[0])
                && final(self).spec_events() == old(self).spec_events().drop_first(),
    {
        self.pending_events.pop_front()
    }

    pub fn pending_count(&self) -> (r: usize)
        ensures
            r == self.spec_events().len(),
    {
        self.pending_events.len()
    }
}

impl Default for Reactor {
    fn default() -> (r: Self)
        ensures
            r.spec_events() == Seq::<ReactorEvent>::empty(),
    {
        Reactor::new()
    }
}

/// Events leave the queue in the order they entered it.
pub proof fn lemma_reactor_fifo(events: Seq<ReactorEvent>, e: ReactorEvent)
    ensures
        events.len() > 0 ==> events.push(e)[0] == events[0] && events.push(e).drop_first()
            == events.drop_first().push(e),
        events.len() == 0 ==> events.push(e)[0] == e && events.push(e).drop_first() == events,
{
    assert(events.len() > 0 ==> events.push(e).drop_first() =~= events.drop_first().push(e));
    assert(events.len() == 0 ==> events.push(e).drop_first() =~= events);
}

} // verus!
