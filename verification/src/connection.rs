//! The state of the connection to the broker.

use vstd::prelude::*;
use vstd::std_specs::cmp::PartialEqSpecImpl;
use vstd::string::StringExecFns;

verus! {

/// Where the connection to the broker stands.
#[derive(Debug)]
pub enum State {
    Connecting,
    Subscribing,
    Connected,
    Disconnected,
    Failed(String),
}

/// The mathematical value of a [`State`].
pub enum StateView {
    Connecting,
    Subscribing,
    Connected,
    Disconnected,
    Failed(Seq<char>),
}

impl View for State {
    type V = StateView;

    open spec fn view(&self) -> StateView {
        match self {
            State::Connecting => StateView::Connecting,
            State::Subscribing => StateView::Subscribing,
            State::Connected => StateView::Connected,
            State::Disconnected => StateView::Disconnected,
            State::Failed(reason) => StateView::Failed(reason@),
        }
    }
}

impl StateView {
    /// The text that shows the state to the user.
    pub open spec fn label(self) -> Seq<char> {
        match self {
            StateView::Connecting => "Connecting"@,
            StateView::Subscribing => "Subscribing"@,
            StateView::Connected => "Connected"@,
            StateView::Disconnected => "Disconnected"@,
            StateView::Failed(reason) => "Failed ("@ + reason + ")"@,
        }
    }
}

impl Clone for State {
    fn clone(&self) -> (res: Self)
        ensures
            res == *self,
    {
        match self {
            State::Connecting => State::Connecting,
            State::Subscribing => State::Subscribing,
            State::Connected => State::Connected,
            State::Disconnected => State::Disconnected,
            State::Failed(reason) => State::Failed(reason.clone()),
        }
    }
}

impl PartialEq for State {
    fn eq(&self, other: &Self) -> (res: bool) {
        match (self, other) {
            (State::Connecting, State::Connecting) => true,
            (State::Subscribing, State::Subscribing) => true,
            (State::Connected, State::Connected) => true,
            (State::Disconnected, State::Disconnected) => true,
            (State::Failed(a), State::Failed(b)) => *a == *b,
            _ => false,
        }
    }
}

impl Eq for State {

}

impl PartialEqSpecImpl for State {
    open spec fn obeys_eq_spec() -> bool {
        true
    }

    open spec fn eq_spec(&self, other: &Self) -> bool {
        self@ == other@
    }
}

impl Default for State {
    fn default() -> (res: Self)
        ensures
            res@ == StateView::Disconnected,
    {
        State::Disconnected
    }
}

impl State {
    /// Whether the connection is up and subscribed.
    pub fn is_connected(&self) -> (res: bool)
        ensures
            res == (self@ == StateView::Connected),
    {
        match self {
            State::Connected => true,
            _ => false,
        }
    }

    /// The text that shows the state to the user.
    pub fn to_string(&self) -> (res: String)
        ensures
            res@ == self@.label(),
    {
        match self {
            State::Connecting => "Connecting".to_owned(),
            State::Subscribing => "Subscribing".to_owned(),
            State::Connected => "Connected".to_owned(),
            State::Disconnected => "Disconnected".to_owned(),
            State::Failed(reason) => {
                let mut text = "Failed (".to_owned();
                text.append(reason.as_str());
                text.append(")");
                text
            },
        }
    }
}

/// What the connector reports, and what is asked of the connection.
#[derive(Debug)]
pub enum Event {
    /// Start connecting.
    Start,
    /// The connector has connected.
    Connected,
    /// The connector has subscribed.
    Subscribed,
    /// The connector has failed, or the connection was lost, for the reason
    /// given.
    Lost(String),
    /// Tear the connection down.
    Stop,
}

/// The mathematical value of an [`Event`].
pub enum EventView {
    Start,
    Connected,
    Subscribed,
    Lost(Seq<char>),
    Stop,
}

impl View for Event {
    type V = EventView;

    open spec fn view(&self) -> EventView {
        match self {
            Event::Start => EventView::Start,
            Event::Connected => EventView::Connected,
            Event::Subscribed => EventView::Subscribed,
            Event::Lost(reason) => EventView::Lost(reason@),
            Event::Stop => EventView::Stop,
        }
    }
}

/// The state of the connection after `event` arrived in state `state`. An
/// event that the state does not wait for leaves the state as it is.
pub open spec fn next_state(state: StateView, event: EventView) -> StateView {
    match event {
        EventView::Start => match state {
            StateView::Disconnected | StateView::Failed(_) => StateView::Connecting,
            _ => state,
        },
        EventView::Connected => match state {
            StateView::Connecting => StateView::Subscribing,
            _ => state,
        },
        EventView::Subscribed => match state {
            StateView::Subscribing => StateView::Connected,
            _ => state,
        },
        EventView::Lost(reason) => StateView::Failed(reason),
        EventView::Stop => StateView::Disconnected,
    }
}

/// The state of the connection after `events` arrived, in order, in state
/// `state`.
pub open spec fn run(state: StateView, events: Seq<EventView>) -> StateView
    decreases events.len(),
{
    if events.len() == 0 {
        state
    } else {
        next_state(run(state, events.drop_last()), events.last())
    }
}

impl State {
    /// The state of the connection after `event` arrived in this state.
    pub fn next(self, event: Event) -> (res: State)
        ensures
            res@ == next_state(self@, event@),
    {
        match event {
            Event::Start => match self {
                State::Disconnected | State::Failed(_) => State::Connecting,
                state => state,
            },
            Event::Connected => match self {
                State::Connecting => State::Subscribing,
                state => state,
            },
            Event::Subscribed => match self {
                State::Subscribing => State::Connected,
                state => state,
            },
            Event::Lost(reason) => State::Failed(reason),
            Event::Stop => State::Disconnected,
        }
    }
}

/// A start that meets nothing but success goes from disconnected through
/// connecting and subscribing to connected.
pub proof fn lemma_start_reaches_connected()
    ensures
        next_state(StateView::Disconnected, EventView::Start) == StateView::Connecting,
        next_state(StateView::Connecting, EventView::Connected) == StateView::Subscribing,
        next_state(StateView::Subscribing, EventView::Subscribed) == StateView::Connected,
        run(
            StateView::Disconnected,
            seq![EventView::Start, EventView::Connected, EventView::Subscribed],
        ) == StateView::Connected,
{
    let events = seq![EventView::Start, EventView::Connected, EventView::Subscribed];
    assert(events.drop_last() =~= seq![EventView::Start, EventView::Connected]);
    assert(events.drop_last().drop_last() =~= seq![EventView::Start]);
    assert(events.drop_last().drop_last().drop_last() =~= Seq::<EventView>::empty());
    reveal_with_fuel(run, 4);
}

/// A failure leads to the failed state with its reason, and a stop to the
/// disconnected state, wherever the connection stood; a failed connection can
/// be started again.
pub proof fn lemma_failure_and_stop(state: StateView, reason: Seq<char>)
    ensures
        next_state(state, EventView::Lost(reason)) == StateView::Failed(reason),
        next_state(state, EventView::Stop) == StateView::Disconnected,
        next_state(StateView::Failed(reason), EventView::Start) == StateView::Connecting,
{
}

/// However the connection got where it is, a stop leaves it disconnected.
pub proof fn lemma_stop_always_disconnects(state: StateView, events: Seq<EventView>)
    ensures
        run(state, events.push(EventView::Stop)) == StateView::Disconnected,
{
    assert(events.push(EventView::Stop).drop_last() =~= events);
}

} // verus!
