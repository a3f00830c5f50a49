//! The coordinator: it owns the connection state, the running simulations
//! with their claims, what the channels hold, the history of commands, and
//! the observers.
//!
//! Every step takes what happened and gives back the effects that the owner
//! has to carry out, in order. What is sent to observers is part of the
//! effects, and holds the state as it was when the effect was made.

use crate::claims::{ClaimView, Claims};
use crate::command::{command_views, keep_last, Command, CommandHistory, CommandView};
use crate::connection::{next_state, Event, EventView, State, StateView};
use crate::publish::{ChannelState, PublishEvent, PublishEventView};
use crate::settings::{Settings, Simulation, SimulationView, Target};
use crate::simulations::{
    after_command, command_activity, created, start_activity, stop_activity, update_activity,
    Activity, HandlerView, SimulationHandler,
};
use crate::string_map::StringMap;
use crate::target::SimulationDescription;
use vstd::prelude::*;

verus! {

/// The key of a running simulation.
pub type GeneratorId = String;

/// The key of an observer.
pub type HandlerId = u64;

/// What an observer wants to hear of.
#[derive(Debug)]
pub enum Interest {
    /// The state of the simulator, whenever it changes.
    State,
    /// What the simulation with the given id presents.
    Simulation(String),
    /// Every command that arrives.
    Commands,
}

/// The mathematical value of an [`Interest`].
pub enum InterestView {
    State,
    Simulation(Seq<char>),
    Commands,
}

impl View for Interest {
    type V = InterestView;

    open spec fn view(&self) -> InterestView {
        match self {
            Interest::State => InterestView::State,
            Interest::Simulation(id) => InterestView::Simulation(id@),
            Interest::Commands => InterestView::Commands,
        }
    }
}

/// The state of the simulator as observers see it.
#[derive(Debug)]
pub struct SimulatorState {
    /// Whether the simulator was started and not stopped since.
    pub running: bool,
    /// Where the connection stands.
    pub state: State,
    /// The claims of the running simulations.
    pub claims: Claims,
    /// The descriptions of the running simulations, by id.
    pub simulations: StringMap<SimulationDescription>,
}

/// The mathematical value of a [`SimulatorState`].
pub struct SimulatorStateView {
    pub running: bool,
    pub state: StateView,
    /// The ids of the running simulations, in the order of the registry.
    pub order: Seq<Seq<char>>,
    pub claims: Map<Seq<char>, Seq<ClaimView>>,
    pub simulations: Map<Seq<char>, Seq<char>>,
}

impl View for SimulatorState {
    type V = SimulatorStateView;

    open spec fn view(&self) -> SimulatorStateView {
        SimulatorStateView {
            running: self.running,
            state: self.state@,
            order: self.claims.order(),
            claims: self.claims@,
            simulations: self.simulations@.map_values(
                |description: SimulationDescription| description@,
            ),
        }
    }
}

impl SimulatorState {
    /// Whether a simulation other than `exclude` holds a claim that overlaps
    /// one of those that `simulation` would take: a reason to warn, never to
    /// refuse.
    pub fn conflicts(&self, simulation: &Simulation, exclude: Option<&str>) -> (res: bool)
        ensures
            res == crate::claims::any_claimed_by_other(
                self@.claims,
                simulation@.claims(),
                crate::text::opt_str_view(exclude),
            ),
    {
        self.claims.is_claimed_any(simulation.to_claims(), exclude)
    }
}

impl Clone for SimulatorState {
    fn clone(&self) -> (res: Self)
        ensures
            res@ == self@,
            res.claims.order() == self.claims.order(),
            res.simulations.keys() == self.simulations.keys(),
    {
        let simulations = self.simulations.clone();
        proof {
            use_type_invariant(&self.simulations);
            use_type_invariant(&simulations);
            self.simulations.lemma_entries();
            simulations.lemma_entries();
            let keys = self.simulations.keys();
            assert forall|i: int| 0 <= i < keys.len() implies #[trigger] simulations.values()[i]
                == self.simulations.values()[i] by {
                assert(cloned::<SimulationDescription>(
                    self.simulations.values()[i],
                    simulations.values()[i],
                ));
            }
            assert(simulations.values() =~= self.simulations.values());
        }
        SimulatorState {
            running: self.running,
            state: self.state.clone(),
            claims: self.claims.clone(),
            simulations,
        }
    }
}

impl Default for SimulatorState {
    fn default() -> (res: Self)
        ensures
            res@ == (SimulatorStateView {
                running: false,
                state: StateView::Disconnected,
                order: Seq::empty(),
                claims: Map::empty(),
                simulations: Map::empty(),
            }),
    {
        let res = SimulatorState {
            running: false,
            state: State::Disconnected,
            claims: Claims::new(),
            simulations: StringMap::new(),
        };
        assert(res@.simulations =~= Map::<Seq<char>, Seq<char>>::empty());
        res
    }
}

/// What an observer asks of the simulator.
#[derive(Debug)]
pub enum Request {
    Start,
    Stop,
    Publish { channel: String, payload: Vec<u8> },
    FetchHistory,
}

/// What the simulator tells an observer.
#[derive(Debug)]
pub enum Response {
    State(SimulatorState),
    Command(Command),
    CommandHistory(Vec<Command>),
    /// The simulation with the given id presents something new.
    SimulationState(String),
}

/// The mathematical value of a [`Response`].
pub enum ResponseView {
    State(SimulatorStateView),
    Command(CommandView),
    CommandHistory(Seq<CommandView>),
    SimulationState(Seq<char>),
}

impl View for Response {
    type V = ResponseView;

    open spec fn view(&self) -> ResponseView {
        match self {
            Response::State(state) => ResponseView::State(state@),
            Response::Command(command) => ResponseView::Command(command@),
            Response::CommandHistory(commands) => ResponseView::CommandHistory(
                command_views(commands@),
            ),
            Response::SimulationState(id) => ResponseView::SimulationState(id@),
        }
    }
}

/// What happens to the simulator from within.
#[derive(Debug)]
pub enum Msg<V> {
    /// New settings are in force.
    Settings(Settings),
    /// The connector has connected.
    Connected,
    /// The connector has subscribed.
    Subscribed,
    /// The connector has failed, or the connection was lost.
    Disconnected(String),
    /// A command arrived from the broker.
    Command(Command),
    /// A simulation publishes.
    PublishEvent(PublishEvent<V>),
    /// The simulation with the given id presents something new.
    SimulationState(String),
}

/// What the owner of the simulator has to do after a step.
#[derive(Debug)]
pub enum Effect {
    /// Send `response` to the observer `to`.
    Respond { to: HandlerId, response: Response },
    /// Make a connector for the target of the settings and start connecting.
    Connect,
    /// Subscribe to commands.
    Subscribe,
    /// Tear the connector down.
    Disconnect,
    /// Publish `payload` on `channel`.
    Publish { channel: String, payload: Vec<u8> },
    /// Publish what the simulator holds for `channel`.
    PublishState { channel: String },
    /// Do for the simulation `id` what `activity` says.
    Simulation { id: GeneratorId, activity: Activity },
}

/// The mathematical value of an [`Effect`].
pub enum EffectView {
    Respond { to: HandlerId, response: ResponseView },
    Connect,
    Subscribe,
    Disconnect,
    Publish { channel: Seq<char>, payload: Seq<u8> },
    PublishState { channel: Seq<char> },
    Simulation { id: Seq<char>, activity: Activity },
}

impl View for Effect {
    type V = EffectView;

    open spec fn view(&self) -> EffectView {
        match self {
            Effect::Respond { to, response } => EffectView::Respond { to: *to, response: response@ },
            Effect::Connect => EffectView::Connect,
            Effect::Subscribe => EffectView::Subscribe,
            Effect::Disconnect => EffectView::Disconnect,
            Effect::Publish { channel, payload } => EffectView::Publish {
                channel: channel@,
                payload: payload@,
            },
            Effect::PublishState { channel } => EffectView::PublishState { channel: channel@ },
            Effect::Simulation { id, activity } => EffectView::Simulation {
                id: id@,
                activity: *activity,
            },
        }
    }
}

/// The values of a list of effects, in order.
pub open spec fn effect_views(effects: Seq<Effect>) -> Seq<EffectView> {
    Seq::new(effects.len(), |i: int| effects[i]@)
}

/// The values of a list of observers, in order.
pub open spec fn observer_views(observers: Seq<(HandlerId, Interest)>) -> Seq<
    (HandlerId, InterestView),
> {
    Seq::new(observers.len(), |i: int| (observers[i].0, observers[i].1@))
}

/// The effects that send `response` to each of `observers` whose interest is
/// `interest`, in their order.
pub open spec fn notify(
    observers: Seq<(HandlerId, InterestView)>,
    interest: InterestView,
    response: ResponseView,
) -> Seq<EffectView>
    decreases observers.len(),
{
    if observers.len() == 0 {
        Seq::empty()
    } else {
        let earlier = notify(observers.drop_last(), interest, response);
        if observers.last().1 == interest {
            earlier.push(EffectView::Respond { to: observers.last().0, response })
        } else {
            earlier
        }
    }
}

/// Every effect of a notification sends the response that was given, to an
/// observer with the interest that was given; and every such observer is
/// sent one.
pub proof fn lemma_notify_reaches_the_interested(
    observers: Seq<(HandlerId, InterestView)>,
    interest: InterestView,
    response: ResponseView,
)
    ensures
        forall|k: int|
            0 <= k < notify(observers, interest, response).len() ==> {
                &&& #[trigger] notify(observers, interest, response)[k] matches EffectView::Respond {
                    to,
                    response: sent,
                }
                &&& sent == response
                &&& observers.contains((to, interest))
            },
        forall|i: int|
            0 <= i < observers.len() && (#[trigger] observers[i]).1 == interest ==> notify(
                observers,
                interest,
                response,
            ).contains(EffectView::Respond { to: observers[i].0, response }),
    decreases observers.len(),
{
    if observers.len() > 0 {
        let earlier = observers.drop_last();
        lemma_notify_reaches_the_interested(earlier, interest, response);
        let sent = notify(observers, interest, response);
        let before = notify(earlier, interest, response);
        assert forall|k: int| 0 <= k < sent.len() implies {
            &&& #[trigger] sent[k] matches EffectView::Respond { to, response: r }
            &&& r == response
            &&& observers.contains((to, interest))
        } by {
            if k < before.len() {
                let to = before[k]->Respond_to;
                let j = choose|j: int| 0 <= j < earlier.len() && earlier[j] == (to, interest);
                assert(observers[j] == (to, interest));
            } else {
                assert(observers[observers.len() - 1] == (observers.last().0, interest));
            }
        }
        assert forall|i: int| 0 <= i < observers.len() && (#[trigger] observers[i]).1
            == interest implies sent.contains(
            EffectView::Respond { to: observers[i].0, response },
        ) by {
            let wanted = EffectView::Respond { to: observers[i].0, response };
            if i < earlier.len() {
                assert(earlier[i] == observers[i]);
                let k = choose|k: int| 0 <= k < before.len() && before[k] == wanted;
                assert(sent[k] == wanted);
            } else {
                assert(sent[sent.len() - 1] == wanted);
            }
        }
    }
}


impl Clone for Response {
    fn clone(&self) -> (res: Self)
        ensures
            res@ == self@,
    {
        match self {
            Response::State(state) => Response::State(state.clone()),
            Response::Command(command) => Response::Command(command.clone()),
            Response::CommandHistory(commands) => {
                let mut copies: Vec<Command> = Vec::new();
                let mut i: usize = 0;
                while i < commands.len()
                    invariant
                        i <= commands.len(),
                        copies@.len() == i,
                        forall|k: int| 0 <= k < i ==> (#[trigger] copies@[k])@ == commands@[k]@,
                    decreases commands.len() - i,
                {
                    copies.push(commands[i].clone());
                    i += 1;
                }
                assert(command_views(copies@) =~= command_views(commands@));
                Response::CommandHistory(copies)
            },
            Response::SimulationState(id) => Response::SimulationState(id.clone()),
        }
    }
}

impl Interest {
    /// Whether this interest and `other` are the same.
    pub fn same(&self, other: &Interest) -> (res: bool)
        ensures
            res == (self@ == other@),
    {
        match (self, other) {
            (Interest::State, Interest::State) => true,
            (Interest::Commands, Interest::Commands) => true,
            (Interest::Simulation(a), Interest::Simulation(b)) => *a == *b,
            _ => false,
        }
    }
}

/// The mathematical value of a [`Simulator`].
pub struct SimulatorView<V> {
    /// Whether the simulator was started and not stopped since.
    pub running: bool,
    /// Where the connection stands.
    pub connection: StateView,
    /// Whether there is a connector.
    pub connector: bool,
    /// Whether the settings ask to connect without being asked.
    pub auto_connect: bool,
    /// Whether the target of the settings is an MQTT endpoint.
    pub mqtt: bool,
    /// The history of commands, oldest first.
    pub commands: Seq<CommandView>,
    /// The number of commands that the history keeps at most.
    pub capacity: nat,
    /// The ids of the running simulations, in the order of the registry.
    pub ids: Seq<Seq<char>>,
    /// The running simulations, by id.
    pub generators: Map<Seq<char>, HandlerView>,
    /// What each channel holds: its features, and their properties.
    pub data: Map<Seq<char>, Map<Seq<char>, Map<Seq<char>, V>>>,
    /// The observers, in the order in which they attached.
    pub observers: Seq<(HandlerId, InterestView)>,
}

/// The claims of each of `generators`.
pub open spec fn claims_of(generators: Map<Seq<char>, HandlerView>) -> Map<
    Seq<char>,
    Seq<ClaimView>,
> {
    generators.map_values(|handler: HandlerView| handler.simulation.claims())
}

/// The description of each of `generators`.
pub open spec fn labels_of(generators: Map<Seq<char>, HandlerView>) -> Map<Seq<char>, Seq<char>> {
    generators.map_values(|handler: HandlerView| handler.simulation.description())
}

impl<V> SimulatorView<V> {
    /// The state of the simulator as observers see it.
    pub open spec fn snapshot(self) -> SimulatorStateView {
        SimulatorStateView {
            running: self.running,
            state: self.connection,
            order: self.ids,
            claims: claims_of(self.generators),
            simulations: labels_of(self.generators),
        }
    }

    /// The effects that send the state of the simulator to every observer
    /// that wants it.
    pub open spec fn broadcast(self) -> Seq<EffectView> {
        notify(self.observers, InterestView::State, ResponseView::State(self.snapshot()))
    }

    /// A start: the simulator runs, and where the target is an MQTT endpoint
    /// a connector is made and connects. Observers hear of both.
    pub open spec fn started(self) -> (Self, Seq<EffectView>) {
        let running = SimulatorView { running: true, ..self };
        if self.mqtt {
            let connecting = SimulatorView {
                connection: next_state(self.connection, EventView::Start),
                connector: true,
                ..running
            };
            (
                connecting,
                running.broadcast() + connecting.broadcast() + seq![EffectView::Connect],
            )
        } else {
            (SimulatorView { connector: false, ..running }, running.broadcast())
        }
    }

    /// A stop: the connector, if there is one, is torn down, and the
    /// simulator neither runs nor is connected.
    pub open spec fn stopped(self) -> (Self, Seq<EffectView>) {
        let stopped = SimulatorView {
            running: false,
            connection: next_state(self.connection, EventView::Stop),
            connector: false,
            ..self
        };
        (
            stopped,
            if self.connector {
                seq![EffectView::Disconnect] + stopped.broadcast()
            } else {
                stopped.broadcast()
            },
        )
    }

    /// A stop and then a start.
    pub open spec fn restarted(self) -> (Self, Seq<EffectView>) {
        let (stopped, first) = self.stopped();
        let (started, second) = stopped.started();
        (started, first + second)
    }

    /// The request to start: a simulator that does not run starts, one whose
    /// connection has failed starts over, and any other stays as it is.
    pub open spec fn start_requested(self) -> (Self, Seq<EffectView>) {
        if !self.running {
            self.started()
        } else if self.connection is Failed {
            self.restarted()
        } else {
            (self, Seq::empty())
        }
    }

    /// The request to stop: a simulator that runs, or whose connection is
    /// not disconnected, stops; one that is stopped already stays as it is.
    pub open spec fn stop_requested(self) -> (Self, Seq<EffectView>) {
        if self.running || !(self.connection is Disconnected) {
            self.stopped()
        } else {
            (self, Seq::empty())
        }
    }

    /// The connector has connected: a connection that was connecting goes on
    /// to subscribe, and any other stays as it is.
    pub open spec fn connected(self) -> (Self, Seq<EffectView>) {
        if self.connection is Connecting {
            let subscribing = SimulatorView { connection: StateView::Subscribing, ..self };
            (
                subscribing,
                if self.connector {
                    subscribing.broadcast() + seq![EffectView::Subscribe]
                } else {
                    subscribing.broadcast()
                },
            )
        } else {
            (self, Seq::empty())
        }
    }

    /// The connector has subscribed: a connection that was subscribing is
    /// connected, and any other stays as it is.
    pub open spec fn subscribed(self) -> (Self, Seq<EffectView>) {
        if self.connection is Subscribing {
            let connected = SimulatorView { connection: StateView::Connected, ..self };
            (connected, connected.broadcast())
        } else {
            (self, Seq::empty())
        }
    }

    /// The connector has failed, or the connection was lost: the connection
    /// has failed for the reason given.
    pub open spec fn disconnected(self, reason: Seq<char>) -> (Self, Seq<EffectView>) {
        let failed = SimulatorView { connection: StateView::Failed(reason), ..self };
        (failed, failed.broadcast())
    }

    /// The request to publish `payload` on `channel`: it goes out where there
    /// is a connector.
    pub open spec fn publish_requested(self, channel: Seq<char>, payload: Seq<u8>) -> Seq<
        EffectView,
    > {
        if self.connector {
            seq![EffectView::Publish { channel, payload }]
        } else {
            Seq::empty()
        }
    }

    /// The request for the history of commands by the observer `from`.
    pub open spec fn history_requested(self, from: HandlerId) -> Seq<EffectView> {
        seq![
            EffectView::Respond { to: from, response: ResponseView::CommandHistory(self.commands) },
        ]
    }

    /// The simulation `id` presents something new: the observers of that
    /// simulation hear of it.
    pub open spec fn presented(self, id: Seq<char>) -> Seq<EffectView> {
        notify(self.observers, InterestView::Simulation(id), ResponseView::SimulationState(id))
    }

    /// A simulation publishes `event`: what the simulator holds for the
    /// channel takes the publication in, and goes out where there is a
    /// connector.
    pub open spec fn published(self, event: PublishEventView<V>) -> (Self, Seq<EffectView>) {
        (
            SimulatorView {
                data: match event {
                    PublishEventView::Single { channel, name, feature } => self.data.insert(
                        channel,
                        if self.data.contains_key(channel) {
                            self.data[channel].insert(name, feature)
                        } else {
                            Map::<Seq<char>, Map<Seq<char>, V>>::empty().insert(name, feature)
                        },
                    ),
                    PublishEventView::Full { channel, state } => self.data.insert(channel, state),
                },
                ..self
            },
            if self.connector {
                seq![EffectView::PublishState { channel: event.channel() }]
            } else {
                Seq::empty()
            },
        )
    }

    /// A command arrives: it joins the history, the observers of commands
    /// hear of it, and every simulation that writes to the channel of the
    /// command's name takes it.
    pub open spec fn commanded(self, command: CommandView) -> (Self, Seq<EffectView>) {
        (
            SimulatorView {
                commands: keep_last(self.commands.push(command), self.capacity),
                generators: delivered(self.generators, command),
                ..self
            },
            notify(self.observers, InterestView::Commands, ResponseView::Command(command))
                + delivery_effects(self.ids, self.generators, command),
        )
    }

    /// The simulator without the simulation `id`: a simulation of that id is
    /// stopped and leaves the registry.
    pub open spec fn without(self, id: Seq<char>) -> (Self, Seq<EffectView>) {
        if self.generators.contains_key(id) {
            (
                SimulatorView {
                    ids: self.ids.remove(self.ids.index_of(id)),
                    generators: self.generators.remove(id),
                    ..self
                },
                seq![
                    EffectView::Simulation {
                        id,
                        activity: stop_activity(self.generators[id].simulation),
                    },
                ],
            )
        } else {
            (self, Seq::empty())
        }
    }

    /// The simulator with the simulation `id` configured by `simulation`: a
    /// simulation of that id and kind takes the configuration in place, and
    /// otherwise a new simulation is created and started, in place of one of
    /// another kind if there is one. The simulation is then the last of the
    /// registry.
    pub open spec fn with(self, id: Seq<char>, simulation: SimulationView) -> (
        Self,
        Seq<EffectView>,
    ) {
        if self.generators.contains_key(id) && self.generators[id].simulation.kind()
            == simulation.kind() {
            let current = self.generators[id];
            let activity = update_activity(current.simulation, simulation, current.running);
            (
                SimulatorView {
                    ids: self.ids.remove(self.ids.index_of(id)).push(id),
                    generators: self.generators.insert(
                        id,
                        HandlerView { simulation, ..current },
                    ),
                    ..self
                },
                if activity != Activity::Nothing {
                    seq![EffectView::Simulation { id, activity }]
                } else {
                    Seq::empty()
                },
            )
        } else {
            let (removed, stopping) = self.without(id);
            (
                SimulatorView {
                    ids: removed.ids.push(id),
                    generators: removed.generators.insert(
                        id,
                        HandlerView { running: true, ..created(simulation) },
                    ),
                    ..removed
                },
                stopping + seq![
                    EffectView::Simulation { id, activity: start_activity(simulation) },
                ],
            )
        }
    }

    /// Adding the simulation `id`, or putting a new configuration in its
    /// place: observers hear of the claims and descriptions that result.
    pub open spec fn added(self, id: Seq<char>, simulation: SimulationView) -> (
        Self,
        Seq<EffectView>,
    ) {
        let (next, effects) = self.with(id, simulation);
        (next, effects + next.broadcast())
    }

    /// Updating the simulation `id`: as adding, but an id that the registry
    /// does not hold is left alone.
    pub open spec fn updated(self, id: Seq<char>, simulation: SimulationView) -> (
        Self,
        Seq<EffectView>,
    ) {
        if self.generators.contains_key(id) {
            self.added(id, simulation)
        } else {
            (self, Seq::empty())
        }
    }

    /// Removing the simulation `id`: observers hear of it where there was
    /// one.
    pub open spec fn removed(self, id: Seq<char>) -> (Self, Seq<EffectView>) {
        if self.generators.contains_key(id) {
            let (next, effects) = self.without(id);
            (next, effects + next.broadcast())
        } else {
            (self, Seq::empty())
        }
    }

    /// The simulator with each of the simulations `ids`, in order, configured
    /// by what `simulations` holds for it.
    pub open spec fn installed(
        self,
        ids: Seq<Seq<char>>,
        simulations: Map<Seq<char>, SimulationView>,
    ) -> (Self, Seq<EffectView>)
        decreases ids.len(),
    {
        if ids.len() == 0 {
            (self, Seq::empty())
        } else {
            let (earlier, first) = self.installed(ids.drop_last(), simulations);
            let (next, second) = earlier.with(ids.last(), simulations[ids.last()]);
            (next, first + second)
        }
    }

    /// The simulator without the simulations whose ids are not in `keep`.
    pub open spec fn retained(self, keep: Set<Seq<char>>) -> (Self, Seq<EffectView>) {
        (
            SimulatorView {
                ids: kept(self.ids, keep),
                generators: self.generators.restrict(keep),
                ..self
            },
            stop_effects(self.ids, self.generators, keep),
        )
    }

    /// New settings are in force, with the simulations `ids`, in order, that
    /// `simulations` configures: simulations that the settings do not name
    /// stop, the others are configured by them, and observers hear of the
    /// result. A simulator that runs then starts over, and one that does not
    /// starts where the settings ask for it.
    pub open spec fn configured(
        self,
        auto_connect: bool,
        mqtt: bool,
        ids: Seq<Seq<char>>,
        simulations: Map<Seq<char>, SimulationView>,
    ) -> (Self, Seq<EffectView>) {
        let (retained, stopping) = self.retained(ids.to_set());
        let (installed, installing) = retained.installed(ids, simulations);
        let synced = SimulatorView { auto_connect, mqtt, ..installed };
        let (connected, connecting) = if synced.running {
            synced.restarted()
        } else if auto_connect {
            synced.started()
        } else {
            (synced, Seq::empty())
        };
        (connected, stopping + installing + synced.broadcast() + connecting)
    }

    /// The observer `id` attaches with `interest`, or changes its interest.
    pub open spec fn attached(self, id: HandlerId, interest: InterestView) -> Self {
        SimulatorView {
            observers: if has_observer(self.observers, id) {
                self.observers.update(observer_index(self.observers, id), (id, interest))
            } else {
                self.observers.push((id, interest))
            },
            ..self
        }
    }

    /// The observer `id` detaches.
    pub open spec fn detached(self, id: HandlerId) -> Self {
        SimulatorView {
            observers: if has_observer(self.observers, id) {
                self.observers.remove(observer_index(self.observers, id))
            } else {
                self.observers
            },
            ..self
        }
    }
}

/// The simulations `generators` after `command` was handed to each that
/// writes to the channel of its name.
pub open spec fn delivered(generators: Map<Seq<char>, HandlerView>, command: CommandView) -> Map<
    Seq<char>,
    HandlerView,
> {
    generators.map_values(
        |handler: HandlerView|
            if handler.simulation.channel() == command.name {
                after_command(handler, command)
            } else {
                handler
            },
    )
}

/// What handing `command` to the simulations `ids`, in order, asks of their
/// owner: one effect for each simulation that has something to do.
pub open spec fn delivery_effects(
    ids: Seq<Seq<char>>,
    generators: Map<Seq<char>, HandlerView>,
    command: CommandView,
) -> Seq<EffectView>
    decreases ids.len(),
{
    if ids.len() == 0 {
        Seq::empty()
    } else {
        let earlier = delivery_effects(ids.drop_last(), generators, command);
        let handler = generators[ids.last()];
        if handler.simulation.channel() == command.name && command_activity(handler)
            != Activity::Nothing {
            earlier.push(
                EffectView::Simulation { id: ids.last(), activity: command_activity(handler) },
            )
        } else {
            earlier
        }
    }
}

/// Those of `ids` that are in `keep`, in order.
pub open spec fn kept(ids: Seq<Seq<char>>, keep: Set<Seq<char>>) -> Seq<Seq<char>>
    decreases ids.len(),
{
    if ids.len() == 0 {
        Seq::empty()
    } else if keep.contains(ids.last()) {
        kept(ids.drop_last(), keep).push(ids.last())
    } else {
        kept(ids.drop_last(), keep)
    }
}

/// The effects that stop each of the simulations `ids` that is not in
/// `keep`, in order.
pub open spec fn stop_effects(
    ids: Seq<Seq<char>>,
    generators: Map<Seq<char>, HandlerView>,
    keep: Set<Seq<char>>,
) -> Seq<EffectView>
    decreases ids.len(),
{
    if ids.len() == 0 {
        Seq::empty()
    } else if keep.contains(ids.last()) {
        stop_effects(ids.drop_last(), generators, keep)
    } else {
        stop_effects(ids.drop_last(), generators, keep).push(
            EffectView::Simulation {
                id: ids.last(),
                activity: stop_activity(generators[ids.last()].simulation),
            },
        )
    }
}

/// The values of the simulations that settings name.
pub open spec fn simulation_views(simulations: Map<Seq<char>, Simulation>) -> Map<
    Seq<char>,
    SimulationView,
> {
    simulations.map_values(|simulation: Simulation| simulation@)
}

/// An id is kept exactly when it is one of the ids and is to be kept.
pub proof fn lemma_kept(ids: Seq<Seq<char>>, keep: Set<Seq<char>>)
    ensures
        forall|id: Seq<char>| #[trigger]
            kept(ids, keep).contains(id) <==> ids.contains(id) && keep.contains(id),
    decreases ids.len(),
{
    if ids.len() > 0 {
        let earlier = ids.drop_last();
        lemma_kept(earlier, keep);
        assert forall|id: Seq<char>| #[trigger]
            kept(ids, keep).contains(id) <==> ids.contains(id) && keep.contains(id) by {
            if kept(ids, keep).contains(id) {
                let k = choose|k: int| 0 <= k < kept(ids, keep).len() && kept(ids, keep)[k] == id;
                if k < kept(earlier, keep).len() {
                    assert(kept(earlier, keep)[k] == id);
                    assert(kept(earlier, keep).contains(id));
                    let j = choose|j: int| 0 <= j < earlier.len() && earlier[j] == id;
                    assert(ids[j] == id);
                } else {
                    assert(ids[ids.len() - 1] == id);
                }
            }
            if ids.contains(id) && keep.contains(id) {
                let j = choose|j: int| 0 <= j < ids.len() && ids[j] == id;
                if j < earlier.len() {
                    assert(earlier[j] == id);
                    assert(kept(earlier, keep).contains(id));
                    let k = choose|k: int|
                        0 <= k < kept(earlier, keep).len() && kept(earlier, keep)[k] == id;
                    assert(kept(ids, keep)[k] == id);
                } else {
                    assert(kept(ids, keep)[kept(ids, keep).len() - 1] == id);
                }
            }
        }
    }
}

/// The values of the simulations of a registry.
pub open spec fn handler_views(generators: Map<Seq<char>, SimulationHandler>) -> Map<
    Seq<char>,
    HandlerView,
> {
    generators.map_values(|handler: SimulationHandler| handler@)
}

/// Hands `command` to each of `generators` that writes to the channel of its
/// name, and adds what that asks for to `effects`.
fn deliver(generators: &mut StringMap<SimulationHandler>, command: &Command, effects: &mut Vec<Effect>)
    ensures
        final(generators).keys() == old(generators).keys(),
        handler_views(final(generators)@) == delivered(handler_views(old(generators)@), command@),
        effect_views(final(effects)@) == effect_views(old(effects)@) + delivery_effects(
            old(generators).keys(),
            handler_views(old(generators)@),
            command@,
        ),
{
    let n = generators.len();
    proof {
        use_type_invariant(&*generators);
        generators.lemma_entries();
    }
    let ghost ids = generators.keys();
    let ghost handlers = generators.values();
    let ghost views = handler_views(generators@);
    let ghost before = effect_views(effects@);
    let mut i: usize = 0;
    while i < n
        invariant
            i <= n,
            n == ids.len(),
            n == handlers.len(),
            ids.no_duplicates(),
            generators.keys() == ids.skip(i as int) + ids.take(i as int),
            generators.values().len() == n,
            forall|k: int| 0 <= k < n - i ==> #[trigger] generators.values()[k] == handlers[i + k],
            forall|k: int|
                n - i <= k < n ==> (#[trigger] generators.values()[k])@ == delivered(
                    views,
                    command@,
                )[ids[k - (n - i)]],
            forall|k: int| 0 <= k < n ==> views.contains_key(#[trigger] ids[k]) && views[ids[k]]
                == handlers[k]@,
            effect_views(effects@) == before + delivery_effects(ids.take(i as int), views, command@),
        decreases n - i,
    {
        let ghost keys_before = generators.keys();
        let ghost values_before = generators.values();
        let ghost sent = effect_views(effects@);
        assert(keys_before[0] == ids[i as int]);
        assert(values_before[0] == handlers[i as int]);
        assert(ids.take(i + 1).drop_last() =~= ids.take(i as int));
        match generators.pop_front() {
            Some((id, handler)) => {
                let mut handler = handler;
                if handler.writes_to(command.name.as_str()) {
                    let activity = handler.command(command);
                    match activity {
                        Activity::Nothing => {},
                        _ => {
                            effects.push(Effect::Simulation { id: id.clone(), activity });
                            assert(effect_views(effects@) =~= sent.push(
                                EffectView::Simulation { id: id@, activity },
                            ));
                        },
                    }
                }
                assert(effect_views(effects@) =~= before + delivery_effects(
                    ids.take(i + 1),
                    views,
                    command@,
                ));
                let ghost moved = handler;
                let _ = generators.insert(id, handler);
                proof {
                    assert(generators.keys() =~= ids.skip(i + 1) + ids.take(i + 1));
                    assert forall|k: int| 0 <= k < n - (i + 1) implies #[trigger]
                        generators.values()[k] == handlers[i + 1 + k] by {
                        assert(generators.values()[k] == values_before.skip(1)[k]);
                        assert(values_before[k + 1] == handlers[i + (k + 1)]);
                    }
                    assert forall|k: int| n - (i + 1) <= k < n implies (
                    #[trigger] generators.values()[k])@ == delivered(views, command@)[ids[k - (n
                        - (i + 1))]] by {
                        if k < n - 1 {
                            assert(generators.values()[k] == values_before.skip(1)[k]);
                            assert(values_before[k + 1]@ == delivered(views, command@)[ids[(k + 1)
                                - (n - i)]]);
                        } else {
                            assert(generators.values()[k] == moved);
                        }
                    }
                }
            },
            None => {},
        }
        i += 1;
    }
    proof {
        use_type_invariant(&*generators);
        generators.lemma_entries();
        assert(ids.take(n as int) =~= ids);
        assert(generators.keys() =~= ids);
        let after = handler_views(generators@);
        let wanted = delivered(views, command@);
        assert forall|id: Seq<char>| #[trigger] after.contains_key(id) implies after[id]
            == wanted[id] by {
            let k = ids.index_of(id);
            assert(ids[k] == id);
            assert(generators@[id] == generators.values()[k]);
        }
        assert(after.dom() =~= wanted.dom()) by {
            assert(after.dom() =~= ids.to_set());
            assert(views.dom() =~= ids.to_set());
        }
        assert(after =~= wanted);
    }
}

/// Whether the observer `id` is among `observers`.
pub open spec fn has_observer(observers: Seq<(HandlerId, InterestView)>, id: HandlerId) -> bool {
    exists|i: int| 0 <= i < observers.len() && (#[trigger] observers[i]).0 == id
}

/// The position of the observer `id` among `observers`.
pub open spec fn observer_index(observers: Seq<(HandlerId, InterestView)>, id: HandlerId) -> int {
    choose|i: int| 0 <= i < observers.len() && (#[trigger] observers[i]).0 == id
}

/// No observer occurs twice.
pub open spec fn distinct_observers(observers: Seq<(HandlerId, InterestView)>) -> bool {
    forall|i: int, j: int|
        0 <= i < j < observers.len() ==> (#[trigger] observers[i]).0 != (#[trigger] observers[j]).0
}

/// The coordinator of the simulation engine.
pub struct Simulator<V> {
    state: SimulatorState,
    settings: Settings,
    connector: bool,
    commands: CommandHistory,
    generators: StringMap<SimulationHandler>,
    data: StringMap<ChannelState<V>>,
    subscribers: Vec<(HandlerId, Interest)>,
}

impl<V> View for Simulator<V> {
    type V = SimulatorView<V>;

    closed spec fn view(&self) -> SimulatorView<V> {
        SimulatorView {
            running: self.state.running,
            connection: self.state.state@,
            connector: self.connector,
            auto_connect: self.settings.auto_connect,
            mqtt: self.settings.target is Mqtt,
            commands: self.commands@,
            capacity: self.commands.spec_capacity() as nat,
            ids: self.generators.keys(),
            generators: self.generators@.map_values(|handler: SimulationHandler| handler@),
            data: self.data@.map_values(|channel: ChannelState<V>| channel@),
            observers: observer_views(self.subscribers@),
        }
    }
}

impl<V> Simulator<V> {
    /// The settings that are in force.
    pub closed spec fn spec_settings(&self) -> Settings {
        self.settings
    }

    /// The parts of the simulator fit together: the claims and descriptions
    /// that observers see are those of the running simulations, every
    /// simulation of the registry runs, a simulator that does not run has no
    /// connector and no connection under way, the history keeps the last
    /// 200 commands, and no observer occurs twice.
    pub closed spec fn well_formed(&self) -> bool {
        &&& self.parts_fit()
        &&& self.state.claims.order() == self.generators.keys()
    }

    /// The parts of the simulator fit together, but for the order in which
    /// observers see the claims.
    spec fn parts_fit(&self) -> bool {
        &&& self.generators.well_formed()
        &&& self.data.well_formed()
        &&& self.state.simulations.well_formed()
        &&& self.commands.well_formed()
        &&& self.commands.spec_capacity() == crate::command::DEFAULT_MAX_SIZE
        &&& self.state@ == (SimulatorStateView {
            order: self.state.claims.order(),
            ..self@.snapshot()
        })
        &&& forall|id: Seq<char>| #[trigger]
            self@.generators.contains_key(id) ==> self@.generators[id].running
        &&& (!self.state.running ==> self.state.state@ is Disconnected || self.state.state@ is Failed)
        &&& (self.connector ==> self.state.running)
        &&& distinct_observers(self@.observers)
    }

    /// What the parts of a well-formed simulator have to do with each other.
    pub proof fn lemma_well_formed(&self)
        requires
            self.well_formed(),
        ensures
            self@.ids.no_duplicates(),
            self@.generators.dom() == self@.ids.to_set(),
            forall|id: Seq<char>| #[trigger]
                self@.generators.contains_key(id) ==> self@.generators[id].running,
            !self@.running ==> self@.connection is Disconnected || self@.connection is Failed,
            self@.connector ==> self@.running,
            self@.capacity == crate::command::DEFAULT_MAX_SIZE,
            self@.commands.len() <= crate::command::DEFAULT_MAX_SIZE,
            distinct_observers(self@.observers),
            self@.auto_connect == self.spec_settings().auto_connect,
            self@.mqtt == (self.spec_settings().target is Mqtt),
    {
        self.generators.lemma_entries();
        self.commands.lemma_well_formed();
        assert(self@.generators.dom() =~= self.generators@.dom());
    }

    /// A simulator with the settings `settings` that does not run, and that
    /// nobody observes.
    pub fn new(settings: Settings) -> (res: Self)
        ensures
            res.well_formed(),
            res.spec_settings() == settings,
            res@ == (SimulatorView::<V> {
                running: false,
                connection: StateView::Disconnected,
                connector: false,
                auto_connect: settings.auto_connect,
                mqtt: settings.target is Mqtt,
                commands: Seq::empty(),
                capacity: crate::command::DEFAULT_MAX_SIZE as nat,
                ids: Seq::empty(),
                generators: Map::empty(),
                data: Map::empty(),
                observers: Seq::empty(),
            }),
    {
        let res = Simulator {
            state: SimulatorState::default(),
            settings,
            connector: false,
            commands: CommandHistory::new(),
            generators: StringMap::new(),
            data: StringMap::new(),
            subscribers: Vec::new(),
        };
        proof {
            use_type_invariant(&res.generators);
            use_type_invariant(&res.data);
            use_type_invariant(&res.state.simulations);
            use_type_invariant(&res.commands);
            assert(res@.generators =~= Map::<Seq<char>, HandlerView>::empty());
            assert(res@.data =~= Map::<Seq<char>, Map<Seq<char>, Map<Seq<char>, V>>>::empty());
            assert(res@.observers =~= Seq::<(HandlerId, InterestView)>::empty());
            assert(claims_of(res@.generators) =~= Map::<Seq<char>, Seq<ClaimView>>::empty());
            assert(labels_of(res@.generators) =~= Map::<Seq<char>, Seq<char>>::empty());
        }
        res
    }

    /// The state of the simulator as observers see it.
    pub fn state(&self) -> (res: &SimulatorState)
        requires
            self.well_formed(),
        ensures
            res@ == self@.snapshot(),
    {
        &self.state
    }

    /// The settings that are in force.
    pub fn settings(&self) -> (res: &Settings)
        ensures
            *res == self.spec_settings(),
    {
        &self.settings
    }

    /// The history of commands.
    pub fn commands(&self) -> (res: &CommandHistory)
        ensures
            res@ == self@.commands,
            res.spec_capacity() == self@.capacity,
    {
        &self.commands
    }

    /// The running simulation `id`.
    pub fn generator(&self, id: &str) -> (res: Option<&SimulationHandler>)
        ensures
            match res {
                Some(handler) => self@.generators.contains_key(id@) && self@.generators[id@]
                    == handler@,
                None => !self@.generators.contains_key(id@),
            },
    {
        self.generators.get(id)
    }

    /// What the simulator holds for `channel`.
    pub fn channel_state(&self, channel: &str) -> (res: Option<&ChannelState<V>>)
        ensures
            match res {
                Some(state) => self@.data.contains_key(channel@) && self@.data[channel@] == state@,
                None => !self@.data.contains_key(channel@),
            },
    {
        self.data.get(channel)
    }

    /// Adds to `effects` those that send `response` to every observer whose
    /// interest is `interest`.
    fn notify(&self, interest: &Interest, response: &Response, effects: &mut Vec<Effect>)
        ensures
            effect_views(final(effects)@) == effect_views(old(effects)@) + notify(
                self@.observers,
                interest@,
                response@,
            ),
    {
        let ghost before = effect_views(effects@);
        let ghost observers = observer_views(self.subscribers@);
        let mut i: usize = 0;
        while i < self.subscribers.len()
            invariant
                i <= self.subscribers.len(),
                observers == observer_views(self.subscribers@),
                effect_views(effects@) == before + notify(
                    observers.take(i as int),
                    interest@,
                    response@,
                ),
            decreases self.subscribers.len() - i,
        {
            let ghost sent = effect_views(effects@);
            assert(observers.take(i + 1).drop_last() =~= observers.take(i as int));
            if self.subscribers[i].1.same(interest) {
                effects.push(Effect::Respond { to: self.subscribers[i].0, response: response.clone() });
                assert(effect_views(effects@) =~= sent.push(
                    EffectView::Respond { to: self.subscribers@[i as int].0, response: response@ },
                ));
            }
            assert(effect_views(effects@) =~= before + notify(
                observers.take(i + 1),
                interest@,
                response@,
            ));
            i += 1;
        }
        assert(observers.take(observers.len() as int) =~= observers);
    }

    /// Adds to `effects` those that send the state of the simulator to every
    /// observer that wants it.
    fn broadcast(&self, effects: &mut Vec<Effect>)
        requires
            self.state@ == self@.snapshot(),
        ensures
            effect_views(final(effects)@) == effect_views(old(effects)@) + self@.broadcast(),
    {
        let response = Response::State(self.state.clone());
        self.notify(&Interest::State, &response, effects);
    }

    /// Adds `effect` to `effects`.
    fn emit(effects: &mut Vec<Effect>, effect: Effect)
        ensures
            effect_views(final(effects)@) == effect_views(old(effects)@) + seq![effect@],
    {
        let ghost before = effect_views(effects@);
        effects.push(effect);
        assert(effect_views(effects@) =~= before + seq![effect@]);
    }

    /// Starts the simulator, and adds what that asks for to `effects`.
    fn start(&mut self, effects: &mut Vec<Effect>)
        requires
            old(self).well_formed(),
            !old(self)@.running,
        ensures
            final(self).well_formed(),
            final(self).spec_settings() == old(self).spec_settings(),
            final(self)@ == old(self)@.started().0,
            effect_views(final(effects)@) == effect_views(old(effects)@) + old(self)@.started().1,
    {
        let ghost before = effect_views(effects@);
        self.state.running = true;
        self.broadcast(effects);
        let ghost running = self@;
        let mqtt = match &self.settings.target {
            Target::Mqtt { .. } => true,
            Target::Http { .. } => false,
        };
        if mqtt {
            let mut state = State::Disconnected;
            core::mem::swap(&mut self.state.state, &mut state);
            self.state.state = state.next(Event::Start);
            self.connector = true;
            self.broadcast(effects);
            Self::emit(effects, Effect::Connect);
            assert(effect_views(effects@) =~= before + (running.broadcast() + self@.broadcast()
                + seq![EffectView::Connect]));
        } else {
            self.connector = false;
        }
    }

    /// Stops the simulator, wherever it stands: the connector, if there is
    /// one, is torn down, the connection is disconnected, and observers hear
    /// of it.
    pub fn stop(&mut self) -> (res: Vec<Effect>)
        requires
            old(self).well_formed(),
        ensures
            final(self).well_formed(),
            final(self).spec_settings() == old(self).spec_settings(),
            (final(self)@, effect_views(res@)) == old(self)@.stopped(),
    {
        let mut effects: Vec<Effect> = Vec::new();
        assert(effect_views(effects@) =~= Seq::<EffectView>::empty());
        self.stop_into(&mut effects);
        assert(Seq::<EffectView>::empty() + effect_views(effects@) =~= effect_views(effects@));
        effects
    }

    /// Stops the simulator, and adds what that asks for to `effects`.
    fn stop_into(&mut self, effects: &mut Vec<Effect>)
        requires
            old(self).well_formed(),
        ensures
            final(self).well_formed(),
            final(self).spec_settings() == old(self).spec_settings(),
            final(self)@ == old(self)@.stopped().0,
            effect_views(final(effects)@) == effect_views(old(effects)@) + old(self)@.stopped().1,
    {
        let ghost before = effect_views(effects@);
        if self.connector {
            Self::emit(effects, Effect::Disconnect);
        }
        self.connector = false;
        self.state.running = false;
        self.state.state = State::Disconnected;
        self.broadcast(effects);
        assert(effect_views(effects@) =~= before + old(self)@.stopped().1);
    }

    /// Takes the request `msg` of the observer `id`.
    pub fn handle_input(&mut self, msg: Request, id: HandlerId) -> (res: Vec<Effect>)
        requires
            old(self).well_formed(),
        ensures
            final(self).well_formed(),
            final(self).spec_settings() == old(self).spec_settings(),
            match msg {
                Request::Start => (final(self)@, effect_views(res@))
                    == old(self)@.start_requested(),
                Request::Stop => (final(self)@, effect_views(res@)) == old(self)@.stop_requested(),
                Request::Publish { channel, payload } => final(self)@ == old(self)@
                    && effect_views(res@) == old(self)@.publish_requested(channel@, payload@),
                Request::FetchHistory => final(self)@ == old(self)@ && effect_views(res@) == old(
                    self,
                )@.history_requested(id),
            },
    {
        let mut effects: Vec<Effect> = Vec::new();
        assert(effect_views(effects@) =~= Seq::<EffectView>::empty());
        match msg {
            Request::Start => {
                if !self.state.running {
                    self.start(&mut effects);
                } else if let State::Failed(_) = &self.state.state {
                    self.stop_into(&mut effects);
                    self.start(&mut effects);
                    assert(effect_views(effects@) =~= old(self)@.restarted().1);
                }
            },
            Request::Stop => {
                let disconnected = match &self.state.state {
                    State::Disconnected => true,
                    _ => false,
                };
                if self.state.running || !disconnected {
                    self.stop_into(&mut effects);
                }
            },
            Request::Publish { channel, payload } => {
                if self.connector {
                    Self::emit(&mut effects, Effect::Publish { channel, payload });
                }
            },
            Request::FetchHistory => {
                let commands = self.commands.to_vec();
                Self::emit(
                    &mut effects,
                    Effect::Respond { to: id, response: Response::CommandHistory(commands) },
                );
            },
        }
        assert(Seq::<EffectView>::empty() + effect_views(effects@) =~= effect_views(effects@));
        effects
    }
}


impl<V> Simulator<V> {
    /// Takes what happened to the simulator from within.
    pub fn update(&mut self, msg: Msg<V>) -> (res: Vec<Effect>)
        requires
            old(self).well_formed(),
        ensures
            final(self).well_formed(),
            match msg {
                Msg::Settings(settings) => (final(self)@, effect_views(res@)) == old(
                    self,
                )@.configured(
                    settings.auto_connect,
                    settings.target is Mqtt,
                    settings.simulations.keys(),
                    simulation_views(settings.simulations@),
                ) && final(self).spec_settings() == settings,
                Msg::Connected => (final(self)@, effect_views(res@)) == old(self)@.connected(),
                Msg::Subscribed => (final(self)@, effect_views(res@)) == old(self)@.subscribed(),
                Msg::Disconnected(reason) => (final(self)@, effect_views(res@)) == old(
                    self,
                )@.disconnected(reason@),
                Msg::Command(command) => (final(self)@, effect_views(res@)) == old(
                    self,
                )@.commanded(command@),
                Msg::PublishEvent(event) => (final(self)@, effect_views(res@)) == old(
                    self,
                )@.published(event@),
                Msg::SimulationState(id) => final(self)@ == old(self)@ && effect_views(res@)
                    == old(self)@.presented(id@),
            },
            !(msg is Settings) ==> final(self).spec_settings() == old(self).spec_settings(),
    {
        let mut effects: Vec<Effect> = Vec::new();
        assert(effect_views(effects@) =~= Seq::<EffectView>::empty());
        match msg {
            Msg::Settings(settings) => {
                self.update_settings(settings, &mut effects);
            },
            Msg::Connected => {
                if let State::Connecting = &self.state.state {
                    self.state.state = State::Subscribing;
                    self.broadcast(&mut effects);
                    if self.connector {
                        Self::emit(&mut effects, Effect::Subscribe);
                    }
                }
            },
            Msg::Subscribed => {
                if let State::Subscribing = &self.state.state {
                    self.state.state = State::Connected;
                    self.broadcast(&mut effects);
                }
            },
            Msg::Disconnected(reason) => {
                self.state.state = State::Failed(reason);
                self.broadcast(&mut effects);
            },
            Msg::Command(command) => {
                let ghost before = self@;
                self.commands.push(command.clone());
                let response = Response::Command(command);
                self.notify(&Interest::Commands, &response, &mut effects);
                if let Response::Command(command) = response {
                    deliver(&mut self.generators, &command, &mut effects);
                    proof {
                        let after = delivered(before.generators, command@);
                        assert(claims_of(after) =~= claims_of(before.generators));
                        assert(labels_of(after) =~= labels_of(before.generators));
                    }
                }
            },
            Msg::PublishEvent(event) => {
                let ghost before = self.data@;
                match event {
                    PublishEvent::Single { channel, state } => {
                        if self.connector {
                            Self::emit(
                                &mut effects,
                                Effect::PublishState { channel: channel.clone() },
                            );
                        }
                        let mut current = match self.data.remove(channel.as_str()) {
                            Some(current) => current,
                            None => ChannelState::new(),
                        };
                        current.set(state);
                        let _ = self.data.insert(channel, current);
                        assert(self@.data =~= old(self)@.published(event@).0.data);
                    },
                    PublishEvent::Full { channel, state } => {
                        if self.connector {
                            Self::emit(
                                &mut effects,
                                Effect::PublishState { channel: channel.clone() },
                            );
                        }
                        let _ = self.data.insert(channel, state);
                        assert(self@.data =~= old(self)@.published(event@).0.data);
                    },
                }
            },
            Msg::SimulationState(id) => {
                let interest = Interest::Simulation(id);
                if let Interest::Simulation(id) = &interest {
                    let response = Response::SimulationState(id.clone());
                    self.notify(&interest, &response, &mut effects);
                }
            },
        }
        proof {
            use_type_invariant(&self.generators);
            use_type_invariant(&self.data);
            use_type_invariant(&self.commands);
            use_type_invariant(&self.state.simulations);
        }
        assert(Seq::<EffectView>::empty() + effect_views(effects@) =~= effect_views(effects@));
        effects
    }
}


impl<V> Simulator<V> {
    /// Takes the simulation `id` out of the registry and stops it, and adds
    /// what that asks for to `effects`.
    fn take(&mut self, id: &str, effects: &mut Vec<Effect>)
        requires
            old(self).well_formed(),
        ensures
            final(self).well_formed(),
            final(self).spec_settings() == old(self).spec_settings(),
            final(self)@ == old(self)@.without(id@).0,
            effect_views(final(effects)@) == effect_views(old(effects)@) + old(self)@.without(
                id@,
            ).1,
    {
        let ghost before = self@;
        let ghost sent = effect_views(effects@);
        match self.generators.remove(id) {
            Some(handler) => {
                let mut handler = handler;
                let activity = handler.stop();
                Self::emit(effects, Effect::Simulation { id: id.to_owned(), activity });
                self.state.claims.remove(id);
                let ghost labels = self.state@.simulations;
                let _ = self.state.simulations.remove(id);
                assert(self.state@.simulations =~= labels.remove(id@));
                proof {
                    use_type_invariant(&self.generators);
                    use_type_invariant(&self.state.simulations);
                    assert(self@.generators =~= before.generators.remove(id@));
                    assert(claims_of(self@.generators) =~= claims_of(before.generators).remove(id@));
                    assert(labels_of(self@.generators) =~= labels_of(before.generators).remove(id@));
                    assert(self.state@.simulations =~= labels_of(self@.generators));
                }
            },
            None => {
                assert(effect_views(effects@) =~= sent + Seq::<EffectView>::empty());
                assert(self@.generators =~= before.generators);
            },
        }
        proof {
            use_type_invariant(&self.generators);
        }
    }

    /// Configures the simulation `id` by `simulation`, creating and starting
    /// it where the registry holds none of that id and kind, and adds what
    /// that asks for to `effects`.
    fn put(&mut self, id: String, simulation: &Simulation, effects: &mut Vec<Effect>)
        requires
            old(self).well_formed(),
        ensures
            final(self).well_formed(),
            final(self).spec_settings() == old(self).spec_settings(),
            final(self)@ == old(self)@.with(id@, simulation@).0,
            effect_views(final(effects)@) == effect_views(old(effects)@) + old(self)@.with(
                id@,
                simulation@,
            ).1,
    {
        let ghost before = self@;
        let ghost sent = effect_views(effects@);
        proof {
            use_type_invariant(&self.generators);
            self.generators.lemma_entries();
        }
        let same_kind = match self.generators.get(id.as_str()) {
            Some(handler) => handler.discriminant() == simulation.discriminant(),
            None => false,
        };
        let handler = if same_kind {
            let mut handler = self.generators.remove(id.as_str()).unwrap();
            self.state.claims.remove(id.as_str());
            let activity = handler.update(simulation.clone()).unwrap();
            match activity {
                Activity::Nothing => {
                    assert(effect_views(effects@) =~= sent + Seq::<EffectView>::empty());
                },
                _ => {
                    Self::emit(effects, Effect::Simulation { id: id.clone(), activity });
                },
            }
            handler
        } else {
            self.take(id.as_str(), effects);
            let mut handler = simulation.create();
            let activity = handler.start();
            let ghost stopped = effect_views(effects@);
            Self::emit(effects, Effect::Simulation { id: id.clone(), activity });
            assert(effect_views(effects@) =~= sent + (before.without(id@).1 + seq![
                EffectView::Simulation { id: id@, activity },
            ]));
            handler
        };
        let ghost removed = self@;
        let mut claims: Vec<crate::claims::Claim> = Vec::new();
        let held = handler.claims();
        let mut i: usize = 0;
        while i < held.len()
            invariant
                i <= held.len(),
                claims@.len() == i,
                forall|k: int| 0 <= k < i ==> (#[trigger] claims@[k])@ == held@[k]@,
            decreases held.len() - i,
        {
            claims.push(held[i].clone());
            i += 1;
        }
        assert(crate::claims::claim_views(claims@) =~= crate::claims::claim_views(held@));
        let ghost held_before = self.state.claims@;
        self.state.claims.insert(id.clone(), claims);
        let ghost labels = self.state@.simulations;
        let description = handler.describe();
        let _ = self.state.simulations.insert(id.clone(), description);
        assert(self.state@.simulations =~= labels.insert(id@, description@));
        let ghost installed = handler@;
        let _ = self.generators.insert(id, handler);
        proof {
            use_type_invariant(&self.generators);
            use_type_invariant(&self.state.simulations);
            assert(self@.generators =~= removed.generators.insert(id@, installed));
            assert(self@.generators =~= before.with(id@, simulation@).0.generators);
            assert(claims_of(self@.generators) =~= claims_of(removed.generators).insert(
                id@,
                installed.simulation.claims(),
            ));
            assert(self.state.claims@ == held_before.insert(id@, installed.simulation.claims()));
            if same_kind {
                assert(removed.generators =~= before.generators.remove(id@));
                assert(held_before =~= claims_of(before.generators).remove(id@));
                assert(held_before =~= claims_of(removed.generators));
            } else {
                assert(held_before == claims_of(removed.generators));
            }
            assert(self.state.claims@ =~= claims_of(self@.generators));
            assert(labels_of(self@.generators) =~= labels_of(removed.generators).insert(
                id@,
                installed.simulation.description(),
            ));
            assert(self.state@.simulations =~= labels_of(self@.generators));
        }
    }

    /// Adds the simulation `id` with the configuration `simulation`, or puts
    /// the configuration in place of what a simulation of that id has.
    pub fn add(&mut self, id: GeneratorId, simulation: &Simulation) -> (res: Vec<Effect>)
        requires
            old(self).well_formed(),
        ensures
            final(self).well_formed(),
            final(self).spec_settings() == old(self).spec_settings(),
            (final(self)@, effect_views(res@)) == old(self)@.added(id@, simulation@),
    {
        let mut effects: Vec<Effect> = Vec::new();
        assert(effect_views(effects@) =~= Seq::<EffectView>::empty());
        self.put(id, simulation, &mut effects);
        self.broadcast(&mut effects);
        assert(effect_views(effects@) =~= old(self)@.added(id@, simulation@).1);
        effects
    }

    /// Puts the configuration `simulation` in place of what the simulation
    /// `id` has; an id that the registry does not hold is left alone.
    pub fn update_simulation(&mut self, id: GeneratorId, simulation: &Simulation) -> (res: Vec<
        Effect,
    >)
        requires
            old(self).well_formed(),
        ensures
            final(self).well_formed(),
            final(self).spec_settings() == old(self).spec_settings(),
            (final(self)@, effect_views(res@)) == old(self)@.updated(id@, simulation@),
    {
        if self.generators.contains_key(id.as_str()) {
            self.add(id, simulation)
        } else {
            let effects: Vec<Effect> = Vec::new();
            assert(effect_views(effects@) =~= Seq::<EffectView>::empty());
            effects
        }
    }

    /// Stops the simulation `id` and takes it out of the registry.
    pub fn remove(&mut self, id: &str) -> (res: Vec<Effect>)
        requires
            old(self).well_formed(),
        ensures
            final(self).well_formed(),
            final(self).spec_settings() == old(self).spec_settings(),
            (final(self)@, effect_views(res@)) == old(self)@.removed(id@),
    {
        let mut effects: Vec<Effect> = Vec::new();
        assert(effect_views(effects@) =~= Seq::<EffectView>::empty());
        if self.generators.contains_key(id) {
            self.take(id, &mut effects);
            self.broadcast(&mut effects);
            assert(effect_views(effects@) =~= old(self)@.removed(id@).1);
        }
        effects
    }
}


impl<V> Simulator<V> {
    /// Stops the simulations that `keep` does not name and takes them out of
    /// the registry, and adds what that asks for to `effects`.
    fn retain(&mut self, keep: &StringMap<Simulation>, effects: &mut Vec<Effect>)
        requires
            old(self).well_formed(),
        ensures
            final(self).well_formed(),
            final(self).spec_settings() == old(self).spec_settings(),
            final(self)@ == old(self)@.retained(keep@.dom()).0,
            effect_views(final(effects)@) == effect_views(old(effects)@) + old(self)@.retained(
                keep@.dom(),
            ).1,
    {
        let n = self.generators.len();
        proof {
            use_type_invariant(&self.generators);
            self.generators.lemma_entries();
        }
        let ghost start = self@;
        let ghost ids = self.generators.keys();
        let ghost views = self@.generators;
        let ghost wanted = keep@.dom();
        let ghost before = effect_views(effects@);
        let mut i: usize = 0;
        while i < n
            invariant
                i <= n,
                n == ids.len(),
                ids.no_duplicates(),
                views.dom() == ids.to_set(),
                wanted == keep@.dom(),
                self.parts_fit(),
                self.state.claims.order() == kept(ids.take(i as int), wanted) + ids.skip(i as int),
                self.spec_settings() == old(self).spec_settings(),
                self@ == (SimulatorView { ids: self@.ids, generators: self@.generators, ..start }),
                self@.ids == ids.skip(i as int) + kept(ids.take(i as int), wanted),
                forall|id: Seq<char>| #[trigger]
                    self@.generators.contains_key(id) <==> views.contains_key(id) && (
                    wanted.contains(id) || !ids.take(i as int).contains(id)),
                forall|id: Seq<char>| #[trigger]
                    self@.generators.contains_key(id) ==> self@.generators[id] == views[id],
                effect_views(effects@) == before + stop_effects(ids.take(i as int), views, wanted),
            decreases n - i,
        {
            let ghost current = self@;
            let ghost sent = effect_views(effects@);
            assert(current.ids[0] == ids[i as int]);
            assert(ids.take(i + 1).drop_last() =~= ids.take(i as int));
            assert(ids.take(i + 1).last() == ids[i as int]);
            assert(!ids.take(i as int).contains(ids[i as int])) by {
                let done = ids.take(i as int);
                if done.contains(ids[i as int]) {
                    let k = choose|k: int| 0 <= k < done.len() && done[k] == ids[i as int];
                    assert(ids[k] == ids[i as int]);
                }
            }
            let ghost done = ids.take(i as int);
            let ghost next = ids.take(i + 1);
            assert forall|id: Seq<char>|
                next.contains(id) <==> done.contains(id) || id == ids[i as int] by {
                if next.contains(id) {
                    let k = choose|k: int| 0 <= k < next.len() && next[k] == id;
                    if k < i {
                        assert(done[k] == id);
                    }
                }
                if done.contains(id) {
                    let k = choose|k: int| 0 <= k < done.len() && done[k] == id;
                    assert(next[k] == id);
                }
                if id == ids[i as int] {
                    assert(next[i as int] == id);
                }
            }
            assert(ids.to_set().contains(ids[i as int]));
            proof {
                self.generators.lemma_entries();
                assert(self.generators@[current.ids[0]] == self.generators.values()[0]);
            }
            match self.generators.pop_front() {
                Some((id, handler)) => {
                    assert(id@ == ids[i as int]);
                    assert(current.generators.contains_key(id@));
                    assert(handler@ == views[id@]);
                    if keep.contains_key(id.as_str()) {
                        let _ = self.generators.insert(id, handler);
                        proof {
                            use_type_invariant(&self.generators);
                            assert(self.state.claims.order() =~= kept(ids.take(i + 1), wanted)
                                + ids.skip(i + 1));
                            assert(self@.generators =~= current.generators);
                            assert(self@.ids =~= ids.skip(i + 1) + kept(ids.take(i + 1), wanted));
                            assert(effect_views(effects@) =~= before + stop_effects(
                                ids.take(i + 1),
                                views,
                                wanted,
                            ));
                        }
                    } else {
                        let mut handler = handler;
                        let activity = handler.stop();
                        effects.push(Effect::Simulation { id: id.clone(), activity });
                        let ghost listed = self.state.claims.order();
                        self.state.claims.remove(id.as_str());
                        let ghost labels = self.state@.simulations;
                        let _ = self.state.simulations.remove(id.as_str());
                        proof {
                            use_type_invariant(&self.generators);
                            use_type_invariant(&self.state.simulations);
                            let at = kept(ids.take(i as int), wanted).len() as int;
                            assert(listed[at] == id@);
                            assert(listed.index_of(id@) == at) by {
                                let found = listed.index_of(id@);
                                assert(listed.contains(id@));
                                assert(listed[found] == id@);
                            }
                            assert(self.state.claims.order() =~= kept(ids.take(i + 1), wanted)
                                + ids.skip(i + 1));
                            assert(self.state@.simulations =~= labels.remove(id@));
                            assert(self@.generators =~= current.generators.remove(id@));
                            assert(claims_of(self@.generators) =~= claims_of(
                                current.generators,
                            ).remove(id@));
                            assert(labels_of(self@.generators) =~= labels_of(
                                current.generators,
                            ).remove(id@));
                            assert(self.state@.simulations =~= labels_of(self@.generators));
                            assert(self@.ids =~= ids.skip(i + 1) + kept(ids.take(i + 1), wanted));
                            assert(effect_views(effects@) =~= sent.push(
                                EffectView::Simulation { id: id@, activity },
                            ));
                            assert(effect_views(effects@) =~= before + stop_effects(
                                ids.take(i + 1),
                                views,
                                wanted,
                            ));
                        }
                    }
                },
                None => {},
            }
            i += 1;
        }
        proof {
            assert(ids.take(n as int) =~= ids);
            assert(self@.ids =~= kept(ids, wanted));
            assert(self.state.claims.order() =~= kept(ids, wanted));
            assert forall|id: Seq<char>| views.contains_key(id) implies ids.contains(id) by {
                assert(ids.to_set().contains(id));
            }
            assert(self@.generators =~= views.restrict(wanted));
        }
    }

    /// Configures each simulation that `simulations` names by what it holds
    /// for it, in order, and adds what that asks for to `effects`.
    fn install(&mut self, simulations: &StringMap<Simulation>, effects: &mut Vec<Effect>)
        requires
            old(self).well_formed(),
        ensures
            final(self).well_formed(),
            final(self).spec_settings() == old(self).spec_settings(),
            final(self)@ == old(self)@.installed(
                simulations.keys(),
                simulation_views(simulations@),
            ).0,
            effect_views(final(effects)@) == effect_views(old(effects)@) + old(self)@.installed(
                simulations.keys(),
                simulation_views(simulations@),
            ).1,
    {
        let n = simulations.len();
        let ghost start = self@;
        let ghost ids = simulations.keys();
        let ghost views = simulation_views(simulations@);
        let ghost before = effect_views(effects@);
        assert(before + Seq::<EffectView>::empty() =~= before);
        let mut i: usize = 0;
        while i < n
            invariant
                i <= n,
                n == ids.len(),
                ids == simulations.keys(),
                views == simulation_views(simulations@),
                self.well_formed(),
                self.spec_settings() == old(self).spec_settings(),
                self@ == start.installed(ids.take(i as int), views).0,
                effect_views(effects@) == before + start.installed(ids.take(i as int), views).1,
            decreases n - i,
        {
            let ghost sent = effect_views(effects@);
            let ghost current = self@;
            assert(ids.take(i + 1).drop_last() =~= ids.take(i as int));
            if let Some((id, simulation)) = simulations.entry(i) {
                assert(views[id@] == simulation@);
                self.put(id.clone(), simulation, effects);
                assert(effect_views(effects@) =~= before + start.installed(
                    ids.take(i + 1),
                    views,
                ).1);
            }
            i += 1;
        }
        assert(ids.take(n as int) =~= ids);
    }

    /// Puts `settings` in force, and adds what that asks for to `effects`.
    fn update_settings(&mut self, settings: Settings, effects: &mut Vec<Effect>)
        requires
            old(self).well_formed(),
        ensures
            final(self).well_formed(),
            final(self).spec_settings() == settings,
            final(self)@ == old(self)@.configured(
                settings.auto_connect,
                settings.target is Mqtt,
                settings.simulations.keys(),
                simulation_views(settings.simulations@),
            ).0,
            effect_views(final(effects)@) == effect_views(old(effects)@) + old(self)@.configured(
                settings.auto_connect,
                settings.target is Mqtt,
                settings.simulations.keys(),
                simulation_views(settings.simulations@),
            ).1,
    {
        let ghost before = effect_views(effects@);
        let ghost start = self@;
        let ghost ids = settings.simulations.keys();
        let ghost views = simulation_views(settings.simulations@);
        proof {
            use_type_invariant(&settings.simulations);
            settings.simulations.lemma_entries();
            assert(settings.simulations@.dom() =~= ids.to_set());
        }
        self.retain(&settings.simulations, effects);
        self.install(&settings.simulations, effects);
        let auto_connect = settings.auto_connect;
        self.settings = settings;
        let ghost synced = self@;
        self.broadcast(effects);
        if self.state.running {
            self.stop_into(effects);
            self.start(effects);
        } else if auto_connect {
            self.start(effects);
        }
        proof {
            let retained = start.retained(ids.to_set());
            let installed = retained.0.installed(ids, views);
            assert(synced == (SimulatorView {
                auto_connect: settings.auto_connect,
                mqtt: settings.target is Mqtt,
                ..installed.0
            }));
            let connecting = if synced.running {
                synced.restarted()
            } else if auto_connect {
                synced.started()
            } else {
                (synced, Seq::<EffectView>::empty())
            };
            assert(effect_views(effects@) =~= before + (retained.1 + installed.1
                + synced.broadcast() + connecting.1));
        }
    }

    /// The position of the observer `id`, if it is attached.
    fn find_observer(&self, id: HandlerId) -> (res: Option<usize>)
        requires
            distinct_observers(self@.observers),
        ensures
            match res {
                Some(i) => has_observer(self@.observers, id) && i == observer_index(
                    self@.observers,
                    id,
                ) && i < self.subscribers@.len(),
                None => !has_observer(self@.observers, id),
            },
    {
        let ghost observers = self@.observers;
        let mut i: usize = 0;
        while i < self.subscribers.len()
            invariant
                i <= self.subscribers.len(),
                forall|k: int| 0 <= k < i ==> (#[trigger] observers[k]).0 != id,
                observers == observer_views(self.subscribers@),
                distinct_observers(observers),
            decreases self.subscribers.len() - i,
        {
            if self.subscribers[i].0 == id {
                assert(observers[i as int].0 == id);
                let ghost j = observer_index(observers, id);
                assert(j == i) by {
                    if j < i {
                    } else if i < j {
                        assert(observers[i as int].0 != observers[j].0);
                    }
                }
                return Some(i);
            }
            i += 1;
        }
        None
    }

    /// The observer `id` attaches with `interest`, or changes its interest.
    pub fn connected(&mut self, id: HandlerId, interest: Interest)
        requires
            old(self).well_formed(),
        ensures
            final(self).well_formed(),
            final(self).spec_settings() == old(self).spec_settings(),
            final(self)@ == old(self)@.attached(id, interest@),
    {
        let ghost observers = self@.observers;
        let found = self.find_observer(id);
        if let Some(i) = found {
            self.subscribers.set(i, (id, interest));
            assert(observer_views(self.subscribers@) =~= observers.update(
                i as int,
                (id, interest@),
            ));
        } else {
            self.subscribers.push((id, interest));
            assert(observer_views(self.subscribers@) =~= observers.push((id, interest@)));
        }
        proof {
            use_type_invariant(&self.generators);
        }
    }

    /// The observer `id` detaches.
    pub fn disconnected(&mut self, id: HandlerId)
        requires
            old(self).well_formed(),
        ensures
            final(self).well_formed(),
            final(self).spec_settings() == old(self).spec_settings(),
            final(self)@ == old(self)@.detached(id),
    {
        let ghost observers = self@.observers;
        let found = self.find_observer(id);
        if let Some(i) = found {
            let _ = self.subscribers.remove(i);
            assert(observer_views(self.subscribers@) =~= observers.remove(i as int));
        }
        proof {
            use_type_invariant(&self.generators);
        }
    }
}


/// Every effect of a notification is a response.
pub proof fn lemma_notify_responds(
    observers: Seq<(HandlerId, InterestView)>,
    interest: InterestView,
    response: ResponseView,
)
    ensures
        forall|k: int|
            0 <= k < notify(observers, interest, response).len() ==> #[trigger] notify(
                observers,
                interest,
                response,
            )[k] is Respond,
{
    lemma_notify_reaches_the_interested(observers, interest, response);
}

/// A start request to a simulator that does not run and has an MQTT target:
/// the simulator runs, its connection is connecting, and it has a connector.
/// Every observer of the state is sent the state with the connection
/// connecting, and the last effect, and no other, asks to connect.
pub proof fn lemma_start_request_connects<V>(simulator: SimulatorView<V>)
    requires
        !simulator.running,
        simulator.connection is Disconnected || simulator.connection is Failed,
        simulator.mqtt,
    ensures
        ({
            let (connecting, effects) = simulator.start_requested();
            &&& connecting == (SimulatorView {
                running: true,
                connection: StateView::Connecting,
                connector: true,
                ..simulator
            })
            &&& connecting.snapshot().running
            &&& connecting.snapshot().state == StateView::Connecting
            &&& effects.len() > 0
            &&& effects.last() == EffectView::Connect
            &&& forall|k: int| 0 <= k < effects.len() - 1 ==> #[trigger] effects[k] is Respond
            &&& forall|i: int|
                0 <= i < simulator.observers.len() && (#[trigger] simulator.observers[i]).1
                    == InterestView::State ==> effects.contains(
                    EffectView::Respond {
                        to: simulator.observers[i].0,
                        response: ResponseView::State(connecting.snapshot()),
                    },
                )
        }),
{
    let running = SimulatorView { running: true, ..simulator };
    let (connecting, effects) = simulator.start_requested();
    let first = running.broadcast();
    let second = connecting.broadcast();
    assert(effects == first + second + seq![EffectView::Connect]);
    lemma_notify_responds(
        simulator.observers,
        InterestView::State,
        ResponseView::State(running.snapshot()),
    );
    lemma_notify_reaches_the_interested(
        simulator.observers,
        InterestView::State,
        ResponseView::State(connecting.snapshot()),
    );
    assert forall|k: int| 0 <= k < effects.len() - 1 implies #[trigger] effects[k] is Respond by {
        if k < first.len() {
            assert(effects[k] == first[k]);
        } else {
            assert(effects[k] == second[k - first.len()]);
        }
    }
    assert forall|i: int|
        0 <= i < simulator.observers.len() && (#[trigger] simulator.observers[i]).1
            == InterestView::State implies effects.contains(
        EffectView::Respond {
            to: simulator.observers[i].0,
            response: ResponseView::State(connecting.snapshot()),
        },
    ) by {
        let wanted = EffectView::Respond {
            to: simulator.observers[i].0,
            response: ResponseView::State(connecting.snapshot()),
        };
        let k = choose|k: int| 0 <= k < second.len() && second[k] == wanted;
        assert(effects[first.len() + k] == wanted);
    }
}

/// A start that meets nothing but success takes a simulator with an MQTT
/// target from disconnected or failed through connecting and subscribing to
/// connected, and a failure on the way leaves it failed for the reason
/// given.
pub proof fn lemma_connection_follows_requests<V>(simulator: SimulatorView<V>, reason: Seq<char>)
    requires
        !simulator.running,
        simulator.connection is Disconnected || simulator.connection is Failed,
        simulator.mqtt,
    ensures
        ({
            let connecting = simulator.start_requested().0;
            let subscribing = connecting.connected().0;
            let connected = subscribing.subscribed().0;
            &&& connecting.connection == StateView::Connecting
            &&& connecting.running && connecting.connector
            &&& subscribing.connection == StateView::Subscribing
            &&& connecting.connected().1.last() == EffectView::Subscribe
            &&& connected.connection == StateView::Connected
            &&& connected.running && connected.connector
            &&& connecting.disconnected(reason).0.connection == StateView::Failed(reason)
            &&& subscribing.disconnected(reason).0.connection == StateView::Failed(reason)
            &&& connected.disconnected(reason).0.connection == StateView::Failed(reason)
        }),
{
}

/// A stop request leaves every simulator stopped, wherever it stood: its
/// connection is disconnected and it does not run, while its history, its
/// simulations, what its channels hold and its observers stay. A simulator
/// whose connector is no older than its last start has no connector
/// afterwards. Where there was a connector, tearing it down comes first;
/// and unless the simulator was stopped already, every observer of the
/// state is sent the state with the connection disconnected.
pub proof fn lemma_stop_request_disconnects<V>(simulator: SimulatorView<V>)
    ensures
        ({
            let (stopped, effects) = simulator.stop_requested();
            &&& stopped.connection == StateView::Disconnected
            &&& !stopped.running
            &&& stopped == (SimulatorView {
                running: false,
                connection: StateView::Disconnected,
                connector: stopped.connector,
                ..simulator
            })
            &&& (simulator.connector ==> simulator.running) ==> !stopped.connector
            &&& stopped.snapshot().state == StateView::Disconnected
            &&& !stopped.snapshot().running
            &&& simulator.connector && simulator.running ==> effects.len() > 0 && effects.first()
                == EffectView::Disconnect
            &&& forall|k: int| 1 <= k < effects.len() ==> #[trigger] effects[k] is Respond
            &&& (simulator.running || !(simulator.connection is Disconnected)) ==> forall|i: int|
                0 <= i < simulator.observers.len() && (#[trigger] simulator.observers[i]).1
                    == InterestView::State ==> effects.contains(
                    EffectView::Respond {
                        to: simulator.observers[i].0,
                        response: ResponseView::State(stopped.snapshot()),
                    },
                )
        }),
{
    let (stopped, effects) = simulator.stop_requested();
    let told = stopped.broadcast();
    lemma_notify_responds(
        simulator.observers,
        InterestView::State,
        ResponseView::State(stopped.snapshot()),
    );
    lemma_notify_reaches_the_interested(
        simulator.observers,
        InterestView::State,
        ResponseView::State(stopped.snapshot()),
    );
    if simulator.running || !(simulator.connection is Disconnected) {
        let lead: int = if simulator.connector {
            1
        } else {
            0
        };
        assert forall|k: int| 1 <= k < effects.len() implies #[trigger] effects[k] is Respond by {
            assert(effects[k] == told[k - lead]);
        }
        assert forall|i: int|
            0 <= i < simulator.observers.len() && (#[trigger] simulator.observers[i]).1
                == InterestView::State implies effects.contains(
            EffectView::Respond {
                to: simulator.observers[i].0,
                response: ResponseView::State(stopped.snapshot()),
            },
        ) by {
            let wanted = EffectView::Respond {
                to: simulator.observers[i].0,
                response: ResponseView::State(stopped.snapshot()),
            };
            let k = choose|k: int| 0 <= k < told.len() && told[k] == wanted;
            assert(effects[lead + k] == wanted);
        }
    }
}

/// A stop never leaves a connection behind, wherever the simulator stood.
pub proof fn lemma_stop_disconnects<V>(simulator: SimulatorView<V>)
    ensures
        simulator.stopped().0.connection == StateView::Disconnected,
        !simulator.stopped().0.running,
        !simulator.stopped().0.connector,
        simulator.connector ==> simulator.stopped().1.first() == EffectView::Disconnect,
{
}

/// What observers see of claims and descriptions is what the registry holds:
/// a simulation has claims exactly while it is in the registry, and they are
/// the claims of its configuration.
pub proof fn lemma_claims_follow_registry<V>(simulator: SimulatorView<V>)
    ensures
        simulator.snapshot().order == simulator.ids,
        simulator.snapshot().claims.dom() == simulator.generators.dom(),
        simulator.snapshot().simulations.dom() == simulator.generators.dom(),
        forall|id: Seq<char>| #[trigger]
            simulator.generators.contains_key(id) ==> simulator.snapshot().claims[id]
                == simulator.generators[id].simulation.claims()
                && simulator.snapshot().simulations[id]
                == simulator.generators[id].simulation.description(),
{
    assert(simulator.snapshot().claims.dom() =~= simulator.generators.dom());
    assert(simulator.snapshot().simulations.dom() =~= simulator.generators.dom());
}

/// Whether the ids and the simulations of a registry fit together: no id
/// occurs twice, the ids are those of the simulations, and every simulation
/// runs.
pub open spec fn registry_fits<V>(simulator: SimulatorView<V>) -> bool {
    &&& simulator.ids.no_duplicates()
    &&& simulator.generators.dom() == simulator.ids.to_set()
    &&& forall|id: Seq<char>| #[trigger]
        simulator.generators.contains_key(id) ==> simulator.generators[id].running
}

/// Taking an id out of ids of which none occurs twice leaves the others.
proof fn lemma_ids_without(ids: Seq<Seq<char>>, id: Seq<char>)
    requires
        ids.no_duplicates(),
        ids.contains(id),
    ensures
        ids.remove(ids.index_of(id)).no_duplicates(),
        ids.remove(ids.index_of(id)).to_set() == ids.to_set().remove(id),
        !ids.remove(ids.index_of(id)).contains(id),
{
    let at = ids.index_of(id);
    let rest = ids.remove(at);
    assert forall|i: int, j: int| 0 <= i < rest.len() && 0 <= j < rest.len() && i != j implies rest[i]
        != rest[j] by {
        let bi = if i < at { i } else { i + 1 };
        let bj = if j < at { j } else { j + 1 };
        assert(ids[bi] != ids[bj]);
    }
    assert forall|x: Seq<char>| rest.contains(x) <==> ids.contains(x) && x != id by {
        if rest.contains(x) {
            let i = choose|i: int| 0 <= i < rest.len() && rest[i] == x;
            let bi = if i < at { i } else { i + 1 };
            assert(ids[bi] == x);
            assert(ids[bi] != ids[at]);
        }
        if ids.contains(x) && x != id {
            let i = choose|i: int| 0 <= i < ids.len() && ids[i] == x;
            let ri = if i < at { i } else { i - 1 };
            assert(rest[ri] == x);
        }
    }
    assert(rest.to_set() =~= ids.to_set().remove(id));
}

/// Adding an id behind ids that do not hold it keeps every id single.
proof fn lemma_ids_with(ids: Seq<Seq<char>>, id: Seq<char>)
    requires
        ids.no_duplicates(),
        !ids.contains(id),
    ensures
        ids.push(id).no_duplicates(),
        ids.push(id).to_set() == ids.to_set().insert(id),
{
    let more = ids.push(id);
    assert forall|i: int, j: int| 0 <= i < more.len() && 0 <= j < more.len() && i != j implies more[i]
        != more[j] by {
        if i < ids.len() && j < ids.len() {
        } else if i < ids.len() {
            assert(ids[i] != id);
        } else {
            assert(ids[j] != id);
        }
    }
    assert forall|x: Seq<char>| more.contains(x) <==> ids.contains(x) || x == id by {
        if more.contains(x) {
            let i = choose|i: int| 0 <= i < more.len() && more[i] == x;
            if i < ids.len() {
                assert(ids[i] == x);
            }
        }
        if ids.contains(x) {
            let i = choose|i: int| 0 <= i < ids.len() && ids[i] == x;
            assert(more[i] == x);
        }
        if x == id {
            assert(more[ids.len() as int] == x);
        }
    }
    assert(more.to_set() =~= ids.to_set().insert(id));
}

/// Configuring one simulation leaves the registry fitting together, with that
/// simulation running under the configuration given and every other as it
/// was.
pub proof fn lemma_with_installs<V>(
    simulator: SimulatorView<V>,
    id: Seq<char>,
    simulation: SimulationView,
)
    requires
        registry_fits(simulator),
    ensures
        registry_fits(simulator.with(id, simulation).0),
        simulator.with(id, simulation).0.generators.dom() == simulator.generators.dom().insert(id),
        simulator.with(id, simulation).0.generators[id].simulation == simulation,
        forall|other: Seq<char>|
            other != id && simulator.generators.contains_key(other) ==> #[trigger] simulator.with(
                id,
                simulation,
            ).0.generators[other] == simulator.generators[other],
{
    let after = simulator.with(id, simulation).0;
    if simulator.generators.contains_key(id) {
        assert(simulator.ids.to_set().contains(id));
        lemma_ids_without(simulator.ids, id);
        let rest = simulator.ids.remove(simulator.ids.index_of(id));
        lemma_ids_with(rest, id);
        assert(after.ids == rest.push(id));
        assert(after.generators.dom() =~= simulator.generators.dom().insert(id));
        assert(after.ids.to_set() =~= after.generators.dom());
    } else {
        assert(!simulator.ids.contains(id)) by {
            if simulator.ids.contains(id) {
                assert(simulator.ids.to_set().contains(id));
            }
        }
        lemma_ids_with(simulator.ids, id);
        assert(after.generators.dom() =~= simulator.generators.dom().insert(id));
        assert(after.ids.to_set() =~= after.generators.dom());
    }
}

/// Configuring simulations one after the other leaves the registry fitting
/// together, with each of them running under its configuration and every
/// other simulation as it was.
pub proof fn lemma_installed_registry<V>(
    simulator: SimulatorView<V>,
    ids: Seq<Seq<char>>,
    simulations: Map<Seq<char>, SimulationView>,
)
    requires
        registry_fits(simulator),
        ids.no_duplicates(),
    ensures
        registry_fits(simulator.installed(ids, simulations).0),
        simulator.installed(ids, simulations).0.generators.dom() == simulator.generators.dom()
            + ids.to_set(),
        forall|id: Seq<char>|
            ids.contains(id) ==> (#[trigger] simulator.installed(
                ids,
                simulations,
            ).0.generators[id]).simulation == simulations[id],
        forall|id: Seq<char>|
            !ids.contains(id) && simulator.generators.contains_key(id)
                ==> #[trigger] simulator.installed(ids, simulations).0.generators[id]
                == simulator.generators[id],
    decreases ids.len(),
{
    let after = simulator.installed(ids, simulations).0;
    if ids.len() == 0 {
        assert(simulator.generators.dom() + ids.to_set() =~= simulator.generators.dom());
    } else {
        let earlier = ids.drop_last();
        let last = ids.last();
        assert(earlier.no_duplicates()) by {
            assert forall|i: int, j: int|
                0 <= i < earlier.len() && 0 <= j < earlier.len() && i != j implies earlier[i]
                != earlier[j] by {
                assert(ids[i] != ids[j]);
            }
        }
        lemma_installed_registry(simulator, earlier, simulations);
        let before = simulator.installed(earlier, simulations).0;
        lemma_with_installs(before, last, simulations[last]);
        assert(!earlier.contains(last)) by {
            if earlier.contains(last) {
                let i = choose|i: int| 0 <= i < earlier.len() && earlier[i] == last;
                assert(ids[i] == ids[ids.len() - 1]);
            }
        }
        assert forall|id: Seq<char>| ids.contains(id) <==> earlier.contains(id) || id == last by {
            if ids.contains(id) {
                let i = choose|i: int| 0 <= i < ids.len() && ids[i] == id;
                if i < earlier.len() {
                    assert(earlier[i] == id);
                }
            }
            if earlier.contains(id) {
                let i = choose|i: int| 0 <= i < earlier.len() && earlier[i] == id;
                assert(ids[i] == id);
            }
            if id == last {
                assert(ids[ids.len() - 1] == id);
            }
        }
        assert(after.generators.dom() =~= simulator.generators.dom() + ids.to_set());
        assert forall|id: Seq<char>| ids.contains(id) implies (#[trigger] after.generators[id]).simulation
            == simulations[id] by {
            if id != last {
                assert(earlier.contains(id));
                assert(before.generators.contains_key(id)) by {
                    assert(earlier.to_set().contains(id));
                }
            }
        }
    }
}

/// New settings decide what runs: afterwards the registry holds exactly the
/// simulations that the settings name, each running under the configuration
/// that the settings give it, and observers see exactly their claims.
pub proof fn lemma_settings_decide_registry<V>(
    simulator: SimulatorView<V>,
    auto_connect: bool,
    mqtt: bool,
    ids: Seq<Seq<char>>,
    simulations: Map<Seq<char>, SimulationView>,
)
    requires
        registry_fits(simulator),
        ids.no_duplicates(),
    ensures
        ({
            let after = simulator.configured(auto_connect, mqtt, ids, simulations).0;
            &&& registry_fits(after)
            &&& after.generators.dom() == ids.to_set()
            &&& after.snapshot().claims.dom() == ids.to_set()
            &&& forall|id: Seq<char>|
                ids.contains(id) ==> (#[trigger] after.generators[id]).simulation
                    == simulations[id] && after.generators[id].running && after.snapshot().claims[id]
                    == simulations[id].claims()
        }),
{
    let keep = ids.to_set();
    let retained = simulator.retained(keep).0;
    lemma_kept(simulator.ids, keep);
    assert(registry_fits(retained)) by {
        lemma_kept_distinct(simulator.ids, keep);
        assert(retained.generators.dom() =~= retained.ids.to_set()) by {
            assert forall|id: Seq<char>|
                retained.generators.dom().contains(id) <==> retained.ids.to_set().contains(
                    id,
                ) by {
                if retained.generators.dom().contains(id) {
                    assert(simulator.ids.to_set().contains(id));
                }
                if retained.ids.to_set().contains(id) {
                    assert(simulator.ids.to_set().contains(id));
                }
            }
        }
    }
    lemma_installed_registry(retained, ids, simulations);
    let installed = retained.installed(ids, simulations).0;
    let after = simulator.configured(auto_connect, mqtt, ids, simulations).0;
    assert(after.generators == installed.generators);
    assert(after.ids == installed.ids);
    assert(after.generators.dom() =~= ids.to_set());
    lemma_claims_follow_registry(after);
    assert forall|id: Seq<char>| ids.contains(id) implies (#[trigger] after.generators[id]).simulation
        == simulations[id] && after.generators[id].running && after.snapshot().claims[id]
        == simulations[id].claims() by {
        assert(ids.to_set().contains(id));
        assert(after.generators.contains_key(id));
    }
}

/// The ids that are kept are single where the ids were.
proof fn lemma_kept_distinct(ids: Seq<Seq<char>>, keep: Set<Seq<char>>)
    requires
        ids.no_duplicates(),
    ensures
        kept(ids, keep).no_duplicates(),
    decreases ids.len(),
{
    if ids.len() > 0 {
        let earlier = ids.drop_last();
        assert(earlier.no_duplicates()) by {
            assert forall|i: int, j: int|
                0 <= i < earlier.len() && 0 <= j < earlier.len() && i != j implies earlier[i]
                != earlier[j] by {
                assert(ids[i] != ids[j]);
            }
        }
        lemma_kept_distinct(earlier, keep);
        lemma_kept(earlier, keep);
        if keep.contains(ids.last()) {
            assert(!earlier.contains(ids.last())) by {
                if earlier.contains(ids.last()) {
                    let i = choose|i: int| 0 <= i < earlier.len() && earlier[i] == ids.last();
                    assert(ids[i] == ids[ids.len() - 1]);
                }
            }
            lemma_ids_with(kept(earlier, keep), ids.last());
        }
    }
}

} // verus!
