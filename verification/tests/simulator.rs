use device_simulator::claims::Claim;
use device_simulator::command::Command;
use device_simulator::connection::State;
use device_simulator::publish::{publish_single, ChannelState, PublishEvent};
use device_simulator::settings::{
    Credentials, Settings, Simulation, SimulationDiscriminants, Target,
};
use device_simulator::simulations::led_matrix;
use device_simulator::simulations::SimulationHandler;
use device_simulator::simulator::{Effect, Interest, Msg, Request, Response, Simulator};
use device_simulator::string_map::StringMap;
use device_simulator::target::SingleTarget;

fn settings(simulations: Vec<(&str, Simulation)>) -> Settings {
    let mut map = StringMap::new();
    for (id, simulation) in simulations {
        map.insert(id.to_string(), simulation);
    }
    Settings {
        auto_connect: false,
        target: Target::Mqtt { url: "wss://broker".to_string(), credentials: Credentials::Anonymous },
        application: "app".to_string(),
        device: "device".to_string(),
        simulations: map,
        import: None,
    }
}

fn simulator() -> Simulator<f64> {
    Simulator::new(settings(vec![]))
}

fn light(channel: &str) -> Simulation {
    Simulation::LedMatrix(Box::new(led_matrix::Properties {
        target: SingleTarget::new(channel, "matrix", "brightness"),
        color: None,
        color_off: None,
    }))
}

/// What a list of effects says, shortly.
fn told(effects: &[Effect]) -> Vec<String> {
    effects
        .iter()
        .map(|effect| match effect {
            Effect::Respond { to, response } => match response {
                Response::State(state) => format!(
                    "{to}: {} {} {:?}",
                    if state.running { "running" } else { "idle" },
                    state.state.to_string(),
                    state.claims.ids()
                ),
                Response::Command(command) => format!("{to}: command {}", command.name),
                Response::CommandHistory(commands) => format!("{to}: history {}", commands.len()),
                Response::SimulationState(id) => format!("{to}: presents {id}"),
            },
            Effect::Connect => "connect".to_string(),
            Effect::Subscribe => "subscribe".to_string(),
            Effect::Disconnect => "disconnect".to_string(),
            Effect::Publish { channel, payload } => format!("publish {channel} {payload:?}"),
            Effect::PublishState { channel } => format!("publish state {channel}"),
            Effect::Simulation { id, activity } => format!("{id}: {activity:?}"),
        })
        .collect()
}

#[test]
fn start_connects_subscribes_and_tells_observers() {
    let mut simulator = simulator();
    simulator.connected(1, Interest::State);
    simulator.connected(2, Interest::Commands);
    simulator.connected(3, Interest::State);
    assert!(!simulator.state().running);
    assert_eq!(simulator.state().state, State::Disconnected);

    let effects = simulator.handle_input(Request::Start, 1);
    assert_eq!(
        told(&effects),
        vec![
            "1: running Disconnected []",
            "3: running Disconnected []",
            "1: running Connecting []",
            "3: running Connecting []",
            "connect",
        ]
    );
    // a second start changes nothing
    assert!(simulator.handle_input(Request::Start, 1).is_empty());

    let effects = simulator.update(Msg::Connected);
    assert_eq!(
        told(&effects),
        vec!["1: running Subscribing []", "3: running Subscribing []", "subscribe"]
    );
    let effects = simulator.update(Msg::Subscribed);
    assert_eq!(told(&effects), vec!["1: running Connected []", "3: running Connected []"]);
    assert!(simulator.state().state.is_connected());

    // success that nobody waits for is not heard
    assert!(simulator.update(Msg::Connected).is_empty());
    assert!(simulator.update(Msg::Subscribed).is_empty());
    assert!(simulator.state().state.is_connected());

    let effects = simulator.handle_input(Request::Stop, 3);
    assert_eq!(
        told(&effects),
        vec!["disconnect", "1: idle Disconnected []", "3: idle Disconnected []"]
    );
    assert!(simulator.handle_input(Request::Stop, 3).is_empty());
    assert!(simulator.update(Msg::Connected).is_empty());
    assert_eq!(simulator.state().state, State::Disconnected);
}

#[test]
fn failure_is_shown_and_can_be_started_over() {
    let mut simulator = simulator();
    simulator.connected(7, Interest::State);
    simulator.handle_input(Request::Start, 7);
    let effects = simulator.update(Msg::Disconnected("refused".to_string()));
    assert_eq!(told(&effects), vec!["7: running Failed (refused) []"]);
    assert_eq!(simulator.state().state, State::Failed("refused".to_string()));
    assert!(simulator.state().running);

    let effects = simulator.handle_input(Request::Start, 7);
    assert_eq!(
        told(&effects),
        vec![
            "disconnect",
            "7: idle Disconnected []",
            "7: running Disconnected []",
            "7: running Connecting []",
            "connect",
        ]
    );

    // a failure that arrives after a stop is shown too, and a start goes on from there
    simulator.handle_input(Request::Stop, 7);
    simulator.update(Msg::Disconnected("late".to_string()));
    assert_eq!(simulator.state().state, State::Failed("late".to_string()));
    assert!(!simulator.state().running);
    let effects = simulator.handle_input(Request::Start, 7);
    assert_eq!(
        told(&effects),
        vec!["7: running Failed (late) []", "7: running Connecting []", "connect"]
    );
}

#[test]
fn stop_reaches_disconnected_from_every_state() {
    // failed, and not running: a failure that arrived after a stop
    let mut simulator = simulator();
    simulator.connected(1, Interest::State);
    simulator.update(Msg::Disconnected("late".to_string()));
    assert_eq!(simulator.state().state, State::Failed("late".to_string()));
    assert!(!simulator.state().running);
    let effects = simulator.handle_input(Request::Stop, 1);
    assert_eq!(told(&effects), vec!["1: idle Disconnected []"]);
    assert_eq!(simulator.state().state, State::Disconnected);
    assert!(!simulator.state().running);
    // stopped already: nothing to do, nothing to tell
    assert!(simulator.handle_input(Request::Stop, 1).is_empty());

    // connecting, subscribing, connected, and failed while running
    for steps in 0..4 {
        let mut simulator = simulator_with_observer();
        simulator.handle_input(Request::Start, 1);
        if steps >= 1 {
            simulator.update(Msg::Connected);
        }
        if steps >= 2 {
            simulator.update(Msg::Subscribed);
        }
        if steps >= 3 {
            simulator.update(Msg::Disconnected("lost".to_string()));
        }
        let effects = simulator.handle_input(Request::Stop, 1);
        assert_eq!(told(&effects), vec!["disconnect", "1: idle Disconnected []"]);
        assert_eq!(simulator.state().state, State::Disconnected);
        assert!(!simulator.state().running);
        assert_eq!(simulator.commands().capacity(), 200);
    }
}

fn simulator_with_observer() -> Simulator<f64> {
    let mut simulator = simulator();
    simulator.connected(1, Interest::State);
    simulator
}

#[test]
fn stop_itself_stops_whatever_the_state() {
    let mut simulator = simulator_with_observer();
    // stopped already: observers are told all the same
    assert_eq!(told(&simulator.stop()), vec!["1: idle Disconnected []"]);
    simulator.handle_input(Request::Start, 1);
    simulator.update(Msg::Connected);
    simulator.update(Msg::Command(Command { name: "c".to_string(), payload: None }));
    assert_eq!(told(&simulator.stop()), vec!["disconnect", "1: idle Disconnected []"]);
    assert_eq!(simulator.state().state, State::Disconnected);
    assert!(!simulator.state().running);
    assert_eq!(simulator.commands().len(), 1);
    assert_eq!(simulator.settings().device, "device");
}

#[test]
fn observers_see_the_order_of_the_registry() {
    let mut simulator = simulator_with_observer();
    simulator.add("b".to_string(), &SimulationDiscriminants::Sine.make_default());
    simulator.add("a".to_string(), &SimulationDiscriminants::Wave.make_default());
    simulator.add("c".to_string(), &light("led"));
    assert_eq!(simulator.state().claims.ids(), ["b", "a", "c"]);
    // a simulation that is configured anew is the last of the registry
    let effects = simulator.update_simulation("b".to_string(), &SimulationDiscriminants::Sine.make_default());
    assert_eq!(told(&effects), vec!["1: idle Disconnected [\"a\", \"c\", \"b\"]"]);
    let effects = simulator.remove("c");
    assert_eq!(told(&effects), vec!["c: Release", "1: idle Disconnected [\"a\", \"b\"]"]);
    let shown = simulator.state().clone();
    assert_eq!(shown.claims.ids(), ["a", "b"]);
}

#[test]
fn http_target_has_no_connector() {
    let mut settings = settings(vec![]);
    settings.target =
        Target::Http { url: "https://x".to_string(), credentials: Credentials::Anonymous };
    let mut simulator: Simulator<f64> = Simulator::new(settings);
    simulator.connected(1, Interest::State);
    let effects = simulator.handle_input(Request::Start, 1);
    assert_eq!(told(&effects), vec!["1: running Disconnected []"]);
    let effects =
        simulator.handle_input(Request::Publish { channel: "c".to_string(), payload: vec![1] }, 1);
    assert!(effects.is_empty());
    let effects = simulator.handle_input(Request::Stop, 1);
    assert_eq!(told(&effects), vec!["1: idle Disconnected []"]);
}

#[test]
fn raw_publications_need_a_connector() {
    let mut simulator = simulator();
    let publish = || Request::Publish { channel: "c".to_string(), payload: vec![1, 2] };
    assert!(simulator.handle_input(publish(), 1).is_empty());
    simulator.handle_input(Request::Start, 1);
    assert_eq!(told(&simulator.handle_input(publish(), 1)), vec!["publish c [1, 2]"]);
    simulator.handle_input(Request::Stop, 1);
    assert!(simulator.handle_input(publish(), 1).is_empty());
}

#[test]
fn observers_attach_change_interest_and_detach() {
    let mut simulator = simulator();
    simulator.connected(1, Interest::State);
    simulator.connected(2, Interest::State);
    simulator.connected(1, Interest::Commands);
    let effects = simulator.update(Msg::Disconnected("x".to_string()));
    assert_eq!(told(&effects), vec!["2: idle Failed (x) []"]);
    let effects =
        simulator.update(Msg::Command(Command { name: "led".to_string(), payload: None }));
    assert_eq!(told(&effects), vec!["1: command led"]);

    simulator.connected(3, Interest::Simulation("sine1".to_string()));
    simulator.connected(4, Interest::Simulation("other".to_string()));
    simulator.connected(5, Interest::Simulation("sine1".to_string()));
    let effects = simulator.update(Msg::SimulationState("sine1".to_string()));
    assert_eq!(told(&effects), vec!["3: presents sine1", "5: presents sine1"]);

    simulator.disconnected(2);
    simulator.disconnected(3);
    simulator.disconnected(99);
    assert!(simulator.update(Msg::Disconnected("y".to_string())).is_empty());
    let effects = simulator.update(Msg::SimulationState("sine1".to_string()));
    assert_eq!(told(&effects), vec!["5: presents sine1"]);
}

#[test]
fn commands_reach_history_observers_and_every_light_on_the_channel() {
    let mut simulator = simulator();
    simulator.connected(1, Interest::Commands);
    simulator.add("first".to_string(), &light("led"));
    simulator.add("elsewhere".to_string(), &light("lamp"));
    simulator.add("second".to_string(), &light("led"));
    simulator.add("sine".to_string(), &SimulationDiscriminants::Sine.make_default());

    let command = Command {
        name: "led".to_string(),
        payload: Some(br#"{"matrix": {"brightness": 40}}"#.to_vec()),
    };
    let effects = simulator.update(Msg::Command(command.clone()));
    assert_eq!(
        told(&effects),
        vec!["1: command led", "first: Notify", "second: Notify"]
    );
    for (id, expected) in [
        ("first", led_matrix::State::On(40)),
        ("elsewhere", led_matrix::State::Off),
        ("second", led_matrix::State::On(40)),
    ] {
        match simulator.generator(id) {
            Some(SimulationHandler::LedMatrix(light)) => assert_eq!(light.state(), expected),
            _ => unreachable!(),
        }
    }
    assert_eq!(simulator.commands().to_vec(), vec![command]);

    // a command for a channel that only a sine writes to is recorded, and nothing more
    let effects =
        simulator.update(Msg::Command(Command { name: "state".to_string(), payload: None }));
    assert_eq!(told(&effects), vec!["1: command state"]);
    assert_eq!(simulator.commands().len(), 2);

    let effects = simulator.handle_input(Request::FetchHistory, 9);
    assert_eq!(told(&effects), vec!["9: history 2"]);
    match &effects[0] {
        Effect::Respond { response: Response::CommandHistory(commands), .. } => {
            assert_eq!(commands[0].name, "led");
            assert_eq!(commands[1].name, "state");
        }
        _ => unreachable!(),
    }
}

#[test]
fn history_of_the_simulator_is_bounded() {
    let mut simulator = simulator();
    for n in 0..250 {
        simulator.update(Msg::Command(Command { name: format!("c{n}"), payload: None }));
    }
    let commands = simulator.commands().to_vec();
    assert_eq!(commands.len(), 200);
    assert_eq!(commands[0].name, "c50");
    assert_eq!(commands[199].name, "c249");
}

#[test]
fn registry_and_claims_move_together() {
    let mut simulator = simulator();
    simulator.connected(1, Interest::State);
    let sine = SimulationDiscriminants::Sine.make_default();

    let effects = simulator.add("a".to_string(), &sine);
    assert_eq!(
        told(&effects),
        vec!["a: StartTicking { period: 1000 }", "1: idle Disconnected [\"a\"]"]
    );
    assert_eq!(simulator.state().claims.get("a"), Some(&sine.to_claims()));
    assert_eq!(
        simulator.state().simulations.get("a").map(|d| d.label.clone()),
        Some("Sine (state/feature/value)".to_string())
    );
    assert!(simulator.generator("a").unwrap().is_running());
    // the claims of "a" are taken for everybody but "a"
    assert!(simulator.state().claims.is_claimed_any(sine.to_claims(), None));
    assert!(!simulator.state().claims.is_claimed_any(sine.to_claims(), Some("a")));
    assert!(simulator.state().conflicts(&sine, None));
    assert!(simulator.state().conflicts(&sine, Some("b")));
    assert!(!simulator.state().conflicts(&sine, Some("a")));
    assert!(!simulator.state().conflicts(&light("led"), None));

    // the same configuration again: nothing to do but to tell
    let effects = simulator.update_simulation("a".to_string(), &sine);
    assert_eq!(told(&effects), vec!["1: idle Disconnected [\"a\"]"]);

    // another target: the claims follow
    let mut moved = match SimulationDiscriminants::Sine.make_default() {
        Simulation::Sine(properties) => properties,
        _ => unreachable!(),
    };
    moved.target = SingleTarget::new("other", "f", "p");
    let moved = Simulation::Sine(moved);
    let effects = simulator.update_simulation("a".to_string(), &moved);
    assert_eq!(told(&effects), vec!["1: idle Disconnected [\"a\"]"]);
    assert_eq!(
        simulator.state().claims.get("a"),
        Some(&vec![Claim::Property {
            channel: "other".to_string(),
            feature: "f".to_string(),
            property: "p".to_string(),
        }])
    );
    assert_eq!(
        simulator.state().simulations.get("a").map(|d| d.label.clone()),
        Some("Sine (other/f/p)".to_string())
    );

    // another kind: the old simulation stops, a new one starts
    let slider = SimulationDiscriminants::Slider.make_default();
    let effects = simulator.update_simulation("a".to_string(), &slider);
    assert_eq!(
        told(&effects),
        vec!["a: StopTicking", "a: StartSender", "1: idle Disconnected [\"a\"]"]
    );
    // a running sender hears of changes
    let mut slower = match SimulationDiscriminants::Slider.make_default() {
        Simulation::Slider(properties) => properties,
        _ => unreachable!(),
    };
    slower.delay = 5000;
    let effects = simulator.add("a".to_string(), &Simulation::Slider(slower));
    assert_eq!(told(&effects), vec!["a: ConfigureSender", "1: idle Disconnected [\"a\"]"]);

    // an id that is not there is not updated
    assert!(simulator.update_simulation("missing".to_string(), &sine).is_empty());
    assert!(simulator.generator("missing").is_none());
    assert!(simulator.remove("missing").is_empty());

    let effects = simulator.remove("a");
    assert_eq!(told(&effects), vec!["a: StopSender", "1: idle Disconnected []"]);
    assert!(simulator.generator("a").is_none());
    assert!(simulator.state().claims.is_empty());
    assert!(simulator.state().simulations.is_empty());
}

#[test]
fn settings_decide_what_runs() {
    let mut simulator = simulator();
    simulator.connected(1, Interest::State);
    simulator.add("keep".to_string(), &SimulationDiscriminants::Sine.make_default());
    simulator.add("drop".to_string(), &SimulationDiscriminants::Wave.make_default());
    simulator.add("turn".to_string(), &SimulationDiscriminants::Sawtooth.make_default());

    let effects = simulator.update(Msg::Settings(settings(vec![
        ("new", SimulationDiscriminants::Accelerometer.make_default()),
        ("turn", light("led")),
        ("keep", SimulationDiscriminants::Sine.make_default()),
    ])));
    assert_eq!(
        told(&effects),
        vec![
            "drop: StopTicking",
            "new: StartSender",
            "turn: StopTicking",
            "turn: Notify",
            // observers see the simulations in the order of the registry
            "1: idle Disconnected [\"new\", \"turn\", \"keep\"]",
        ]
    );
    assert!(simulator.generator("drop").is_none());
    assert_eq!(
        simulator.generator("turn").unwrap().discriminant(),
        SimulationDiscriminants::LedMatrix
    );
    assert_eq!(simulator.settings().simulations.len(), 3);
    assert_eq!(simulator.state().claims.len(), 3);
    assert_eq!(simulator.state().claims.get("turn"), Some(&light("led").to_claims()));
}

#[test]
fn new_settings_restart_a_running_simulator() {
    let mut simulator = simulator();
    simulator.connected(1, Interest::State);
    simulator.handle_input(Request::Start, 1);
    simulator.update(Msg::Connected);
    simulator.update(Msg::Subscribed);

    let effects = simulator.update(Msg::Settings(settings(vec![])));
    assert_eq!(
        told(&effects),
        vec![
            "1: running Connected []",
            "disconnect",
            "1: idle Disconnected []",
            "1: running Disconnected []",
            "1: running Connecting []",
            "connect",
        ]
    );
}

#[test]
fn settings_that_ask_for_it_connect_by_themselves() {
    let mut simulator = simulator();
    simulator.connected(1, Interest::State);
    let mut settings = settings(vec![]);
    settings.auto_connect = true;
    let effects = simulator.update(Msg::Settings(settings));
    assert_eq!(
        told(&effects),
        vec![
            "1: idle Disconnected []",
            "1: running Disconnected []",
            "1: running Connecting []",
            "connect",
        ]
    );
    assert!(simulator.settings().auto_connect);

    // without the wish to connect, a stopped simulator stays stopped
    let mut simulator: Simulator<f64> = Simulator::new(Settings::default());
    simulator.connected(1, Interest::State);
    let effects = simulator.update(Msg::Settings(Settings::default()));
    assert_eq!(
        told(&effects),
        vec!["sine1: StartTicking { period: 1000 }", "1: idle Disconnected [\"sine1\"]"]
    );
}

#[test]
fn publications_add_up_per_channel() {
    let mut simulator = simulator();
    assert!(simulator.channel_state("state").is_none());
    // no connector: the state is kept, nothing goes out
    let effects = simulator.update(Msg::PublishEvent(publish_single("state", "sine", "value", 1.0)));
    assert!(effects.is_empty());

    simulator.handle_input(Request::Start, 1);
    let effects = simulator.update(Msg::PublishEvent(publish_single("state", "wave", "value", 2.0)));
    assert_eq!(told(&effects), vec!["publish state state"]);
    let effects = simulator.update(Msg::PublishEvent(publish_single("state", "sine", "other", 3.0)));
    assert_eq!(told(&effects), vec!["publish state state"]);

    let state = simulator.channel_state("state").unwrap();
    assert_eq!(state.features.len(), 2);
    // a feature is published as a whole
    assert_eq!(state.features.get("sine").unwrap().properties.get("value"), None);
    assert_eq!(state.features.get("sine").unwrap().properties.get("other"), Some(&3.0));
    assert_eq!(state.features.get("wave").unwrap().properties.get("value"), Some(&2.0));

    let mut full: ChannelState<f64> = ChannelState::new();
    if let PublishEvent::Single { state, .. } = publish_single("state", "only", "value", 4.0) {
        full.set(state);
    }
    let effects = simulator
        .update(Msg::PublishEvent(PublishEvent::Full { channel: "state".to_string(), state: full }));
    assert_eq!(told(&effects), vec!["publish state state"]);
    let state = simulator.channel_state("state").unwrap();
    assert_eq!(state.features.len(), 1);
    assert_eq!(state.features.get("only").unwrap().properties.get("value"), Some(&4.0));

    simulator.update(Msg::PublishEvent(publish_single("second", "f", "p", 5.0)));
    assert!(simulator.channel_state("second").is_some());
    assert!(simulator.channel_state("state").is_some());
}
