use device_simulator::claims::Claim;
use device_simulator::config::{find_config, find_config_str, find_parameter, Provided};
use device_simulator::mqtt::{MqttConnector, COMMAND_FILTER, COMMAND_PREFIX};
use device_simulator::number::Number;
use device_simulator::publish::{publish_feature, publish_single, ChannelState, PublishEvent};
use device_simulator::settings::{
    Connection, Credentials, CredentialsType, Import, Protocol, Settings, Simulation,
    SimulationDiscriminants, Target,
};
use device_simulator::simulations::slider::Step;
use device_simulator::string_map::StringMap;
use device_simulator::target::{
    default_channel, default_feature, default_value_property, FeatureTarget, SingleTarget,
};

#[test]
fn default_settings() {
    let settings = Settings::default();
    assert!(!settings.auto_connect);
    match &settings.target {
        Target::Mqtt { url, credentials } => {
            assert_eq!(
                url,
                "wss://mqtt-endpoint-ws-browser-drogue-dev.apps.wonderful.iot-playground.org/mqtt"
            );
            match credentials {
                Credentials::Password(password) => assert_eq!(password, "my-password"),
                _ => unreachable!(),
            }
        }
        _ => unreachable!(),
    }
    assert_eq!(settings.application, "my-application");
    assert_eq!(settings.device, "my-device");
    assert!(settings.import.is_none());
    assert_eq!(settings.simulations.len(), 1);
    match settings.simulations.get("sine1") {
        Some(Simulation::Sine(properties)) => {
            assert_eq!(f64::from_bits(properties.amplitude.to_bits()), 100.0);
            assert_eq!(properties.length, 60_000);
            assert_eq!(properties.period, 1000);
            assert_eq!(properties.target, SingleTarget::new("state", "feature", "value"));
        }
        _ => unreachable!(),
    }
    assert_eq!(settings.target.as_protocol(), Protocol::Mqtt);
    let import = Import::default();
    assert!(!import.hint_connection);
    assert!(import.hint_text.is_none());
}

#[test]
fn protocols() {
    let http = Target::Http { url: "https://x".to_string(), credentials: Credentials::Anonymous };
    assert_eq!(http.as_protocol(), Protocol::Http);
    assert_eq!(http.clone().as_protocol(), Protocol::Http);
    assert_eq!(Protocol::Http.to_string(), "HTTP");
    assert_eq!(Protocol::Mqtt.to_string(), "MQTT");
}

#[test]
fn defaults_of_each_kind() {
    assert_eq!(default_channel(), "state");
    assert_eq!(default_feature(), "feature");
    assert_eq!(default_value_property(), "value");

    match SimulationDiscriminants::Sine.make_default() {
        Simulation::Sine(properties) => {
            assert_eq!(f64::from_bits(properties.amplitude.to_bits()), 1.0);
            assert_eq!(properties.length, 60_000);
            assert_eq!(properties.period, 1000);
            assert_eq!(properties.target, SingleTarget::default());
        }
        _ => unreachable!(),
    }
    match SimulationDiscriminants::Sawtooth.make_default() {
        Simulation::Sawtooth(properties) => {
            assert_eq!(f64::from_bits(properties.max.to_bits()), 1.0);
            assert_eq!(properties.length, 60_000);
            assert_eq!(properties.period, 1000);
        }
        _ => unreachable!(),
    }
    match SimulationDiscriminants::Wave.make_default() {
        Simulation::Wave(properties) => {
            assert!(properties.lengths.is_empty());
            assert!(properties.amplitudes.is_empty());
            assert_eq!(f64::from_bits(properties.offset.to_bits()), 0.0);
            assert_eq!(properties.period, 1000);
        }
        _ => unreachable!(),
    }
    match SimulationDiscriminants::Accelerometer.make_default() {
        Simulation::Accelerometer(properties) => {
            assert_eq!(properties.delay, 1000);
            assert_eq!(properties.target, FeatureTarget::new("state", "feature"));
        }
        _ => unreachable!(),
    }
    match SimulationDiscriminants::Slider.make_default() {
        Simulation::Slider(properties) => {
            assert_eq!(properties.delay, 1000);
            assert_eq!(
                properties.min,
                Step::WithLabel { value: Number::from_bits(0f64.to_bits()), label: "0%".to_string() }
            );
            assert_eq!(
                properties.max,
                Step::WithLabel {
                    value: Number::from_bits(100f64.to_bits()),
                    label: "100%".to_string()
                }
            );
        }
        _ => unreachable!(),
    }
    match SimulationDiscriminants::LedMatrix.make_default() {
        Simulation::LedMatrix(properties) => {
            assert_eq!(properties.target, SingleTarget::default());
            assert!(properties.color.is_none());
            assert!(properties.color_off.is_none());
        }
        _ => unreachable!(),
    }
    let kinds = SimulationDiscriminants::all();
    assert_eq!(kinds.len(), 6);
    let names: Vec<String> = kinds.iter().map(|kind| kind.to_string()).collect();
    assert_eq!(names, ["Sine", "Sawtooth", "Wave", "Accelerometer", "Slider", "LedMatrix"]);
    for kind in kinds {
        assert_eq!(kind.make_default().discriminant(), kind);
    }
    assert_eq!(SimulationDiscriminants::Sine.get_message(), "Simple sine wave generator");
    assert_eq!(SimulationDiscriminants::Sawtooth.get_message(), "Sawtooth generator");
    assert_eq!(SimulationDiscriminants::Wave.get_message(), "Wave generator");
    assert_eq!(SimulationDiscriminants::Accelerometer.get_message(), "Accelerometer");
    assert_eq!(SimulationDiscriminants::Slider.get_message(), "Slider");
    assert_eq!(SimulationDiscriminants::LedMatrix.get_message(), "Led Matrix");
}

#[test]
fn simulations_claim_their_targets() {
    assert_eq!(
        SimulationDiscriminants::Sine.make_default().to_claims(),
        vec![Claim::Property {
            channel: "state".to_string(),
            feature: "feature".to_string(),
            property: "value".to_string(),
        }]
    );
    assert_eq!(
        SimulationDiscriminants::Accelerometer.make_default().to_claims(),
        vec![Claim::Feature { channel: "state".to_string(), feature: "feature".to_string() }]
    );
    let sine = SimulationDiscriminants::Sine.make_default();
    assert_eq!(sine.clone(), sine);
    assert_ne!(sine, SimulationDiscriminants::Sawtooth.make_default());
}

#[test]
fn connector_logs_in_as_the_credentials_say() {
    let connector = MqttConnector::new(&Credentials::Anonymous, "device", "app");
    assert_eq!(connector.username, None);
    assert_eq!(connector.password, None);

    let connector = MqttConnector::new(&Credentials::Password("secret".to_string()), "device", "app");
    assert_eq!(connector.username, Some("device@app".to_string()));
    assert_eq!(connector.password, Some("secret".to_string()));

    let connector = MqttConnector::new(
        &Credentials::UsernamePassword { username: "me".to_string(), password: "p".to_string() },
        "device",
        "app",
    );
    assert_eq!(connector.username, Some("me".to_string()));
    assert_eq!(connector.password, Some("p".to_string()));
}

#[test]
fn commands_are_read_from_their_topic() {
    assert_eq!(COMMAND_FILTER, "command/inbox/#");
    assert_eq!(COMMAND_PREFIX, "command/inbox//");
    let command = MqttConnector::command("command/inbox//led", vec![1, 2]).unwrap();
    assert_eq!(command.name, "led");
    assert_eq!(command.payload, Some(vec![1, 2]));
    let command = MqttConnector::command("command/inbox//", vec![]).unwrap();
    assert_eq!(command.name, "");
    let command = MqttConnector::command("command/inbox//a/b", vec![]).unwrap();
    assert_eq!(command.name, "a/b");
    assert!(MqttConnector::command("command/inbox/device/led", vec![]).is_none());
    assert!(MqttConnector::command("command/inbox/", vec![]).is_none());
    assert!(MqttConnector::command("", vec![]).is_none());
    assert!(MqttConnector::command("x/command/inbox//led", vec![]).is_none());
}

#[test]
fn string_map_keeps_the_order_of_arrival() {
    let mut map: StringMap<u32> = StringMap::new();
    assert!(map.is_empty());
    assert_eq!(map.insert("b".to_string(), 1), None);
    assert_eq!(map.insert("a".to_string(), 2), None);
    assert_eq!(map.insert("c".to_string(), 3), None);
    assert_eq!(map.insert("a".to_string(), 4), Some(2));
    assert_eq!(map.len(), 3);
    assert_eq!(map.position("a"), Some(1));
    assert_eq!(map.position("z"), None);
    assert_eq!(map.entry(0), Some((&"b".to_string(), &1)));
    assert_eq!(map.entry(1), Some((&"a".to_string(), &4)));
    assert_eq!(map.entry(2), Some((&"c".to_string(), &3)));
    assert_eq!(map.entry(3), None);
    assert!(map.contains_key("c"));
    assert!(!map.contains_key("d"));
    assert_eq!(map.get("c"), Some(&3));
    assert_eq!(map.get("d"), None);

    let copy = map.clone();
    assert_eq!(map.remove("b"), Some(1));
    assert_eq!(map.remove("b"), None);
    assert_eq!(map.entry(0), Some((&"a".to_string(), &4)));
    assert_eq!(map.pop_front(), Some(("a".to_string(), 4)));
    assert_eq!(map.pop_front(), Some(("c".to_string(), 3)));
    assert_eq!(map.pop_front(), None);
    assert!(map.is_empty());
    assert_eq!(copy.len(), 3);
    assert_eq!(copy.get("b"), Some(&1));
}

#[test]
fn publications_name_channel_feature_and_properties() {
    match publish_single("state", "sine", "value", 1.5f64) {
        PublishEvent::Single { channel, state } => {
            assert_eq!(channel, "state");
            assert_eq!(state.name, "sine");
            assert_eq!(state.state.properties.len(), 1);
            assert_eq!(state.state.properties.get("value"), Some(&1.5));
        }
        _ => unreachable!(),
    }
    match publish_feature(
        "state",
        "accel",
        vec![("x".to_string(), 1), ("y".to_string(), 2), ("x".to_string(), 3)],
    ) {
        PublishEvent::Single { channel, state } => {
            assert_eq!(channel, "state");
            assert_eq!(state.name, "accel");
            assert_eq!(state.state.properties.len(), 2);
            // a later value takes the place of an earlier one for the same name
            assert_eq!(state.state.properties.get("x"), Some(&3));
            assert_eq!(state.state.properties.get("y"), Some(&2));
            assert_eq!(state.state.properties.entry(0), Some((&"x".to_string(), &3)));
        }
        _ => unreachable!(),
    }
    match publish_feature::<u8>("c", "f", vec![]) {
        PublishEvent::Single { state, .. } => assert!(state.state.properties.is_empty()),
        _ => unreachable!(),
    }
    let mut channel: ChannelState<u8> = ChannelState::new();
    assert!(channel.features.is_empty());
    if let PublishEvent::Single { state, .. } = publish_single("c", "f", "p", 1u8) {
        channel.set(state);
    }
    if let PublishEvent::Single { state, .. } = publish_single("c", "f", "q", 2u8) {
        channel.set(state);
    }
    assert_eq!(channel.features.len(), 1);
    let feature = channel.features.get("f").unwrap();
    assert_eq!(feature.properties.get("p"), None);
    assert_eq!(feature.properties.get("q"), Some(&2));
}

#[test]
fn settings_in_the_address() {
    assert_eq!(find_config_str("https://host/path?a=1&c=abc&c=def"), Some("abc".to_string()));
    assert_eq!(find_config_str("https://host/path?a=1&cc=abc"), None);
    assert_eq!(find_config_str("https://host/path"), None);
    assert_eq!(find_config_str("https://host/?c="), Some(String::new()));
    assert_eq!(find_config_str("https://host/?c=a%20b+c"), Some("a b c".to_string()));
    assert_eq!(find_config_str("https://host/?x=1#c=2"), None);
    assert_eq!(find_config_str("no address"), None);

    let pairs = vec![
        ("a".to_string(), "1".to_string()),
        ("b".to_string(), "2".to_string()),
        ("a".to_string(), "3".to_string()),
    ];
    assert_eq!(find_parameter(&pairs, "a"), Some("1".to_string()));
    assert_eq!(find_parameter(&pairs, "b"), Some("2".to_string()));
    assert_eq!(find_parameter(&pairs, "c"), None);
    assert_eq!(find_parameter(&vec![], "a"), None);

    // "{}~" in URL-safe base64
    match find_config("https://host/?c=e31-") {
        Provided::Settings(bytes) => assert_eq!(bytes, b"{}~"),
        other => panic!("{other:?}"),
    }
    match find_config("https://host/?c=eyJhIjoxfQ==") {
        Provided::Settings(bytes) => assert_eq!(bytes, br#"{"a":1}"#),
        other => panic!("{other:?}"),
    }
    // the standard alphabet is not the URL-safe one
    assert!(matches!(find_config("https://host/?c=e31%2B"), Provided::Unreadable));
    assert!(matches!(find_config("https://host/?c=%21"), Provided::Unreadable));
    assert!(matches!(find_config("https://host/?d=e30="), Provided::Nothing));
    assert!(matches!(find_config("nonsense"), Provided::Nothing));
}

#[test]
fn connection_form_takes_settings_in_and_puts_them_back() {
    let mut form = Connection::new();
    assert!(form.auto_connect);
    assert_eq!(form.protocol, Protocol::Mqtt);
    assert_eq!(form.credentials, CredentialsType::Anonymous);

    let mut settings = Settings::default();
    form.sync(&settings);
    assert_eq!(form.protocol, Protocol::Mqtt);
    assert_eq!(
        form.url,
        "wss://mqtt-endpoint-ws-browser-drogue-dev.apps.wonderful.iot-playground.org/mqtt"
    );
    assert_eq!(form.credentials, CredentialsType::Password);
    assert_eq!(form.password, "my-password");
    assert_eq!(form.username, "");
    assert_eq!(form.application, "my-application");
    assert_eq!(form.device, "my-device");
    // whether to connect by itself is the form's own until it is applied
    assert!(form.auto_connect);

    form.protocol = Protocol::Http;
    form.url = "https://endpoint".to_string();
    form.credentials = CredentialsType::UsernamePassword;
    form.username = "me".to_string();
    form.device = "other".to_string();
    form.update_settings(&mut settings);
    assert!(settings.auto_connect);
    assert_eq!(settings.device, "other");
    assert_eq!(settings.application, "my-application");
    assert_eq!(settings.simulations.len(), 1);
    match &settings.target {
        Target::Http { url, credentials } => {
            assert_eq!(url, "https://endpoint");
            match credentials {
                Credentials::UsernamePassword { username, password } => {
                    assert_eq!(username, "me");
                    assert_eq!(password, "my-password");
                }
                _ => unreachable!(),
            }
        }
        _ => unreachable!(),
    }

    // a password alone leaves the name in the form, no credentials clear both
    settings.target =
        Target::Mqtt { url: "u".to_string(), credentials: Credentials::Password("p".to_string()) };
    form.sync(&settings);
    assert_eq!(form.username, "me");
    assert_eq!(form.password, "p");
    settings.target = Target::Mqtt { url: "u".to_string(), credentials: Credentials::Anonymous };
    form.sync(&settings);
    assert_eq!(form.credentials, CredentialsType::Anonymous);
    assert_eq!(form.username, "");
    assert_eq!(form.password, "");
    form.update_settings(&mut settings);
    assert!(matches!(
        settings.target,
        Target::Mqtt { credentials: Credentials::Anonymous, .. }
    ));
    assert_eq!(CredentialsType::Anonymous.to_string(), "None");
    assert_eq!(CredentialsType::Password.to_string(), "Password");
    assert_eq!(CredentialsType::UsernamePassword.to_string(), "Username/password");
}
