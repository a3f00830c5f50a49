use device_simulator::claims::Claim;
use device_simulator::command::Command;
use device_simulator::number::Number;
use device_simulator::settings::{Simulation, SimulationDiscriminants};
use device_simulator::simulations::accelerometer::{self, AccelerometerSimulation};
use device_simulator::simulations::led_matrix::{self, brightness, LedMatrixSimulation, Reading};
use device_simulator::simulations::sawtooth::{self, SawtoothGenerator};
use device_simulator::simulations::sine::{self, SineGenerator};
use device_simulator::simulations::slider::{self, SliderSimulation, Step};
use device_simulator::simulations::tick::{TickState, TickedGenerator, Ticker};
use device_simulator::simulations::wave::{self, WaveGenerator};
use device_simulator::simulations::{default_period, Activity, SimulationHandler};
use device_simulator::target::{FeatureTarget, SingleTarget};

fn number(value: f64) -> Number {
    Number::from_bits(value.to_bits())
}

fn sine(length: u64, period: u64) -> sine::Properties {
    sine::Properties {
        amplitude: number(2.5),
        length,
        period,
        target: SingleTarget::new("state", "sine", "value"),
    }
}

#[test]
fn numbers_keep_their_bits() {
    assert_eq!(f64::from_bits(Number::zero().to_bits()), 0.0);
    assert_eq!(f64::from_bits(Number::one().to_bits()), 1.0);
    assert_eq!(f64::from_bits(Number::hundred().to_bits()), 100.0);
    assert_eq!(f64::from_bits(number(-12.75).to_bits()), -12.75);
    assert_eq!(number(3.0), number(3.0));
    assert_ne!(number(3.0), number(3.5));
    assert_eq!(default_period(), 1000);
}

#[test]
fn ticker_starts_with_the_period_of_its_properties() {
    let mut ticker: Ticker<SineGenerator> = Ticker::new(sine(60_000, 250));
    assert!(!ticker.is_running());
    assert!(ticker.state().is_none());
    assert_eq!(
        *ticker.claims(),
        vec![Claim::Property {
            channel: "state".to_string(),
            feature: "sine".to_string(),
            property: "value".to_string(),
        }]
    );
    assert_eq!(ticker.describe().label, "Sine (state/sine/value)");

    assert_eq!(ticker.start(), Activity::StartTicking { period: 250 });
    assert!(ticker.is_running());
    let state = ticker.state().unwrap();
    assert_eq!(state.length, 60_000);
    assert_eq!(state.period(), 250);
    assert_eq!(state.amplitude, number(2.5));
    assert_eq!(state.target, SingleTarget::new("state", "sine", "value"));

    assert_eq!(ticker.stop(), Activity::StopTicking);
    assert!(!ticker.is_running());
    assert!(ticker.state().is_none());
}

#[test]
fn update_swaps_the_sampling_state_in_place() {
    let mut ticker: Ticker<SineGenerator> = Ticker::new(sine(60_000, 250));
    ticker.start();
    let mut changed = sine(60_000, 500);
    changed.amplitude = number(7.0);
    changed.target = SingleTarget::new("other", "sine", "value");
    // no timer is touched, whatever changes
    assert_eq!(ticker.update(changed), Activity::Nothing);
    assert!(ticker.is_running());
    let state = ticker.state().unwrap();
    assert_eq!(state.length, 60_000);
    assert_eq!(state.period, 500);
    assert_eq!(state.amplitude, number(7.0));
    assert_eq!(ticker.claims()[0], SingleTarget::new("other", "sine", "value").claims()[0]);
    assert_eq!(ticker.properties().period, 500);

    // a stopped ticker takes new properties without starting
    let mut ticker: Ticker<SineGenerator> = Ticker::new(sine(1, 1));
    assert_eq!(ticker.update(sine(2, 2)), Activity::Nothing);
    assert!(!ticker.is_running());
    assert_eq!(ticker.properties().length, 2);
}

#[test]
fn a_cycle_length_of_zero_is_sampled_as_one_millisecond() {
    let state = SineGenerator::make_state(&sine(0, 10), None);
    assert_eq!(state.length, 1);
    let state = SineGenerator::make_state(&sine(1, 10), None);
    assert_eq!(state.length, 1);
    let properties = sawtooth::Properties {
        max: number(10.0),
        length: 0,
        period: 10,
        target: SingleTarget::default(),
    };
    let state = SawtoothGenerator::make_state(&properties, None);
    assert_eq!(state.length, 1);
    assert_eq!(state.max, number(10.0));
    assert_eq!(SawtoothGenerator::describe(&properties).label, "Sawtooth (state/feature/value)");
    assert_eq!(SawtoothGenerator::make_claims(&properties), SingleTarget::default().claims());
}

#[test]
fn the_state_before_has_no_part_in_the_state_after() {
    let earlier = SineGenerator::make_state(&sine(5, 5), None);
    let fresh = SineGenerator::make_state(&sine(60_000, 250), None);
    let swapped = SineGenerator::make_state(&sine(60_000, 250), Some(earlier));
    assert_eq!(fresh.length, swapped.length);
    assert_eq!(fresh.period, swapped.period);
    assert_eq!(fresh.amplitude, swapped.amplitude);
    assert_eq!(fresh.target, swapped.target);
}

#[test]
fn phase_follows_the_clock_across_updates() {
    let mut ticker: Ticker<SineGenerator> = Ticker::new(sine(60_000, 250));
    ticker.start();
    let now = 1_700_000_012_345u64;
    let before = ticker.state().unwrap().phase(now);
    assert_eq!(before, now % 60_000);
    // the amplitude and the period change, the cycle length does not
    let mut changed = sine(60_000, 100);
    changed.amplitude = number(9.0);
    ticker.update(changed);
    let after = ticker.state().unwrap().phase(now + 7);
    assert_eq!(after, before + 7);
    assert_eq!(ticker.state().unwrap().phase(now + 60_000), before);

    let state = SineGenerator::make_state(&sine(0, 10), None);
    assert_eq!(state.phase(12345), 0);
}

#[test]
fn wave_pairs_lengths_with_amplitudes() {
    let properties = wave::Properties {
        lengths: vec![number(1000.0), number(2000.0), number(3000.0)],
        amplitudes: vec![number(1.0), number(0.5)],
        offset: number(10.0),
        period: 100,
        target: SingleTarget::default(),
    };
    let state = WaveGenerator::make_state(&properties, None);
    assert_eq!(
        state.parameters,
        vec![(number(1000.0), number(1.0)), (number(2000.0), number(0.5))]
    );
    assert_eq!(state.offset, number(10.0));
    assert_eq!(state.period(), 100);
    assert_eq!(properties.clone(), properties);
    let mut other = properties.clone();
    other.amplitudes.push(number(0.25));
    assert_ne!(other, properties);
    assert_eq!(WaveGenerator::make_state(&other, None).parameters.len(), 3);
    assert_eq!(WaveGenerator::describe(&properties).label, "Wave (state/feature/value)");
}

#[test]
fn accelerometer_publishes_three_axes() {
    let state = accelerometer::State::Orientation { x: number(1.0), y: number(2.0), z: number(3.0) };
    assert_eq!(
        state.to_properties(),
        Some(vec![("x", number(1.0)), ("y", number(2.0)), ("z", number(3.0))])
    );
    assert_eq!(accelerometer::State::Unknown.to_properties(), None);
}

#[test]
fn debounced_simulations_tell_a_running_sender_of_changes() {
    let properties =
        accelerometer::Properties { delay: 1000, target: FeatureTarget::new("state", "accel") };
    let mut simulation = AccelerometerSimulation::new(properties.clone());
    assert!(!simulation.is_running());
    assert_eq!(simulation.describe().label, "Accelerometer (state/accel)");
    assert_eq!(*simulation.claims(), FeatureTarget::new("state", "accel").claims());

    let changed = accelerometer::Properties { delay: 50, target: FeatureTarget::new("x", "y") };
    // not running: nobody to tell
    assert_eq!(simulation.update(changed.clone()), Activity::Nothing);
    assert_eq!(*simulation.properties(), changed);
    assert_eq!(*simulation.claims(), FeatureTarget::new("x", "y").claims());

    assert_eq!(simulation.start(), Activity::StartSender);
    assert!(simulation.is_running());
    // running, but nothing changes
    assert_eq!(simulation.update(changed.clone()), Activity::Nothing);
    // running, and the delay changes
    assert_eq!(simulation.update(properties.clone()), Activity::ConfigureSender);
    assert_eq!(*simulation.properties(), properties);
    assert_eq!(simulation.stop(), Activity::StopSender);
    assert!(!simulation.is_running());
}

#[test]
fn slider_steps_keep_value_and_label_apart() {
    let mut step = Step::Value(number(1.0));
    assert_eq!(step.value(), number(1.0));
    assert_eq!(step.label(), None);
    step.set_label(Some("low".to_string()));
    assert_eq!(step, Step::WithLabel { value: number(1.0), label: "low".to_string() });
    step.set_value(number(2.0));
    assert_eq!(step.value(), number(2.0));
    assert_eq!(step.label(), Some("low".to_string()));
    step.set_label(None);
    assert_eq!(step, Step::Value(number(2.0)));
    step.set_value(number(3.0));
    assert_eq!(step, Step::Value(number(3.0)));

    let properties = slider::Properties {
        delay: 10,
        target: SingleTarget::default(),
        min: Step::Value(number(0.0)),
        max: step.clone(),
    };
    let mut simulation = SliderSimulation::new(properties.clone());
    assert_eq!(simulation.start(), Activity::StartSender);
    let mut wider = properties.clone();
    wider.max.set_value(number(10.0));
    assert_eq!(simulation.update(wider), Activity::ConfigureSender);
    assert_eq!(simulation.describe().label, "Slider (state/feature/value)");
}

#[test]
fn brightness_is_held_between_0_and_255_and_cut_off() {
    for (value, expected) in [
        (0.0, 0u8),
        (-0.0, 0),
        (0.5, 0),
        (0.999_999, 0),
        (1.0, 1),
        (1.5, 1),
        (2.0, 2),
        (3.999, 3),
        (127.9, 127),
        (128.0, 128),
        (254.999, 254),
        (255.0, 255),
        (255.5, 255),
        (256.0, 255),
        (1e300, 255),
        (f64::INFINITY, 255),
        (-1.0, 0),
        (-300.0, 0),
        (f64::NEG_INFINITY, 0),
        (f64::NAN, 0),
        (f64::MIN_POSITIVE, 0),
        (5e-324, 0),
    ] {
        assert_eq!(brightness(value.to_bits()), expected, "{value}");
        assert_eq!(brightness(value.to_bits()), value.clamp(0.0, 255.0) as u8, "{value}");
    }
    for level in 0..=255u8 {
        assert_eq!(brightness((level as f64).to_bits()), level);
        assert_eq!(brightness((level as f64 + 0.75).to_bits()), level);
    }
}

fn light() -> LedMatrixSimulation {
    LedMatrixSimulation::new(led_matrix::Properties {
        target: SingleTarget::new("led", "matrix", "brightness"),
        color: None,
        color_off: Some("gray".to_string()),
    })
}

fn command(name: &str, payload: &str) -> Command {
    Command { name: name.to_string(), payload: Some(payload.as_bytes().to_vec()) }
}

#[test]
fn light_follows_commands_for_its_channel() {
    let mut light = light();
    assert_eq!(light.state(), led_matrix::State::Off);
    assert!(!light.state().is_on());
    assert_eq!(light.state().brightness(), 0);
    assert_eq!(light.describe().label, "Led Matrix (led/matrix/brightness)");

    // not running yet: the light changes, nothing is published
    assert_eq!(
        light.command(&command("led", r#"{"matrix": {"brightness": true}}"#)),
        Activity::Nothing
    );
    assert_eq!(light.state(), led_matrix::State::On(255));

    assert_eq!(light.start(), Activity::Notify);
    assert_eq!(
        light.command(&command("led", r#"{"matrix": {"brightness": 12.7}}"#)),
        Activity::Notify
    );
    assert_eq!(light.state(), led_matrix::State::On(12));
    assert!(light.state().is_on());
    assert_eq!(light.state().brightness(), 12);

    assert_eq!(light.command(&command("led", r#"{"matrix": {"brightness": 300}}"#)), Activity::Notify);
    assert_eq!(light.state(), led_matrix::State::On(255));
    assert_eq!(light.command(&command("led", r#"{"matrix": {"brightness": -4}}"#)), Activity::Notify);
    assert_eq!(light.state(), led_matrix::State::On(0));
    assert_eq!(light.command(&command("led", r#"{"matrix": {"brightness": 77}}"#)), Activity::Notify);
    assert_eq!(light.state(), led_matrix::State::On(77));
    assert_eq!(
        light.command(&command("led", r#"{"matrix": {"brightness": false}}"#)),
        Activity::Notify
    );
    assert_eq!(light.state(), led_matrix::State::Off);
}

#[test]
fn light_ignores_what_it_cannot_read() {
    let mut light = light();
    light.start();
    light.apply(Reading::Level(42f64.to_bits()));
    assert_eq!(light.state(), led_matrix::State::On(42));

    // another channel: not for this light
    assert_eq!(
        light.command(&command("other", r#"{"matrix": {"brightness": false}}"#)),
        Activity::Nothing
    );
    assert_eq!(light.state(), led_matrix::State::On(42));

    // for this light, but nothing readable: the light stays, and is published again
    for payload in [
        "no json",
        "",
        r#"{"matrix": {"other": true}}"#,
        r#"{"elsewhere": {"brightness": true}}"#,
        r#"{"matrix": {"brightness": "on"}}"#,
        r#"{"matrix": {"brightness": null}}"#,
        r#"[1, 2]"#,
    ] {
        assert_eq!(light.command(&command("led", payload)), Activity::Notify, "{payload}");
        assert_eq!(light.state(), led_matrix::State::On(42), "{payload}");
    }
    assert_eq!(
        light.command(&Command { name: "led".to_string(), payload: None }),
        Activity::Notify
    );
    assert_eq!(light.state(), led_matrix::State::On(42));

    light.apply(Reading::Other);
    assert_eq!(light.state(), led_matrix::State::On(42));
    light.apply(Reading::Switch(false));
    assert_eq!(light.state(), led_matrix::State::Off);
    light.apply(Reading::Switch(true));
    assert_eq!(light.state(), led_matrix::State::On(255));

    assert_eq!(light.stop(), Activity::Release);
    assert_eq!(light.command(&command("led", r#"{"matrix": {"brightness": 1}}"#)), Activity::Nothing);
    assert_eq!(light.state(), led_matrix::State::On(1));
}

#[test]
fn light_keeps_its_state_across_updates() {
    let mut light = light();
    light.apply(Reading::Switch(true));
    let properties = led_matrix::Properties {
        target: SingleTarget::new("lamp", "matrix", "brightness"),
        color: Some("red".to_string()),
        color_off: None,
    };
    assert_eq!(light.update(properties.clone()), Activity::Nothing);
    assert_eq!(light.state(), led_matrix::State::On(255));
    assert_eq!(*light.properties(), properties);
    assert_eq!(*light.claims(), SingleTarget::new("lamp", "matrix", "brightness").claims());
    assert!(!light.is_running());
}

#[test]
fn factory_creates_each_kind() {
    for kind in [
        SimulationDiscriminants::Sine,
        SimulationDiscriminants::Sawtooth,
        SimulationDiscriminants::Wave,
        SimulationDiscriminants::Accelerometer,
        SimulationDiscriminants::Slider,
        SimulationDiscriminants::LedMatrix,
    ] {
        let simulation = kind.make_default();
        assert_eq!(simulation.discriminant(), kind);
        let mut handler = simulation.create();
        assert_eq!(handler.discriminant(), kind);
        assert!(!handler.is_running());
        assert_eq!(*handler.claims(), simulation.to_claims());
        assert!(handler.writes_to("state"));
        assert!(!handler.writes_to("other"));

        let started = handler.start();
        let expected = match kind {
            SimulationDiscriminants::Sine
            | SimulationDiscriminants::Sawtooth
            | SimulationDiscriminants::Wave => Activity::StartTicking { period: 1000 },
            SimulationDiscriminants::Accelerometer | SimulationDiscriminants::Slider => {
                Activity::StartSender
            }
            SimulationDiscriminants::LedMatrix => Activity::Notify,
        };
        assert_eq!(started, expected);
        assert!(handler.is_running());

        // a configuration of another kind is refused
        let other = if kind == SimulationDiscriminants::Sine {
            SimulationDiscriminants::Wave
        } else {
            SimulationDiscriminants::Sine
        };
        assert_eq!(handler.update(other.make_default()), None);
        assert_eq!(handler.discriminant(), kind);
        assert_eq!(handler.update(simulation.clone()), Some(Activity::Nothing));

        let stopped = handler.stop();
        let expected = match kind {
            SimulationDiscriminants::Sine
            | SimulationDiscriminants::Sawtooth
            | SimulationDiscriminants::Wave => Activity::StopTicking,
            SimulationDiscriminants::Accelerometer | SimulationDiscriminants::Slider => {
                Activity::StopSender
            }
            SimulationDiscriminants::LedMatrix => Activity::Release,
        };
        assert_eq!(stopped, expected);
        assert!(!handler.is_running());
    }
}

#[test]
fn only_lights_listen_to_commands() {
    let command = command("state", r#"{"feature": {"value": true}}"#);
    let mut sine = SimulationDiscriminants::Sine.make_default().create();
    sine.start();
    assert_eq!(sine.command(&command), Activity::Nothing);

    let mut light = SimulationDiscriminants::LedMatrix.make_default().create();
    light.start();
    assert_eq!(light.command(&command), Activity::Notify);
    match light {
        SimulationHandler::LedMatrix(light) => {
            assert_eq!(light.state(), led_matrix::State::On(255))
        }
        _ => unreachable!(),
    }
    assert_eq!(Simulation::default().discriminant(), SimulationDiscriminants::Sine);
}
