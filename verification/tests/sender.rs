use device_simulator::sender::{Action, Msg, Sender, SenderConfiguration, INFINITY};
use device_simulator::simulations::accelerometer::Properties;
use device_simulator::target::FeatureTarget;

fn config(delay: u64) -> Properties {
    Properties { delay, target: FeatureTarget::default() }
}

fn sender(delay: u64, now: u64) -> Sender<u32, Properties> {
    Sender::new(config(delay), 0, now)
}

#[test]
fn burst_inside_one_window_publishes_once_at_its_end() {
    // D = 1000: updates at 0, 0.1 D and 0.2 D.
    let mut sender = sender(1000, 0);
    assert_eq!(sender.start(), Action::Publish);
    assert_eq!(*sender.state(), 0);
    assert_eq!(sender.handle(Some(Msg::Update(1)), 0), Action::Publish);
    assert_eq!(sender.next(), 1000);
    assert_eq!(sender.handle(Some(Msg::Update(2)), 100), Action::Arm { millis: 900 });
    assert_eq!(sender.handle(Some(Msg::Update(3)), 200), Action::Arm { millis: 800 });
    assert_eq!(sender.deadline(), Some(1000));
    assert_eq!(*sender.state(), 3);

    assert_eq!(sender.fire(1000), Action::Publish);
    assert_eq!(*sender.state(), 3);
    assert_eq!(sender.deadline(), None);
    assert_eq!(sender.next(), 2000);
}

#[test]
fn spaced_updates_publish_at_once() {
    // D = 1000: updates at 0 and 1.5 D.
    let mut sender = sender(1000, 0);
    assert_eq!(sender.handle(Some(Msg::Update(1)), 0), Action::Publish);
    assert_eq!(sender.handle(Some(Msg::Update(2)), 1500), Action::Publish);
    assert_eq!(sender.next(), 2500);
    assert_eq!(sender.deadline(), None);
    assert_eq!(*sender.state(), 2);
}

#[test]
fn an_update_that_goes_out_at_once_disarms_the_timer() {
    let mut sender = sender(1000, 0);
    // nothing waits: a firing publishes nothing
    assert_eq!(sender.fire(5), Action::Idle);
    assert_eq!(sender.next(), 0);
    assert_eq!(sender.handle(Some(Msg::Update(1)), 0), Action::Publish);
    assert_eq!(sender.handle(Some(Msg::Update(2)), 400), Action::Arm { millis: 600 });
    assert_eq!(sender.deadline(), Some(1000));
    // the update comes when the window has ended, before the timer fires
    assert_eq!(sender.handle(Some(Msg::Update(3)), 1002), Action::Publish);
    assert_eq!(sender.deadline(), None);
    assert_eq!(sender.next(), 2002);
    // the late timer finds nothing to publish
    assert_eq!(sender.fire(1004), Action::Idle);
    assert_eq!(sender.next(), 2002);
    assert_eq!(*sender.state(), 3);
}

#[test]
fn a_timer_that_fires_before_the_end_of_the_window_is_armed_again() {
    // the window is longer than the longest time that a timer can be armed for
    let delay = 3_000_000_000u64;
    let mut sender = sender(delay, 0);
    assert_eq!(sender.handle(Some(Msg::Update(1)), 0), Action::Publish);
    assert_eq!(sender.next(), delay);
    assert_eq!(sender.handle(Some(Msg::Update(2)), 1), Action::Arm { millis: INFINITY });
    assert_eq!(sender.deadline(), Some(delay));

    // the timer fires inside the window: nothing goes out, the rest is waited for
    let early = INFINITY as u64 + 1;
    assert_eq!(sender.fire(early), Action::Arm { millis: 852_516_352 });
    assert_eq!(sender.deadline(), Some(delay));
    assert_eq!(sender.next(), delay);
    assert_eq!(sender.handle(Some(Msg::Update(3)), early + 1), Action::Arm { millis: 852_516_351 });
    assert_eq!(sender.fire(delay - 1), Action::Arm { millis: 1 });

    // the window ends: the latest state goes out, once
    assert_eq!(sender.fire(delay), Action::Publish);
    assert_eq!(*sender.state(), 3);
    assert_eq!(sender.deadline(), None);
    assert_eq!(sender.next(), 2 * delay);
    assert_eq!(sender.fire(delay + 1), Action::Idle);
}

#[test]
fn update_exactly_at_the_end_of_the_window_publishes() {
    let mut sender = sender(1000, 5);
    assert_eq!(sender.next(), 5);
    assert_eq!(sender.handle(Some(Msg::Update(1)), 5), Action::Publish);
    assert_eq!(sender.handle(Some(Msg::Update(2)), 1004), Action::Arm { millis: 1 });
    assert_eq!(sender.handle(Some(Msg::Update(3)), 1005), Action::Publish);
    assert_eq!(sender.next(), 2005);
}

#[test]
fn configure_changes_the_delay_without_publishing() {
    let mut sender = sender(1000, 0);
    assert_eq!(sender.delay(), 1000);
    assert_eq!(sender.handle(Some(Msg::Update(1)), 0), Action::Publish);
    assert_eq!(sender.handle(Some(Msg::Configure(config(50))), 10), Action::Idle);
    assert_eq!(sender.delay(), 50);
    assert_eq!(sender.config().delay, 50);
    assert_eq!(sender.config().delay(), 50);
    // the window that is open stays as it was
    assert_eq!(sender.next(), 1000);
    assert_eq!(sender.handle(Some(Msg::Update(2)), 1000), Action::Publish);
    assert_eq!(sender.next(), 1050);
}

#[test]
fn closed_queue_stops_the_loop() {
    let mut sender = sender(1000, 0);
    assert_eq!(sender.handle(Some(Msg::Update(7)), 0), Action::Publish);
    assert_eq!(sender.handle(None, 1), Action::Stop);
    assert_eq!(*sender.state(), 7);
    assert_eq!(sender.next(), 1000);
}

#[test]
fn long_waits_arm_the_longest_timer() {
    let mut sender = sender(u64::MAX, 0);
    assert_eq!(sender.handle(Some(Msg::Update(1)), 0), Action::Publish);
    // the sum of time and delay is held at the largest time
    assert_eq!(sender.next(), u64::MAX);
    assert_eq!(sender.handle(Some(Msg::Update(2)), 1), Action::Arm { millis: INFINITY });
    assert_eq!(INFINITY, i32::MAX as u32);

    // no timer is armed for longer than the longest time
    for (delay, millis) in [
        (INFINITY as u64 - 1, INFINITY - 1),
        (INFINITY as u64, INFINITY),
        (INFINITY as u64 + 1, INFINITY),
        (u32::MAX as u64, INFINITY),
        (u32::MAX as u64 + 1, INFINITY),
    ] {
        let mut sender = Sender::<u32, Properties>::new(config(delay), 0, 0);
        assert_eq!(sender.handle(Some(Msg::Update(1)), 0), Action::Publish);
        assert_eq!(sender.handle(Some(Msg::Update(2)), 0), Action::Arm { millis });
        assert_eq!(sender.deadline(), Some(delay));
    }
}
