use device_simulator::claims::{Claim, Claims};
use device_simulator::entries::{make_entries, Entry};
use device_simulator::target::{FeatureTarget, SingleTarget};

#[test]
fn test_claims_conflict_1() {
    let mut state = Claims::default();
    state.insert(
        "sim1".to_string(),
        SingleTarget::new("state", "feature", "property").claims(),
    );

    let claims = SingleTarget::new("state", "feature", "property").claims();
    assert!(state.is_claimed_any(claims.clone(), None));
    assert!(!state.is_claimed_any(claims, Some("sim1")));

    let claims = FeatureTarget::new("state", "feature").claims();
    assert!(state.is_claimed_any(claims.clone(), None));
    assert!(!state.is_claimed_any(claims, Some("sim1")));
}

#[test]
fn test_claims_conflict_2() {
    let mut state = Claims::default();
    state.insert(
        "sim1".to_string(),
        FeatureTarget::new("state", "feature").claims(),
    );

    let claims = SingleTarget::new("state", "feature", "property").claims();
    assert!(state.is_claimed_any(claims.clone(), None));
    assert!(!state.is_claimed_any(claims, Some("sim1")));

    let claims = FeatureTarget::new("state", "feature").claims();
    assert!(state.is_claimed_any(claims.clone(), None));
    assert!(!state.is_claimed_any(claims, Some("sim1")));
}

#[test]
fn overlap_is_symmetric_and_hierarchical() {
    let channel = Claim::Channel { channel: "s".to_string() };
    let feature = Claim::Feature { channel: "s".to_string(), feature: "f".to_string() };
    let property = Claim::Property {
        channel: "s".to_string(),
        feature: "f".to_string(),
        property: "p".to_string(),
    };
    let sibling = Claim::Property {
        channel: "s".to_string(),
        feature: "f".to_string(),
        property: "p2".to_string(),
    };
    let elsewhere = Claim::Feature { channel: "s".to_string(), feature: "g".to_string() };
    let all = [&channel, &feature, &property, &sibling, &elsewhere];
    for a in all {
        for b in all {
            assert_eq!(a.overlap(b), b.overlap(a));
        }
    }
    assert!(property.overlap(&feature));
    assert!(property.overlap(&channel));
    assert!(feature.overlap(&channel));
    assert!(feature.overlap(&sibling));
    assert!(!property.overlap(&sibling));
    assert!(!elsewhere.overlap(&property));
    assert!(elsewhere.overlap(&channel));
}

fn property(channel: &str, feature: &str, property: &str) -> Claim {
    Claim::Property {
        channel: channel.to_string(),
        feature: feature.to_string(),
        property: property.to_string(),
    }
}

#[test]
fn registry_scenario_with_one_simulation() {
    let mut registry = Claims::new();
    registry.insert("a".to_string(), vec![property("s", "f1", "value")]);

    assert!(registry.is_claimed_any(vec![property("s", "f1", "value")], None));
    assert!(!registry.is_claimed_any(vec![property("s", "f1", "value")], Some("a")));
    assert!(registry.is_claimed_any(
        vec![Claim::Feature { channel: "s".to_string(), feature: "f1".to_string() }],
        None
    ));
    assert!(!registry.is_claimed_any(vec![property("s", "f2", "value")], None));
    assert!(!registry.is_claimed_any(vec![], None));
}

#[test]
fn own_claims_are_excluded_but_not_those_of_others() {
    let mut registry = Claims::new();
    registry.insert("b".to_string(), vec![Claim::Channel { channel: "s".to_string() }]);
    registry.insert("a".to_string(), vec![property("s", "f", "p")]);

    // "b" holds the whole channel, so the claims of "a" are taken even with "a" excluded.
    assert!(registry.is_claimed_any(vec![property("s", "f", "p")], Some("a")));

    registry.remove("b");
    assert!(!registry.is_claimed_any(vec![property("s", "f", "p")], Some("a")));
    assert!(registry.is_claimed_any(vec![property("s", "f", "p")], Some("b")));
}

#[test]
fn insert_replaces_and_remove_forgets() {
    let mut registry = Claims::default();
    assert!(registry.is_empty());
    registry.insert("a".to_string(), vec![property("s", "f", "p")]);
    registry.insert("a".to_string(), vec![property("t", "f", "p")]);
    assert_eq!(registry.len(), 1);
    assert_eq!(registry.get("a"), Some(&vec![property("t", "f", "p")]));
    assert!(!registry.contains(&property("s", "f", "p"), None));
    assert!(registry.contains(&property("t", "f", "p"), None));

    registry.insert("b".to_string(), vec![]);
    assert_eq!(registry.ids(), vec!["a".to_string(), "b".to_string()]);

    registry.remove("a");
    assert_eq!(registry.get("a"), None);
    assert_eq!(registry.len(), 1);
    registry.remove("missing");
    assert_eq!(registry.len(), 1);

    let copy = registry.clone();
    assert_eq!(copy.ids(), vec!["b".to_string()]);
}

#[test]
fn targets_describe_themselves_and_claim_their_scope() {
    let single = SingleTarget::new("state", "feature", "property");
    assert_eq!(single.describe("Sine").label, "Sine (state/feature/property)");
    assert_eq!(single.claims(), vec![property("state", "feature", "property")]);

    let feature = FeatureTarget::new("state", "feature");
    assert_eq!(feature.describe("Accelerometer").label, "Accelerometer (state/feature)");
    assert_eq!(
        feature.claims(),
        vec![Claim::Feature { channel: "state".to_string(), feature: "feature".to_string() }]
    );

    assert_eq!(SingleTarget::default(), SingleTarget::new("state", "feature", "value"));
    assert_eq!(FeatureTarget::default(), FeatureTarget::new("state", "feature"));
    assert_ne!(single, SingleTarget::default());
}

fn entry(
    channel: &str,
    feature: Option<&str>,
    property: Option<&str>,
    simulators: &[&str],
) -> Entry {
    Entry {
        channel: channel.to_string(),
        feature: feature.map(str::to_string),
        property: property.map(str::to_string),
        simulators: simulators.iter().map(|s| s.to_string()).collect(),
    }
}

#[test]
fn table_lists_for_each_claim_the_simulations_that_touch_its_scope() {
    let mut registry = Claims::new();
    registry.insert("sine".to_string(), vec![property("state", "wave", "value")]);
    registry.insert(
        "accel".to_string(),
        vec![Claim::Feature { channel: "state".to_string(), feature: "wave".to_string() }],
    );
    registry.insert(
        "all".to_string(),
        vec![Claim::Channel { channel: "state".to_string() }, property("other", "f", "p")],
    );
    registry.insert("twin".to_string(), vec![property("state", "wave", "value")]);

    assert_eq!(
        make_entries(&registry),
        vec![
            // a property is touched by those that claim exactly it
            entry("state", Some("wave"), Some("value"), &["sine", "twin"]),
            // a feature by those that claim it or a property of it
            entry("state", Some("wave"), None, &["sine", "accel", "twin"]),
            // a channel by everything that claims something in it
            entry("state", None, None, &["sine", "accel", "all", "twin"]),
            entry("other", Some("f"), Some("p"), &["all"]),
            entry("state", Some("wave"), Some("value"), &["sine", "twin"]),
        ]
    );
    assert!(make_entries(&Claims::new()).is_empty());

    // a simulation is named once for each of its claims that touches the scope
    let mut registry = Claims::new();
    registry.insert(
        "a".to_string(),
        vec![property("s", "f", "p"), property("s", "f", "q"), property("s", "f", "p")],
    );
    assert_eq!(
        make_entries(&registry),
        vec![
            entry("s", Some("f"), Some("p"), &["a", "a"]),
            entry("s", Some("f"), Some("q"), &["a"]),
            entry("s", Some("f"), Some("p"), &["a", "a"]),
        ]
    );
}
