//! A sawtooth wave, sampled at a fixed period.

use crate::claims::{Claim, ClaimView};
use crate::number::Number;
use crate::simulations::tick::{TickState, TickedGenerator};
use crate::target::{SimulationDescription, SingleTarget, SingleTargetView};
use vstd::prelude::*;
use vstd::std_specs::cmp::PartialEqSpecImpl;

verus! {

/// What a sawtooth simulation is configured with. Times are in milliseconds.
#[derive(Debug)]
pub struct Properties {
    /// The value at which the wave starts over.
    pub max: Number,
    /// The time that one cycle takes.
    pub length: u64,
    /// The time between two samples.
    pub period: u64,
    pub target: SingleTarget,
}

/// The mathematical value of [`Properties`].
pub struct PropertiesView {
    pub max: Number,
    pub length: u64,
    pub period: u64,
    pub target: SingleTargetView,
}

impl View for Properties {
    type V = PropertiesView;

    open spec fn view(&self) -> PropertiesView {
        PropertiesView {
            max: self.max,
            length: self.length,
            period: self.period,
            target: self.target@,
        }
    }
}

impl Clone for Properties {
    fn clone(&self) -> (res: Self)
        ensures
            res == *self,
    {
        Properties {
            max: self.max,
            length: self.length,
            period: self.period,
            target: self.target.clone(),
        }
    }
}

impl PartialEq for Properties {
    fn eq(&self, other: &Self) -> (res: bool) {
        self.max == other.max && self.length == other.length && self.period
            == other.period && self.target == other.target
    }
}

impl Eq for Properties {

}

impl PartialEqSpecImpl for Properties {
    open spec fn obeys_eq_spec() -> bool {
        true
    }

    open spec fn eq_spec(&self, other: &Self) -> bool {
        self@ == other@
    }
}

/// What a running sawtooth simulation samples with. The length is never zero:
/// the owner divides by it.
#[derive(Debug)]
pub struct State {
    pub max: Number,
    pub length: u64,
    pub period: u64,
    pub target: SingleTarget,
}

impl TickState for State {
    open spec fn period_millis(&self) -> u64 {
        self.period
    }

    fn period(&self) -> (res: u64) {
        self.period
    }
}

/// The cycle length to sample with when `length` is configured: a length of
/// zero is taken as one millisecond.
pub open spec fn sampling_length(length: u64) -> u64 {
    if length == 0 {
        1
    } else {
        length
    }
}

/// The sawtooth kind of simulation.
pub struct SawtoothGenerator;

impl TickedGenerator for SawtoothGenerator {
    type Properties = Properties;

    type State = State;

    open spec fn is_state_of(properties: &Properties, state: &State) -> bool {
        &&& state.max == properties.max
        &&& state.length == sampling_length(properties.length)
        &&& state.period == properties.period
        &&& state.target@ == properties.target@
    }

    open spec fn claims_of(properties: &Properties) -> Seq<ClaimView> {
        properties.target@.claims()
    }

    open spec fn description_of(properties: &Properties) -> Seq<char> {
        properties.target@.describe("Sawtooth"@)
    }

    fn make_state(properties: &Properties, _current_state: Option<State>) -> (res: State) {
        State {
            max: properties.max,
            length: if properties.length == 0 {
                1
            } else {
                properties.length
            },
            period: properties.period,
            target: properties.target.clone(),
        }
    }

    fn make_claims(properties: &Properties) -> (res: Vec<Claim>) {
        properties.target.claims()
    }

    fn describe(properties: &Properties) -> (res: SimulationDescription) {
        properties.target.describe("Sawtooth")
    }
}

/// The sampling state holds nothing but what the properties give: two states
/// of the same properties sample alike, and properties that agree on the
/// cycle length give states that do.
pub proof fn lemma_state_follows_properties(
    first: Properties,
    second: Properties,
    first_state: State,
    second_state: State,
)
    requires
        SawtoothGenerator::is_state_of(&first, &first_state),
        SawtoothGenerator::is_state_of(&second, &second_state),
    ensures
        first.length == second.length ==> first_state.length == second_state.length,
        first@ == second@ ==> first_state.max == second_state.max
            && first_state.length == second_state.length && first_state.period
            == second_state.period && first_state.target@ == second_state.target@,
        first_state.length > 0,
{
}

} // verus!
