//! A sine wave, sampled at a fixed period.

use crate::claims::{Claim, ClaimView};
use crate::number::Number;
use crate::simulations::tick::{TickState, TickedGenerator};
use crate::target::{SimulationDescription, SingleTarget, SingleTargetView};
use vstd::prelude::*;
use vstd::std_specs::cmp::PartialEqSpecImpl;

verus! {

/// What a sine simulation is configured with. Times are in milliseconds.
#[derive(Debug)]
pub struct Properties {
    /// The largest value of the wave.
    pub amplitude: Number,
    /// The time that one cycle takes.
    pub length: u64,
    /// The time between two samples.
    pub period: u64,
    pub target: SingleTarget,
}

/// The mathematical value of [`Properties`].
pub struct PropertiesView {
    pub amplitude: Number,
    pub length: u64,
    pub period: u64,
    pub target: SingleTargetView,
}

impl View for Properties {
    type V = PropertiesView;

    open spec fn view(&self) -> PropertiesView {
        PropertiesView {
            amplitude: self.amplitude,
            length: self.length,
            period: self.period,
            target: self.target@,
        }
    }
}

impl Clone for Properties {
    fn clone(&self) -> (res: Self)
        ensures
            res == *self,
    {
        Properties {
            amplitude: self.amplitude,
            length: self.length,
            period: self.period,
            target: self.target.clone(),
        }
    }
}

impl PartialEq for Properties {
    fn eq(&self, other: &Self) -> (res: bool) {
        self.amplitude == other.amplitude && self.length == other.length && self.period
            == other.period && self.target == other.target
    }
}

impl Eq for Properties {

}

impl PartialEqSpecImpl for Properties {
    open spec fn obeys_eq_spec() -> bool {
        true
    }

    open spec fn eq_spec(&self, other: &Self) -> bool {
        self@ == other@
    }
}

/// What a running sine simulation samples with. The length is never zero:
/// the owner divides by it.
#[derive(Debug)]
pub struct State {
    pub amplitude: Number,
    pub length: u64,
    pub period: u64,
    pub target: SingleTarget,
}

impl TickState for State {
    open spec fn period_millis(&self) -> u64 {
        self.period
    }

    fn period(&self) -> (res: u64) {
        self.period
    }
}

/// The cycle length to sample with when `length` is configured: a length of
/// zero is taken as one millisecond.
pub open spec fn sampling_length(length: u64) -> u64 {
    if length == 0 {
        1
    } else {
        length
    }
}

/// Where in its cycle a wave of the cycle length `length` is at the time
/// `now`, in milliseconds since the cycle began: the time since the
/// beginning of all cycles, not a count of samples, decides.
pub open spec fn phase_at(length: u64, now: u64) -> u64 {
    now % sampling_length(length)
}

impl State {
    /// Where in its cycle the wave is at the time `now`.
    pub fn phase(&self, now: u64) -> (res: u64)
        ensures
            res == phase_at(self.length, now),
            res < sampling_length(self.length),
    {
        let length = if self.length == 0 {
            1
        } else {
            self.length
        };
        now % length
    }
}

/// The phase of a wave moves on with the clock and with nothing else: after
/// `elapsed` milliseconds it is `elapsed` further in the cycle, whatever
/// happened to the simulation in between, as long as its cycle length is the
/// same.
pub proof fn lemma_phase_continuous(length: u64, now: u64, elapsed: u64)
    requires
        now + elapsed <= u64::MAX,
    ensures
        phase_at(length, (now + elapsed) as u64) == (phase_at(length, now) + elapsed)
            % (sampling_length(length) as int),
        elapsed < sampling_length(length) - phase_at(length, now) ==> phase_at(
            length,
            (now + elapsed) as u64,
        ) == phase_at(length, now) + elapsed,
{
    let m = sampling_length(length) as int;
    vstd::arithmetic::div_mod::lemma_add_mod_noop(now as int, elapsed as int, m);
    vstd::arithmetic::div_mod::lemma_add_mod_noop((now % sampling_length(length)) as int, elapsed as int, m);
    vstd::arithmetic::div_mod::lemma_mod_twice(now as int, m);
    if elapsed < m - phase_at(length, now) {
        vstd::arithmetic::div_mod::lemma_small_mod((phase_at(length, now) + elapsed) as nat, m as nat);
    }
}

/// The sine kind of simulation.
pub struct SineGenerator;

impl TickedGenerator for SineGenerator {
    type Properties = Properties;

    type State = State;

    open spec fn is_state_of(properties: &Properties, state: &State) -> bool {
        &&& state.amplitude == properties.amplitude
        &&& state.length == sampling_length(properties.length)
        &&& state.period == properties.period
        &&& state.target@ == properties.target@
    }

    open spec fn claims_of(properties: &Properties) -> Seq<ClaimView> {
        properties.target@.claims()
    }

    open spec fn description_of(properties: &Properties) -> Seq<char> {
        properties.target@.describe("Sine"@)
    }

    fn make_state(properties: &Properties, _current_state: Option<State>) -> (res: State) {
        State {
            amplitude: properties.amplitude,
            length: if properties.length == 0 {
                1
            } else {
                properties.length
            },
            period: properties.period,
            target: properties.target.clone(),
        }
    }

    fn make_claims(properties: &Properties) -> (res: Vec<Claim>) {
        properties.target.claims()
    }

    fn describe(properties: &Properties) -> (res: SimulationDescription) {
        properties.target.describe("Sine")
    }
}

/// The sampling state holds nothing but what the properties give: two states
/// of the same properties sample alike, and properties that agree on the
/// cycle length give states that do.
pub proof fn lemma_state_follows_properties(
    first: Properties,
    second: Properties,
    first_state: State,
    second_state: State,
)
    requires
        SineGenerator::is_state_of(&first, &first_state),
        SineGenerator::is_state_of(&second, &second_state),
    ensures
        first.length == second.length ==> first_state.length == second_state.length,
        first@ == second@ ==> first_state.amplitude == second_state.amplitude
            && first_state.length == second_state.length && first_state.period
            == second_state.period && first_state.target@ == second_state.target@,
        first_state.length > 0,
{
}

} // verus!
