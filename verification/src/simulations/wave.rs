//! A sum of sine waves, sampled at a fixed period.

use crate::claims::{Claim, ClaimView};
use crate::number::Number;
use crate::simulations::tick::{TickState, TickedGenerator};
use crate::target::{SimulationDescription, SingleTarget, SingleTargetView};
use vstd::prelude::*;
use vstd::std_specs::cmp::PartialEqSpecImpl;

verus! {

/// What a wave simulation is configured with. The period is in
/// milliseconds.
#[derive(Debug)]
pub struct Properties {
    /// The cycle length of each component.
    pub lengths: Vec<Number>,
    /// The largest value of each component.
    pub amplitudes: Vec<Number>,
    /// The value that the components are added to.
    pub offset: Number,
    /// The time between two samples.
    pub period: u64,
    pub target: SingleTarget,
}

/// The mathematical value of [`Properties`].
pub struct PropertiesView {
    pub lengths: Seq<Number>,
    pub amplitudes: Seq<Number>,
    pub offset: Number,
    pub period: u64,
    pub target: SingleTargetView,
}

impl View for Properties {
    type V = PropertiesView;

    open spec fn view(&self) -> PropertiesView {
        PropertiesView {
            lengths: self.lengths@,
            amplitudes: self.amplitudes@,
            offset: self.offset,
            period: self.period,
            target: self.target@,
        }
    }
}

/// A copy of `numbers`.
fn clone_numbers(numbers: &Vec<Number>) -> (res: Vec<Number>)
    ensures
        res@ == numbers@,
{
    let mut res: Vec<Number> = Vec::new();
    let mut i: usize = 0;
    while i < numbers.len()
        invariant
            i <= numbers.len(),
            res@ == numbers@.take(i as int),
        decreases numbers.len() - i,
    {
        res.push(numbers[i]);
        assert(numbers@.take(i + 1) =~= numbers@.take(i as int).push(numbers@[i as int]));
        i += 1;
    }
    assert(numbers@.take(numbers@.len() as int) =~= numbers@);
    res
}

/// Whether `a` and `b` hold the same numbers.
fn same_numbers(a: &Vec<Number>, b: &Vec<Number>) -> (res: bool)
    ensures
        res == (a@ == b@),
{
    if a.len() != b.len() {
        return false;
    }
    let mut i: usize = 0;
    while i < a.len()
        invariant
            i <= a.len(),
            a.len() == b.len(),
            a@.take(i as int) == b@.take(i as int),
        decreases a.len() - i,
    {
        if a[i] != b[i] {
            assert(a@[i as int] != b@[i as int]);
            return false;
        }
        assert(a@.take(i + 1) =~= a@.take(i as int).push(a@[i as int]));
        assert(b@.take(i + 1) =~= b@.take(i as int).push(b@[i as int]));
        i += 1;
    }
    assert(a@.take(a@.len() as int) =~= a@);
    assert(b@.take(b@.len() as int) =~= b@);
    true
}

impl Clone for Properties {
    fn clone(&self) -> (res: Self)
        ensures
            res@ == self@,
    {
        Properties {
            lengths: clone_numbers(&self.lengths),
            amplitudes: clone_numbers(&self.amplitudes),
            offset: self.offset,
            period: self.period,
            target: self.target.clone(),
        }
    }
}

impl PartialEq for Properties {
    fn eq(&self, other: &Self) -> (res: bool) {
        same_numbers(&self.lengths, &other.lengths) && same_numbers(
            &self.amplitudes,
            &other.amplitudes,
        ) && self.offset == other.offset && self.period == other.period && self.target
            == other.target
    }
}

impl Eq for Properties {

}

impl PartialEqSpecImpl for Properties {
    open spec fn obeys_eq_spec() -> bool {
        true
    }

    open spec fn eq_spec(&self, other: &Self) -> bool {
        self@ == other@
    }
}

/// What a running wave simulation samples with.
#[derive(Debug)]
pub struct State {
    pub offset: Number,
    /// The cycle length and the largest value of each component.
    pub parameters: Vec<(Number, Number)>,
    pub period: u64,
    pub target: SingleTarget,
}

impl TickState for State {
    open spec fn period_millis(&self) -> u64 {
        self.period
    }

    fn period(&self) -> (res: u64) {
        self.period
    }
}

/// The components that `lengths` and `amplitudes` describe: as many as the
/// shorter of the two names, each length with the amplitude at its position.
pub open spec fn components(lengths: Seq<Number>, amplitudes: Seq<Number>) -> Seq<(Number, Number)> {
    Seq::new(
        if lengths.len() <= amplitudes.len() {
            lengths.len()
        } else {
            amplitudes.len()
        },
        |i: int| (lengths[i], amplitudes[i]),
    )
}

/// The wave kind of simulation.
pub struct WaveGenerator;

impl TickedGenerator for WaveGenerator {
    type Properties = Properties;

    type State = State;

    open spec fn is_state_of(properties: &Properties, state: &State) -> bool {
        &&& state.offset == properties.offset
        &&& state.parameters@ == components(properties.lengths@, properties.amplitudes@)
        &&& state.period == properties.period
        &&& state.target@ == properties.target@
    }

    open spec fn claims_of(properties: &Properties) -> Seq<ClaimView> {
        properties.target@.claims()
    }

    open spec fn description_of(properties: &Properties) -> Seq<char> {
        properties.target@.describe("Wave"@)
    }

    fn make_state(properties: &Properties, _current_state: Option<State>) -> (res: State) {
        let count = if properties.lengths.len() <= properties.amplitudes.len() {
            properties.lengths.len()
        } else {
            properties.amplitudes.len()
        };
        let mut parameters: Vec<(Number, Number)> = Vec::new();
        let mut i: usize = 0;
        while i < count
            invariant
                i <= count,
                count <= properties.lengths.len(),
                count <= properties.amplitudes.len(),
                parameters@.len() == i,
                forall|k: int|
                    0 <= k < i ==> parameters@[k] == (
                        properties.lengths@[k],
                        properties.amplitudes@[k],
                    ),
            decreases count - i,
        {
            parameters.push((properties.lengths[i], properties.amplitudes[i]));
            i += 1;
        }
        assert(parameters@ =~= components(properties.lengths@, properties.amplitudes@));
        State {
            parameters,
            offset: properties.offset,
            period: properties.period,
            target: properties.target.clone(),
        }
    }

    fn make_claims(properties: &Properties) -> (res: Vec<Claim>) {
        properties.target.claims()
    }

    fn describe(properties: &Properties) -> (res: SimulationDescription) {
        properties.target.describe("Wave")
    }
}

/// The sampling state holds nothing but what the properties give: two states
/// of equal properties sample alike.
pub proof fn lemma_state_follows_properties(
    first: Properties,
    second: Properties,
    first_state: State,
    second_state: State,
)
    requires
        WaveGenerator::is_state_of(&first, &first_state),
        WaveGenerator::is_state_of(&second, &second_state),
    ensures
        first.lengths@ == second.lengths@ && first.amplitudes@ == second.amplitudes@
            ==> first_state.parameters@ == second_state.parameters@,
        first@ == second@ ==> first_state.offset == second_state.offset
            && first_state.parameters@ == second_state.parameters@ && first_state.period
            == second_state.period && first_state.target@ == second_state.target@,
{
}

} // verus!
