//! A light that a command from the broker switches and dims.

use crate::claims::{claim_views, Claim, ClaimView};
use crate::command::{Command, CommandView};
use crate::simulations::Activity;
use crate::target::{SimulationDescription, SingleTarget, SingleTargetView};
use crate::text::opt_string_view;
use vstd::arithmetic::power2::{lemma2_to64, lemma2_to64_rest, pow2};
use vstd::prelude::*;
use vstd::std_specs::cmp::PartialEqSpecImpl;

verus! {

/// What a light is configured with.
#[derive(Debug)]
pub struct Properties {
    pub target: SingleTarget,
    /// The colour of the light while it is on.
    pub color: Option<String>,
    /// The colour of the light while it is off.
    pub color_off: Option<String>,
}

/// The mathematical value of [`Properties`].
pub struct PropertiesView {
    pub target: SingleTargetView,
    pub color: Option<Seq<char>>,
    pub color_off: Option<Seq<char>>,
}

impl View for Properties {
    type V = PropertiesView;

    open spec fn view(&self) -> PropertiesView {
        PropertiesView {
            target: self.target@,
            color: opt_string_view(self.color),
            color_off: opt_string_view(self.color_off),
        }
    }
}

/// A copy of `text`.
fn clone_text(text: &Option<String>) -> (res: Option<String>)
    ensures
        res == *text,
{
    match text {
        Some(text) => Some(text.clone()),
        None => None,
    }
}

/// Whether `a` and `b` hold the same text, or none.
fn same_text(a: &Option<String>, b: &Option<String>) -> (res: bool)
    ensures
        res == (opt_string_view(*a) == opt_string_view(*b)),
{
    match (a, b) {
        (Some(a), Some(b)) => *a == *b,
        (None, None) => true,
        _ => false,
    }
}

impl Clone for Properties {
    fn clone(&self) -> (res: Self)
        ensures
            res == *self,
    {
        Properties {
            target: self.target.clone(),
            color: clone_text(&self.color),
            color_off: clone_text(&self.color_off),
        }
    }
}

impl PartialEq for Properties {
    fn eq(&self, other: &Self) -> (res: bool) {
        self.target == other.target && same_text(&self.color, &other.color) && same_text(
            &self.color_off,
            &other.color_off,
        )
    }
}

impl Eq for Properties {

}

impl PartialEqSpecImpl for Properties {
    open spec fn obeys_eq_spec() -> bool {
        true
    }

    open spec fn eq_spec(&self, other: &Self) -> bool {
        self@ == other@
    }
}

/// Whether the light is on, and how bright.
#[derive(Clone, Copy, Debug, PartialEq, Eq, Structural)]
pub enum State {
    On(u8),
    Off,
}

impl State {
    /// Whether the light is on.
    pub fn is_on(&self) -> (res: bool)
        ensures
            res == (*self is On),
    {
        match self {
            State::On(_) => true,
            State::Off => false,
        }
    }

    /// How bright the light is; a light that is off has no brightness.
    pub fn brightness(&self) -> (res: u8)
        ensures
            res == match *self {
                State::On(brightness) => brightness,
                State::Off => 0,
            },
    {
        match self {
            State::On(brightness) => *brightness,
            State::Off => 0,
        }
    }
}

/// What a command's payload says to a light.
#[derive(Clone, Copy, Debug, PartialEq, Eq, Structural)]
pub enum Reading {
    /// A truth value.
    Switch(bool),
    /// A number, as the bit pattern of the double nearest to it.
    Level(u64),
    /// Anything else, an unreadable payload included.
    Other,
}

/// What the JSON text `payload` holds for `property` of `feature`.
pub uninterp spec fn json_member(payload: Seq<u8>, feature: Seq<char>, property: Seq<char>) -> Reading;

/// `serde_json::from_slice` into a `serde_json::Value`, and that value's
/// member `property` of its member `feature`: a boolean comes back as
/// `Switch`, a number as `Level` with the bits of `Number::as_f64`, and
/// everything else as `Other`, a payload that is no JSON included. The same
/// payload and names give the same reading.
#[verifier::external_body]
fn read_member(payload: &Vec<u8>, feature: &str, property: &str) -> (res: Reading)
    ensures
        res == json_member(payload@, feature@, property@),
{
    match serde_json::from_slice::<serde_json::Value>(payload) {
        Ok(json) => match &json[feature][property] {
            serde_json::Value::Bool(on) => Reading::Switch(*on),
            serde_json::Value::Number(level) => match level.as_f64() {
                Some(level) => Reading::Level(level.to_bits()),
                None => Reading::Other,
            },
            _ => Reading::Other,
        },
        Err(_) => Reading::Other,
    }
}

/// The sign bit of a double's bit pattern.
pub open spec fn is_negative(bits: u64) -> bool {
    bits / 0x8000_0000_0000_0000 == 1
}

/// The exponent field of a double's bit pattern.
pub open spec fn exponent(bits: u64) -> int {
    ((bits / 0x10_0000_0000_0000) % 0x800) as int
}

/// The fraction field of a double's bit pattern.
pub open spec fn fraction(bits: u64) -> int {
    (bits % 0x10_0000_0000_0000) as int
}

/// The brightness that the double with the bit pattern `bits` asks for: the
/// number held between 0 and 255, without what follows the point. A double
/// that is no number asks for 0.
pub open spec fn brightness_of(bits: u64) -> int {
    if exponent(bits) == 0x7ff && fraction(bits) != 0 {
        0
    } else if is_negative(bits) || exponent(bits) < 1023 {
        0
    } else if exponent(bits) >= 1031 {
        255
    } else {
        (0x10_0000_0000_0000 + fraction(bits)) / (pow2((1075 - exponent(bits)) as nat) as int)
    }
}

/// The brightness that the double with the bit pattern `bits` asks for.
pub fn brightness(bits: u64) -> (res: u8)
    ensures
        res == brightness_of(bits),
{
    let exponent = (bits / 0x10_0000_0000_0000) % 0x800;
    let fraction = bits % 0x10_0000_0000_0000;
    let negative = bits / 0x8000_0000_0000_0000 == 1;
    if exponent == 0x7ff && fraction != 0 {
        0
    } else if negative || exponent < 1023 {
        0
    } else if exponent >= 1031 {
        255
    } else {
        let divisor: u64 = if exponent == 1023 {
            0x10_0000_0000_0000
        } else if exponent == 1024 {
            0x8_0000_0000_0000
        } else if exponent == 1025 {
            0x4_0000_0000_0000
        } else if exponent == 1026 {
            0x2_0000_0000_0000
        } else if exponent == 1027 {
            0x1_0000_0000_0000
        } else if exponent == 1028 {
            0x8000_0000_0000
        } else if exponent == 1029 {
            0x4000_0000_0000
        } else {
            0x2000_0000_0000
        };
        proof {
            lemma2_to64();
            lemma2_to64_rest();
        }
        assert(divisor == pow2((1075 - exponent) as nat));
        let whole = 0x10_0000_0000_0000 + fraction;
        let level = whole / divisor;
        assert(level <= 255) by (nonlinear_arith)
            requires
                level == whole / divisor,
                whole < 0x20_0000_0000_0000,
                divisor >= 0x2000_0000_0000,
        ;
        level as u8
    }
}

/// The state of a light after a command said `reading` to it: a truth value
/// switches it fully on or off, a number sets its brightness, and anything
/// else leaves it as it is.
pub open spec fn state_after(state: State, reading: Reading) -> State {
    match reading {
        Reading::Switch(true) => State::On(255),
        Reading::Switch(false) => State::Off,
        Reading::Level(bits) => State::On(brightness_of(bits) as u8),
        Reading::Other => state,
    }
}

/// What `command` says to a light with the target `target`: nothing where
/// the command has no payload.
pub open spec fn reading_of(command: CommandView, target: SingleTargetView) -> Reading {
    match command.payload {
        Some(payload) => json_member(payload, target.feature, target.property),
        None => Reading::Other,
    }
}

/// One light.
pub struct LedMatrixSimulation {
    claims: Vec<Claim>,
    properties: Properties,
    state: State,
    running: bool,
}

impl LedMatrixSimulation {
    /// The properties that the simulation works with.
    pub closed spec fn spec_properties(&self) -> Properties {
        self.properties
    }

    /// The claims that the simulation takes.
    pub closed spec fn spec_claims(&self) -> Seq<ClaimView> {
        claim_views(self.claims@)
    }

    /// Whether the light is on, and how bright.
    pub closed spec fn spec_state(&self) -> State {
        self.state
    }

    /// Whether the simulation runs.
    pub closed spec fn running(&self) -> bool {
        self.running
    }

    /// The claims are those of the target.
    #[verifier::type_invariant]
    pub closed spec fn well_formed(&self) -> bool {
        claim_views(self.claims@) == self.properties.target@.claims()
    }

    /// A light with `properties` that is off and does not run yet.
    pub fn new(properties: Properties) -> (res: Self)
        ensures
            res.spec_properties() == properties,
            res.spec_claims() == properties.target@.claims(),
            res.spec_state() == State::Off,
            !res.running(),
    {
        let claims = properties.target.claims();
        LedMatrixSimulation { claims, properties, state: State::Off, running: false }
    }

    /// The claims that the simulation takes.
    pub fn claims(&self) -> (res: &Vec<Claim>)
        ensures
            claim_views(res@) == self.spec_claims(),
            self.spec_claims() == self.spec_properties().target@.claims(),
    {
        proof {
            use_type_invariant(self);
        }
        &self.claims
    }

    /// The properties that the simulation works with.
    pub fn properties(&self) -> (res: &Properties)
        ensures
            *res == self.spec_properties(),
    {
        &self.properties
    }

    /// Whether the light is on, and how bright: what a notification publishes
    /// and presents.
    pub fn state(&self) -> (res: State)
        ensures
            res == self.spec_state(),
    {
        self.state
    }

    /// Whether the simulation runs.
    pub fn is_running(&self) -> (res: bool)
        ensures
            res == self.running(),
    {
        self.running
    }

    /// Describes the simulation.
    pub fn describe(&self) -> (res: SimulationDescription)
        ensures
            res@ == self.spec_properties().target@.describe("Led Matrix"@),
    {
        self.properties.target.describe("Led Matrix")
    }

    /// Puts `properties` in place of the current ones. The light stays as it
    /// is.
    pub fn update(&mut self, properties: Properties) -> (res: Activity)
        ensures
            res == Activity::Nothing,
            final(self).spec_properties()@ == properties@,
            final(self).spec_claims() == properties.target@.claims(),
            final(self).spec_state() == old(self).spec_state(),
            final(self).running() == old(self).running(),
    {
        proof {
            use_type_invariant(&*self);
        }
        let claims = properties.target.claims();
        if self.properties != properties {
            *self = LedMatrixSimulation {
                claims,
                properties,
                state: self.state,
                running: self.running,
            };
        } else {
            let mut claims = claims;
            core::mem::swap(&mut self.claims, &mut claims);
        }
        Activity::Nothing
    }

    /// Starts the simulation: the light is published and presented as it is.
    pub fn start(&mut self) -> (res: Activity)
        ensures
            res == Activity::Notify,
            final(self).spec_properties() == old(self).spec_properties(),
            final(self).spec_claims() == old(self).spec_claims(),
            final(self).spec_state() == old(self).spec_state(),
            final(self).running(),
    {
        proof {
            use_type_invariant(&*self);
        }
        self.running = true;
        Activity::Notify
    }

    /// Stops the simulation.
    pub fn stop(&mut self) -> (res: Activity)
        ensures
            res == Activity::Release,
            final(self).spec_properties() == old(self).spec_properties(),
            final(self).spec_claims() == old(self).spec_claims(),
            final(self).spec_state() == old(self).spec_state(),
            !final(self).running(),
    {
        proof {
            use_type_invariant(&*self);
        }
        self.running = false;
        Activity::Release
    }

    /// Puts what a command said into effect.
    pub fn apply(&mut self, reading: Reading)
        ensures
            final(self).spec_state() == state_after(old(self).spec_state(), reading),
            final(self).spec_properties() == old(self).spec_properties(),
            final(self).spec_claims() == old(self).spec_claims(),
            final(self).running() == old(self).running(),
    {
        proof {
            use_type_invariant(&*self);
        }
        match reading {
            Reading::Switch(true) => {
                self.state = State::On(255);
            },
            Reading::Switch(false) => {
                self.state = State::Off;
            },
            Reading::Level(bits) => {
                self.state = State::On(brightness(bits));
            },
            Reading::Other => {},
        }
    }

    /// Takes a command from the broker. A command for another channel is not
    /// for this light. Any other sets the light to what its payload says,
    /// and a running simulation then publishes and presents the light.
    pub fn command(&mut self, command: &Command) -> (res: Activity)
        ensures
            final(self).spec_properties() == old(self).spec_properties(),
            final(self).spec_claims() == old(self).spec_claims(),
            final(self).running() == old(self).running(),
            command.name@ != old(self).spec_properties().target.channel@ ==> res
                == Activity::Nothing && final(self).spec_state() == old(self).spec_state(),
            command.name@ == old(self).spec_properties().target.channel@ ==> final(self).spec_state() == state_after(
                old(self).spec_state(),
                reading_of(command@, old(self).spec_properties().target@),
            ) && res == if old(self).running() {
                Activity::Notify
            } else {
                Activity::Nothing
            },
    {
        if command.name != self.properties.target.channel {
            return Activity::Nothing;
        }
        if let Some(payload) = &command.payload {
            let reading = read_member(
                payload,
                self.properties.target.feature.as_str(),
                self.properties.target.property.as_str(),
            );
            self.apply(reading);
        }
        if self.running {
            Activity::Notify
        } else {
            Activity::Nothing
        }
    }
}

} // verus!
