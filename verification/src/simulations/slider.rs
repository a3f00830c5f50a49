//! A value that the user sets with a slider, published at most once per
//! delay.

use crate::claims::{claim_views, Claim, ClaimView};
use crate::number::Number;
use crate::sender::SenderConfiguration;
use crate::simulations::Activity;
use crate::target::{SimulationDescription, SingleTarget, SingleTargetView};
use vstd::prelude::*;
use vstd::std_specs::cmp::PartialEqSpecImpl;

verus! {

/// One end of a slider's range.
#[derive(Debug)]
pub enum Step {
    Value(Number),
    WithLabel { value: Number, label: String },
}

/// The mathematical value of a [`Step`].
pub struct StepView {
    pub value: Number,
    pub label: Option<Seq<char>>,
}

impl View for Step {
    type V = StepView;

    open spec fn view(&self) -> StepView {
        match self {
            Step::Value(value) => StepView { value: *value, label: None },
            Step::WithLabel { value, label } => StepView { value: *value, label: Some(label@) },
        }
    }
}

impl Clone for Step {
    fn clone(&self) -> (res: Self)
        ensures
            res == *self,
    {
        match self {
            Step::Value(value) => Step::Value(*value),
            Step::WithLabel { value, label } => Step::WithLabel {
                value: *value,
                label: label.clone(),
            },
        }
    }
}

impl PartialEq for Step {
    fn eq(&self, other: &Self) -> (res: bool) {
        match (self, other) {
            (Step::Value(a), Step::Value(b)) => *a == *b,
            (Step::WithLabel { value: a, label: la }, Step::WithLabel { value: b, label: lb }) => {
                *a == *b && *la == *lb
            },
            _ => false,
        }
    }
}

impl Eq for Step {

}

impl PartialEqSpecImpl for Step {
    open spec fn obeys_eq_spec() -> bool {
        true
    }

    open spec fn eq_spec(&self, other: &Self) -> bool {
        self@ == other@
    }
}

impl Step {
    /// The position of the step.
    pub fn value(&self) -> (res: Number)
        ensures
            res == self@.value,
    {
        match self {
            Step::Value(value) => *value,
            Step::WithLabel { value, .. } => *value,
        }
    }

    /// Moves the step to `new_value`; its label stays.
    pub fn set_value(&mut self, new_value: Number)
        ensures
            final(self)@ == (StepView { value: new_value, label: old(self)@.label }),
    {
        let label = self.label();
        *self = match label {
            None => Step::Value(new_value),
            Some(label) => Step::WithLabel { value: new_value, label },
        };
    }

    /// The text shown at the step, if it has one.
    pub fn label(&self) -> (res: Option<String>)
        ensures
            match res {
                Some(label) => self@.label == Some(label@),
                None => self@.label is None,
            },
    {
        match self {
            Step::Value(_) => None,
            Step::WithLabel { label, .. } => Some(label.clone()),
        }
    }

    /// Gives the step the label `new_label`, or none; its position stays.
    pub fn set_label(&mut self, new_label: Option<String>)
        ensures
            final(self)@.value == old(self)@.value,
            match new_label {
                Some(label) => final(self)@.label == Some(label@),
                None => final(self)@.label is None,
            },
    {
        let value = self.value();
        *self = match new_label {
            None => Step::Value(value),
            Some(new_label) => Step::WithLabel { value, label: new_label },
        };
    }
}

/// What a slider simulation is configured with. The delay is in
/// milliseconds.
#[derive(Debug)]
pub struct Properties {
    /// The shortest time between two publications.
    pub delay: u64,
    pub target: SingleTarget,
    pub min: Step,
    pub max: Step,
}

/// The mathematical value of [`Properties`].
pub struct PropertiesView {
    pub delay: u64,
    pub target: SingleTargetView,
    pub min: StepView,
    pub max: StepView,
}

impl View for Properties {
    type V = PropertiesView;

    open spec fn view(&self) -> PropertiesView {
        PropertiesView { delay: self.delay, target: self.target@, min: self.min@, max: self.max@ }
    }
}

impl Clone for Properties {
    fn clone(&self) -> (res: Self)
        ensures
            res == *self,
    {
        Properties { delay: self.delay, target: self.target.clone(), min: self.min.clone(), max: self.max.clone() }
    }
}

impl PartialEq for Properties {
    fn eq(&self, other: &Self) -> (res: bool) {
        self.delay == other.delay && self.target == other.target && self.min == other.min
            && self.max == other.max
    }
}

impl Eq for Properties {

}

impl PartialEqSpecImpl for Properties {
    open spec fn obeys_eq_spec() -> bool {
        true
    }

    open spec fn eq_spec(&self, other: &Self) -> bool {
        self@ == other@
    }
}

impl SenderConfiguration for Properties {
    open spec fn delay_millis(&self) -> u64 {
        self.delay
    }

    fn delay(&self) -> (res: u64) {
        self.delay
    }
}

/// One slider simulation.
pub struct SliderSimulation {
    claims: Vec<Claim>,
    properties: Properties,
    running: bool,
}

impl SliderSimulation {
    /// The properties that the simulation works with.
    pub closed spec fn spec_properties(&self) -> Properties {
        self.properties
    }

    /// The claims that the simulation takes.
    pub closed spec fn spec_claims(&self) -> Seq<ClaimView> {
        claim_views(self.claims@)
    }

    /// Whether the simulation runs.
    pub closed spec fn running(&self) -> bool {
        self.running
    }

    /// The claims are those of the target.
    #[verifier::type_invariant]
    pub closed spec fn well_formed(&self) -> bool {
        claim_views(self.claims@) == self.properties.target@.claims()
    }

    /// A simulation with `properties` that does not run yet.
    pub fn new(properties: Properties) -> (res: Self)
        ensures
            res.spec_properties() == properties,
            res.spec_claims() == properties.target@.claims(),
            !res.running(),
    {
        let claims = properties.target.claims();
        SliderSimulation { claims, properties, running: false }
    }

    /// The claims that the simulation takes.
    pub fn claims(&self) -> (res: &Vec<Claim>)
        ensures
            claim_views(res@) == self.spec_claims(),
            self.spec_claims() == self.spec_properties().target@.claims(),
    {
        proof {
            use_type_invariant(self);
        }
        &self.claims
    }

    /// The properties that the simulation works with.
    pub fn properties(&self) -> (res: &Properties)
        ensures
            *res == self.spec_properties(),
    {
        &self.properties
    }

    /// Whether the simulation runs.
    pub fn is_running(&self) -> (res: bool)
        ensures
            res == self.running(),
    {
        self.running
    }

    /// Describes the simulation.
    pub fn describe(&self) -> (res: SimulationDescription)
        ensures
            res@ == self.spec_properties().target@.describe("Slider"@),
    {
        self.properties.target.describe("Slider")
    }

    /// Puts `properties` in place of the current ones. Where they differ
    /// from the current ones and the simulation runs, its sender has to be
    /// told.
    pub fn update(&mut self, properties: Properties) -> (res: Activity)
        ensures
            final(self).spec_properties()@ == properties@,
            final(self).spec_claims() == properties.target@.claims(),
            final(self).running() == old(self).running(),
            res == if old(self).running() && old(self).spec_properties()@ != properties@ {
                Activity::ConfigureSender
            } else {
                Activity::Nothing
            },
    {
        proof {
            use_type_invariant(&*self);
        }
        let claims = properties.target.claims();
        let running = self.running;
        if self.properties != properties {
            *self = SliderSimulation { claims, properties, running };
            if running {
                Activity::ConfigureSender
            } else {
                Activity::Nothing
            }
        } else {
            let mut claims = claims;
            core::mem::swap(&mut self.claims, &mut claims);
            Activity::Nothing
        }
    }

    /// Starts the simulation: the owner starts a sender and shows the slider.
    pub fn start(&mut self) -> (res: Activity)
        ensures
            res == Activity::StartSender,
            final(self).spec_properties() == old(self).spec_properties(),
            final(self).spec_claims() == old(self).spec_claims(),
            final(self).running(),
    {
        proof {
            use_type_invariant(&*self);
        }
        self.running = true;
        Activity::StartSender
    }

    /// Stops the simulation: the owner lets go of the sender.
    pub fn stop(&mut self) -> (res: Activity)
        ensures
            res == Activity::StopSender,
            final(self).spec_properties() == old(self).spec_properties(),
            final(self).spec_claims() == old(self).spec_claims(),
            !final(self).running(),
    {
        proof {
            use_type_invariant(&*self);
        }
        self.running = false;
        Activity::StopSender
    }
}

} // verus!
