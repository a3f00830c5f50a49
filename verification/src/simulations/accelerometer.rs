//! The orientation that the device's sensor reports, published at most once
//! per delay.

use crate::claims::{claim_views, Claim, ClaimView};
use crate::number::Number;
use crate::sender::SenderConfiguration;
use crate::simulations::Activity;
use crate::target::{FeatureTarget, FeatureTargetView, SimulationDescription};
use vstd::prelude::*;
use vstd::std_specs::cmp::PartialEqSpecImpl;

verus! {

/// What an accelerometer simulation is configured with. The delay is in
/// milliseconds.
#[derive(Debug)]
pub struct Properties {
    /// The shortest time between two publications.
    pub delay: u64,
    pub target: FeatureTarget,
}

/// What the sensor last reported.
#[derive(Clone, Copy, Debug, PartialEq, Eq, Structural)]
pub enum State {
    Orientation { x: Number, y: Number, z: Number },
    /// The sensor has not reported.
    Unknown,
}

impl State {
    /// The properties to publish for this state: the three axes by name, or
    /// nothing while the sensor has not reported.
    pub fn to_properties(&self) -> (res: Option<Vec<(&'static str, Number)>>)
        ensures
            match *self {
                State::Unknown => res is None,
                State::Orientation { x, y, z } => res matches Some(properties)
                    && properties@.len() == 3 && properties@[0].0@ == "x"@ && properties@[0].1 == x
                    && properties@[1].0@ == "y"@ && properties@[1].1 == y && properties@[2].0@
                    == "z"@ && properties@[2].1 == z,
            },
    {
        match self {
            State::Unknown => None,
            State::Orientation { x, y, z } => {
                let mut properties: Vec<(&'static str, Number)> = Vec::new();
                properties.push(("x", *x));
                properties.push(("y", *y));
                properties.push(("z", *z));
                Some(properties)
            },
        }
    }
}

/// The mathematical value of [`Properties`].
pub struct PropertiesView {
    pub delay: u64,
    pub target: FeatureTargetView,
}

impl View for Properties {
    type V = PropertiesView;

    open spec fn view(&self) -> PropertiesView {
        PropertiesView { delay: self.delay, target: self.target@ }
    }
}

impl Clone for Properties {
    fn clone(&self) -> (res: Self)
        ensures
            res == *self,
    {
        Properties { delay: self.delay, target: self.target.clone() }
    }
}

impl PartialEq for Properties {
    fn eq(&self, other: &Self) -> (res: bool) {
        self.delay == other.delay && self.target == other.target
    }
}

impl Eq for Properties {

}

impl PartialEqSpecImpl for Properties {
    open spec fn obeys_eq_spec() -> bool {
        true
    }

    open spec fn eq_spec(&self, other: &Self) -> bool {
        self@ == other@
    }
}

impl SenderConfiguration for Properties {
    open spec fn delay_millis(&self) -> u64 {
        self.delay
    }

    fn delay(&self) -> (res: u64) {
        self.delay
    }
}

/// One accelerometer simulation.
pub struct AccelerometerSimulation {
    claims: Vec<Claim>,
    properties: Properties,
    running: bool,
}

impl AccelerometerSimulation {
    /// The properties that the simulation works with.
    pub closed spec fn spec_properties(&self) -> Properties {
        self.properties
    }

    /// The claims that the simulation takes.
    pub closed spec fn spec_claims(&self) -> Seq<ClaimView> {
        claim_views(self.claims@)
    }

    /// Whether the simulation runs.
    pub closed spec fn running(&self) -> bool {
        self.running
    }

    /// The claims are those of the target.
    #[verifier::type_invariant]
    pub closed spec fn well_formed(&self) -> bool {
        claim_views(self.claims@) == self.properties.target@.claims()
    }

    /// A simulation with `properties` that does not run yet.
    pub fn new(properties: Properties) -> (res: Self)
        ensures
            res.spec_properties() == properties,
            res.spec_claims() == properties.target@.claims(),
            !res.running(),
    {
        let claims = properties.target.claims();
        AccelerometerSimulation { claims, properties, running: false }
    }

    /// The claims that the simulation takes.
    pub fn claims(&self) -> (res: &Vec<Claim>)
        ensures
            claim_views(res@) == self.spec_claims(),
            self.spec_claims() == self.spec_properties().target@.claims(),
    {
        proof {
            use_type_invariant(self);
        }
        &self.claims
    }

    /// The properties that the simulation works with.
    pub fn properties(&self) -> (res: &Properties)
        ensures
            *res == self.spec_properties(),
    {
        &self.properties
    }

    /// Whether the simulation runs.
    pub fn is_running(&self) -> (res: bool)
        ensures
            res == self.running(),
    {
        self.running
    }

    /// Describes the simulation.
    pub fn describe(&self) -> (res: SimulationDescription)
        ensures
            res@ == self.spec_properties().target@.describe("Accelerometer"@),
    {
        self.properties.target.describe("Accelerometer")
    }

    /// Puts `properties` in place of the current ones. Where they differ
    /// from the current ones and the simulation runs, its sender has to be
    /// told.
    pub fn update(&mut self, properties: Properties) -> (res: Activity)
        ensures
            final(self).spec_properties()@ == properties@,
            final(self).spec_claims() == properties.target@.claims(),
            final(self).running() == old(self).running(),
            res == if old(self).running() && old(self).spec_properties()@ != properties@ {
                Activity::ConfigureSender
            } else {
                Activity::Nothing
            },
    {
        proof {
            use_type_invariant(&*self);
        }
        let claims = properties.target.claims();
        let running = self.running;
        if self.properties != properties {
            *self = AccelerometerSimulation { claims, properties, running };
            if running {
                Activity::ConfigureSender
            } else {
                Activity::Nothing
            }
        } else {
            let mut claims = claims;
            core::mem::swap(&mut self.claims, &mut claims);
            Activity::Nothing
        }
    }

    /// Starts the simulation: the owner starts a sender and listens to the sensor.
    pub fn start(&mut self) -> (res: Activity)
        ensures
            res == Activity::StartSender,
            final(self).spec_properties() == old(self).spec_properties(),
            final(self).spec_claims() == old(self).spec_claims(),
            final(self).running(),
    {
        proof {
            use_type_invariant(&*self);
        }
        self.running = true;
        Activity::StartSender
    }

    /// Stops the simulation: the owner lets go of the sensor and of the sender.
    pub fn stop(&mut self) -> (res: Activity)
        ensures
            res == Activity::StopSender,
            final(self).spec_properties() == old(self).spec_properties(),
            final(self).spec_claims() == old(self).spec_claims(),
            !final(self).running(),
    {
        proof {
            use_type_invariant(&*self);
        }
        self.running = false;
        Activity::StopSender
    }
}

} // verus!
