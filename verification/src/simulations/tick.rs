//! Fixed-period sampling: a simulation whose value depends on nothing but
//! the wall clock and its sampling state.
//!
//! The owner calls back at the period that [`Activity::StartTicking`] names,
//! reads the clock, and computes the value from the time and from
//! [`Ticker::state`]. The ticker keeps no count of ticks: what is sampled
//! depends on the current properties alone, so a change of properties never
//! moves the phase of a waveform.

use crate::claims::{claim_views, Claim, ClaimView};
use crate::simulations::Activity;
use crate::target::SimulationDescription;
use vstd::prelude::*;

verus! {

/// The state that a fixed-period simulation samples with.
pub trait TickState {
    /// The time between two samples, in milliseconds.
    spec fn period_millis(&self) -> u64;

    /// The time between two samples, in milliseconds.
    fn period(&self) -> (res: u64)
        ensures
            res == self.period_millis(),
    ;
}

/// A kind of fixed-period simulation.
pub trait TickedGenerator {
    type Properties;

    type State: TickState;

    /// Whether `state` is the sampling state that belongs to `properties`.
    spec fn is_state_of(properties: &Self::Properties, state: &Self::State) -> bool;

    /// The claims that a simulation with `properties` takes.
    spec fn claims_of(properties: &Self::Properties) -> Seq<ClaimView>;

    /// The text that describes a simulation with `properties`.
    spec fn description_of(properties: &Self::Properties) -> Seq<char>;

    /// The sampling state for `properties`. The state that was in use until
    /// now, `current_state`, has no part in it.
    fn make_state(properties: &Self::Properties, current_state: Option<Self::State>) -> (res:
        Self::State)
        ensures
            Self::is_state_of(properties, &res),
    ;

    /// The claims that a simulation with `properties` takes.
    fn make_claims(properties: &Self::Properties) -> (res: Vec<Claim>)
        ensures
            claim_views(res@) == Self::claims_of(properties),
    ;

    /// Describes a simulation with `properties`.
    fn describe(properties: &Self::Properties) -> (res: SimulationDescription)
        ensures
            res@ == Self::description_of(properties),
    ;
}

/// One fixed-period simulation of kind `G`.
pub struct Ticker<G: TickedGenerator> {
    claims: Vec<Claim>,
    properties: G::Properties,
    state: Option<G::State>,
}

impl<G: TickedGenerator> Ticker<G> {
    /// The properties that the simulation works with.
    pub closed spec fn spec_properties(&self) -> G::Properties {
        self.properties
    }

    /// The sampling state, while the simulation runs.
    pub closed spec fn spec_state(&self) -> Option<G::State> {
        self.state
    }

    /// The claims that the simulation takes.
    pub closed spec fn spec_claims(&self) -> Seq<ClaimView> {
        claim_views(self.claims@)
    }

    /// Whether the simulation runs.
    pub open spec fn running(&self) -> bool {
        self.spec_state() is Some
    }

    /// The sampling state and the claims are those of the properties.
    #[verifier::type_invariant]
    pub closed spec fn well_formed(&self) -> bool {
        &&& claim_views(self.claims@) == G::claims_of(&self.properties)
        &&& match self.state {
            Some(state) => G::is_state_of(&self.properties, &state),
            None => true,
        }
    }

    /// A simulation with `properties` that does not run yet.
    pub fn new(properties: G::Properties) -> (res: Self)
        ensures
            res.spec_properties() == properties,
            res.spec_claims() == G::claims_of(&properties),
            !res.running(),
    {
        let claims = G::make_claims(&properties);
        Ticker { claims, properties, state: None }
    }

    /// The claims that the simulation takes.
    pub fn claims(&self) -> (res: &Vec<Claim>)
        ensures
            claim_views(res@) == self.spec_claims(),
            self.spec_claims() == G::claims_of(&self.spec_properties()),
    {
        proof {
            use_type_invariant(self);
        }
        &self.claims
    }

    /// Describes the simulation.
    pub fn describe(&self) -> (res: SimulationDescription)
        ensures
            res@ == G::description_of(&self.spec_properties()),
    {
        G::describe(&self.properties)
    }

    /// Whether the simulation runs.
    pub fn is_running(&self) -> (res: bool)
        ensures
            res == self.running(),
    {
        self.state.is_some()
    }

    /// The properties that the simulation works with.
    pub fn properties(&self) -> (res: &G::Properties)
        ensures
            *res == self.spec_properties(),
    {
        &self.properties
    }

    /// The sampling state, while the simulation runs: what a tick computes
    /// its value from.
    pub fn state(&self) -> (res: Option<&G::State>)
        ensures
            match res {
                Some(state) => self.spec_state() == Some(*state) && G::is_state_of(
                    &self.spec_properties(),
                    state,
                ),
                None => self.spec_state() is None,
            },
    {
        proof {
            use_type_invariant(self);
        }
        self.state.as_ref()
    }

    /// Puts `properties` in place of the current ones. A running simulation
    /// samples with the new state from its next tick on; its timer is not
    /// touched.
    pub fn update(&mut self, properties: G::Properties) -> (res: Activity)
        ensures
            res == Activity::Nothing,
            final(self).spec_properties() == properties,
            final(self).spec_claims() == G::claims_of(&properties),
            final(self).running() == old(self).running(),
            final(self).spec_state() matches Some(state) ==> G::is_state_of(&properties, &state),
    {
        proof {
            use_type_invariant(&*self);
        }
        let claims = G::make_claims(&properties);
        let mut current: Option<G::State> = None;
        core::mem::swap(&mut self.state, &mut current);
        let state = match current {
            Some(current) => Some(G::make_state(&properties, Some(current))),
            None => None,
        };
        *self = Ticker { claims, properties, state };
        Activity::Nothing
    }

    /// Starts sampling: the owner calls back at the period that the result
    /// names.
    pub fn start(&mut self) -> (res: Activity)
        ensures
            final(self).spec_properties() == old(self).spec_properties(),
            final(self).spec_claims() == old(self).spec_claims(),
            final(self).spec_state() matches Some(state) && G::is_state_of(
                &old(self).spec_properties(),
                &state,
            ) && res == (Activity::StartTicking { period: state.period_millis() }),
    {
        proof {
            use_type_invariant(&*self);
        }
        let mut current: Option<G::State> = None;
        core::mem::swap(&mut self.state, &mut current);
        let state = G::make_state(&self.properties, current);
        let period = state.period();
        self.state = Some(state);
        Activity::StartTicking { period }
    }

    /// Stops sampling.
    pub fn stop(&mut self) -> (res: Activity)
        ensures
            res == Activity::StopTicking,
            final(self).spec_properties() == old(self).spec_properties(),
            final(self).spec_claims() == old(self).spec_claims(),
            !final(self).running(),
    {
        proof {
            use_type_invariant(&*self);
        }
        self.state = None;
        Activity::StopTicking
    }
}

} // verus!
