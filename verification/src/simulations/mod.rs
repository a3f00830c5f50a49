//! The kinds of simulation and what each is configured with.

pub mod accelerometer;
pub mod led_matrix;
pub mod sawtooth;
pub mod sine;
pub mod slider;
pub mod tick;
pub mod wave;

use crate::claims::{claim_views, Claim};
use crate::command::{Command, CommandView};
use crate::settings::{Simulation, SimulationDiscriminants, SimulationView};
use crate::simulations::accelerometer::AccelerometerSimulation;
use crate::simulations::led_matrix::{reading_of, state_after, LedMatrixSimulation};
use crate::simulations::sawtooth::SawtoothGenerator;
use crate::simulations::sine::SineGenerator;
use crate::simulations::slider::SliderSimulation;
use crate::simulations::tick::Ticker;
use crate::simulations::wave::WaveGenerator;
use crate::target::SimulationDescription;
use vstd::prelude::*;

verus! {

/// The sampling period, in milliseconds, of a simulation that names none.
pub fn default_period() -> (res: u64)
    ensures
        res == 1000,
{
    1000
}

/// What the owner of a simulation has to do for it after a step.
#[derive(Clone, Copy, Debug, PartialEq, Eq, Structural)]
pub enum Activity {
    /// Nothing.
    Nothing,
    /// Call the simulation's tick every `period` milliseconds from now on.
    StartTicking { period: u64 },
    /// Cancel the timer that calls the simulation's tick.
    StopTicking,
    /// Start a debounced sender with the simulation's properties.
    StartSender,
    /// Hand the simulation's properties to its running sender.
    ConfigureSender,
    /// Close the queue of the simulation's sender and release its sources.
    StopSender,
    /// Publish the simulation's state and present it.
    Notify,
    /// Forget the context that the simulation published to.
    Release,
}


/// One simulation of any kind, created from its configuration.
pub enum SimulationHandler {
    Sine(Ticker<SineGenerator>),
    Sawtooth(Ticker<SawtoothGenerator>),
    Wave(Ticker<WaveGenerator>),
    Accelerometer(AccelerometerSimulation),
    Slider(SliderSimulation),
    LedMatrix(LedMatrixSimulation),
}

/// The mathematical value of a [`SimulationHandler`].
pub struct HandlerView {
    /// What the simulation is configured with.
    pub simulation: SimulationView,
    /// Whether the simulation runs.
    pub running: bool,
    /// Where the light stands, for a simulation that has one.
    pub light: Option<led_matrix::State>,
}

impl View for SimulationHandler {
    type V = HandlerView;

    open spec fn view(&self) -> HandlerView {
        match self {
            SimulationHandler::Sine(ticker) => HandlerView {
                simulation: SimulationView::Sine(ticker.spec_properties()@),
                running: ticker.running(),
                light: None,
            },
            SimulationHandler::Sawtooth(ticker) => HandlerView {
                simulation: SimulationView::Sawtooth(ticker.spec_properties()@),
                running: ticker.running(),
                light: None,
            },
            SimulationHandler::Wave(ticker) => HandlerView {
                simulation: SimulationView::Wave(ticker.spec_properties()@),
                running: ticker.running(),
                light: None,
            },
            SimulationHandler::Accelerometer(simulation) => HandlerView {
                simulation: SimulationView::Accelerometer(simulation.spec_properties()@),
                running: simulation.running(),
                light: None,
            },
            SimulationHandler::Slider(simulation) => HandlerView {
                simulation: SimulationView::Slider(simulation.spec_properties()@),
                running: simulation.running(),
                light: None,
            },
            SimulationHandler::LedMatrix(simulation) => HandlerView {
                simulation: SimulationView::LedMatrix(simulation.spec_properties()@),
                running: simulation.running(),
                light: Some(simulation.spec_state()),
            },
        }
    }
}

/// What starting a simulation asks of its owner.
pub open spec fn start_activity(simulation: SimulationView) -> Activity {
    match simulation {
        SimulationView::Sine(properties) => Activity::StartTicking { period: properties.period },
        SimulationView::Sawtooth(properties) => Activity::StartTicking { period: properties.period },
        SimulationView::Wave(properties) => Activity::StartTicking { period: properties.period },
        SimulationView::Accelerometer(_) => Activity::StartSender,
        SimulationView::Slider(_) => Activity::StartSender,
        SimulationView::LedMatrix(_) => Activity::Notify,
    }
}

/// What stopping a simulation asks of its owner.
pub open spec fn stop_activity(simulation: SimulationView) -> Activity {
    match simulation {
        SimulationView::Sine(_) | SimulationView::Sawtooth(_) | SimulationView::Wave(_) => {
            Activity::StopTicking
        },
        SimulationView::Accelerometer(_) | SimulationView::Slider(_) => Activity::StopSender,
        SimulationView::LedMatrix(_) => Activity::Release,
    }
}

/// What putting `simulation` in place of `current`, of the same kind, asks of
/// the owner of a simulation that runs or does not: only a running sender
/// has to hear of a change.
pub open spec fn update_activity(current: SimulationView, simulation: SimulationView, running: bool) -> Activity {
    match current {
        SimulationView::Accelerometer(_) | SimulationView::Slider(_) => if running && current
            != simulation {
            Activity::ConfigureSender
        } else {
            Activity::Nothing
        },
        _ => Activity::Nothing,
    }
}

/// A simulation after a command for its channel arrived: a light is set to
/// what the command says, and no other kind of simulation listens.
pub open spec fn after_command(handler: HandlerView, command: CommandView) -> HandlerView {
    match (handler.simulation, handler.light) {
        (SimulationView::LedMatrix(properties), Some(light)) => HandlerView {
            light: Some(state_after(light, reading_of(command, properties.target))),
            ..handler
        },
        _ => handler,
    }
}

/// What a command for its channel asks of a simulation's owner.
pub open spec fn command_activity(handler: HandlerView) -> Activity {
    if handler.simulation is LedMatrix && handler.running {
        Activity::Notify
    } else {
        Activity::Nothing
    }
}

impl SimulationHandler {
    /// The claims that the simulation takes.
    pub open spec fn spec_claims(&self) -> Seq<crate::claims::ClaimView> {
        match self {
            SimulationHandler::Sine(ticker) => ticker.spec_claims(),
            SimulationHandler::Sawtooth(ticker) => ticker.spec_claims(),
            SimulationHandler::Wave(ticker) => ticker.spec_claims(),
            SimulationHandler::Accelerometer(simulation) => simulation.spec_claims(),
            SimulationHandler::Slider(simulation) => simulation.spec_claims(),
            SimulationHandler::LedMatrix(simulation) => simulation.spec_claims(),
        }
    }

    /// The kind of the simulation.
    pub fn discriminant(&self) -> (res: SimulationDiscriminants)
        ensures
            res == self@.simulation.kind(),
    {
        match self {
            SimulationHandler::Sine(_) => SimulationDiscriminants::Sine,
            SimulationHandler::Sawtooth(_) => SimulationDiscriminants::Sawtooth,
            SimulationHandler::Wave(_) => SimulationDiscriminants::Wave,
            SimulationHandler::Accelerometer(_) => SimulationDiscriminants::Accelerometer,
            SimulationHandler::Slider(_) => SimulationDiscriminants::Slider,
            SimulationHandler::LedMatrix(_) => SimulationDiscriminants::LedMatrix,
        }
    }

    /// Whether the simulation runs.
    pub fn is_running(&self) -> (res: bool)
        ensures
            res == self@.running,
    {
        match self {
            SimulationHandler::Sine(ticker) => ticker.is_running(),
            SimulationHandler::Sawtooth(ticker) => ticker.is_running(),
            SimulationHandler::Wave(ticker) => ticker.is_running(),
            SimulationHandler::Accelerometer(simulation) => simulation.is_running(),
            SimulationHandler::Slider(simulation) => simulation.is_running(),
            SimulationHandler::LedMatrix(simulation) => simulation.is_running(),
        }
    }

    /// The claims that the simulation takes: those of its configuration.
    pub fn claims(&self) -> (res: &Vec<Claim>)
        ensures
            claim_views(res@) == self@.simulation.claims(),
            self.spec_claims() == self@.simulation.claims(),
    {
        match self {
            SimulationHandler::Sine(ticker) => ticker.claims(),
            SimulationHandler::Sawtooth(ticker) => ticker.claims(),
            SimulationHandler::Wave(ticker) => ticker.claims(),
            SimulationHandler::Accelerometer(simulation) => simulation.claims(),
            SimulationHandler::Slider(simulation) => simulation.claims(),
            SimulationHandler::LedMatrix(simulation) => simulation.claims(),
        }
    }

    /// Describes the simulation.
    pub fn describe(&self) -> (res: SimulationDescription)
        ensures
            res@ == self@.simulation.description(),
    {
        match self {
            SimulationHandler::Sine(ticker) => ticker.describe(),
            SimulationHandler::Sawtooth(ticker) => ticker.describe(),
            SimulationHandler::Wave(ticker) => ticker.describe(),
            SimulationHandler::Accelerometer(simulation) => simulation.describe(),
            SimulationHandler::Slider(simulation) => simulation.describe(),
            SimulationHandler::LedMatrix(simulation) => simulation.describe(),
        }
    }

    /// Whether the simulation writes to `channel`.
    pub fn writes_to(&self, channel: &str) -> (res: bool)
        ensures
            res == (self@.simulation.channel() == channel@),
    {
        match self {
            SimulationHandler::Sine(ticker) => *ticker.properties().target.channel.as_str()
                == *channel,
            SimulationHandler::Sawtooth(ticker) => *ticker.properties().target.channel.as_str()
                == *channel,
            SimulationHandler::Wave(ticker) => *ticker.properties().target.channel.as_str()
                == *channel,
            SimulationHandler::Accelerometer(simulation) => {
                *simulation.properties().target.channel.as_str() == *channel
            },
            SimulationHandler::Slider(simulation) => {
                *simulation.properties().target.channel.as_str() == *channel
            },
            SimulationHandler::LedMatrix(simulation) => {
                *simulation.properties().target.channel.as_str() == *channel
            },
        }
    }

    /// Starts the simulation.
    pub fn start(&mut self) -> (res: Activity)
        ensures
            final(self)@ == (HandlerView { running: true, ..old(self)@ }),
            res == start_activity(old(self)@.simulation),
    {
        match self {
            SimulationHandler::Sine(ticker) => ticker.start(),
            SimulationHandler::Sawtooth(ticker) => ticker.start(),
            SimulationHandler::Wave(ticker) => ticker.start(),
            SimulationHandler::Accelerometer(simulation) => simulation.start(),
            SimulationHandler::Slider(simulation) => simulation.start(),
            SimulationHandler::LedMatrix(simulation) => simulation.start(),
        }
    }

    /// Stops the simulation.
    pub fn stop(&mut self) -> (res: Activity)
        ensures
            final(self)@ == (HandlerView { running: false, ..old(self)@ }),
            res == stop_activity(old(self)@.simulation),
    {
        match self {
            SimulationHandler::Sine(ticker) => ticker.stop(),
            SimulationHandler::Sawtooth(ticker) => ticker.stop(),
            SimulationHandler::Wave(ticker) => ticker.stop(),
            SimulationHandler::Accelerometer(simulation) => simulation.stop(),
            SimulationHandler::Slider(simulation) => simulation.stop(),
            SimulationHandler::LedMatrix(simulation) => simulation.stop(),
        }
    }

    /// Puts `simulation` in place of the current configuration, where it is
    /// of the same kind; a configuration of another kind changes nothing and
    /// gives `None`.
    pub fn update(&mut self, simulation: Simulation) -> (res: Option<Activity>)
        ensures
            simulation@.kind() != old(self)@.simulation.kind() ==> res is None && final(self)@
                == old(self)@,
            simulation@.kind() == old(self)@.simulation.kind() ==> res == Some(
                update_activity(old(self)@.simulation, simulation@, old(self)@.running),
            ) && final(self)@ == (HandlerView { simulation: simulation@, ..old(self)@ }),
    {
        match (self, simulation) {
            (SimulationHandler::Sine(ticker), Simulation::Sine(properties)) => {
                Some(ticker.update(*properties))
            },
            (SimulationHandler::Sawtooth(ticker), Simulation::Sawtooth(properties)) => {
                Some(ticker.update(*properties))
            },
            (SimulationHandler::Wave(ticker), Simulation::Wave(properties)) => {
                Some(ticker.update(*properties))
            },
            (SimulationHandler::Accelerometer(current), Simulation::Accelerometer(properties)) => {
                Some(current.update(*properties))
            },
            (SimulationHandler::Slider(current), Simulation::Slider(properties)) => {
                Some(current.update(*properties))
            },
            (SimulationHandler::LedMatrix(current), Simulation::LedMatrix(properties)) => {
                Some(current.update(*properties))
            },
            _ => None,
        }
    }

    /// Takes a command from the broker that is meant for the simulation's
    /// channel.
    pub fn command(&mut self, command: &Command) -> (res: Activity)
        ensures
            command.name@ != old(self)@.simulation.channel() ==> final(self)@ == old(self)@
                && res == Activity::Nothing,
            command.name@ == old(self)@.simulation.channel() ==> final(self)@
                == after_command(old(self)@, command@) && res == command_activity(old(self)@),
    {
        match self {
            SimulationHandler::LedMatrix(simulation) => simulation.command(command),
            _ => Activity::Nothing,
        }
    }
}

/// A simulation that was created from `simulation`: it does not run yet,
/// and a light starts switched off.
pub open spec fn created(simulation: SimulationView) -> HandlerView {
    HandlerView {
        simulation,
        running: false,
        light: if simulation is LedMatrix {
            Some(led_matrix::State::Off)
        } else {
            None
        },
    }
}

impl Simulation {
    /// A simulation with this configuration that does not run yet; a light
    /// starts switched off.
    pub fn create(&self) -> (res: SimulationHandler)
        ensures
            res@ == created(self@),
    {
        match self {
            Simulation::Sine(properties) => SimulationHandler::Sine(
                Ticker::new((**properties).clone()),
            ),
            Simulation::Sawtooth(properties) => SimulationHandler::Sawtooth(
                Ticker::new((**properties).clone()),
            ),
            Simulation::Wave(properties) => SimulationHandler::Wave(
                Ticker::new((**properties).clone()),
            ),
            Simulation::Accelerometer(properties) => SimulationHandler::Accelerometer(
                AccelerometerSimulation::new((**properties).clone()),
            ),
            Simulation::Slider(properties) => SimulationHandler::Slider(
                SliderSimulation::new((**properties).clone()),
            ),
            Simulation::LedMatrix(properties) => SimulationHandler::LedMatrix(
                LedMatrixSimulation::new((**properties).clone()),
            ),
        }
    }
}

} // verus!
