//! What the simulator is configured with: where to connect, and which
//! simulations to run.

use crate::claims::{claim_views, Claim, ClaimView};
use crate::number::{Number, HUNDRED_BITS, ONE_BITS, ZERO_BITS};
use crate::simulations::slider::{Step, StepView};
use crate::simulations::{accelerometer, default_period, led_matrix, sawtooth, sine, slider, wave};
use crate::string_map::StringMap;
use crate::target::{FeatureTarget, FeatureTargetView, SingleTarget, SingleTargetView};
use vstd::prelude::*;
use vstd::std_specs::cmp::PartialEqSpecImpl;

verus! {

/// How the simulator proves who it is.
#[derive(Debug)]
pub enum Credentials {
    /// Not at all.
    Anonymous,
    /// With a password, under the name of the device and its application.
    Password(String),
    /// With a name and a password.
    UsernamePassword { username: String, password: String },
}

impl Clone for Credentials {
    fn clone(&self) -> (res: Self)
        ensures
            res == *self,
    {
        match self {
            Credentials::Anonymous => Credentials::Anonymous,
            Credentials::Password(password) => Credentials::Password(password.clone()),
            Credentials::UsernamePassword { username, password } => Credentials::UsernamePassword {
                username: username.clone(),
                password: password.clone(),
            },
        }
    }
}

/// The kind of endpoint that the simulator talks to.
#[derive(Clone, Copy, Debug, PartialEq, Eq, Structural)]
pub enum Protocol {
    Http,
    Mqtt,
}

impl Protocol {
    /// The name of the protocol as the user reads it.
    pub fn to_string(&self) -> (res: String)
        ensures
            res@ == match *self {
                Protocol::Http => "HTTP"@,
                Protocol::Mqtt => "MQTT"@,
            },
    {
        match self {
            Protocol::Http => "HTTP".to_owned(),
            Protocol::Mqtt => "MQTT".to_owned(),
        }
    }
}

/// The endpoint that the simulator talks to.
#[derive(Debug)]
pub enum Target {
    Mqtt { url: String, credentials: Credentials },
    Http { url: String, credentials: Credentials },
}

impl Clone for Target {
    fn clone(&self) -> (res: Self)
        ensures
            res == *self,
    {
        match self {
            Target::Mqtt { url, credentials } => Target::Mqtt {
                url: url.clone(),
                credentials: credentials.clone(),
            },
            Target::Http { url, credentials } => Target::Http {
                url: url.clone(),
                credentials: credentials.clone(),
            },
        }
    }
}

impl Target {
    /// The kind of endpoint.
    pub fn as_protocol(&self) -> (res: Protocol)
        ensures
            res == match *self {
                Target::Mqtt { .. } => Protocol::Mqtt,
                Target::Http { .. } => Protocol::Http,
            },
    {
        match self {
            Target::Mqtt { .. } => Protocol::Mqtt,
            Target::Http { .. } => Protocol::Http,
        }
    }
}

/// Hints for the user of a configuration that came from elsewhere.
#[derive(Debug)]
pub struct Import {
    /// Whether to ask the user to look at the connection settings.
    pub hint_connection: bool,
    /// The text to ask with, in place of the usual one.
    pub hint_text: Option<String>,
}

impl Default for Import {
    fn default() -> (res: Self)
        ensures
            !res.hint_connection,
            res.hint_text is None,
    {
        Import { hint_connection: false, hint_text: None }
    }
}

/// One configured simulation.
#[derive(Debug)]
pub enum Simulation {
    Sine(Box<sine::Properties>),
    Sawtooth(Box<sawtooth::Properties>),
    Wave(Box<wave::Properties>),
    Accelerometer(Box<accelerometer::Properties>),
    Slider(Box<slider::Properties>),
    LedMatrix(Box<led_matrix::Properties>),
}

/// The kinds of simulation.
#[derive(Clone, Copy, Debug, PartialEq, Eq, Structural)]
pub enum SimulationDiscriminants {
    Sine,
    Sawtooth,
    Wave,
    Accelerometer,
    Slider,
    LedMatrix,
}

/// The mathematical value of a [`Simulation`].
pub enum SimulationView {
    Sine(sine::PropertiesView),
    Sawtooth(sawtooth::PropertiesView),
    Wave(wave::PropertiesView),
    Accelerometer(accelerometer::PropertiesView),
    Slider(slider::PropertiesView),
    LedMatrix(led_matrix::PropertiesView),
}

impl View for Simulation {
    type V = SimulationView;

    open spec fn view(&self) -> SimulationView {
        match self {
            Simulation::Sine(properties) => SimulationView::Sine(properties@),
            Simulation::Sawtooth(properties) => SimulationView::Sawtooth(properties@),
            Simulation::Wave(properties) => SimulationView::Wave(properties@),
            Simulation::Accelerometer(properties) => SimulationView::Accelerometer(properties@),
            Simulation::Slider(properties) => SimulationView::Slider(properties@),
            Simulation::LedMatrix(properties) => SimulationView::LedMatrix(properties@),
        }
    }
}

impl SimulationView {
    /// The kind of the simulation.
    pub open spec fn kind(self) -> SimulationDiscriminants {
        match self {
            SimulationView::Sine(_) => SimulationDiscriminants::Sine,
            SimulationView::Sawtooth(_) => SimulationDiscriminants::Sawtooth,
            SimulationView::Wave(_) => SimulationDiscriminants::Wave,
            SimulationView::Accelerometer(_) => SimulationDiscriminants::Accelerometer,
            SimulationView::Slider(_) => SimulationDiscriminants::Slider,
            SimulationView::LedMatrix(_) => SimulationDiscriminants::LedMatrix,
        }
    }

    /// The channel that the simulation writes to.
    pub open spec fn channel(self) -> Seq<char> {
        match self {
            SimulationView::Sine(properties) => properties.target.channel,
            SimulationView::Sawtooth(properties) => properties.target.channel,
            SimulationView::Wave(properties) => properties.target.channel,
            SimulationView::Accelerometer(properties) => properties.target.channel,
            SimulationView::Slider(properties) => properties.target.channel,
            SimulationView::LedMatrix(properties) => properties.target.channel,
        }
    }

    /// The claims that the simulation takes.
    pub open spec fn claims(self) -> Seq<ClaimView> {
        match self {
            SimulationView::Sine(properties) => properties.target.claims(),
            SimulationView::Sawtooth(properties) => properties.target.claims(),
            SimulationView::Wave(properties) => properties.target.claims(),
            SimulationView::Accelerometer(properties) => properties.target.claims(),
            SimulationView::Slider(properties) => properties.target.claims(),
            SimulationView::LedMatrix(properties) => properties.target.claims(),
        }
    }

    /// The text that describes the simulation.
    pub open spec fn description(self) -> Seq<char> {
        match self {
            SimulationView::Sine(properties) => properties.target.describe("Sine"@),
            SimulationView::Sawtooth(properties) => properties.target.describe("Sawtooth"@),
            SimulationView::Wave(properties) => properties.target.describe("Wave"@),
            SimulationView::Accelerometer(properties) => properties.target.describe(
                "Accelerometer"@,
            ),
            SimulationView::Slider(properties) => properties.target.describe("Slider"@),
            SimulationView::LedMatrix(properties) => properties.target.describe("Led Matrix"@),
        }
    }
}

impl Simulation {
    /// The kind of the simulation.
    pub fn discriminant(&self) -> (res: SimulationDiscriminants)
        ensures
            res == self@.kind(),
    {
        match self {
            Simulation::Sine(_) => SimulationDiscriminants::Sine,
            Simulation::Sawtooth(_) => SimulationDiscriminants::Sawtooth,
            Simulation::Wave(_) => SimulationDiscriminants::Wave,
            Simulation::Accelerometer(_) => SimulationDiscriminants::Accelerometer,
            Simulation::Slider(_) => SimulationDiscriminants::Slider,
            Simulation::LedMatrix(_) => SimulationDiscriminants::LedMatrix,
        }
    }

    /// The claims that the simulation takes.
    pub fn to_claims(&self) -> (res: Vec<Claim>)
        ensures
            claim_views(res@) == self@.claims(),
    {
        match self {
            Simulation::Sine(properties) => properties.target.claims(),
            Simulation::Sawtooth(properties) => properties.target.claims(),
            Simulation::Wave(properties) => properties.target.claims(),
            Simulation::Accelerometer(properties) => properties.target.claims(),
            Simulation::Slider(properties) => properties.target.claims(),
            Simulation::LedMatrix(properties) => properties.target.claims(),
        }
    }
}

impl Clone for Simulation {
    fn clone(&self) -> (res: Self)
        ensures
            res@ == self@,
    {
        match self {
            Simulation::Sine(properties) => Simulation::Sine(Box::new((**properties).clone())),
            Simulation::Sawtooth(properties) => Simulation::Sawtooth(
                Box::new((**properties).clone()),
            ),
            Simulation::Wave(properties) => Simulation::Wave(Box::new((**properties).clone())),
            Simulation::Accelerometer(properties) => Simulation::Accelerometer(
                Box::new((**properties).clone()),
            ),
            Simulation::Slider(properties) => Simulation::Slider(Box::new((**properties).clone())),
            Simulation::LedMatrix(properties) => Simulation::LedMatrix(
                Box::new((**properties).clone()),
            ),
        }
    }
}

impl PartialEq for Simulation {
    fn eq(&self, other: &Self) -> (res: bool) {
        match (self, other) {
            (Simulation::Sine(a), Simulation::Sine(b)) => **a == **b,
            (Simulation::Sawtooth(a), Simulation::Sawtooth(b)) => **a == **b,
            (Simulation::Wave(a), Simulation::Wave(b)) => **a == **b,
            (Simulation::Accelerometer(a), Simulation::Accelerometer(b)) => **a == **b,
            (Simulation::Slider(a), Simulation::Slider(b)) => **a == **b,
            (Simulation::LedMatrix(a), Simulation::LedMatrix(b)) => **a == **b,
            _ => false,
        }
    }
}

impl Eq for Simulation {

}

impl PartialEqSpecImpl for Simulation {
    open spec fn obeys_eq_spec() -> bool {
        true
    }

    open spec fn eq_spec(&self, other: &Self) -> bool {
        self@ == other@
    }
}

/// The target that a simulation writes to unless told otherwise.
pub open spec fn default_target() -> SingleTargetView {
    SingleTargetView { channel: "state"@, feature: "feature"@, property: "value"@ }
}

impl SimulationDiscriminants {
    /// Whether `simulation` is what a new simulation of this kind starts
    /// with. Times are in milliseconds.
    pub open spec fn is_default(self, simulation: Simulation) -> bool {
        match self {
            SimulationDiscriminants::Sine => simulation matches Simulation::Sine(properties)
                && properties.amplitude.bits == ONE_BITS && properties.length == 60_000
                && properties.period == 1000 && properties.target@ == default_target(),
            SimulationDiscriminants::Sawtooth => simulation matches Simulation::Sawtooth(
                properties,
            ) && properties.max.bits == ONE_BITS && properties.length == 60_000
                && properties.period == 1000 && properties.target@ == default_target(),
            SimulationDiscriminants::Wave => simulation matches Simulation::Wave(properties)
                && properties.lengths@.len() == 0 && properties.amplitudes@.len() == 0
                && properties.offset.bits == ZERO_BITS && properties.period == 1000
                && properties.target@ == default_target(),
            SimulationDiscriminants::Accelerometer => simulation matches Simulation::Accelerometer(
                properties,
            ) && properties.delay == 1000 && properties.target@ == (FeatureTargetView {
                channel: "state"@,
                feature: "feature"@,
            }),
            SimulationDiscriminants::Slider => simulation matches Simulation::Slider(properties)
                && properties.delay == 1000 && properties.target@ == default_target()
                && properties.min@ == (StepView {
                value: Number { bits: ZERO_BITS },
                label: Some("0%"@),
            }) && properties.max@ == (StepView {
                value: Number { bits: HUNDRED_BITS },
                label: Some("100%"@),
            }),
            SimulationDiscriminants::LedMatrix => simulation matches Simulation::LedMatrix(
                properties,
            ) && properties.target@ == default_target() && properties.color is None
                && properties.color_off is None,
        }
    }

    /// What a new simulation of this kind starts with.
    pub fn make_default(&self) -> (res: Simulation)
        ensures
            self.is_default(res),
            res@.kind() == *self,
    {
        match self {
            SimulationDiscriminants::Sine => Simulation::Sine(
                Box::new(
                    sine::Properties {
                        amplitude: Number::one(),
                        length: 60_000,
                        period: default_period(),
                        target: SingleTarget::default(),
                    },
                ),
            ),
            SimulationDiscriminants::Sawtooth => Simulation::Sawtooth(
                Box::new(
                    sawtooth::Properties {
                        max: Number::one(),
                        length: 60_000,
                        period: default_period(),
                        target: SingleTarget::default(),
                    },
                ),
            ),
            SimulationDiscriminants::Wave => Simulation::Wave(
                Box::new(
                    wave::Properties {
                        lengths: Vec::new(),
                        amplitudes: Vec::new(),
                        offset: Number::zero(),
                        period: default_period(),
                        target: SingleTarget::default(),
                    },
                ),
            ),
            SimulationDiscriminants::Accelerometer => Simulation::Accelerometer(
                Box::new(
                    accelerometer::Properties {
                        delay: default_period(),
                        target: FeatureTarget::default(),
                    },
                ),
            ),
            SimulationDiscriminants::Slider => Simulation::Slider(
                Box::new(
                    slider::Properties {
                        delay: default_period(),
                        target: SingleTarget::default(),
                        min: Step::WithLabel { value: Number::zero(), label: "0%".to_owned() },
                        max: Step::WithLabel {
                            value: Number::hundred(),
                            label: "100%".to_owned(),
                        },
                    },
                ),
            ),
            SimulationDiscriminants::LedMatrix => Simulation::LedMatrix(
                Box::new(
                    led_matrix::Properties {
                        target: SingleTarget::default(),
                        color: None,
                        color_off: None,
                    },
                ),
            ),
        }
    }

    /// Every kind, once.
    pub fn all() -> (res: Vec<SimulationDiscriminants>)
        ensures
            res@ == seq![
                SimulationDiscriminants::Sine,
                SimulationDiscriminants::Sawtooth,
                SimulationDiscriminants::Wave,
                SimulationDiscriminants::Accelerometer,
                SimulationDiscriminants::Slider,
                SimulationDiscriminants::LedMatrix,
            ],
    {
        let mut res: Vec<SimulationDiscriminants> = Vec::new();
        res.push(SimulationDiscriminants::Sine);
        res.push(SimulationDiscriminants::Sawtooth);
        res.push(SimulationDiscriminants::Wave);
        res.push(SimulationDiscriminants::Accelerometer);
        res.push(SimulationDiscriminants::Slider);
        res.push(SimulationDiscriminants::LedMatrix);
        assert(res@ =~= seq![
            SimulationDiscriminants::Sine,
            SimulationDiscriminants::Sawtooth,
            SimulationDiscriminants::Wave,
            SimulationDiscriminants::Accelerometer,
            SimulationDiscriminants::Slider,
            SimulationDiscriminants::LedMatrix,
        ]);
        res
    }

    /// The name of the kind.
    pub fn to_string(&self) -> (res: String)
        ensures
            res@ == match *self {
                SimulationDiscriminants::Sine => "Sine"@,
                SimulationDiscriminants::Sawtooth => "Sawtooth"@,
                SimulationDiscriminants::Wave => "Wave"@,
                SimulationDiscriminants::Accelerometer => "Accelerometer"@,
                SimulationDiscriminants::Slider => "Slider"@,
                SimulationDiscriminants::LedMatrix => "LedMatrix"@,
            },
    {
        match self {
            SimulationDiscriminants::Sine => "Sine".to_owned(),
            SimulationDiscriminants::Sawtooth => "Sawtooth".to_owned(),
            SimulationDiscriminants::Wave => "Wave".to_owned(),
            SimulationDiscriminants::Accelerometer => "Accelerometer".to_owned(),
            SimulationDiscriminants::Slider => "Slider".to_owned(),
            SimulationDiscriminants::LedMatrix => "LedMatrix".to_owned(),
        }
    }

    /// What the kind is, in a few words.
    pub fn get_message(&self) -> (res: &'static str)
        ensures
            res@ == match *self {
                SimulationDiscriminants::Sine => "Simple sine wave generator"@,
                SimulationDiscriminants::Sawtooth => "Sawtooth generator"@,
                SimulationDiscriminants::Wave => "Wave generator"@,
                SimulationDiscriminants::Accelerometer => "Accelerometer"@,
                SimulationDiscriminants::Slider => "Slider"@,
                SimulationDiscriminants::LedMatrix => "Led Matrix"@,
            },
    {
        match self {
            SimulationDiscriminants::Sine => "Simple sine wave generator",
            SimulationDiscriminants::Sawtooth => "Sawtooth generator",
            SimulationDiscriminants::Wave => "Wave generator",
            SimulationDiscriminants::Accelerometer => "Accelerometer",
            SimulationDiscriminants::Slider => "Slider",
            SimulationDiscriminants::LedMatrix => "Led Matrix",
        }
    }
}

impl Default for Simulation {
    fn default() -> (res: Self)
        ensures
            SimulationDiscriminants::Sine.is_default(res),
    {
        SimulationDiscriminants::Sine.make_default()
    }
}

/// Everything that the simulator is configured with.
#[derive(Debug)]
pub struct Settings {
    /// Whether to connect without being asked.
    pub auto_connect: bool,
    pub target: Target,
    pub application: String,
    pub device: String,
    /// The simulations to run, by id.
    pub simulations: StringMap<Simulation>,
    pub import: Option<Import>,
}

impl Default for Settings {
    fn default() -> (res: Self)
        ensures
            !res.auto_connect,
            res.target matches Target::Mqtt { url, credentials } && url@
                == "wss://mqtt-endpoint-ws-browser-drogue-dev.apps.wonderful.iot-playground.org/mqtt"@
                && (credentials matches Credentials::Password(password) && password@
                == "my-password"@),
            res.application@ == "my-application"@,
            res.device@ == "my-device"@,
            res.simulations@.dom() == set!["sine1"@],
            res.simulations@["sine1"@] matches Simulation::Sine(properties)
                && properties.amplitude.bits == HUNDRED_BITS && properties.length == 60_000
                && properties.period == 1000 && properties.target@ == default_target(),
            res.import is None,
    {
        let mut simulations: StringMap<Simulation> = StringMap::new();
        let _ = simulations.insert(
            "sine1".to_owned(),
            Simulation::Sine(
                Box::new(
                    sine::Properties {
                        amplitude: Number::hundred(),
                        length: 60_000,
                        period: 1000,
                        target: SingleTarget::default(),
                    },
                ),
            ),
        );
        assert(simulations@.dom() =~= set!["sine1"@]);
        Settings {
            auto_connect: false,
            target: Target::Mqtt {
                url: "wss://mqtt-endpoint-ws-browser-drogue-dev.apps.wonderful.iot-playground.org/mqtt".to_owned(),
                credentials: Credentials::Password("my-password".to_owned()),
            },
            application: "my-application".to_owned(),
            device: "my-device".to_owned(),
            simulations,
            import: None,
        }
    }
}


/// The mathematical value of [`Credentials`].
pub enum CredentialsView {
    Anonymous,
    Password(Seq<char>),
    UsernamePassword { username: Seq<char>, password: Seq<char> },
}

impl View for Credentials {
    type V = CredentialsView;

    open spec fn view(&self) -> CredentialsView {
        match self {
            Credentials::Anonymous => CredentialsView::Anonymous,
            Credentials::Password(password) => CredentialsView::Password(password@),
            Credentials::UsernamePassword { username, password } => {
                CredentialsView::UsernamePassword { username: username@, password: password@ }
            },
        }
    }
}

/// The mathematical value of a [`Target`].
pub struct TargetView {
    pub protocol: Protocol,
    pub url: Seq<char>,
    pub credentials: CredentialsView,
}

impl View for Target {
    type V = TargetView;

    open spec fn view(&self) -> TargetView {
        match self {
            Target::Mqtt { url, credentials } => TargetView {
                protocol: Protocol::Mqtt,
                url: url@,
                credentials: credentials@,
            },
            Target::Http { url, credentials } => TargetView {
                protocol: Protocol::Http,
                url: url@,
                credentials: credentials@,
            },
        }
    }
}

/// The kinds of credentials.
#[derive(Clone, Copy, Debug, PartialEq, Eq, Structural)]
pub enum CredentialsType {
    Anonymous,
    Password,
    UsernamePassword,
}

impl CredentialsType {
    /// The name of the kind as the user reads it.
    pub fn to_string(&self) -> (res: String)
        ensures
            res@ == match *self {
                CredentialsType::Anonymous => "None"@,
                CredentialsType::Password => "Password"@,
                CredentialsType::UsernamePassword => "Username/password"@,
            },
    {
        match self {
            CredentialsType::Anonymous => "None".to_owned(),
            CredentialsType::Password => "Password".to_owned(),
            CredentialsType::UsernamePassword => "Username/password".to_owned(),
        }
    }
}

/// The connection settings as a form shows them: every part in a field of
/// its own.
#[derive(Debug)]
pub struct Connection {
    pub auto_connect: bool,
    pub protocol: Protocol,
    pub url: String,
    pub credentials: CredentialsType,
    pub username: String,
    pub password: String,
    pub application: String,
    pub device: String,
}

/// The mathematical value of a [`Connection`].
pub struct ConnectionView {
    pub auto_connect: bool,
    pub protocol: Protocol,
    pub url: Seq<char>,
    pub credentials: CredentialsType,
    pub username: Seq<char>,
    pub password: Seq<char>,
    pub application: Seq<char>,
    pub device: Seq<char>,
}

impl View for Connection {
    type V = ConnectionView;

    open spec fn view(&self) -> ConnectionView {
        ConnectionView {
            auto_connect: self.auto_connect,
            protocol: self.protocol,
            url: self.url@,
            credentials: self.credentials,
            username: self.username@,
            password: self.password@,
            application: self.application@,
            device: self.device@,
        }
    }
}

impl ConnectionView {
    /// The credentials that the form holds.
    pub open spec fn entered(self) -> CredentialsView {
        match self.credentials {
            CredentialsType::Anonymous => CredentialsView::Anonymous,
            CredentialsType::Password => CredentialsView::Password(self.password),
            CredentialsType::UsernamePassword => CredentialsView::UsernamePassword {
                username: self.username,
                password: self.password,
            },
        }
    }

    /// The target that the form holds.
    pub open spec fn target(self) -> TargetView {
        TargetView { protocol: self.protocol, url: self.url, credentials: self.entered() }
    }

    /// The form after it took the target `target`, the application and the
    /// device in: fields that the credentials do not fill stay, but for
    /// credentials that are none, which clear both.
    pub open spec fn synced(self, target: TargetView, application: Seq<char>, device: Seq<char>) -> Self {
        ConnectionView {
            auto_connect: self.auto_connect,
            protocol: target.protocol,
            url: target.url,
            application,
            device,
            credentials: match target.credentials {
                CredentialsView::Anonymous => CredentialsType::Anonymous,
                CredentialsView::Password(_) => CredentialsType::Password,
                CredentialsView::UsernamePassword { .. } => CredentialsType::UsernamePassword,
            },
            username: match target.credentials {
                CredentialsView::Anonymous => Seq::empty(),
                CredentialsView::Password(_) => self.username,
                CredentialsView::UsernamePassword { username, .. } => username,
            },
            password: match target.credentials {
                CredentialsView::Anonymous => Seq::empty(),
                CredentialsView::Password(password) => password,
                CredentialsView::UsernamePassword { password, .. } => password,
            },
        }
    }
}

impl Connection {
    /// An empty form for an MQTT endpoint that asks to connect without being
    /// asked.
    pub fn new() -> (res: Self)
        ensures
            res@ == (ConnectionView {
                auto_connect: true,
                protocol: Protocol::Mqtt,
                url: Seq::empty(),
                credentials: CredentialsType::Anonymous,
                username: Seq::empty(),
                password: Seq::empty(),
                application: Seq::empty(),
                device: Seq::empty(),
            }),
    {
        Connection {
            auto_connect: true,
            protocol: Protocol::Mqtt,
            url: String::new(),
            credentials: CredentialsType::Anonymous,
            username: String::new(),
            password: String::new(),
            application: String::new(),
            device: String::new(),
        }
    }

    /// Takes what `settings` say of the connection into the form.
    pub fn sync(&mut self, settings: &Settings)
        ensures
            final(self)@ == old(self)@.synced(
                settings.target@,
                settings.application@,
                settings.device@,
            ),
    {
        self.protocol = settings.target.as_protocol();
        let (url, credentials) = match &settings.target {
            Target::Http { url, credentials } => (url, credentials),
            Target::Mqtt { url, credentials } => (url, credentials),
        };
        self.url = url.clone();
        self.application = settings.application.clone();
        self.device = settings.device.clone();
        match credentials {
            Credentials::Anonymous => {
                self.username = String::new();
                self.password = String::new();
                self.credentials = CredentialsType::Anonymous;
            },
            Credentials::Password(password) => {
                self.password = password.clone();
                self.credentials = CredentialsType::Password;
            },
            Credentials::UsernamePassword { username, password } => {
                self.username = username.clone();
                self.password = password.clone();
                self.credentials = CredentialsType::UsernamePassword;
            },
        }
    }

    /// Puts what the form holds into `settings`; the simulations and the
    /// hints of the settings stay.
    pub fn update_settings(&self, settings: &mut Settings)
        ensures
            final(settings).auto_connect == self.auto_connect,
            final(settings).target@ == self@.target(),
            final(settings).application@ == self.application@,
            final(settings).device@ == self.device@,
            final(settings).simulations == old(settings).simulations,
            final(settings).import == old(settings).import,
    {
        let credentials = match self.credentials {
            CredentialsType::Anonymous => Credentials::Anonymous,
            CredentialsType::Password => Credentials::Password(self.password.clone()),
            CredentialsType::UsernamePassword => Credentials::UsernamePassword {
                username: self.username.clone(),
                password: self.password.clone(),
            },
        };
        let url = self.url.clone();
        settings.auto_connect = self.auto_connect;
        settings.application = self.application.clone();
        settings.device = self.device.clone();
        settings.target = match self.protocol {
            Protocol::Http => Target::Http { url, credentials },
            Protocol::Mqtt => Target::Mqtt { url, credentials },
        };
    }
}

/// What a form took from settings is what it puts back: whatever the form
/// held before, after taking a target in it holds that target.
pub proof fn lemma_form_keeps_target(
    form: ConnectionView,
    target: TargetView,
    application: Seq<char>,
    device: Seq<char>,
)
    ensures
        form.synced(target, application, device).target() == target,
        form.synced(target, application, device).application == application,
        form.synced(target, application, device).device == device,
{
}

} // verus!
