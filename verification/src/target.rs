//! The telemetry destinations that a simulation writes to.

use crate::claims::{Claim, ClaimView};
use vstd::prelude::*;
use vstd::std_specs::cmp::PartialEqSpecImpl;
use vstd::string::StringExecFns;

verus! {

/// The channel that a target names unless told otherwise.
pub fn default_channel() -> (res: String)
    ensures
        res@ == "state"@,
{
    "state".to_owned()
}

/// The feature that a target names unless told otherwise.
pub fn default_feature() -> (res: String)
    ensures
        res@ == "feature"@,
{
    "feature".to_owned()
}

/// The property that a target names unless told otherwise.
pub fn default_value_property() -> (res: String)
    ensures
        res@ == "value"@,
{
    "value".to_owned()
}

/// A short text that names a simulation and what it writes to.
#[derive(Debug)]
pub struct SimulationDescription {
    pub label: String,
}

impl View for SimulationDescription {
    type V = Seq<char>;

    open spec fn view(&self) -> Seq<char> {
        self.label@
    }
}

impl Clone for SimulationDescription {
    fn clone(&self) -> (res: Self)
        ensures
            res == *self,
    {
        SimulationDescription { label: self.label.clone() }
    }
}

impl Default for SimulationDescription {
    fn default() -> (res: Self)
        ensures
            res@ == Seq::<char>::empty(),
    {
        SimulationDescription { label: String::new() }
    }
}

impl PartialEq for SimulationDescription {
    fn eq(&self, other: &Self) -> (res: bool) {
        self.label == other.label
    }
}

impl Eq for SimulationDescription {

}

impl PartialEqSpecImpl for SimulationDescription {
    open spec fn obeys_eq_spec() -> bool {
        true
    }

    open spec fn eq_spec(&self, other: &Self) -> bool {
        self@ == other@
    }
}

/// One property of one feature of one channel.
#[derive(Debug)]
pub struct SingleTarget {
    pub channel: String,
    pub feature: String,
    pub property: String,
}

/// The mathematical value of a [`SingleTarget`].
pub struct SingleTargetView {
    pub channel: Seq<char>,
    pub feature: Seq<char>,
    pub property: Seq<char>,
}

impl View for SingleTarget {
    type V = SingleTargetView;

    open spec fn view(&self) -> SingleTargetView {
        SingleTargetView {
            channel: self.channel@,
            feature: self.feature@,
            property: self.property@,
        }
    }
}

impl SingleTargetView {
    /// The label of a simulation called `label` that writes to this target.
    pub open spec fn describe(self, label: Seq<char>) -> Seq<char> {
        label + " ("@ + self.channel + "/"@ + self.feature + "/"@ + self.property + ")"@
    }

    /// The one claim that writing to this target takes.
    pub open spec fn claims(self) -> Seq<ClaimView> {
        seq![
            ClaimView::Property {
                channel: self.channel,
                feature: self.feature,
                property: self.property,
            },
        ]
    }
}

impl Clone for SingleTarget {
    fn clone(&self) -> (res: Self)
        ensures
            res == *self,
    {
        SingleTarget {
            channel: self.channel.clone(),
            feature: self.feature.clone(),
            property: self.property.clone(),
        }
    }
}

impl Default for SingleTarget {
    fn default() -> (res: Self)
        ensures
            res@ == (SingleTargetView {
                channel: "state"@,
                feature: "feature"@,
                property: "value"@,
            }),
    {
        SingleTarget {
            channel: default_channel(),
            feature: default_feature(),
            property: default_value_property(),
        }
    }
}

impl PartialEq for SingleTarget {
    fn eq(&self, other: &Self) -> (res: bool) {
        self.channel == other.channel && self.feature == other.feature && self.property
            == other.property
    }
}

impl Eq for SingleTarget {

}

impl PartialEqSpecImpl for SingleTarget {
    open spec fn obeys_eq_spec() -> bool {
        true
    }

    open spec fn eq_spec(&self, other: &Self) -> bool {
        self@ == other@
    }
}

impl SingleTarget {
    /// The target `channel`/`feature`/`property`.
    pub fn new(channel: &str, feature: &str, property: &str) -> (res: Self)
        ensures
            res@ == (SingleTargetView {
                channel: channel@,
                feature: feature@,
                property: property@,
            }),
    {
        SingleTarget {
            channel: channel.to_owned(),
            feature: feature.to_owned(),
            property: property.to_owned(),
        }
    }

    /// Describes a simulation called `label` that writes to this target.
    pub fn describe(&self, label: &str) -> (res: SimulationDescription)
        ensures
            res@ == self@.describe(label@),
    {
        let mut text = label.to_owned();
        text.append(" (");
        text.append(self.channel.as_str());
        text.append("/");
        text.append(self.feature.as_str());
        text.append("/");
        text.append(self.property.as_str());
        text.append(")");
        SimulationDescription { label: text }
    }

    /// The claims that writing to this target takes.
    pub fn claims(&self) -> (res: Vec<Claim>)
        ensures
            crate::claims::claim_views(res@) == self@.claims(),
    {
        let mut res: Vec<Claim> = Vec::new();
        res.push(
            Claim::Property {
                channel: self.channel.clone(),
                feature: self.feature.clone(),
                property: self.property.clone(),
            },
        );
        assert(crate::claims::claim_views(res@) =~= self@.claims());
        res
    }
}

/// One whole feature of one channel.
#[derive(Debug)]
pub struct FeatureTarget {
    pub channel: String,
    pub feature: String,
}

/// The mathematical value of a [`FeatureTarget`].
pub struct FeatureTargetView {
    pub channel: Seq<char>,
    pub feature: Seq<char>,
}

impl View for FeatureTarget {
    type V = FeatureTargetView;

    open spec fn view(&self) -> FeatureTargetView {
        FeatureTargetView { channel: self.channel@, feature: self.feature@ }
    }
}

impl FeatureTargetView {
    /// The label of a simulation called `label` that writes to this target.
    pub open spec fn describe(self, label: Seq<char>) -> Seq<char> {
        label + " ("@ + self.channel + "/"@ + self.feature + ")"@
    }

    /// The one claim that writing to this target takes.
    pub open spec fn claims(self) -> Seq<ClaimView> {
        seq![ClaimView::Feature { channel: self.channel, feature: self.feature }]
    }
}

impl Clone for FeatureTarget {
    fn clone(&self) -> (res: Self)
        ensures
            res == *self,
    {
        FeatureTarget { channel: self.channel.clone(), feature: self.feature.clone() }
    }
}

impl Default for FeatureTarget {
    fn default() -> (res: Self)
        ensures
            res@ == (FeatureTargetView { channel: "state"@, feature: "feature"@ }),
    {
        FeatureTarget { channel: default_channel(), feature: default_feature() }
    }
}

impl PartialEq for FeatureTarget {
    fn eq(&self, other: &Self) -> (res: bool) {
        self.channel == other.channel && self.feature == other.feature
    }
}

impl Eq for FeatureTarget {

}

impl PartialEqSpecImpl for FeatureTarget {
    open spec fn obeys_eq_spec() -> bool {
        true
    }

    open spec fn eq_spec(&self, other: &Self) -> bool {
        self@ == other@
    }
}

impl FeatureTarget {
    /// The target `channel`/`feature`.
    pub fn new(channel: &str, feature: &str) -> (res: Self)
        ensures
            res@ == (FeatureTargetView { channel: channel@, feature: feature@ }),
    {
        FeatureTarget { channel: channel.to_owned(), feature: feature.to_owned() }
    }

    /// Describes a simulation called `label` that writes to this target.
    pub fn describe(&self, label: &str) -> (res: SimulationDescription)
        ensures
            res@ == self@.describe(label@),
    {
        let mut text = label.to_owned();
        text.append(" (");
        text.append(self.channel.as_str());
        text.append("/");
        text.append(self.feature.as_str());
        text.append(")");
        SimulationDescription { label: text }
    }

    /// The claims that writing to this target takes.
    pub fn claims(&self) -> (res: Vec<Claim>)
        ensures
            crate::claims::claim_views(res@) == self@.claims(),
    {
        let mut res: Vec<Claim> = Vec::new();
        res.push(Claim::Feature { channel: self.channel.clone(), feature: self.feature.clone() });
        assert(crate::claims::claim_views(res@) =~= self@.claims());
        res
    }
}

} // verus!
