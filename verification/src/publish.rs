//! What simulations publish, and the state of a channel that their
//! publications add up to. The values of properties are of a type `V` that
//! the engine carries without looking into.

use crate::string_map::StringMap;
use vstd::prelude::*;

verus! {

/// The properties of one feature.
#[derive(Debug)]
pub struct Feature<V> {
    pub properties: StringMap<V>,
}

impl<V> View for Feature<V> {
    type V = Map<Seq<char>, V>;

    open spec fn view(&self) -> Map<Seq<char>, V> {
        self.properties@
    }
}

/// A feature together with its name.
#[derive(Debug)]
pub struct SingleFeature<V> {
    pub name: String,
    pub state: Feature<V>,
}

/// The features of one channel.
#[derive(Debug)]
pub struct ChannelState<V> {
    pub features: StringMap<Feature<V>>,
}

impl<V> View for ChannelState<V> {
    type V = Map<Seq<char>, Map<Seq<char>, V>>;

    open spec fn view(&self) -> Map<Seq<char>, Map<Seq<char>, V>> {
        self.features@.map_values(|feature: Feature<V>| feature@)
    }
}

impl<V> ChannelState<V> {
    /// A channel without features.
    pub fn new() -> (res: Self)
        ensures
            res@ == Map::<Seq<char>, Map<Seq<char>, V>>::empty(),
    {
        let res = ChannelState { features: StringMap::new() };
        assert(res@ =~= Map::<Seq<char>, Map<Seq<char>, V>>::empty());
        res
    }

    /// Puts `feature` in place of what the channel held under its name.
    pub fn set(&mut self, feature: SingleFeature<V>)
        ensures
            final(self)@ == old(self)@.insert(feature.name@, feature.state@),
    {
        let ghost before = self.features@;
        let _ = self.features.insert(feature.name, feature.state);
        assert(before.insert(feature.name@, feature.state).map_values(
            |feature: Feature<V>| feature@,
        ) =~= before.map_values(|feature: Feature<V>| feature@).insert(
            feature.name@,
            feature.state@,
        ));
    }
}

/// One publication of a simulation.
#[derive(Debug)]
#[allow(inconsistent_fields)]
pub enum PublishEvent<V> {
    /// One feature of a channel, in place of what the channel held for it.
    Single { channel: String, state: SingleFeature<V> },
    /// All features of a channel, in place of what the channel held.
    Full { channel: String, state: ChannelState<V> },
}

/// The mathematical value of a [`PublishEvent`].
pub enum PublishEventView<V> {
    Single { channel: Seq<char>, name: Seq<char>, feature: Map<Seq<char>, V> },
    Full { channel: Seq<char>, state: Map<Seq<char>, Map<Seq<char>, V>> },
}

impl<V> PublishEventView<V> {
    /// The channel that the publication is for.
    pub open spec fn channel(self) -> Seq<char> {
        match self {
            PublishEventView::Single { channel, .. } => channel,
            PublishEventView::Full { channel, .. } => channel,
        }
    }
}

impl<V> View for PublishEvent<V> {
    type V = PublishEventView<V>;

    open spec fn view(&self) -> PublishEventView<V> {
        match self {
            PublishEvent::Single { channel, state } => PublishEventView::Single {
                channel: channel@,
                name: state.name@,
                feature: state.state@,
            },
            PublishEvent::Full { channel, state } => PublishEventView::Full {
                channel: channel@,
                state: state@,
            },
        }
    }
}

/// The mapping that `properties` add up to, each in place of what an earlier
/// one gave for its name.
pub open spec fn collected<V>(properties: Seq<(String, V)>) -> Map<Seq<char>, V>
    decreases properties.len(),
{
    if properties.len() == 0 {
        Map::empty()
    } else {
        collected(properties.drop_last()).insert(properties.last().0@, properties.last().1)
    }
}

/// The publication of the properties `properties` of `feature` of `channel`.
pub fn publish_feature<V>(channel: &str, feature: &str, properties: Vec<(String, V)>) -> (res:
    PublishEvent<V>)
    ensures
        res@ == (PublishEventView::Single {
            channel: channel@,
            name: feature@,
            feature: collected(properties@),
        }),
{
    let ghost all = properties@;
    let mut collecting: StringMap<V> = StringMap::new();
    for pair in iter: properties
        invariant
            iter.seq() == all,
            collecting@ == collected(all.take(iter.index() as int)),
    {
        assert(all.take(iter.index() + 1).drop_last() =~= all.take(iter.index() as int));
        let _ = collecting.insert(pair.0, pair.1);
    }
    assert(all.take(all.len() as int) =~= all);
    PublishEvent::Single {
        channel: channel.to_owned(),
        state: SingleFeature { name: feature.to_owned(), state: Feature { properties: collecting } },
    }
}

/// The publication of the value `value` of `property` of `feature` of
/// `channel`.
pub fn publish_single<V>(channel: &str, feature: &str, property: &str, value: V) -> (res:
    PublishEvent<V>)
    ensures
        res@ == (PublishEventView::Single {
            channel: channel@,
            name: feature@,
            feature: Map::<Seq<char>, V>::empty().insert(property@, value),
        }),
{
    let mut properties: StringMap<V> = StringMap::new();
    let _ = properties.insert(property.to_owned(), value);
    PublishEvent::Single {
        channel: channel.to_owned(),
        state: SingleFeature { name: feature.to_owned(), state: Feature { properties } },
    }
}

} // verus!
