//! Hierarchical claims on telemetry targets and the registry that records
//! which simulation holds which claims.

use crate::string_map::StringMap;
use crate::text::opt_str_view;
use vstd::prelude::*;

verus! {

/// A scope that a simulation declares it writes to.
#[derive(Debug, Hash, PartialEq, Eq)]
pub enum Claim {
    Channel { channel: String },
    Feature { channel: String, feature: String },
    Property { channel: String, feature: String, property: String },
}

/// The mathematical value of a [`Claim`].
pub enum ClaimView {
    Channel { channel: Seq<char> },
    Feature { channel: Seq<char>, feature: Seq<char> },
    Property { channel: Seq<char>, feature: Seq<char>, property: Seq<char> },
}

impl ClaimView {
    /// The channel that the claim lies in.
    pub open spec fn channel(self) -> Seq<char> {
        match self {
            ClaimView::Channel { channel } => channel,
            ClaimView::Feature { channel, .. } => channel,
            ClaimView::Property { channel, .. } => channel,
        }
    }

    /// The feature that the claim names, if it reaches that deep.
    pub open spec fn feature(self) -> Option<Seq<char>> {
        match self {
            ClaimView::Channel { .. } => None,
            ClaimView::Feature { feature, .. } => Some(feature),
            ClaimView::Property { feature, .. } => Some(feature),
        }
    }

    /// The property that the claim names, if it reaches that deep.
    pub open spec fn property(self) -> Option<Seq<char>> {
        match self {
            ClaimView::Property { property, .. } => Some(property),
            _ => None,
        }
    }
}

/// Two claims overlap when they agree on every level that both of them name.
pub open spec fn overlaps(a: ClaimView, b: ClaimView) -> bool {
    &&& a.channel() == b.channel()
    &&& (a.feature() is Some && b.feature() is Some ==> a.feature() == b.feature())
    &&& (a.property() is Some && b.property() is Some ==> a.property() == b.property())
}

/// Overlap does not depend on the order of its arguments.
pub proof fn lemma_overlap_symmetric(a: ClaimView, b: ClaimView)
    ensures
        overlaps(a, b) == overlaps(b, a),
{
}

/// Every claim overlaps itself.
pub proof fn lemma_overlap_reflexive(a: ClaimView)
    ensures
        overlaps(a, a),
{
}

/// A property claim overlaps the feature and the channel that contain it, and
/// a feature claim overlaps its channel and every property below it.
pub proof fn lemma_overlap_hierarchy(channel: Seq<char>, feature: Seq<char>, property: Seq<char>)
    ensures
        overlaps(
            ClaimView::Property { channel, feature, property },
            ClaimView::Feature { channel, feature },
        ),
        overlaps(ClaimView::Property { channel, feature, property }, ClaimView::Channel { channel }),
        overlaps(ClaimView::Feature { channel, feature }, ClaimView::Channel { channel }),
        forall|other: Seq<char>|
            overlaps(
                ClaimView::Feature { channel, feature },
                ClaimView::Property { channel, feature, property: other },
            ),
        forall|other: Seq<char>|
            #[trigger] overlaps(
                ClaimView::Property { channel, feature, property },
                ClaimView::Property { channel, feature, property: other },
            ) <==> other == property,
{
}

impl View for Claim {
    type V = ClaimView;

    open spec fn view(&self) -> ClaimView {
        match self {
            Claim::Channel { channel } => ClaimView::Channel { channel: channel@ },
            Claim::Feature { channel, feature } => ClaimView::Feature {
                channel: channel@,
                feature: feature@,
            },
            Claim::Property { channel, feature, property } => ClaimView::Property {
                channel: channel@,
                feature: feature@,
                property: property@,
            },
        }
    }
}

impl Clone for Claim {
    fn clone(&self) -> (res: Self)
        ensures
            res == *self,
    {
        match self {
            Claim::Channel { channel } => Claim::Channel { channel: channel.clone() },
            Claim::Feature { channel, feature } => Claim::Feature {
                channel: channel.clone(),
                feature: feature.clone(),
            },
            Claim::Property { channel, feature, property } => Claim::Property {
                channel: channel.clone(),
                feature: feature.clone(),
                property: property.clone(),
            },
        }
    }
}

impl Claim {
    /// Whether this claim and `other` touch a common scope.
    pub fn overlap(&self, other: &Self) -> (res: bool)
        ensures
            res == overlaps(self@, other@),
    {
        match self {
            Claim::Channel { channel } => match other {
                Claim::Channel { channel: check_channel }
                | Claim::Feature { channel: check_channel, .. }
                | Claim::Property { channel: check_channel, .. } => *channel == *check_channel,
            },
            Claim::Feature { channel, feature } => match other {
                Claim::Channel { channel: check_channel } => *channel == *check_channel,
                Claim::Feature { channel: check_channel, feature: check_feature }
                | Claim::Property { channel: check_channel, feature: check_feature, .. } => {
                    *channel == *check_channel && *feature == *check_feature
                },
            },
            Claim::Property { channel, feature, property } => match other {
                Claim::Channel { channel: check_channel } => *channel == *check_channel,
                Claim::Feature { channel: check_channel, feature: check_feature } => {
                    *channel == *check_channel && *feature == *check_feature
                },
                Claim::Property {
                    channel: check_channel,
                    feature: check_feature,
                    property: check_property,
                } => {
                    *channel == *check_channel && *feature == *check_feature && *property
                        == *check_property
                },
            },
        }
    }
}

/// The values of a list of claims, in order.
pub open spec fn claim_views(claims: Seq<Claim>) -> Seq<ClaimView> {
    Seq::new(claims.len(), |i: int| claims[i]@)
}

/// Whether some claim of `held` overlaps `check`.
pub open spec fn any_overlaps(held: Seq<ClaimView>, check: ClaimView) -> bool {
    exists|i: int| 0 <= i < held.len() && overlaps(#[trigger] held[i], check)
}

/// Whether a simulation other than `exclude` holds a claim that overlaps
/// `check`.
pub open spec fn claimed_by_other(
    registry: Map<Seq<char>, Seq<ClaimView>>,
    check: ClaimView,
    exclude: Option<Seq<char>>,
) -> bool {
    exists|id: Seq<char>|
        #[trigger] registry.contains_key(id) && exclude != Some(id) && any_overlaps(
            registry[id],
            check,
        )
}

/// Whether a simulation other than `exclude` holds a claim that overlaps one
/// of `check`.
pub open spec fn any_claimed_by_other(
    registry: Map<Seq<char>, Seq<ClaimView>>,
    check: Seq<ClaimView>,
    exclude: Option<Seq<char>>,
) -> bool {
    exists|j: int| 0 <= j < check.len() && claimed_by_other(registry, #[trigger] check[j], exclude)
}

/// The claims of every running simulation, keyed by the simulation's id.
#[derive(Debug)]
pub struct Claims {
    claims: StringMap<Vec<Claim>>,
}

/// The value of a registry whose entries are `held`.
pub open spec fn registry_view(held: Map<Seq<char>, Vec<Claim>>) -> Map<Seq<char>, Seq<ClaimView>> {
    held.map_values(|claims: Vec<Claim>| claim_views(claims@))
}

impl View for Claims {
    type V = Map<Seq<char>, Seq<ClaimView>>;

    closed spec fn view(&self) -> Map<Seq<char>, Seq<ClaimView>> {
        registry_view(self.claims@)
    }
}

impl Claims {
    /// A registry without entries.
    pub fn new() -> (res: Self)
        ensures
            res@ == Map::<Seq<char>, Seq<ClaimView>>::empty(),
            res.order() == Seq::<Seq<char>>::empty(),
    {
        let res = Claims { claims: StringMap::new() };
        assert(res@ =~= Map::<Seq<char>, Seq<ClaimView>>::empty());
        res
    }

    /// Records `claims` as the whole claim set of `id`, in place of what `id`
    /// held before.
    pub fn insert(&mut self, id: String, claims: Vec<Claim>)
        ensures
            final(self)@ == old(self)@.insert(id@, claim_views(claims@)),
            final(self).order() == if old(self)@.contains_key(id@) {
                old(self).order()
            } else {
                old(self).order().push(id@)
            },
            old(self).order().no_duplicates(),
            old(self)@.dom() == old(self).order().to_set(),
    {
        proof {
            use_type_invariant(&self.claims);
            self.claims.lemma_entries();
            assert(self@.dom() =~= self.claims@.dom());
        }
        let ghost held = self.claims@;
        let _ = self.claims.insert(id, claims);
        assert(registry_view(held.insert(id@, claims)) =~= registry_view(held).insert(
            id@,
            claim_views(claims@),
        ));
    }

    /// Forgets whatever `id` held.
    pub fn remove(&mut self, id: &str)
        ensures
            final(self)@ == old(self)@.remove(id@),
            final(self).order() == if old(self)@.contains_key(id@) {
                old(self).order().remove(old(self).order().index_of(id@))
            } else {
                old(self).order()
            },
            old(self).order().no_duplicates(),
            old(self)@.dom() == old(self).order().to_set(),
    {
        proof {
            use_type_invariant(&self.claims);
            self.claims.lemma_entries();
            assert(self@.dom() =~= self.claims@.dom());
        }
        let ghost held = self.claims@;
        let _ = self.claims.remove(id);
        assert(registry_view(held.remove(id@)) =~= registry_view(held).remove(id@));
    }

    /// The number of simulations that hold claims.
    pub fn len(&self) -> (res: usize)
        ensures
            res == self@.len(),
            res == self.order().len(),
            self@.dom().finite(),
    {
        assert(self@.dom() =~= self.claims@.dom());
        self.claims.len()
    }

    /// Whether no simulation holds a claim.
    pub fn is_empty(&self) -> (res: bool)
        ensures
            res == (self@ == Map::<Seq<char>, Seq<ClaimView>>::empty()),
    {
        let res = self.claims.is_empty();
        proof {
            if res {
                assert(self@ =~= Map::<Seq<char>, Seq<ClaimView>>::empty());
            } else {
                use_type_invariant(&self.claims);
                self.claims.lemma_entries();
                assert(self@.contains_key(self.claims.keys()[0]));
            }
        }
        res
    }

    /// The claims that `id` holds.
    pub fn get(&self, id: &str) -> (res: Option<&Vec<Claim>>)
        ensures
            match res {
                Some(claims) => self@.contains_key(id@) && self@[id@] == claim_views(claims@),
                None => !self@.contains_key(id@),
            },
    {
        self.claims.get(id)
    }

    /// The ids of the simulations that hold claims, in the order in which
    /// they first arrived.
    pub closed spec fn order(&self) -> Seq<Seq<char>> {
        self.claims.keys()
    }

    /// The simulation at position `i` of the order, with its claims.
    pub fn entry(&self, i: usize) -> (res: Option<(&String, &Vec<Claim>)>)
        ensures
            self.order().no_duplicates(),
            self@.dom() == self.order().to_set(),
            match res {
                Some((id, claims)) => i < self.order().len() && id@ == self.order()[i as int]
                    && self@.contains_key(id@) && self@[id@] == claim_views(claims@),
                None => i >= self.order().len(),
            },
    {
        proof {
            use_type_invariant(&self.claims);
            self.claims.lemma_entries();
            assert(self@.dom() =~= self.claims@.dom());
        }
        self.claims.entry(i)
    }

    /// The ids of the simulations that hold claims, each once.
    pub fn ids(&self) -> (res: Vec<String>)
        ensures
            res@.len() == self@.len(),
            res@.len() == self.order().len(),
            forall|i: int| 0 <= i < res@.len() ==> (#[trigger] res@[i])@ == self.order()[i],
            forall|i: int| 0 <= i < res@.len() ==> self@.contains_key(#[trigger] res@[i]@),
            forall|id: Seq<char>|
                self@.contains_key(id) ==> exists|i: int|
                    0 <= i < res@.len() && #[trigger] res@[i]@ == id,
            forall|i: int, j: int| 0 <= i < j < res@.len() ==> res@[i]@ != res@[j]@,
    {
        let n = self.claims.len();
        proof {
            use_type_invariant(&self.claims);
            self.claims.lemma_entries();
            assert(self@.dom() =~= self.claims@.dom());
        }
        let mut res: Vec<String> = Vec::new();
        let mut i: usize = 0;
        while i < n
            invariant
                i <= n,
                n == self.claims.keys().len(),
                res@.len() == i,
                forall|k: int| 0 <= k < i ==> (#[trigger] res@[k])@ == self.claims.keys()[k],
            decreases n - i,
        {
            match self.claims.entry(i) {
                Some((id, _)) => {
                    res.push(id.clone());
                },
                None => {},
            }
            i += 1;
        }
        proof {
            assert forall|id: Seq<char>| self@.contains_key(id) implies exists|k: int|
                0 <= k < res@.len() && #[trigger] res@[k]@ == id by {
                let k = self.claims.keys().index_of(id);
                assert(res@[k]@ == id);
            }
        }
        res
    }

    /// Whether a simulation other than `exclude` holds a claim that overlaps
    /// `check_claim`.
    #[verifier::loop_isolation(false)]
    pub fn contains(&self, check_claim: &Claim, exclude: Option<&str>) -> (res: bool)
        ensures
            res == claimed_by_other(self@, check_claim@, opt_str_view(exclude)),
    {
        let n = self.claims.len();
        proof {
            use_type_invariant(&self.claims);
            self.claims.lemma_entries();
        }
        let ghost keys = self.claims.keys();
        let ghost values = self.claims.values();
        let ghost excluded = opt_str_view(exclude);
        let mut i: usize = 0;
        while i < n
            invariant
                i <= n,
                forall|k: int|
                    0 <= k < i && excluded != Some(keys[k]) ==> !any_overlaps(
                        claim_views(#[trigger] values[k]@),
                        check_claim@,
                    ),
            decreases n - i,
        {
            if let Some((id, claims)) = self.claims.entry(i) {
                let skip = match exclude {
                    Some(exclude) => *exclude == *id.as_str(),
                    None => false,
                };
                if !skip {
                    let mut j: usize = 0;
                    while j < claims.len()
                        invariant
                            j <= claims.len(),
                            forall|k: int|
                                0 <= k < j ==> !overlaps(#[trigger] claims@[k]@, check_claim@),
                        decreases claims.len() - j,
                    {
                        if claims[j].overlap(check_claim) {
                            proof {
                                assert(claim_views(claims@)[j as int] == claims@[j as int]@);
                                assert(any_overlaps(self@[id@], check_claim@));
                                assert(self@.contains_key(id@));
                            }
                            return true;
                        }
                        j += 1;
                    }
                    proof {
                        assert forall|k: int| 0 <= k < claims@.len() implies !overlaps(
                            #[trigger] claim_views(claims@)[k],
                            check_claim@,
                        ) by {
                            assert(claim_views(claims@)[k] == claims@[k]@);
                        }
                    }
                }
            }
            i += 1;
        }
        proof {
            if claimed_by_other(self@, check_claim@, excluded) {
                let id = choose|id: Seq<char>|
                    #[trigger] self@.contains_key(id) && excluded != Some(id) && any_overlaps(
                        self@[id],
                        check_claim@,
                    );
                let k = keys.index_of(id);
                assert(keys[k] == id);
                assert(self.claims@[id] == values[k]);
            }
        }
        false
    }

    /// Whether a simulation other than `exclude` holds a claim that overlaps
    /// one of `check_claims`.
    pub fn is_claimed_any(&self, check_claims: Vec<Claim>, exclude: Option<&str>) -> (res: bool)
        ensures
            res == any_claimed_by_other(self@, claim_views(check_claims@), opt_str_view(exclude)),
    {
        let mut j: usize = 0;
        while j < check_claims.len()
            invariant
                j <= check_claims.len(),
                forall|k: int|
                    0 <= k < j ==> !claimed_by_other(
                        self@,
                        #[trigger] claim_views(check_claims@)[k],
                        opt_str_view(exclude),
                    ),
            decreases check_claims.len() - j,
        {
            if self.contains(&check_claims[j], exclude) {
                assert(claim_views(check_claims@)[j as int] == check_claims@[j as int]@);
                return true;
            }
            assert(claim_views(check_claims@)[j as int] == check_claims@[j as int]@);
            j += 1;
        }
        false
    }
}

impl Clone for Claims {
    fn clone(&self) -> (res: Self)
        ensures
            res@ == self@,
            res.order() == self.order(),
    {
        let claims = self.claims.clone();
        proof {
            use_type_invariant(&self.claims);
            use_type_invariant(&claims);
            self.claims.lemma_entries();
            claims.lemma_entries();
            let keys = self.claims.keys();
            assert forall|i: int| 0 <= i < keys.len() implies claim_views(
                #[trigger] claims.values()[i]@,
            ) == claim_views(self.claims.values()[i]@) by {
                let a = self.claims.values()[i];
                let b = claims.values()[i];
                assert(cloned::<Vec<Claim>>(a, b));
                assert(a@.len() == b@.len());
                assert forall|j: int| 0 <= j < a@.len() implies a@[j]@ == b@[j]@ by {
                    assert(cloned::<Claim>(a@[j], b@[j]));
                }
                assert(claim_views(a@) =~= claim_views(b@));
            }
            assert forall|key: Seq<char>| #[trigger] self@.contains_key(key) implies registry_view(
                claims@,
            )[key] == self@[key] by {
                let i = keys.index_of(key);
                assert(keys[i] == key);
            }
            assert(registry_view(claims@) =~= self@);
        }
        Claims { claims }
    }
}

impl Default for Claims {
    fn default() -> (res: Self)
        ensures
            res@ == Map::<Seq<char>, Seq<ClaimView>>::empty(),
    {
        Claims::new()
    }
}

/// A simulation's own entry never counts against it: asking with `exclude`
/// set to `id` gives the same answer whatever `id` itself holds.
pub proof fn lemma_own_claims_excluded(
    registry: Map<Seq<char>, Seq<ClaimView>>,
    id: Seq<char>,
    claims: Seq<ClaimView>,
    check: Seq<ClaimView>,
)
    ensures
        any_claimed_by_other(registry.insert(id, claims), check, Some(id)) == any_claimed_by_other(
            registry.remove(id),
            check,
            Some(id),
        ),
{
    let with = registry.insert(id, claims);
    let without = registry.remove(id);
    assert forall|c: ClaimView|
        claimed_by_other(with, c, Some(id)) == claimed_by_other(without, c, Some(id)) by {
        if claimed_by_other(with, c, Some(id)) {
            let other = choose|other: Seq<char>|
                #[trigger] with.contains_key(other) && Some(id) != Some(other) && any_overlaps(
                    with[other],
                    c,
                );
            assert(without.contains_key(other));
        }
        if claimed_by_other(without, c, Some(id)) {
            let other = choose|other: Seq<char>|
                #[trigger] without.contains_key(other) && Some(id) != Some(other) && any_overlaps(
                    without[other],
                    c,
                );
            assert(with.contains_key(other));
        }
    }
    if any_claimed_by_other(with, check, Some(id)) {
        let j = choose|j: int|
            0 <= j < check.len() && claimed_by_other(with, #[trigger] check[j], Some(id));
        assert(claimed_by_other(without, check[j], Some(id)));
    }
    if any_claimed_by_other(without, check, Some(id)) {
        let j = choose|j: int|
            0 <= j < check.len() && claimed_by_other(without, #[trigger] check[j], Some(id));
        assert(claimed_by_other(with, check[j], Some(id)));
    }
}

/// Right after a simulation's claims are recorded, checking those claims with
/// the simulation itself excluded finds nothing, as long as no other
/// simulation holds a claim that overlaps one of them.
pub proof fn lemma_self_exclusion(
    registry: Map<Seq<char>, Seq<ClaimView>>,
    id: Seq<char>,
    claims: Seq<ClaimView>,
)
    requires
        !any_claimed_by_other(registry, claims, Some(id)),
    ensures
        !any_claimed_by_other(registry.insert(id, claims), claims, Some(id)),
{
    lemma_own_claims_excluded(registry, id, claims, claims);
    let without = registry.remove(id);
    if any_claimed_by_other(without, claims, Some(id)) {
        let j = choose|j: int|
            0 <= j < claims.len() && claimed_by_other(without, #[trigger] claims[j], Some(id));
        let other = choose|other: Seq<char>|
            #[trigger] without.contains_key(other) && Some(id) != Some(other) && any_overlaps(
                without[other],
                claims[j],
            );
        assert(registry.contains_key(other));
        assert(claimed_by_other(registry, claims[j], Some(id)));
    }
}

/// A registry that holds nothing but `id`'s own claims never reports them as
/// taken when `id` is excluded.
pub proof fn lemma_sole_holder_unclaimed(id: Seq<char>, claims: Seq<ClaimView>, check: Seq<ClaimView>)
    ensures
        !any_claimed_by_other(
            Map::<Seq<char>, Seq<ClaimView>>::empty().insert(id, claims),
            check,
            Some(id),
        ),
{
}

/// Without an exclusion, a claim that overlaps a recorded one is reported.
pub proof fn lemma_recorded_claims_found(
    registry: Map<Seq<char>, Seq<ClaimView>>,
    id: Seq<char>,
    i: int,
    check: Seq<ClaimView>,
    j: int,
)
    requires
        registry.contains_key(id),
        0 <= i < registry[id].len(),
        0 <= j < check.len(),
        overlaps(registry[id][i], check[j]),
    ensures
        any_claimed_by_other(registry, check, None),
{
    assert(any_overlaps(registry[id], check[j]));
    assert(claimed_by_other(registry, check[j], None));
}

} // verus!
