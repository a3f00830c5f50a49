//! The table of claims: for every claim that a simulation holds, the
//! simulations that touch its scope.

use crate::claims::{claim_views, Claim, ClaimView, Claims};
use crate::text::{opt_string_view, string_views};
use multimap::MultiMap;
use vstd::prelude::*;

verus! {

/// One line of the table: a scope, and the simulations that touch it.
#[derive(Debug, PartialEq, Eq)]
pub struct Entry {
    pub channel: String,
    pub feature: Option<String>,
    pub property: Option<String>,
    pub simulators: Vec<String>,
}

/// The mathematical value of an [`Entry`].
pub struct EntryView {
    pub channel: Seq<char>,
    pub feature: Option<Seq<char>>,
    pub property: Option<Seq<char>>,
    pub simulators: Seq<Seq<char>>,
}

impl View for Entry {
    type V = EntryView;

    open spec fn view(&self) -> EntryView {
        EntryView {
            channel: self.channel@,
            feature: match self.feature {
                Some(feature) => Some(feature@),
                None => None,
            },
            property: match self.property {
                Some(property) => Some(property@),
                None => None,
            },
            simulators: string_views(self.simulators@),
        }
    }
}

/// The values of a list of entries, in order.
pub open spec fn entry_views(entries: Seq<Entry>) -> Seq<EntryView> {
    Seq::new(entries.len(), |i: int| entries[i]@)
}

/// Whether `claim` touches `scope`: a claim touches itself and every scope
/// that contains it.
pub open spec fn touches(claim: ClaimView, scope: ClaimView) -> bool {
    match scope {
        ClaimView::Channel { channel } => claim.channel() == channel,
        ClaimView::Feature { channel, feature } => claim.channel() == channel && claim.feature()
            == Some(feature),
        ClaimView::Property { .. } => claim == scope,
    }
}

/// Every claim of every simulation, with the id of the simulation: the
/// simulations in the order `order`, each with its claims in their order.
pub open spec fn holdings(order: Seq<Seq<char>>, registry: Map<Seq<char>, Seq<ClaimView>>) -> Seq<
    (Seq<char>, ClaimView),
>
    decreases order.len(),
{
    if order.len() == 0 {
        Seq::empty()
    } else {
        holdings(order.drop_last(), registry) + held_by(order.last(), registry[order.last()])
    }
}

/// The claims `claims`, each with the id `id`.
pub open spec fn held_by(id: Seq<char>, claims: Seq<ClaimView>) -> Seq<(Seq<char>, ClaimView)> {
    Seq::new(claims.len(), |i: int| (id, claims[i]))
}

/// The ids of those of `holdings` whose claim touches `scope`, in order: a
/// simulation is named once for each of its claims that does.
pub open spec fn touching(holdings: Seq<(Seq<char>, ClaimView)>, scope: ClaimView) -> Seq<Seq<char>>
    decreases holdings.len(),
{
    if holdings.len() == 0 {
        Seq::empty()
    } else if touches(holdings.last().1, scope) {
        touching(holdings.drop_last(), scope).push(holdings.last().0)
    } else {
        touching(holdings.drop_last(), scope)
    }
}

/// The line of the table for the scope `claim`.
pub open spec fn entry_for(holdings: Seq<(Seq<char>, ClaimView)>, claim: ClaimView) -> EntryView {
    EntryView {
        channel: claim.channel(),
        feature: claim.feature(),
        property: claim.property(),
        simulators: touching(holdings, claim),
    }
}

/// The lines of the table for `holdings` that belong to `listed`, in order.
pub open spec fn table_of(
    holdings: Seq<(Seq<char>, ClaimView)>,
    listed: Seq<(Seq<char>, ClaimView)>,
) -> Seq<EntryView> {
    Seq::new(listed.len(), |i: int| entry_for(holdings, listed[i].1))
}

/// The table for `holdings`: one line for each of them, in order.
pub open spec fn table(holdings: Seq<(Seq<char>, ClaimView)>) -> Seq<EntryView> {
    table_of(holdings, holdings)
}

/// `multimap::MultiMap`: nothing of what is inside it is known but through
/// the functions below.
#[verifier::external_type_specification]
#[verifier::external_body]
#[verifier::reject_recursive_types(K)]
#[verifier::reject_recursive_types(V)]
#[verifier::reject_recursive_types(S)]
pub struct ExMultiMap<K, V, S>(multimap::MultiMap<K, V, S>);

/// A scope as the multimap keys it: the channel, the feature where the scope
/// names one, and the property where it names one.
pub type Scope = (String, Option<String>, Option<String>);

/// The mathematical value of a [`Scope`].
pub type ScopeView = (Seq<char>, Option<Seq<char>>, Option<Seq<char>>);

/// The value of a key.
pub open spec fn scope_view(scope: Scope) -> ScopeView {
    (scope.0@, opt_string_view(scope.1), opt_string_view(scope.2))
}

/// The key of the scope `claim`.
pub open spec fn scope_of(claim: ClaimView) -> ScopeView {
    (claim.channel(), claim.feature(), claim.property())
}

/// A multimap from scopes to the ids of the simulations that touch them.
pub type Touched = MultiMap<Scope, String>;

/// What a multimap from scopes to ids holds: for each scope that has ids,
/// its ids in the order in which they were put in.
pub uninterp spec fn touched(map: Touched) -> Map<ScopeView, Seq<Seq<char>>>;

/// What a multimap holds that holds nothing.
pub open spec fn nothing_touched() -> Map<ScopeView, Seq<Seq<char>>> {
    Map::empty()
}

/// The ids that `touched` holds for `scope`, or none.
pub open spec fn listed(touched: Map<ScopeView, Seq<Seq<char>>>, scope: ScopeView) -> Seq<Seq<char>> {
    if touched.contains_key(scope) {
        touched[scope]
    } else {
        Seq::empty()
    }
}

/// `MultiMap::new`: a multimap that holds nothing.
#[verifier::external_body]
fn new_map() -> (res: Touched)
    ensures
        touched(res) == nothing_touched(),
{
    MultiMap::new()
}

/// `MultiMap::insert`: the id goes behind the ids that the scope has, and a
/// scope without ids gets a list of its own. Two keys are the same scope
/// when their strings are the same.
#[verifier::external_body]
fn insert(map: &mut Touched, scope: Scope, id: String)
    ensures
        touched(*final(map)) == touched(*old(map)).insert(
            scope_view(scope),
            listed(touched(*old(map)), scope_view(scope)).push(id@),
        ),
{
    map.insert(scope, id)
}

/// `MultiMap::get_vec`: the ids of the scope, if it has any.
#[verifier::external_body]
fn get_vec<'a>(map: &'a Touched, scope: &Scope) -> (res: Option<&'a Vec<String>>)
    ensures
        match res {
            Some(ids) => touched(*map).contains_key(scope_view(*scope)) && touched(
                *map,
            )[scope_view(*scope)] == string_views(ids@),
            None => !touched(*map).contains_key(scope_view(*scope)),
        },
{
    map.get_vec(scope)
}

/// The key of the scope `claim`.
fn scope(claim: &Claim) -> (res: Scope)
    ensures
        scope_view(res) == scope_of(claim@),
{
    match claim {
        Claim::Channel { channel } => (channel.clone(), None, None),
        Claim::Feature { channel, feature } => (channel.clone(), Some(feature.clone()), None),
        Claim::Property { channel, feature, property } => (
            channel.clone(),
            Some(feature.clone()),
            Some(property.clone()),
        ),
    }
}

/// Two scopes with the same key are the same scope.
proof fn lemma_scope_of_tells_apart(a: ClaimView, b: ClaimView)
    ensures
        scope_of(a) == scope_of(b) ==> a == b,
{
}

/// Whether `touched` holds for every scope the ids of the holdings that
/// touch it.
spec fn records(touched: Map<ScopeView, Seq<Seq<char>>>, holdings: Seq<(Seq<char>, ClaimView)>) -> bool {
    forall|scope: ClaimView| #[trigger]
        listed(touched, scope_of(scope)) == touching(holdings, scope)
}

/// Puts the id `id` under every scope that `claim` touches.
fn touch(map: &mut Touched, id: &String, claim: &Claim, Ghost(done): Ghost<
    Seq<(Seq<char>, ClaimView)>,
>)
    requires
        records(touched(*old(map)), done),
    ensures
        records(touched(*final(map)), done.push((id@, claim@))),
{
    let ghost before = touched(*map);
    let ghost more = done.push((id@, claim@));
    assert(more.drop_last() =~= done);
    match claim {
        Claim::Channel { channel } => {
            insert(map, (channel.clone(), None, None), id.clone());
        },
        Claim::Feature { channel, feature } => {
            insert(map, (channel.clone(), None, None), id.clone());
            insert(map, (channel.clone(), Some(feature.clone()), None), id.clone());
        },
        Claim::Property { channel, feature, property } => {
            insert(map, (channel.clone(), None, None), id.clone());
            insert(map, (channel.clone(), Some(feature.clone()), None), id.clone());
            insert(
                map,
                (channel.clone(), Some(feature.clone()), Some(property.clone())),
                id.clone(),
            );
        },
    }
    assert forall|scope: ClaimView| #[trigger]
        listed(touched(*map), scope_of(scope)) == touching(more, scope) by {
        assert(listed(before, scope_of(scope)) == touching(done, scope));
        let channel = ClaimView::Channel { channel: claim@.channel() };
        lemma_scope_of_tells_apart(scope, channel);
        if claim@.feature() is Some {
            lemma_scope_of_tells_apart(
                scope,
                ClaimView::Feature {
                    channel: claim@.channel(),
                    feature: claim@.feature().unwrap(),
                },
            );
        }
        lemma_scope_of_tells_apart(scope, claim@);
    }
}

/// The table of claims of the registry `claims`: one line for every claim of
/// every simulation, with the simulations that touch the scope of the
/// claim.
pub fn make_entries(claims: &Claims) -> (res: Vec<Entry>)
    ensures
        entry_views(res@) == table(holdings(claims.order(), claims@)),
{
    let ghost order = claims.order();
    let ghost registry = claims@;
    let ghost all = holdings(order, registry);

    // step one, record what gets used/touched
    let n = claims.len();
    let mut touch_map = new_map();
    let mut i: usize = 0;
    while i < n
        invariant
            i <= n,
            n == order.len(),
            order == claims.order(),
            registry == claims@,
            records(touched(touch_map), holdings(order.take(i as int), registry)),
        decreases n - i,
    {
        if let Some((id, held)) = claims.entry(i) {
            let ghost done = holdings(order.take(i as int), registry);
            assert(order.take(i + 1).drop_last() =~= order.take(i as int));
            let mut j: usize = 0;
            while j < held.len()
                invariant
                    j <= held.len(),
                    registry.contains_key(id@),
                    registry[id@] == claim_views(held@),
                    records(touched(touch_map), done + held_by(id@, registry[id@].take(j as int))),
                decreases held.len() - j,
            {
                let ghost part = done + held_by(id@, registry[id@].take(j as int));
                touch(&mut touch_map, id, &held[j], Ghost(part));
                assert(part.push((id@, held@[j as int]@)) =~= done + held_by(
                    id@,
                    registry[id@].take(j + 1),
                ));
                j += 1;
            }
            assert(registry[id@].take(held@.len() as int) =~= registry[id@]);
        }
        i += 1;
    }
    assert(order.take(n as int) =~= order);

    // step two, list for every claim what touches its scope
    let mut result: Vec<Entry> = Vec::new();
    let mut i: usize = 0;
    while i < n
        invariant
            i <= n,
            n == order.len(),
            order == claims.order(),
            registry == claims@,
            all == holdings(order, registry),
            records(touched(touch_map), all),
            entry_views(result@) == table_of(all, holdings(order.take(i as int), registry)),
        decreases n - i,
    {
        if let Some((id, held)) = claims.entry(i) {
            let ghost done = holdings(order.take(i as int), registry);
            assert(order.take(i + 1).drop_last() =~= order.take(i as int));
            let mut j: usize = 0;
            while j < held.len()
                invariant
                    j <= held.len(),
                    registry.contains_key(id@),
                    registry[id@] == claim_views(held@),
                    records(touched(touch_map), all),
                    entry_views(result@) == table_of(
                        all,
                        done + held_by(id@, registry[id@].take(j as int)),
                    ),
                decreases held.len() - j,
            {
                let ghost part = done + held_by(id@, registry[id@].take(j as int));
                let ghost listed_before = entry_views(result@);
                let claim = &held[j];
                assert(listed(touched(touch_map), scope_of(claim@)) == touching(all, claim@));
                let key = scope(claim);
                let simulators = match get_vec(&touch_map, &key) {
                    Some(ids) => clone_strings(ids),
                    None => Vec::new(),
                };
                assert(string_views(simulators@) =~= touching(all, claim@));
                let entry = match claim {
                    Claim::Channel { channel } => Entry {
                        channel: channel.clone(),
                        feature: None,
                        property: None,
                        simulators,
                    },
                    Claim::Feature { channel, feature } => Entry {
                        channel: channel.clone(),
                        feature: Some(feature.clone()),
                        property: None,
                        simulators,
                    },
                    Claim::Property { channel, feature, property } => Entry {
                        channel: channel.clone(),
                        feature: Some(feature.clone()),
                        property: Some(property.clone()),
                        simulators,
                    },
                };
                assert(entry@ == entry_for(all, claim@));
                result.push(entry);
                proof {
                    let more = done + held_by(id@, registry[id@].take(j + 1));
                    assert(more =~= part.push((id@, claim@)));
                    assert(entry_views(result@) =~= listed_before.push(entry_for(all, claim@)));
                    assert(table_of(all, more) =~= table_of(all, part).push(
                        entry_for(all, claim@),
                    ));
                }
                j += 1;
            }
            assert(registry[id@].take(held@.len() as int) =~= registry[id@]);
        }
        i += 1;
    }
    assert(order.take(n as int) =~= order);
    result
}

/// Copies of `strings`, in order.
fn clone_strings(strings: &Vec<String>) -> (res: Vec<String>)
    ensures
        string_views(res@) == string_views(strings@),
{
    let mut res: Vec<String> = Vec::new();
    let mut i: usize = 0;
    while i < strings.len()
        invariant
            i <= strings.len(),
            res@.len() == i,
            forall|k: int| 0 <= k < i ==> (#[trigger] res@[k])@ == strings@[k]@,
        decreases strings.len() - i,
    {
        res.push(strings[i].clone());
        i += 1;
    }
    assert(string_views(res@) =~= string_views(strings@));
    res
}

} // verus!
