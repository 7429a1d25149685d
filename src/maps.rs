use crate::display_args::{DisplayArgs, NewDisplayConfig};
use vstd::prelude::*;

verus! {

#[verifier::external_type_specification]
#[verifier::external_body]
#[verifier::reject_recursive_types(K)]
#[verifier::reject_recursive_types(V)]
#[verifier::reject_recursive_types(S)]
pub struct ExAHashMap<K, V, S>(ahash::AHashMap<K, V, S>);

#[verifier::external_type_specification]
#[verifier::external_body]
pub struct ExRandomState(ahash::RandomState);

/// A map from display index to the settings requested for that display.
pub type SettingsMap = ahash::AHashMap<u32, NewDisplayConfig>;

/// The requests that a map of display settings holds: the refresh rate asked
/// for each display index.
pub uninterp spec fn settings_of(m: SettingsMap) -> Map<u32, u32>;

/// Relies on `ahash::AHashMap::new`: the new map is empty. It panics only
/// where the operating system's random source fails, whatever the caller does.
#[verifier::external_body]
pub(crate) fn new_settings() -> (r: SettingsMap)
    ensures
        settings_of(r).dom() == Set::<u32>::empty(),
{
    ahash::AHashMap::new()
}

/// Relies on `contains_key` of the `HashMap` inside `ahash::AHashMap`: it
/// tells whether the key is present.
#[verifier::external_body]
pub(crate) fn settings_contains(m: &SettingsMap, k: u32) -> (r: bool)
    ensures
        r == settings_of(*m).contains_key(k),
{
    m.contains_key(&k)
}

/// Relies on `ahash::AHashMap::insert`: afterwards the key maps to the value.
#[verifier::external_body]
pub(crate) fn settings_insert(
    m: &mut SettingsMap,
    k: u32,
    v: NewDisplayConfig,
)
    ensures
        settings_of(*final(m)) == settings_of(*old(m)).insert(k, v.refresh_rate),
{
    m.insert(k, v);
}

/// Relies on `iter` of the `HashMap` inside `ahash::AHashMap`: it visits every
/// entry once, in an order that the hasher's random keys decide.
#[verifier::external_body]
pub(crate) fn settings_entries(m: &SettingsMap) -> (r: Vec<DisplayArgs>)
    ensures
        r@.len() == settings_of(*m).len(),
        forall|i: int|
            0 <= i < r@.len() ==> settings_of(*m).contains_key(#[trigger] r@[i].0)
                && settings_of(*m)[r@[i].0] == r@[i].1.refresh_rate,
        forall|k: u32| #[trigger]
            settings_of(*m).contains_key(k) ==> exists|i: int| 0 <= i < r@.len() && r@[i].0 == k,
        forall|i: int, j: int| 0 <= i < j < r@.len() ==> r@[i].0 != r@[j].0,
{
    m.iter().map(|(k, v)| DisplayArgs(*k, *v)).collect()
}

/// A map from display index to the name under which the backend knows that
/// display.
pub type RosterMap = ahash::AHashMap<u32, String>;

/// The devices that a roster map holds: the name of each display index.
pub uninterp spec fn roster_of(m: RosterMap) -> Map<u32, Seq<char>>;

/// Relies on `ahash::AHashMap::new`: the new map is empty. It panics only
/// where the operating system's random source fails, whatever the caller does.
#[verifier::external_body]
pub(crate) fn new_roster() -> (r: RosterMap)
    ensures
        roster_of(r).dom() == Set::<u32>::empty(),
{
    ahash::AHashMap::new()
}

/// Relies on `ahash::AHashMap::insert`: afterwards the key maps to the value.
#[verifier::external_body]
pub(crate) fn roster_insert(m: &mut RosterMap, k: u32, v: String)
    ensures
        roster_of(*final(m)) == roster_of(*old(m)).insert(k, v@),
{
    m.insert(k, v);
}

/// Relies on `ahash::AHashMap::get`: the value of the key, if present.
#[verifier::external_body]
pub(crate) fn roster_get(m: &RosterMap, k: u32) -> (r: Option<String>)
    ensures
        r is Some <==> roster_of(*m).contains_key(k),
        r matches Some(name) ==> name@ == roster_of(*m)[k],
{
    m.get(&k).cloned()
}

} // verus!
