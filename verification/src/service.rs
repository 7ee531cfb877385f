//! The model-configuration service's provider and credential state: which
//! providers are registered, which are enabled, which have a credential
//! reference in the database, and the secrets the credential store holds.
//! The database rows and the store's entries are written elsewhere, after
//! these decisions.

use vstd::prelude::*;
use crate::credentials::{credential_id, credential_status, ref_names, CredentialStatus};
use crate::text::str_eq;
use dashmap::DashSet;

verus! {

/// `dashmap::DashSet`, the concurrent set that holds the enabled providers.
#[verifier::external_type_specification]
#[verifier::external_body]
#[verifier::reject_recursive_types(K)]
#[verifier::reject_recursive_types(S)]
pub struct ExDashSet<K, S>(DashSet<K, S>);

/// The texts a set of strings holds.
pub uninterp spec fn dash_set_contents(s: DashSet<String>) -> Set<Seq<char>>;

/// `DashSet::new`: a set that holds nothing.
#[verifier::external_body]
fn dash_set_new() -> (s: DashSet<String>)
    ensures
        dash_set_contents(s) == Set::<Seq<char>>::empty(),
{
    DashSet::new()
}

/// `DashSet::insert` (which takes `&self`; the set is changed in place):
/// the set then holds `key` as well.
#[verifier::external_body]
fn dash_set_insert(s: &mut DashSet<String>, key: &str)
    ensures
        dash_set_contents(*final(s)) == dash_set_contents(*old(s)).insert(key@),
{
    s.insert(key.to_string());
}

/// `DashSet::remove` (which takes `&self`; the set is changed in place):
/// the set then no longer holds `key`.
#[verifier::external_body]
fn dash_set_remove(s: &mut DashSet<String>, key: &str)
    ensures
        dash_set_contents(*final(s)) == dash_set_contents(*old(s)).remove(key@),
{
    s.remove(key);
}

/// `DashSet::contains`: whether the set holds `key`.
#[verifier::external_body]
fn dash_set_contains(s: &DashSet<String>, key: &str) -> (r: bool)
    ensures
        r == dash_set_contents(*s).contains(key@),
{
    s.contains(key)
}

/// The texts held by a list of strings, as a set.
pub open spec fn name_set(v: Seq<String>) -> Set<Seq<char>> {
    Set::new(|x: Seq<char>| exists|i: int| 0 <= i < v.len() && v[i]@ == x)
}

fn contains_name(v: &Vec<String>, s: &str) -> (r: bool)
    ensures
        r == name_set(v@).contains(s@),
{
    let mut i: usize = 0;
    while i < v.len()
        invariant
            i <= v.len(),
            forall|j: int| 0 <= j < i ==> v@[j]@ != s@,
        decreases v.len() - i,
    {
        if str_eq(v[i].as_str(), s) {
            assert(name_set(v@).contains(s@));
            return true;
        }
        i = i + 1;
    }
    false
}

fn insert_name(v: &mut Vec<String>, s: &str)
    ensures
        name_set(final(v)@) == name_set(old(v)@).insert(s@),
{
    if !contains_name(v, s) {
        v.push(String::from_str(s));
        assert forall|x: Seq<char>| name_set(v@).contains(x) <==> name_set(old(v)@).insert(s@).contains(x) by {
            if name_set(old(v)@).contains(x) {
                let j = choose|j: int| 0 <= j < old(v)@.len() && old(v)@[j]@ == x;
                assert(v@[j] == old(v)@[j]);
            }
            if x == s@ {
                assert(v@[old(v)@.len() as int]@ == x);
            }
            if name_set(v@).contains(x) && x != s@ {
                let j = choose|j: int| 0 <= j < v@.len() && v@[j]@ == x;
                assert(j < old(v)@.len());
                assert(old(v)@[j]@ == x);
            }
        }
        assert(name_set(v@) =~= name_set(old(v)@).insert(s@));
    } else {
        assert(name_set(v@) =~= name_set(old(v)@).insert(s@));
    }
}

fn remove_name(v: &mut Vec<String>, s: &str)
    ensures
        name_set(final(v)@) == name_set(old(v)@).remove(s@),
{
    let mut kept: Vec<String> = Vec::new();
    let mut i: usize = 0;
    while i < v.len()
        invariant
            i <= v.len(),
            forall|j: int| 0 <= j < kept.len() ==> #[trigger] kept@[j]@ != s@
                && exists|m: int| 0 <= m < i && v@[m]@ == kept@[j]@,
            forall|m: int| 0 <= m < i && #[trigger] v@[m]@ != s@ ==> exists|j: int| 0 <= j < kept.len() && kept@[j]@ == v@[m]@,
        decreases v.len() - i,
    {
        if !str_eq(v[i].as_str(), s) {
            let ghost before = kept@;
            kept.push(v[i].clone());
            proof {
                assert forall|j: int| 0 <= j < kept.len() implies #[trigger] kept@[j]@ != s@
                    && exists|m: int| 0 <= m < i + 1 && v@[m]@ == kept@[j]@ by {
                    if j < before.len() {
                        assert(kept@[j] == before[j]);
                        let m = choose|m: int| 0 <= m < i && v@[m]@ == before[j]@;
                        assert(v@[m]@ == kept@[j]@);
                    } else {
                        assert(v@[i as int]@ == kept@[j]@);
                    }
                }
                assert forall|m: int| 0 <= m < i + 1 && #[trigger] v@[m]@ != s@ implies exists|j: int|
                    0 <= j < kept.len() && kept@[j]@ == v@[m]@ by {
                    if m < i {
                        let j = choose|j: int| 0 <= j < before.len() && before[j]@ == v@[m]@;
                        assert(kept@[j] == before[j]);
                    } else {
                        assert(kept@[before.len() as int]@ == v@[m]@);
                    }
                }
            }
        }
        i = i + 1;
    }
    proof {
        assert forall|x: Seq<char>| name_set(kept@).contains(x) <==> name_set(v@).remove(s@).contains(x) by {
            if name_set(kept@).contains(x) {
                let j = choose|j: int| 0 <= j < kept@.len() && kept@[j]@ == x;
                assert(kept@[j]@ != s@);
                let m = choose|m: int| 0 <= m < v@.len() && v@[m]@ == kept@[j]@;
                assert(name_set(v@).contains(x));
            }
            if name_set(v@).remove(s@).contains(x) {
                let m = choose|m: int| 0 <= m < v@.len() && v@[m]@ == x;
                assert(v@[m]@ != s@);
                let j = choose|j: int| 0 <= j < kept@.len() && kept@[j]@ == v@[m]@;
                assert(name_set(kept@).contains(x));
            }
        }
        assert(name_set(kept@) =~= name_set(v@).remove(s@));
    }
    *v = kept;
}

/// No two entries of the store share an id.
pub open spec fn keys_distinct(v: Seq<(String, String)>) -> bool {
    forall|i: int, j: int| 0 <= i < v.len() && 0 <= j < v.len() && #[trigger] v[i].0@ == #[trigger] v[j].0@ ==> i == j
}

/// The store's entries as a map from id to secret.
pub open spec fn secret_map(v: Seq<(String, String)>) -> Map<Seq<char>, Seq<char>> {
    Map::new(
        |k: Seq<char>| exists|i: int| 0 <= i < v.len() && v[i].0@ == k,
        |k: Seq<char>| v[choose|i: int| 0 <= i < v.len() && v[i].0@ == k].1@,
    )
}

proof fn lemma_secret_at(v: Seq<(String, String)>, i: int)
    requires
        keys_distinct(v),
        0 <= i < v.len(),
    ensures
        secret_map(v).dom().contains(v[i].0@),
        secret_map(v)[v[i].0@] == v[i].1@,
{
    let k = v[i].0@;
    assert(exists|j: int| 0 <= j < v.len() && v[j].0@ == k);
    let j = choose|j: int| 0 <= j < v.len() && v[j].0@ == k;
    assert(v[j].0@ == v[i].0@);
}

fn find_key(v: &Vec<(String, String)>, k: &str) -> (r: Option<usize>)
    ensures
        match r {
            Some(i) => i < v.len() && v@[i as int].0@ == k@,
            None => forall|j: int| 0 <= j < v.len() ==> v@[j].0@ != k@,
        },
{
    let mut i: usize = 0;
    while i < v.len()
        invariant
            i <= v.len(),
            forall|j: int| 0 <= j < i ==> v@[j].0@ != k@,
        decreases v.len() - i,
    {
        if str_eq(v[i].0.as_str(), k) {
            return Some(i);
        }
        i = i + 1;
    }
    None
}

fn get_secret(v: &Vec<(String, String)>, k: &str) -> (r: Option<String>)
    requires
        keys_distinct(v@),
    ensures
        match r {
            Some(s) => secret_map(v@).dom().contains(k@) && secret_map(v@)[k@] == s@,
            None => !secret_map(v@).dom().contains(k@),
        },
{
    match find_key(v, k) {
        Some(i) => {
            proof {
                lemma_secret_at(v@, i as int);
            }
            Some(v[i].1.clone())
        },
        None => None,
    }
}

fn put_secret(v: &mut Vec<(String, String)>, k: &str, val: &str)
    requires
        keys_distinct(old(v)@),
    ensures
        keys_distinct(final(v)@),
        secret_map(final(v)@) == secret_map(old(v)@).insert(k@, val@),
{
    let ghost old_v = v@;
    let entry = (String::from_str(k), String::from_str(val));
    match find_key(v, k) {
        Some(i) => {
            v.set(i, entry);
            proof {
                assert(v@ == old_v.update(i as int, v@[i as int]));
                assert forall|a: int, b: int| 0 <= a < v@.len() && 0 <= b < v@.len() && #[trigger] v@[a].0@
                    == #[trigger] v@[b].0@ implies a == b by {
                    assert(v@[a].0@ == old_v[a].0@);
                    assert(v@[b].0@ == old_v[b].0@);
                }
                let m = secret_map(old_v).insert(k@, val@);
                assert forall|x: Seq<char>| #[trigger] secret_map(v@).dom().contains(x) <==> m.dom().contains(x) by {
                    if secret_map(v@).dom().contains(x) {
                        let j = choose|j: int| 0 <= j < v@.len() && v@[j].0@ == x;
                        assert(old_v[j].0@ == x);
                    }
                    if secret_map(old_v).dom().contains(x) {
                        let j = choose|j: int| 0 <= j < old_v.len() && old_v[j].0@ == x;
                        assert(v@[j].0@ == x);
                    }
                    if x == k@ {
                        assert(v@[i as int].0@ == x);
                    }
                }
                assert forall|x: Seq<char>| #[trigger] secret_map(v@).dom().contains(x) implies secret_map(v@)[x]
                    == m[x] by {
                    let j = choose|j: int| 0 <= j < v@.len() && v@[j].0@ == x;
                    lemma_secret_at(v@, j);
                    if j != i {
                        lemma_secret_at(old_v, j);
                    }
                }
                assert(secret_map(v@) =~= m);
            }
        },
        None => {
            v.push(entry);
            proof {
                let n = old_v.len() as int;
                assert forall|a: int, b: int| 0 <= a < v@.len() && 0 <= b < v@.len() && #[trigger] v@[a].0@
                    == #[trigger] v@[b].0@ implies a == b by {
                    if a < n && b < n {
                        assert(v@[a] == old_v[a]);
                        assert(v@[b] == old_v[b]);
                    } else if a < n {
                        assert(v@[a] == old_v[a]);
                    } else if b < n {
                        assert(v@[b] == old_v[b]);
                    }
                }
                let m = secret_map(old_v).insert(k@, val@);
                assert forall|x: Seq<char>| #[trigger] secret_map(v@).dom().contains(x) <==> m.dom().contains(x) by {
                    if secret_map(v@).dom().contains(x) {
                        let j = choose|j: int| 0 <= j < v@.len() && v@[j].0@ == x;
                        if j < n {
                            assert(v@[j] == old_v[j]);
                        }
                    }
                    if secret_map(old_v).dom().contains(x) {
                        let j = choose|j: int| 0 <= j < old_v.len() && old_v[j].0@ == x;
                        assert(v@[j] == old_v[j]);
                    }
                    if x == k@ {
                        assert(v@[n].0@ == x);
                    }
                }
                assert forall|x: Seq<char>| #[trigger] secret_map(v@).dom().contains(x) implies secret_map(v@)[x]
                    == m[x] by {
                    let j = choose|j: int| 0 <= j < v@.len() && v@[j].0@ == x;
                    lemma_secret_at(v@, j);
                    if j < n {
                        assert(v@[j] == old_v[j]);
                        lemma_secret_at(old_v, j);
                    }
                }
                assert(secret_map(v@) =~= m);
            }
        },
    }
}

fn drop_secret(v: &mut Vec<(String, String)>, k: &str)
    requires
        keys_distinct(old(v)@),
    ensures
        keys_distinct(final(v)@),
        secret_map(final(v)@) == secret_map(old(v)@).remove(k@),
{
    let ghost old_v = v@;
    match find_key(v, k) {
        Some(i) => {
            v.remove(i);
            proof {
                let ii = i as int;
                assert(v@ == old_v.remove(ii));
                assert forall|a: int| 0 <= a < v@.len() implies #[trigger] v@[a] == old_v[if a < ii { a } else { a + 1 }] by {}
                assert forall|a: int, b: int| 0 <= a < v@.len() && 0 <= b < v@.len() && #[trigger] v@[a].0@
                    == #[trigger] v@[b].0@ implies a == b by {
                    let a2 = if a < ii { a } else { a + 1 };
                    let b2 = if b < ii { b } else { b + 1 };
                    assert(v@[a] == old_v[a2]);
                    assert(v@[b] == old_v[b2]);
                }
                let m = secret_map(old_v).remove(k@);
                assert forall|x: Seq<char>| #[trigger] secret_map(v@).dom().contains(x) <==> m.dom().contains(x) by {
                    if secret_map(v@).dom().contains(x) {
                        let j = choose|j: int| 0 <= j < v@.len() && v@[j].0@ == x;
                        let j2 = if j < ii { j } else { j + 1 };
                        assert(v@[j] == old_v[j2]);
                        assert(j2 != ii);
                    }
                    if m.dom().contains(x) {
                        let j = choose|j: int| 0 <= j < old_v.len() && old_v[j].0@ == x;
                        assert(j != ii);
                        let j1 = if j < ii { j } else { j - 1 };
                        assert(v@[j1] == old_v[j]);
                    }
                }
                assert forall|x: Seq<char>| #[trigger] secret_map(v@).dom().contains(x) implies secret_map(v@)[x]
                    == m[x] by {
                    let j = choose|j: int| 0 <= j < v@.len() && v@[j].0@ == x;
                    let j2 = if j < ii { j } else { j + 1 };
                    assert(v@[j] == old_v[j2]);
                    lemma_secret_at(v@, j);
                    lemma_secret_at(old_v, j2);
                }
                assert(secret_map(v@) =~= m);
            }
        },
        None => {
            proof {
                assert forall|x: Seq<char>| secret_map(v@).dom().contains(x) implies x != k@ by {
                    let j = choose|j: int| 0 <= j < v@.len() && v@[j].0@ == x;
                }
                assert(secret_map(v@) =~= secret_map(old_v).remove(k@));
            }
        },
    }
}

/// The store id of a provider's API key: `<provider>::api_key`.
pub open spec fn key_of(provider: Seq<char>) -> Seq<char> {
    provider + "::api_key"@
}

/// The profiles with every profile of provider `p` switched to `on`.
pub open spec fn switched_profiles(profiles: Seq<(Seq<char>, bool)>, p: Seq<char>, on: bool) -> Seq<(Seq<char>, bool)> {
    profiles.map_values(|q: (Seq<char>, bool)| if q.0 == p { (q.0, on) } else { q })
}

/// Model profiles by their views.
pub open spec fn profile_views(v: Seq<(String, bool)>) -> Seq<(Seq<char>, bool)> {
    v.map_values(|q: (String, bool)| (q.0@, q.1))
}

/// The service state that provider and credential operations read and write.
#[verifier::ext_equal]
pub struct ServiceState {
    /// Providers known to the registry.
    pub registered: Set<Seq<char>>,
    /// Providers currently enabled.
    pub enabled: Set<Seq<char>>,
    /// Providers with a credential reference in the database.
    pub refs: Set<Seq<char>>,
    /// The credential store: id to secret.
    pub secrets: Map<Seq<char>, Seq<char>>,
    /// The model profiles, in creation order: each one's provider and
    /// whether it is enabled.
    pub profiles: Seq<(Seq<char>, bool)>,
}

impl ServiceState {
    /// A provider counts as configured when it is registered, has a
    /// credential reference, and its secret is in the store.
    pub open spec fn has_credential(self, p: Seq<char>) -> bool {
        self.registered.contains(p) && self.refs.contains(p) && self.secrets.dom().contains(key_of(p))
    }

    /// After storing `key` for `p`: the secret is saved and a reference added.
    pub open spec fn with_credential(self, p: Seq<char>, key: Seq<char>) -> ServiceState {
        ServiceState { refs: self.refs.insert(p), secrets: self.secrets.insert(key_of(p), key), ..self }
    }

    /// After removing `p`'s credential: secret and references are gone.
    pub open spec fn without_credential(self, p: Seq<char>) -> ServiceState {
        ServiceState { refs: self.refs.remove(p), secrets: self.secrets.remove(key_of(p)), ..self }
    }

    /// After switching `p` on or off: the provider and each of its model
    /// profiles.
    pub open spec fn with_enabled(self, p: Seq<char>, on: bool) -> ServiceState {
        ServiceState {
            enabled: if on { self.enabled.insert(p) } else { self.enabled.remove(p) },
            profiles: switched_profiles(self.profiles, p, on),
            ..self
        }
    }
}

/// Failure of a service operation.
#[derive(Debug, PartialEq, Eq)]
pub enum ServiceError {
    /// The named provider or credential does not exist.
    NotFound(String),
}

/// Provider and credential management: the registry's providers, which of
/// them are enabled, the credential references and the stored secrets.
pub struct ModelConfigService {
    registered: Vec<String>,
    enabled: DashSet<String>,
    credential_refs: Vec<String>,
    secrets: Vec<(String, String)>,
    profiles: Vec<(String, bool)>,
}

impl View for ModelConfigService {
    type V = ServiceState;

    closed spec fn view(&self) -> ServiceState {
        ServiceState {
            registered: name_set(self.registered@),
            enabled: dash_set_contents(self.enabled),
            refs: name_set(self.credential_refs@),
            secrets: secret_map(self.secrets@),
            profiles: profile_views(self.profiles@),
        }
    }
}

/// `"<prefix><name><suffix>"`
fn framed(prefix: &str, name: &str, suffix: &str) -> (r: String)
    ensures
        r@ == prefix@ + name@ + suffix@,
{
    let mut m = String::from_str(prefix);
    m.append(name);
    m.append(suffix);
    m
}

impl ModelConfigService {
    /// The store holds one secret per id.
    pub closed spec fn wf(&self) -> bool {
        keys_distinct(self.secrets@)
    }

    /// A service over the registry's providers, all of them enabled, with no
    /// credential yet.
    pub fn new(registered: Vec<String>) -> (s: ModelConfigService)
        ensures
            s.wf(),
            s@.registered == name_set(registered@),
            s@.enabled == name_set(registered@),
            s@.refs == Set::<Seq<char>>::empty(),
            s@.secrets == Map::<Seq<char>, Seq<char>>::empty(),
            s@.profiles == Seq::<(Seq<char>, bool)>::empty(),
    {
        let mut enabled = dash_set_new();
        let mut i: usize = 0;
        while i < registered.len()
            invariant
                i <= registered@.len(),
                forall|x: Seq<char>|
                    #[trigger] dash_set_contents(enabled).contains(x) <==> exists|j: int| 0 <= j < i && registered@[j]@ == x,
            decreases registered.len() - i,
        {
            dash_set_insert(&mut enabled, registered[i].as_str());
            proof {
                assert forall|x: Seq<char>|
                    #[trigger] dash_set_contents(enabled).contains(x) <==> exists|j: int| 0 <= j < i + 1 && registered@[j]@ == x by {
                    if x == registered@[i as int]@ {
                        assert(registered@[i as int]@ == x);
                    }
                }
            }
            i = i + 1;
        }
        proof {
            assert(dash_set_contents(enabled) =~= name_set(registered@));
        }
        let s = ModelConfigService { registered, enabled, credential_refs: Vec::new(), secrets: Vec::new(), profiles: Vec::new() };
        proof {
            assert(profile_views(s.profiles@) =~= Seq::<(Seq<char>, bool)>::empty());
            assert(name_set(s.credential_refs@) =~= Set::<Seq<char>>::empty());
            assert(secret_map(s.secrets@) =~= Map::<Seq<char>, Seq<char>>::empty());
        }
        s
    }

    /// Whether the registry knows the provider.
    pub fn is_registered(&self, name: &str) -> (r: bool)
        ensures
            r == self@.registered.contains(name@),
    {
        contains_name(&self.registered, name)
    }

    /// Whether the provider is enabled.
    pub fn is_provider_enabled(&self, name: &str) -> (r: bool)
        ensures
            r == self@.enabled.contains(name@),
    {
        dash_set_contains(&self.enabled, name)
    }

    /// Switches a registered provider on or off; an unknown provider is
    /// refused and nothing changes.
    pub fn set_provider_enabled(&mut self, name: &str, enabled: bool) -> (r: Result<(), ServiceError>)
        requires
            old(self).wf(),
        ensures
            final(self).wf(),
            old(self)@.registered.contains(name@) ==> r is Ok && final(self)@ == old(self)@.with_enabled(name@, enabled),
            !old(self)@.registered.contains(name@) ==> final(self)@ == old(self)@ && (r matches Err(
                ServiceError::NotFound(m),
            ) && m@ == "Provider "@ + name@ + " not found"@),
    {
        if !contains_name(&self.registered, name) {
            return Err(ServiceError::NotFound(framed("Provider ", name, " not found")));
        }
        if enabled {
            dash_set_insert(&mut self.enabled, name);
        } else {
            dash_set_remove(&mut self.enabled, name);
        }
        let mut switched: Vec<(String, bool)> = Vec::new();
        let mut i: usize = 0;
        while i < self.profiles.len()
            invariant
                i <= self.profiles@.len(),
                switched@.len() == i,
                forall|j: int|
                    0 <= j < i ==> (#[trigger] switched@[j]).0@ == self.profiles@[j].0@ && switched@[j].1 == (if self.profiles@[j].0@
                        == name@ { enabled } else { self.profiles@[j].1 }),
            decreases self.profiles.len() - i,
        {
            let same = str_eq(self.profiles[i].0.as_str(), name);
            let flag = if same { enabled } else { self.profiles[i].1 };
            switched.push((self.profiles[i].0.clone(), flag));
            i = i + 1;
        }
        proof {
            assert(profile_views(switched@) =~= switched_profiles(profile_views(self.profiles@), name@, enabled));
        }
        self.profiles = switched;
        proof {
            assert(self@ =~= old(self)@.with_enabled(name@, enabled));
        }
        Ok(())
    }

    /// Stores a provider's API key and records that it has one.
    pub fn set_credential(&mut self, provider: &str, api_key: &str)
        requires
            old(self).wf(),
        ensures
            final(self).wf(),
            final(self)@ == old(self)@.with_credential(provider@, api_key@),
    {
        let id = credential_id(provider);
        put_secret(&mut self.secrets, id.as_str(), api_key);
        insert_name(&mut self.credential_refs, provider);
        proof {
            assert(self@ =~= old(self)@.with_credential(provider@, api_key@));
        }
    }

    /// Removes a provider's API key and its references. The store's answer
    /// does not matter; the removal fails when there was no reference.
    pub fn delete_credential(&mut self, provider: &str) -> (r: Result<(), ServiceError>)
        requires
            old(self).wf(),
        ensures
            final(self).wf(),
            final(self)@ == old(self)@.without_credential(provider@),
            r is Ok <==> old(self)@.refs.contains(provider@),
            r matches Err(ServiceError::NotFound(m)) ==> m@ == "Credential for provider "@ + provider@ + " not found"@,
    {
        let id = credential_id(provider);
        drop_secret(&mut self.secrets, id.as_str());
        let had_ref = contains_name(&self.credential_refs, provider);
        remove_name(&mut self.credential_refs, provider);
        proof {
            assert(self@ =~= old(self)@.without_credential(provider@));
        }
        if had_ref {
            Ok(())
        } else {
            Err(ServiceError::NotFound(framed("Credential for provider ", provider, " not found")))
        }
    }

    /// Whether a provider is configured: registered, with a reference and a
    /// stored secret.
    pub fn get_credential_status(&self, provider_id: &str) -> (s: CredentialStatus)
        requires
            self.wf(),
        ensures
            s.provider_id@ == provider_id@,
            s.has_credential == self@.has_credential(provider_id@),
    {
        let registered = contains_name(&self.registered, provider_id);
        let id = credential_id(provider_id);
        let secret = get_secret(&self.secrets, id.as_str());
        let s = credential_status(provider_id, registered, &self.credential_refs, secret.is_some());
        proof {
            let names = ref_names(self.credential_refs@);
            if names.contains(provider_id@) {
                let j = choose|j: int| 0 <= j < names.len() && names[j] == provider_id@;
                assert(self.credential_refs@[j]@ == provider_id@);
            }
            if name_set(self.credential_refs@).contains(provider_id@) {
                let j = choose|j: int| 0 <= j < self.credential_refs@.len() && self.credential_refs@[j]@ == provider_id@;
                assert(names[j] == provider_id@);
            }
        }
        s
    }

    /// Stores a new model profile of `provider_name`, enabled or not.
    pub fn add_model_profile(&mut self, provider_name: &str, enabled: bool)
        requires
            old(self).wf(),
        ensures
            final(self).wf(),
            final(self)@ == (ServiceState {
                profiles: old(self)@.profiles.push((provider_name@, enabled)),
                ..old(self)@
            }),
    {
        self.profiles.push((String::from_str(provider_name), enabled));
        proof {
            assert(profile_views(self.profiles@) =~= old(self)@.profiles.push((provider_name@, enabled)));
            assert(self@ =~= (ServiceState { profiles: old(self)@.profiles.push((provider_name@, enabled)), ..old(self)@ }));
        }
    }

    /// The model profile at position `i` (in creation order): its provider
    /// and whether it is enabled.
    pub fn model_profile(&self, i: usize) -> (r: Option<(String, bool)>)
        ensures
            i < self@.profiles.len() ==> (r matches Some(p) && p.0@ == self@.profiles[i as int].0 && p.1
                == self@.profiles[i as int].1),
            i >= self@.profiles.len() ==> r is None,
    {
        if i < self.profiles.len() {
            Some((self.profiles[i].0.clone(), self.profiles[i].1))
        } else {
            None
        }
    }

    /// The key to test a provider's connection with: `None` when the
    /// provider is unknown or has no stored secret, and no call is made.
    pub fn connection_test_key(&self, provider_id: &str) -> (r: Option<String>)
        requires
            self.wf(),
        ensures
            r is Some <==> self@.registered.contains(provider_id@) && self@.secrets.dom().contains(key_of(provider_id@)),
            r matches Some(k) ==> k@ == self@.secrets[key_of(provider_id@)],
    {
        if !contains_name(&self.registered, provider_id) {
            return None;
        }
        let id = credential_id(provider_id);
        get_secret(&self.secrets, id.as_str())
    }
}

/// Different providers have different store ids.
pub proof fn lemma_key_of_injective(p: Seq<char>, q: Seq<char>)
    ensures
        key_of(p) == key_of(q) ==> p == q,
{
    if key_of(p) == key_of(q) {
        assert(key_of(p).len() == p.len() + "::api_key"@.len());
        assert(key_of(q).len() == q.len() + "::api_key"@.len());
        assert(p.len() == q.len());
        assert forall|i: int| 0 <= i < p.len() implies p[i] == q[i] by {
            assert(key_of(p)[i] == p[i]);
            assert(key_of(q)[i] == q[i]);
        }
        assert(p =~= q);
    }
}

/// Storing a credential makes the provider count as configured exactly
/// when the registry knows it, and the stored key is the one given.
pub proof fn lemma_credential_set_then_status(s: ServiceState, p: Seq<char>, key: Seq<char>)
    ensures
        s.with_credential(p, key).has_credential(p) == s.registered.contains(p),
        s.with_credential(p, key).secrets[key_of(p)] == key,
{
}

/// After its credential is deleted a provider is no longer configured.
pub proof fn lemma_credential_delete_then_status(s: ServiceState, p: Seq<char>)
    ensures
        !s.without_credential(p).has_credential(p),
{
}

/// A provider the registry does not know never counts as configured.
pub proof fn lemma_unregistered_has_no_credential(s: ServiceState, p: Seq<char>)
    requires
        !s.registered.contains(p),
    ensures
        !s.has_credential(p),
{
}

/// Storing or deleting one provider's credential leaves every other
/// provider's status as it was.
pub proof fn lemma_credential_ops_local(s: ServiceState, p: Seq<char>, q: Seq<char>, key: Seq<char>)
    requires
        p != q,
    ensures
        s.with_credential(p, key).has_credential(q) == s.has_credential(q),
        s.without_credential(p).has_credential(q) == s.has_credential(q),
{
    lemma_key_of_injective(p, q);
}

/// Switching a provider on or off is seen by the next query, leaves the
/// other providers as they were, and does not touch credentials.
pub proof fn lemma_enabled_after_switch(s: ServiceState, p: Seq<char>, q: Seq<char>, on: bool)
    ensures
        s.with_enabled(p, on).enabled.contains(p) == on,
        q != p ==> s.with_enabled(p, on).enabled.contains(q) == s.enabled.contains(q),
        s.with_enabled(p, on).has_credential(q) == s.has_credential(q),
{
}

/// Switching a provider on or off switches each of its model profiles to
/// the same setting and leaves other providers' profiles alone.
pub proof fn lemma_switch_spreads_to_profiles(s: ServiceState, p: Seq<char>, on: bool, i: int)
    requires
        0 <= i < s.profiles.len(),
    ensures
        s.with_enabled(p, on).profiles.len() == s.profiles.len(),
        s.profiles[i].0 == p ==> s.with_enabled(p, on).profiles[i] == (p, on),
        s.profiles[i].0 != p ==> s.with_enabled(p, on).profiles[i] == s.profiles[i],
{
}

} // verus!
