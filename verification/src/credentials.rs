//! Named Maypop CLI profiles: which saved login a command uses, and how the
//! profile store changes when a login is saved or the default is switched.
//!
//! The store itself is read from and written to disk by the program around
//! this library; here it is a value with an exact model.

use crate::text::{
    chars_of, owned, same_text, seq_lt, text_less, trim_end_char, trim_url,
    lemma_seq_lt_asymmetric, lemma_seq_lt_irreflexive, lemma_seq_lt_total,
    lemma_seq_lt_transitive,
};
use vstd::prelude::*;

verus! {

/// The production API origin.
pub open spec fn default_api_url_spec() -> Seq<char> {
    "https://api.app.maypop.ai"@
}

/// The name of the profile used before any other is configured.
pub open spec fn fallback_profile_spec() -> Seq<char> {
    "default"@
}

/// The production API origin.
pub fn default_api_url() -> (r: String)
    ensures
        r@ == default_api_url_spec(),
{
    owned("https://api.app.maypop.ai")
}

/// The account a login belongs to.
#[derive(Debug)]
pub struct CredentialUser {
    pub id: String,
    pub username: String,
    pub name: Option<String>,
    pub email: String,
    pub git_user_id: String,
    pub git_server_url: String,
}

impl Clone for CredentialUser {
    fn clone(&self) -> (r: Self)
        ensures
            r == *self,
    {
        CredentialUser {
            id: self.id.clone(),
            username: self.username.clone(),
            name: match &self.name {
                Some(n) => Some(n.clone()),
                None => None,
            },
            email: self.email.clone(),
            git_user_id: self.git_user_id.clone(),
            git_server_url: self.git_server_url.clone(),
        }
    }
}

/// One saved login.
#[derive(Debug)]
pub struct Credentials {
    pub api_url: String,
    pub token: String,
    pub expires_at: String,
    pub user: CredentialUser,
}

impl Clone for Credentials {
    fn clone(&self) -> (r: Self)
        ensures
            r == *self,
    {
        Credentials {
            api_url: self.api_url.clone(),
            token: self.token.clone(),
            expires_at: self.expires_at.clone(),
            user: self.user.clone(),
        }
    }
}

/// A login stored under a profile name.
#[derive(Debug)]
pub struct NamedProfile {
    pub name: String,
    pub credentials: Credentials,
}

/// A saved profile as listed to the user.
#[derive(Debug)]
pub struct SavedProfile {
    pub name: String,
    pub credentials: Credentials,
    pub is_default: bool,
}

/// Why a profile operation was refused.
#[derive(Debug, Clone)]
pub enum CredentialError {
    /// A profile name holds something other than letters, digits, `-` and `_`.
    InvalidProfileName,
    /// No configuration directory can be found.
    NoConfigDirectory,
    /// The named profile is not saved.
    UnknownProfile { profile: String },
    /// The named profile is saved for a different API origin.
    ProfileUrlMismatch { profile: String, profile_url: String, app_url: String },
    /// No profile store exists yet.
    NoProfiles,
    /// The profile store has a version this program does not read.
    UnsupportedVersion { version: u8 },
    /// The profile store names a default profile that it does not hold.
    MissingDefault { default_profile: String },
}

/// The model of a profile store.
pub struct StoreModel {
    pub version: u8,
    pub default_profile: Seq<char>,
    /// The profile names in ascending order.
    pub names: Seq<Seq<char>>,
    /// The login saved under each name.
    pub profiles: Map<Seq<char>, Credentials>,
}

/// The profiles file: its version, its default profile and its logins by name.
pub struct CredentialStore {
    version: u8,
    default_profile: String,
    entries: Vec<NamedProfile>,
}

// ---------------------------------------------------------------------------
// Models
// ---------------------------------------------------------------------------

/// A profile name is a non-empty run of ASCII letters, digits, `-` and `_`.
pub open spec fn is_profile_name_char(c: char) -> bool {
    ('a' <= c <= 'z') || ('A' <= c <= 'Z') || ('0' <= c <= '9') || c == '-' || c == '_'
}

/// Whether `s` is an acceptable profile name.
pub open spec fn valid_profile_name(s: Seq<char>) -> bool {
    s.len() > 0 && forall|i: int| 0 <= i < s.len() ==> is_profile_name_char(#[trigger] s[i])
}

/// The API origin `url` without trailing slashes.
pub open spec fn normalized(url: Seq<char>) -> Seq<char> {
    trim_end_char(url, '/')
}

/// A login belongs to an API origin when the two agree up to trailing slashes.
pub open spec fn serves(c: Credentials, url: Seq<char>) -> bool {
    normalized(c.api_url@) == normalized(url)
}

/// The names of `v` in order.
pub open spec fn names_of(v: Seq<NamedProfile>) -> Seq<Seq<char>> {
    v.map_values(|p: NamedProfile| p.name@)
}

/// The names of `v` ascend strictly.
pub open spec fn ascending(names: Seq<Seq<char>>) -> bool {
    forall|i: int, j: int| 0 <= i < j < names.len() ==> seq_lt(names[i], names[j])
}

/// Whether some entry of `v` is named `k`.
pub open spec fn has_name(v: Seq<NamedProfile>, k: Seq<char>) -> bool {
    exists|i: int| 0 <= i < v.len() && v[i].name@ == k
}

/// A position of an entry of `v` named `k`.
pub open spec fn index_of_name(v: Seq<NamedProfile>, k: Seq<char>) -> int {
    choose|i: int| 0 <= i < v.len() && v[i].name@ == k
}

/// The logins of `v` by name.
pub open spec fn map_of(v: Seq<NamedProfile>) -> Map<Seq<char>, Credentials> {
    Map::new(|k: Seq<char>| has_name(v, k), |k: Seq<char>| v[index_of_name(v, k)].credentials)
}

/// `k` is the first name, in ascending order, whose login serves `url`.
pub open spec fn is_first_serving(
    names: Seq<Seq<char>>,
    m: Map<Seq<char>, Credentials>,
    url: Seq<char>,
    k: Seq<char>,
) -> bool {
    &&& m.dom().contains(k)
    &&& serves(m[k], url)
    &&& forall|k2: Seq<char>|
        #![trigger m.dom().contains(k2)]
        m.dom().contains(k2) && serves(m[k2], url) ==> !seq_lt(k2, k)
}

/// The login of the first name, in ascending order, that serves `url`.
pub open spec fn first_serving(
    names: Seq<Seq<char>>,
    m: Map<Seq<char>, Credentials>,
    url: Seq<char>,
) -> Option<Credentials> {
    if exists|k: Seq<char>| is_first_serving(names, m, url, k) {
        Some(m[choose|k: Seq<char>| is_first_serving(names, m, url, k)])
    } else {
        None
    }
}

/// The logins that serve `url`, in ascending name order.
pub open spec fn serving_in_order(
    names: Seq<Seq<char>>,
    m: Map<Seq<char>, Credentials>,
    url: Seq<char>,
) -> Seq<Credentials>
    decreases names.len(),
{
    if names.len() == 0 {
        Seq::empty()
    } else {
        let earlier = serving_in_order(names.drop_last(), m, url);
        if serves(m[names.last()], url) {
            earlier.push(m[names.last()])
        } else {
            earlier
        }
    }
}

/// A store model is consistent: names ascend and are exactly the saved profiles.
pub open spec fn model_wf(s: StoreModel) -> bool {
    &&& ascending(s.names)
    &&& forall|k: Seq<char>| s.profiles.dom().contains(k) <==> s.names.contains(k)
}

/// The login selected for `url`, with `profile` named explicitly or not.
pub open spec fn selection(s: StoreModel, url: Seq<char>, profile: Option<Seq<char>>) -> Result<
    Option<Credentials>,
    (),
> {
    match profile {
        Some(name) => if !valid_profile_name(name) {
            Err(())
        } else if !s.profiles.dom().contains(name) {
            Ok(None)
        } else if !serves(s.profiles[name], url) {
            Err(())
        } else {
            Ok(Some(s.profiles[name]))
        },
        None => if s.profiles.dom().contains(s.default_profile) && serves(
            s.profiles[s.default_profile],
            url,
        ) {
            Ok(Some(s.profiles[s.default_profile]))
        } else {
            Ok(first_serving(s.names, s.profiles, url))
        },
    }
}

impl View for CredentialStore {
    type V = StoreModel;

    closed spec fn view(&self) -> StoreModel {
        StoreModel {
            version: self.version,
            default_profile: self.default_profile@,
            names: names_of(self.entries@),
            profiles: map_of(self.entries@),
        }
    }
}

impl CredentialStore {
    #[verifier::type_invariant]
    spec fn entries_ascend(self) -> bool {
        ascending(names_of(self.entries@))
    }
}

// ---------------------------------------------------------------------------
// Facts about the models
// ---------------------------------------------------------------------------

/// In an ascending list, each entry is the login its name maps to.
proof fn lemma_map_at(v: Seq<NamedProfile>, i: int)
    requires
        ascending(names_of(v)),
        0 <= i < v.len(),
    ensures
        map_of(v).dom().contains(v[i].name@),
        map_of(v)[v[i].name@] == v[i].credentials,
{
    let k = v[i].name@;
    assert(has_name(v, k));
    let j = index_of_name(v, k);
    if j != i {
        assert(names_of(v)[i] == k && names_of(v)[j] == k);
        if i < j {
            assert(seq_lt(names_of(v)[i], names_of(v)[j]));
        } else {
            assert(seq_lt(names_of(v)[j], names_of(v)[i]));
        }
        lemma_seq_lt_irreflexive(k);
    }
    assert(map_of(v)[k] == v[j].credentials);
}

/// The model of an ascending list is consistent.
proof fn lemma_model_wf(v: Seq<NamedProfile>)
    requires
        ascending(names_of(v)),
    ensures
        forall|k: Seq<char>| map_of(v).dom().contains(k) <==> names_of(v).contains(k),
{
    assert forall|k: Seq<char>| map_of(v).dom().contains(k) <==> names_of(v).contains(k) by {
        if map_of(v).dom().contains(k) {
            let i = choose|i: int| 0 <= i < v.len() && v[i].name@ == k;
            assert(names_of(v)[i] == k);
        }
        if names_of(v).contains(k) {
            let i = choose|i: int| 0 <= i < names_of(v).len() && names_of(v)[i] == k;
            assert(v[i].name@ == k);
        }
    }
}

// ---------------------------------------------------------------------------
// Sorted list operations
// ---------------------------------------------------------------------------

/// The position of the entry named `key`, if any.
fn find_entry(v: &Vec<NamedProfile>, key: &str) -> (r: Option<usize>)
    requires
        ascending(names_of(v@)),
    ensures
        r matches Some(i) ==> i < v.len() && v@[i as int].name@ == key@,
        r is None ==> !has_name(v@, key@),
        r is Some <==> map_of(v@).dom().contains(key@),
{
    let mut i: usize = 0;
    while i < v.len()
        invariant
            i <= v.len(),
            forall|j: int| 0 <= j < i ==> v@[j].name@ != key@,
        decreases v.len() - i,
    {
        if same_text(v[i].name.as_str(), key) {
            assert(has_name(v@, key@));
            return Some(i);
        }
        i = i + 1;
    }
    None
}

/// Put `credentials` under `key`, keeping the names ascending.
fn insert_entry(v: Vec<NamedProfile>, key: String, credentials: Credentials) -> (r: Vec<
    NamedProfile,
>)
    requires
        ascending(names_of(v@)),
    ensures
        ascending(names_of(r@)),
        map_of(r@) == map_of(v@).insert(key@, credentials),
        names_of(r@).to_set() == names_of(v@).to_set().insert(key@),
{
    let mut v = v;
    let ghost old_v = v@;
    let mut p: usize = 0;
    while p < v.len() && text_less(v[p].name.as_str(), key.as_str())
        invariant
            p <= v.len(),
            v@ == old_v,
            ascending(names_of(old_v)),
            forall|j: int| 0 <= j < p ==> seq_lt(old_v[j].name@, key@),
        decreases v.len() - p,
    {
        p = p + 1;
    }
    let replace = p < v.len() && same_text(v[p].name.as_str(), key.as_str());
    let entry = NamedProfile { name: key, credentials };
    let ghost e = entry;
    if replace {
        let _ = v.remove(p);
        v.insert(p, entry);
        proof {
            assert(v@ == old_v.update(p as int, e));
            let nv = names_of(v@);
            let no = names_of(old_v);
            assert(nv =~= no.update(p as int, e.name@));
            assert forall|i: int, j: int| 0 <= i < j < nv.len() implies seq_lt(nv[i], nv[j]) by {
                assert(no[i] == old_v[i].name@);
                assert(no[j] == old_v[j].name@);
            }
            assert forall|k: Seq<char>| #[trigger] map_of(v@).dom().contains(k) <==> map_of(
                old_v,
            ).insert(e.name@, e.credentials).dom().contains(k) by {
                if has_name(v@, k) {
                    let i = choose|i: int| 0 <= i < v@.len() && v@[i].name@ == k;
                    if i != p {
                        assert(old_v[i].name@ == k);
                        assert(has_name(old_v, k));
                    }
                }
                if has_name(old_v, k) {
                    let i = choose|i: int| 0 <= i < old_v.len() && old_v[i].name@ == k;
                    assert(v@[i].name@ == k);
                }
                if k == e.name@ {
                    assert(v@[p as int].name@ == k);
                }
            }
            assert forall|k: Seq<char>| #[trigger] map_of(v@).dom().contains(k) implies map_of(
                v@,
            )[k] == map_of(old_v).insert(e.name@, e.credentials)[k] by {
                let i = choose|i: int| 0 <= i < v@.len() && v@[i].name@ == k;
                lemma_map_at(v@, i);
                if i != p {
                    lemma_map_at(old_v, i);
                    assert(nv[i] != nv[p as int]) by {
                        if i < p {
                            assert(seq_lt(nv[i], nv[p as int]));
                        } else {
                            assert(seq_lt(nv[p as int], nv[i]));
                        }
                        lemma_seq_lt_irreflexive(nv[i]);
                    }
                }
            }
            assert(map_of(v@) =~= map_of(old_v).insert(e.name@, e.credentials));
            assert forall|k: Seq<char>| #[trigger] nv.to_set().contains(k) <==> no.to_set().insert(
                e.name@,
            ).contains(k) by {
                if nv.contains(k) {
                    let i = choose|i: int| 0 <= i < nv.len() && nv[i] == k;
                    if i != p {
                        assert(no[i] == k);
                    }
                }
                if no.contains(k) {
                    let i = choose|i: int| 0 <= i < no.len() && no[i] == k;
                    if i != p {
                        assert(nv[i] == k);
                    } else {
                        assert(nv[i] == k);
                    }
                }
                if k == e.name@ {
                    assert(nv[p as int] == k);
                }
            }
            assert(nv.to_set() =~= no.to_set().insert(e.name@));
        }
    } else {
        v.insert(p, entry);
        proof {
            assert(v@ == old_v.insert(p as int, e));
            let nv = names_of(v@);
            let no = names_of(old_v);
            assert(nv =~= no.insert(p as int, e.name@));
            if p < old_v.len() {
                lemma_seq_lt_total(old_v[p as int].name@, e.name@);
            }
            assert forall|i: int, j: int| 0 <= i < j < nv.len() implies seq_lt(nv[i], nv[j]) by {
                if j < p {
                    assert(nv[i] == no[i] && nv[j] == no[j]);
                } else if j == p {
                    assert(nv[i] == no[i]);
                } else if i == p {
                    assert(nv[j] == no[j - 1]);
                    if j - 1 > p {
                        assert(seq_lt(no[p as int], no[j - 1]));
                        lemma_seq_lt_transitive(e.name@, no[p as int], no[j - 1]);
                    }
                } else if i < p {
                    assert(nv[i] == no[i] && nv[j] == no[j - 1]);
                    assert(seq_lt(no[i], e.name@));
                    if j - 1 >= p {
                        if j - 1 > p {
                            assert(seq_lt(no[p as int], no[j - 1]));
                            lemma_seq_lt_transitive(e.name@, no[p as int], no[j - 1]);
                        }
                        lemma_seq_lt_transitive(no[i], e.name@, no[j - 1]);
                    }
                } else {
                    assert(nv[i] == no[i - 1] && nv[j] == no[j - 1]);
                }
            }
            assert forall|k: Seq<char>| #[trigger] map_of(v@).dom().contains(k) <==> map_of(
                old_v,
            ).insert(e.name@, e.credentials).dom().contains(k) by {
                if has_name(v@, k) {
                    let i = choose|i: int| 0 <= i < v@.len() && v@[i].name@ == k;
                    if i < p {
                        assert(old_v[i].name@ == k);
                    } else if i > p {
                        assert(old_v[i - 1].name@ == k);
                    }
                }
                if has_name(old_v, k) {
                    let i = choose|i: int| 0 <= i < old_v.len() && old_v[i].name@ == k;
                    if i < p {
                        assert(v@[i].name@ == k);
                    } else {
                        assert(v@[i + 1].name@ == k);
                    }
                }
                if k == e.name@ {
                    assert(v@[p as int].name@ == k);
                }
            }
            assert forall|k: Seq<char>| #[trigger] map_of(v@).dom().contains(k) implies map_of(
                v@,
            )[k] == map_of(old_v).insert(e.name@, e.credentials)[k] by {
                let i = choose|i: int| 0 <= i < v@.len() && v@[i].name@ == k;
                lemma_map_at(v@, i);
                if i < p {
                    lemma_map_at(old_v, i);
                    assert(nv[i] != nv[p as int]) by {
                        lemma_seq_lt_irreflexive(nv[i]);
                    }
                } else if i > p {
                    lemma_map_at(old_v, i - 1);
                    assert(nv[i] != nv[p as int]) by {
                        lemma_seq_lt_irreflexive(nv[i]);
                    }
                }
            }
            assert(map_of(v@) =~= map_of(old_v).insert(e.name@, e.credentials));
            assert forall|k: Seq<char>| #[trigger] nv.to_set().contains(k) <==> no.to_set().insert(
                e.name@,
            ).contains(k) by {
                if nv.contains(k) {
                    let i = choose|i: int| 0 <= i < nv.len() && nv[i] == k;
                    if i < p {
                        assert(no[i] == k);
                    } else if i > p {
                        assert(no[i - 1] == k);
                    }
                }
                if no.contains(k) {
                    let i = choose|i: int| 0 <= i < no.len() && no[i] == k;
                    if i < p {
                        assert(nv[i] == k);
                    } else {
                        assert(nv[i + 1] == k);
                    }
                }
                if k == e.name@ {
                    assert(nv[p as int] == k);
                }
            }
            assert(nv.to_set() =~= no.to_set().insert(e.name@));
        }
    }
    v
}

/// The first entry that serves `url` is the model's first serving login.
proof fn lemma_first_serving_at(v: Seq<NamedProfile>, url: Seq<char>, i: int)
    requires
        ascending(names_of(v)),
        0 <= i < v.len(),
        serves(v[i].credentials, url),
        forall|j: int| 0 <= j < i ==> !serves(#[trigger] v[j].credentials, url),
    ensures
        first_serving(names_of(v), map_of(v), url) == Some(v[i].credentials),
{
    let m = map_of(v);
    let names = names_of(v);
    let k = v[i].name@;
    lemma_map_at(v, i);
    assert forall|k2: Seq<char>|
        #![trigger m.dom().contains(k2)]
        m.dom().contains(k2) && serves(m[k2], url) implies !seq_lt(k2, k) by {
        let j = index_of_name(v, k2);
        lemma_map_at(v, j);
        if j < i {
            assert(!serves(v[j].credentials, url));
        } else if j > i {
            assert(names[i] == k && names[j] == k2);
            assert(seq_lt(k, k2));
            lemma_seq_lt_asymmetric(k, k2);
        } else {
            lemma_seq_lt_irreflexive(k);
        }
    }
    assert(is_first_serving(names, m, url, k));
    let k1 = choose|k1: Seq<char>| is_first_serving(names, m, url, k1);
    assert(!seq_lt(k, k1));
    assert(!seq_lt(k1, k));
    lemma_seq_lt_total(k, k1);
}

/// When no entry serves `url`, the model has no serving login.
proof fn lemma_first_serving_none(v: Seq<NamedProfile>, url: Seq<char>)
    requires
        ascending(names_of(v)),
        forall|j: int| 0 <= j < v.len() ==> !serves(#[trigger] v[j].credentials, url),
    ensures
        first_serving(names_of(v), map_of(v), url) is None,
{
    let m = map_of(v);
    if exists|k: Seq<char>| is_first_serving(names_of(v), m, url, k) {
        let k = choose|k: Seq<char>| is_first_serving(names_of(v), m, url, k);
        let j = index_of_name(v, k);
        lemma_map_at(v, j);
        assert(!serves(v[j].credentials, url));
    }
}

/// The position of the first entry, in name order, whose login serves `url`.
fn first_serving_index(v: &Vec<NamedProfile>, url: &str) -> (r: Option<usize>)
    ensures
        r matches Some(i) ==> i < v.len() && serves(v@[i as int].credentials, url@) && forall|
            j: int,
        | 0 <= j < i ==> !serves(#[trigger] v@[j].credentials, url@),
        r is None ==> forall|j: int| 0 <= j < v.len() ==> !serves(#[trigger] v@[j].credentials, url@),
{
    let target = normalize_url(url);
    let mut i: usize = 0;
    while i < v.len()
        invariant
            i <= v.len(),
            target@ == normalized(url@),
            forall|j: int| 0 <= j < i ==> !serves(#[trigger] v@[j].credentials, url@),
        decreases v.len() - i,
    {
        let here = normalize_url(v[i].credentials.api_url.as_str());
        if same_text(here.as_str(), target.as_str()) {
            return Some(i);
        }
        i = i + 1;
    }
    None
}

/// The view of an optional profile name.
pub open spec fn name_view(profile: Option<&str>) -> Option<Seq<char>> {
    match profile {
        Some(p) => Some(p@),
        None => None,
    }
}

/// The model of an optional store.
pub open spec fn store_view(store: Option<&CredentialStore>) -> Option<StoreModel> {
    match store {
        Some(s) => Some(s@),
        None => None,
    }
}

/// The login saved under `name` in an optional store.
pub open spec fn saved(store: Option<StoreModel>, name: Seq<char>) -> Option<Credentials> {
    match store {
        Some(s) => if s.profiles.dom().contains(name) {
            Some(s.profiles[name])
        } else {
            None
        },
        None => None,
    }
}

impl CredentialStore {
    /// A store with no profiles.
    pub fn new(version: u8, default_profile: String) -> (r: Self)
        ensures
            r@.version == version,
            r@.default_profile == default_profile@,
            r@.profiles == Map::<Seq<char>, Credentials>::empty(),
            r@.names.len() == 0,
            model_wf(r@),
    {
        let r = CredentialStore { version, default_profile, entries: Vec::new() };
        assert(map_of(r.entries@) =~= Map::<Seq<char>, Credentials>::empty());
        assert(names_of(r.entries@) =~= Seq::<Seq<char>>::empty());
        r
    }

    /// The format version of the store.
    pub fn version(&self) -> (r: u8)
        ensures
            r == self@.version,
    {
        self.version
    }

    /// The profile used when none is named.
    pub fn default_profile(&self) -> (r: &String)
        ensures
            r@ == self@.default_profile,
    {
        &self.default_profile
    }

    /// The number of saved profiles.
    pub fn len(&self) -> (r: usize)
        ensures
            r == self@.names.len(),
            model_wf(self@),
    {
        proof {
            use_type_invariant(self);
            lemma_model_wf(self.entries@);
        }
        self.entries.len()
    }

    /// The login saved under `name`, if any.
    pub fn get(&self, name: &str) -> (r: Option<&Credentials>)
        ensures
            r matches Some(c) ==> self@.profiles.dom().contains(name@) && *c
                == self@.profiles[name@],
            r is None ==> !self@.profiles.dom().contains(name@),
            model_wf(self@),
    {
        proof {
            use_type_invariant(self);
            lemma_model_wf(self.entries@);
        }
        match find_entry(&self.entries, name) {
            Some(i) => {
                proof {
                    lemma_map_at(self.entries@, i as int);
                }
                Some(&self.entries[i].credentials)
            },
            None => None,
        }
    }

    /// The store with `credentials` saved under `name`, replacing any login saved there.
    pub fn insert(self, name: String, credentials: Credentials) -> (r: Self)
        ensures
            r@.version == self@.version,
            r@.default_profile == self@.default_profile,
            r@.profiles == self@.profiles.insert(name@, credentials),
            r@.names.to_set() == self@.names.to_set().insert(name@),
            model_wf(r@),
    {
        proof {
            use_type_invariant(&self);
        }
        let CredentialStore { version, default_profile, entries } = self;
        let entries = insert_entry(entries, name, credentials);
        proof {
            lemma_model_wf(entries@);
        }
        CredentialStore { version, default_profile, entries }
    }

    /// The store with a different default profile and the same logins.
    fn with_default(self, default_profile: String) -> (r: Self)
        ensures
            r@.version == self@.version,
            r@.default_profile == default_profile@,
            r@.profiles == self@.profiles,
            r@.names == self@.names,
    {
        proof {
            use_type_invariant(&self);
        }
        let CredentialStore { version, default_profile: _, entries } = self;
        CredentialStore { version, default_profile, entries }
    }

    /// The store with a different version and the same profiles.
    fn with_version(self, version: u8) -> (r: Self)
        ensures
            r@.version == version,
            r@.default_profile == self@.default_profile,
            r@.profiles == self@.profiles,
            r@.names == self@.names,
    {
        proof {
            use_type_invariant(&self);
        }
        let CredentialStore { version: _, default_profile, entries } = self;
        CredentialStore { version, default_profile, entries }
    }

    /// A store built from its version, its default and its entries in file
    /// order; a later entry replaces an earlier one with the same name.
    pub fn from_entries(version: u8, default_profile: String, entries: Vec<(String, Credentials)>) -> (r: Self)
        ensures
            r@.version == version,
            r@.default_profile == default_profile@,
            r@.profiles == inserted_all(Map::empty(), entries@),
            model_wf(r@),
    {
        let mut store = CredentialStore::new(version, default_profile);
        let mut rest = entries;
        let ghost all = entries@;
        assert(all.skip(0) =~= all);
        while rest.len() > 0
            invariant
                store@.version == version,
                store@.default_profile == default_profile@,
                model_wf(store@),
                inserted_all(Map::empty(), all) == inserted_all(store@.profiles, rest@),
            decreases rest.len(),
        {
            let ghost before = rest@;
            let (name, credentials) = rest.remove(0);
            assert(rest@ =~= before.drop_first());
            store = store.insert(name, credentials);
        }
        store
    }
}

/// The map `m` after inserting each pair of `pairs` in turn.
pub open spec fn inserted_all(
    m: Map<Seq<char>, Credentials>,
    pairs: Seq<(String, Credentials)>,
) -> Map<Seq<char>, Credentials>
    decreases pairs.len(),
{
    if pairs.len() == 0 {
        m
    } else {
        inserted_all(m.insert(pairs[0].0@, pairs[0].1), pairs.drop_first())
    }
}

// ---------------------------------------------------------------------------
// Profile names and origins
// ---------------------------------------------------------------------------

/// Accept only a non-empty name of ASCII letters, digits, `-` and `_`.
pub fn validate_profile_name(name: &str) -> (r: Result<(), CredentialError>)
    ensures
        r is Ok <==> valid_profile_name(name@),
        r matches Err(e) ==> e is InvalidProfileName,
{
    let v = chars_of(name);
    if v.len() == 0 {
        return Err(CredentialError::InvalidProfileName);
    }
    let mut i: usize = 0;
    while i < v.len()
        invariant
            i <= v.len(),
            v@ == name@,
            forall|j: int| 0 <= j < i ==> is_profile_name_char(#[trigger] v@[j]),
        decreases v.len() - i,
    {
        let c = v[i];
        let ok = ('a' <= c && c <= 'z') || ('A' <= c && c <= 'Z') || ('0' <= c && c <= '9') || c
            == '-' || c == '_';
        if !ok {
            return Err(CredentialError::InvalidProfileName);
        }
        i = i + 1;
    }
    Ok(())
}

/// The API origin without trailing slashes.
pub fn normalize_url(url: &str) -> (r: String)
    ensures
        r@ == normalized(url@),
{
    trim_url(url)
}

/// Whether `credentials` belongs to the API origin `url`.
fn serves_url(credentials: &Credentials, url: &str) -> (r: bool)
    ensures
        r == serves(*credentials, url@),
{
    let a = normalize_url(credentials.api_url.as_str());
    let b = normalize_url(url);
    same_text(a.as_str(), b.as_str())
}

// ---------------------------------------------------------------------------
// Selecting a login
// ---------------------------------------------------------------------------

/// The error with which the store refuses to select a login for `url`: a
/// malformed profile name, or a named profile saved for another origin.
pub open spec fn selection_error(
    s: StoreModel,
    url: Seq<char>,
    profile: Option<Seq<char>>,
    e: CredentialError,
) -> bool {
    match profile {
        Some(name) => if !valid_profile_name(name) {
            e is InvalidProfileName
        } else {
            e matches CredentialError::ProfileUrlMismatch { profile: p, profile_url, app_url }
                && p@ == name && profile_url@ == normalized(s.profiles[name].api_url@)
                && app_url@ == normalized(url)
        },
        None => false,
    }
}

/// Choose the login for `api_url`: an explicitly named profile must serve
/// that origin; otherwise the default profile when it serves it, and else the
/// first serving profile in name order.
pub fn select_credentials(store: &CredentialStore, api_url: &str, profile: Option<&str>) -> (r:
    Result<Option<Credentials>, CredentialError>)
    ensures
        r matches Ok(c) ==> selection(store@, api_url@, name_view(profile)) == Ok::<
            Option<Credentials>,
            (),
        >(c),
        r is Err <==> selection(store@, api_url@, name_view(profile)) is Err,
        r matches Err(e) ==> selection_error(store@, api_url@, name_view(profile), e),
{
    proof {
        use_type_invariant(store);
    }
    if let Some(name) = profile {
        validate_profile_name(name)?;
        let found = store.get(name);
        match found {
            None => {
                return Ok(None);
            },
            Some(credentials) => {
                if !serves_url(credentials, api_url) {
                    return Err(
                        CredentialError::ProfileUrlMismatch {
                            profile: owned(name),
                            profile_url: normalize_url(credentials.api_url.as_str()),
                            app_url: normalize_url(api_url),
                        },
                    );
                }
                return Ok(Some(credentials.clone()));
            },
        }
    }
    match store.get(store.default_profile.as_str()) {
        Some(credentials) => {
            if serves_url(credentials, api_url) {
                return Ok(Some(credentials.clone()));
            }
        },
        None => {},
    }
    match first_serving_index(&store.entries, api_url) {
        Some(i) => {
            proof {
                lemma_first_serving_at(store.entries@, api_url@, i as int);
            }
            Ok(Some(store.entries[i].credentials.clone()))
        },
        None => {
            proof {
                lemma_first_serving_none(store.entries@, api_url@);
            }
            Ok(None)
        },
    }
}

/// The login for `api_url` from a store that may not exist yet.
pub fn load_for(store: Option<&CredentialStore>, api_url: &str, profile: Option<&str>) -> (r:
    Result<Option<Credentials>, CredentialError>)
    ensures
        store is None ==> (r matches Ok(c) && c is None),
        store matches Some(s) ==> (r matches Ok(c) ==> selection(s@, api_url@, name_view(profile))
            == Ok::<Option<Credentials>, ()>(c)) && (r is Err <==> selection(
            s@,
            api_url@,
            name_view(profile),
        ) is Err),
        store matches Some(s) ==> (r matches Err(e) ==> selection_error(
            s@,
            api_url@,
            name_view(profile),
            e,
        )),
{
    match store {
        None => Ok(None),
        Some(s) => select_credentials(s, api_url, profile),
    }
}

/// The saved token for `api_url`, preferring an explicitly named profile.
pub fn token_for(store: Option<&CredentialStore>, api_url: &str, profile: Option<&str>) -> (r:
    Result<Option<String>, CredentialError>)
    ensures
        store is None ==> (r matches Ok(t) && t is None),
        store matches Some(s) ==> (r matches Ok(t) ==> match selection(
            s@,
            api_url@,
            name_view(profile),
        ) {
            Ok(Some(c)) => t matches Some(tok) && tok == c.token,
            Ok(None) => t is None,
            Err(_) => false,
        }) && (r is Err <==> selection(s@, api_url@, name_view(profile)) is Err),
        store matches Some(s) ==> (r matches Err(e) ==> selection_error(
            s@,
            api_url@,
            name_view(profile),
            e,
        )),
{
    match load_for(store, api_url, profile)? {
        Some(c) => Ok(Some(c.token)),
        None => Ok(None),
    }
}

/// Every saved login for `api_url`, in profile-name order.
pub fn all_for(store: Option<&CredentialStore>, api_url: &str) -> (r: Vec<Credentials>)
    ensures
        store is None ==> r@.len() == 0,
        store matches Some(s) ==> r@ == serving_in_order(s@.names, s@.profiles, api_url@),
        store matches Some(s) ==> model_wf(s@),
{
    match store {
        None => Vec::new(),
        Some(s) => {
            proof {
                use_type_invariant(s);
                lemma_model_wf(s.entries@);
            }
            let v = &s.entries;
            let ghost names = names_of(v@);
            let ghost m = map_of(v@);
            let mut r: Vec<Credentials> = Vec::new();
            let mut i: usize = 0;
            while i < v.len()
                invariant
                    i <= v.len(),
                    names == names_of(v@),
                    m == map_of(v@),
                    ascending(names),
                    r@ == serving_in_order(names.take(i as int), m, api_url@),
                decreases v.len() - i,
            {
                proof {
                    lemma_map_at(v@, i as int);
                    assert(names.take(i + 1).drop_last() =~= names.take(i as int));
                    assert(names.take(i + 1).last() == v@[i as int].name@);
                }
                if serves_url(&v[i].credentials, api_url) {
                    r.push(v[i].credentials.clone());
                }
                i = i + 1;
            }
            assert(names.take(v.len() as int) =~= names);
            r
        },
    }
}

/// The profile a command uses: the named one, else the store's default, else `default`.
pub fn selected_profile(explicit: Option<&str>, store: Option<&CredentialStore>) -> (r: Result<
    String,
    CredentialError,
>)
    ensures
        explicit matches Some(name) ==> (r is Ok <==> valid_profile_name(name@)) && (r matches Ok(
            s,
        ) ==> s@ == name@) && (r matches Err(e) ==> e is InvalidProfileName),
        explicit is None ==> (r matches Ok(s) && s@ == (match store {
            Some(st) => st@.default_profile,
            None => fallback_profile_spec(),
        })),
{
    if let Some(name) = explicit {
        validate_profile_name(name)?;
        return Ok(owned(name));
    }
    match store {
        Some(s) => Ok(s.default_profile().clone()),
        None => Ok(owned("default")),
    }
}

/// The login saved under `profile`, after checking the name.
pub fn profile_credentials(store: Option<&CredentialStore>, profile: &str) -> (r: Result<
    Option<Credentials>,
    CredentialError,
>)
    ensures
        r is Ok <==> valid_profile_name(profile@),
        r matches Ok(c) ==> c == saved(store_view(store), profile@),
        r matches Err(e) ==> e is InvalidProfileName,
{
    validate_profile_name(profile)?;
    match store {
        None => Ok(None),
        Some(s) => match s.get(profile) {
            Some(c) => Ok(Some(c.clone())),
            None => Ok(None),
        },
    }
}

/// The API origin a command talks to: an explicit URL, else the profile's
/// saved origin, else production for the `default` profile.
pub fn api_url_for(profile: &str, explicit_url: Option<&str>, store: Option<&CredentialStore>) -> (r:
    Result<String, CredentialError>)
    ensures
        explicit_url matches Some(u) ==> r matches Ok(s) && s@ == normalized(u@),
        explicit_url is None ==> {
            if !valid_profile_name(profile@) {
                r matches Err(e) && e is InvalidProfileName
            } else {
                match saved(store_view(store), profile@) {
                    Some(c) => r matches Ok(s) && s@ == normalized(c.api_url@),
                    None => if profile@ == fallback_profile_spec() {
                        r matches Ok(s) && s@ == default_api_url_spec()
                    } else {
                        r matches Err(e) && e matches CredentialError::UnknownProfile { profile: p }
                            && p@ == profile@
                    },
                }
            }
        },
{
    if let Some(url) = explicit_url {
        return Ok(normalize_url(url));
    }
    if let Some(credentials) = profile_credentials(store, profile)? {
        return Ok(normalize_url(credentials.api_url.as_str()));
    }
    if same_text(profile, "default") {
        return Ok(default_api_url());
    }
    Err(CredentialError::UnknownProfile { profile: owned(profile) })
}

// ---------------------------------------------------------------------------
// Changing the store
// ---------------------------------------------------------------------------

/// The store after saving `credentials` under `profile`: version 1, every
/// other profile kept, and `profile` the default when the store was new.
pub fn save_profile_at(store: Option<CredentialStore>, profile: &str, credentials: Credentials) -> (r:
    CredentialStore)
    ensures
        r@.version == 1,
        model_wf(r@),
        match store {
            Some(s) => r@.default_profile == s@.default_profile && r@.profiles
                == s@.profiles.insert(profile@, credentials) && r@.names.to_set()
                == s@.names.to_set().insert(profile@),
            None => r@.default_profile == profile@ && r@.profiles == Map::<
                Seq<char>,
                Credentials,
            >::empty().insert(profile@, credentials) && r@.names == seq![profile@],
        },
{
    let base = match store {
        Some(s) => s,
        None => CredentialStore::new(1, owned(profile)),
    };
    let base = base.with_version(1);
    let ghost before = base@;
    let r = base.insert(owned(profile), credentials);
    proof {
        if store is None {
            assert(before.names.to_set() =~= Set::<Seq<char>>::empty());
            assert(r@.names.to_set() =~= set![profile@]);
            assert(r@.names.len() == 1) by {
                lemma_ascending_no_duplicates(r@.names);
                r@.names.unique_seq_to_set();
                assert(set![profile@].len() == 1);
            }
            assert(r@.names.contains(profile@));
            assert(r@.names =~= seq![profile@]);
        }
    }
    r
}

/// Ascending names have no duplicates.
pub proof fn lemma_ascending_no_duplicates(names: Seq<Seq<char>>)
    requires
        ascending(names),
    ensures
        names.no_duplicates(),
{
    assert forall|i: int, j: int| 0 <= i < names.len() && 0 <= j < names.len() && i != j implies names[i]
        != names[j] by {
        if i < j {
            assert(seq_lt(names[i], names[j]));
        } else {
            assert(seq_lt(names[j], names[i]));
        }
        lemma_seq_lt_irreflexive(names[i]);
    }
}

/// Save a login under a checked profile name.
pub fn save(store: Option<CredentialStore>, profile: &str, credentials: Credentials) -> (r: Result<
    CredentialStore,
    CredentialError,
>)
    ensures
        r is Ok <==> valid_profile_name(profile@),
        r matches Err(e) ==> e is InvalidProfileName,
        r matches Ok(n) ==> n@.version == 1 && model_wf(n@) && match store {
            Some(s) => n@.default_profile == s@.default_profile && n@.profiles
                == s@.profiles.insert(profile@, credentials),
            None => n@.default_profile == profile@ && n@.profiles == Map::<
                Seq<char>,
                Credentials,
            >::empty().insert(profile@, credentials),
        },
{
    validate_profile_name(profile)?;
    Ok(save_profile_at(store, profile, credentials))
}

/// The store with `profile`, which must be saved, as its default.
pub fn set_default_at(store: Option<CredentialStore>, profile: &str) -> (r: Result<
    CredentialStore,
    CredentialError,
>)
    ensures
        store is None ==> (r matches Err(e) && e is NoProfiles),
        store matches Some(s) ==> if s@.profiles.dom().contains(profile@) {
            r matches Ok(n) && n@.default_profile == profile@ && n@.profiles == s@.profiles
                && n@.names == s@.names && n@.version == s@.version
        } else {
            r matches Err(e) && e matches CredentialError::UnknownProfile { profile: p } && p@
                == profile@
        },
{
    let s = match store {
        None => {
            return Err(CredentialError::NoProfiles);
        },
        Some(s) => s,
    };
    if s.get(profile).is_none() {
        return Err(CredentialError::UnknownProfile { profile: owned(profile) });
    }
    Ok(s.with_default(owned(profile)))
}

/// Make a saved profile, named by a checked name, the default.
pub fn set_default(store: Option<CredentialStore>, profile: &str) -> (r: Result<
    CredentialStore,
    CredentialError,
>)
    ensures
        !valid_profile_name(profile@) ==> (r matches Err(e) && e is InvalidProfileName),
        valid_profile_name(profile@) ==> (store is None ==> (r matches Err(e) && e is NoProfiles)),
        valid_profile_name(profile@) ==> (store matches Some(s) ==> if s@.profiles.dom().contains(
            profile@,
        ) {
            r matches Ok(n) && n@.default_profile == profile@ && n@.profiles == s@.profiles
                && n@.names == s@.names && n@.version == s@.version
        } else {
            r matches Err(e) && e matches CredentialError::UnknownProfile { profile: p } && p@
                == profile@
        }),
{
    validate_profile_name(profile)?;
    set_default_at(store, profile)
}

/// Accept a freshly read store only at version 1 and with its default saved.
pub fn check_store(store: CredentialStore) -> (r: Result<CredentialStore, CredentialError>)
    ensures
        store@.version != 1 ==> (r matches Err(e) && e matches CredentialError::UnsupportedVersion {
            version: v,
        } && v == store@.version),
        store@.version == 1 && !store@.profiles.dom().contains(store@.default_profile) ==> (
        r matches Err(e) && e matches CredentialError::MissingDefault { default_profile: d } && d@
            == store@.default_profile),
        store@.version == 1 && store@.profiles.dom().contains(store@.default_profile) ==> (
        r matches Ok(s) && s@ == store@),
{
    if store.version() != 1 {
        return Err(CredentialError::UnsupportedVersion { version: store.version() });
    }
    if store.get(store.default_profile().as_str()).is_none() {
        return Err(CredentialError::MissingDefault { default_profile: store.default_profile().clone() });
    }
    Ok(store)
}

/// The saved profiles in name order, each marked when it is the default.
pub fn profiles(store: Option<&CredentialStore>) -> (r: Vec<SavedProfile>)
    ensures
        store is None ==> r@.len() == 0,
        store matches Some(s) ==> {
            &&& r@.len() == s@.names.len()
            &&& forall|i: int|
                0 <= i < r@.len() ==> {
                    &&& (#[trigger] r@[i]).name@ == s@.names[i]
                    &&& r@[i].credentials == s@.profiles[s@.names[i]]
                    &&& r@[i].is_default == (s@.names[i] == s@.default_profile)
                }
            &&& model_wf(s@)
        },
{
    match store {
        None => Vec::new(),
        Some(s) => {
            proof {
                use_type_invariant(s);
                lemma_model_wf(s.entries@);
            }
            let v = &s.entries;
            let mut r: Vec<SavedProfile> = Vec::new();
            let mut i: usize = 0;
            while i < v.len()
                invariant
                    i <= v.len(),
                    ascending(names_of(v@)),
                    v@ == s.entries@,
                    r@.len() == i,
                    forall|j: int|
                        0 <= j < i ==> {
                            &&& (#[trigger] r@[j]).name@ == s@.names[j]
                            &&& r@[j].credentials == s@.profiles[s@.names[j]]
                            &&& r@[j].is_default == (s@.names[j] == s@.default_profile)
                        },
                decreases v.len() - i,
            {
                proof {
                    lemma_map_at(v@, i as int);
                }
                let is_default = same_text(v[i].name.as_str(), s.default_profile.as_str());
                r.push(
                    SavedProfile {
                        name: v[i].name.clone(),
                        credentials: v[i].credentials.clone(),
                        is_default,
                    },
                );
                i = i + 1;
            }
            r
        },
    }
}

/// Where the profiles file lives, from the process environment.
pub struct ConfigEnv {
    pub maypop_config_dir: Option<String>,
    pub xdg_config_home: Option<String>,
    pub appdata: Option<String>,
    pub windows: bool,
    pub home: Option<String>,
}

/// The pieces of the profiles file's path, to be joined in order: an
/// explicit override first, then XDG, then `APPDATA` on Windows, then the home directory.
pub fn profiles_file(env: &ConfigEnv) -> (r: Result<Vec<String>, CredentialError>)
    ensures
        env.maypop_config_dir matches Some(d) ==> (r matches Ok(p) && p@.len() == 2 && p@[0]@
            == d@ && p@[1]@ == "profiles.json"@),
        env.maypop_config_dir is None ==> (env.xdg_config_home matches Some(d) ==> (r matches Ok(p)
            && p@.len() == 3 && p@[0]@ == d@ && p@[1]@ == "maypop"@ && p@[2]@ == "profiles.json"@)),
        env.maypop_config_dir is None && env.xdg_config_home is None && env.windows ==> (
        env.appdata matches Some(d) ==> (r matches Ok(p) && p@.len() == 3 && p@[0]@ == d@
            && p@[1]@ == "maypop"@ && p@[2]@ == "profiles.json"@)),
        env.maypop_config_dir is None && env.xdg_config_home is None && !(env.windows
            && env.appdata is Some) ==> match env.home {
            Some(h) => r matches Ok(p) && p@.len() == 4 && p@[0]@ == h@ && p@[1]@ == ".config"@
                && p@[2]@ == "maypop"@ && p@[3]@ == "profiles.json"@,
            None => r matches Err(e) && e is NoConfigDirectory,
        },
{
    let mut pieces: Vec<String> = Vec::new();
    if let Some(d) = &env.maypop_config_dir {
        pieces.push(d.clone());
        pieces.push(owned("profiles.json"));
        return Ok(pieces);
    }
    if let Some(d) = &env.xdg_config_home {
        pieces.push(d.clone());
        pieces.push(owned("maypop"));
        pieces.push(owned("profiles.json"));
        return Ok(pieces);
    }
    if env.windows {
        if let Some(d) = &env.appdata {
            pieces.push(d.clone());
            pieces.push(owned("maypop"));
            pieces.push(owned("profiles.json"));
            return Ok(pieces);
        }
    }
    match &env.home {
        Some(h) => {
            pieces.push(h.clone());
            pieces.push(owned(".config"));
            pieces.push(owned("maypop"));
            pieces.push(owned("profiles.json"));
            Ok(pieces)
        },
        None => Err(CredentialError::NoConfigDirectory),
    }
}

} // verus!
