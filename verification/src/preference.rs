//! The user's saved preferences: the GitHub token, and the LDAP names of
//! GitHub users.

use vstd::prelude::*;
use crate::format::FormatterContext;
use crate::text::str_equal;

verus! {

/// The map that `(key, value)` pairs make when the first pair with a key
/// gives its value.
pub open spec fn pairs_map(s: Seq<(Seq<char>, Seq<char>)>) -> Map<Seq<char>, Seq<char>>
    decreases s.len(),
{
    if s.len() == 0 {
        Map::empty()
    } else {
        let m = pairs_map(s.drop_last());
        if m.dom().contains(s.last().0) {
            m
        } else {
            m.insert(s.last().0, s.last().1)
        }
    }
}

pub open spec fn pair_views(s: Seq<(String, String)>) -> Seq<(Seq<char>, Seq<char>)> {
    s.map_values(|p: (String, String)| (p.0@, p.1@))
}

proof fn lemma_pairs_map_dom(s: Seq<(Seq<char>, Seq<char>)>, k: Seq<char>)
    ensures
        pairs_map(s).dom().contains(k) <==> exists|i: int| 0 <= i < s.len() && #[trigger] s[i].0 == k,
    decreases s.len(),
{
    if s.len() > 0 {
        lemma_pairs_map_dom(s.drop_last(), k);
        if pairs_map(s.drop_last()).dom().contains(k) {
            let i = choose|i: int| 0 <= i < s.drop_last().len() && #[trigger] s.drop_last()[i].0 == k;
            assert(s[i].0 == k);
        }
        if exists|i: int| 0 <= i < s.len() && #[trigger] s[i].0 == k {
            let i = choose|i: int| 0 <= i < s.len() && #[trigger] s[i].0 == k;
            if i < s.len() - 1 {
                assert(s.drop_last()[i].0 == k);
            }
        }
    }
}

proof fn lemma_pairs_map_first(s: Seq<(Seq<char>, Seq<char>)>, i: int)
    requires
        0 <= i < s.len(),
        forall|j: int| 0 <= j < i ==> #[trigger] s[j].0 != s[i].0,
    ensures
        pairs_map(s).dom().contains(s[i].0),
        pairs_map(s)[s[i].0] == s[i].1,
    decreases s.len(),
{
    let k = s[i].0;
    if i == s.len() - 1 {
        lemma_pairs_map_dom(s.drop_last(), k);
        if pairs_map(s.drop_last()).dom().contains(k) {
            let j = choose|j: int| 0 <= j < s.drop_last().len() && #[trigger] s.drop_last()[j].0 == k;
            assert(s[j].0 == k);
        }
    } else {
        assert forall|j: int| 0 <= j < i implies #[trigger] s.drop_last()[j].0 != s.drop_last()[i].0 by {
            assert(s[j].0 != s[i].0);
        }
        lemma_pairs_map_first(s.drop_last(), i);
    }
}

proof fn lemma_pairs_map_update(s: Seq<(Seq<char>, Seq<char>)>, i: int, v: Seq<char>)
    requires
        0 <= i < s.len(),
        forall|j: int| 0 <= j < i ==> #[trigger] s[j].0 != s[i].0,
    ensures
        pairs_map(s.update(i, (s[i].0, v))) =~= pairs_map(s).insert(s[i].0, v),
    decreases s.len(),
{
    let k = s[i].0;
    let t = s.update(i, (k, v));
    if i == s.len() - 1 {
        assert(t.drop_last() =~= s.drop_last());
        lemma_pairs_map_dom(s.drop_last(), k);
        if pairs_map(s.drop_last()).dom().contains(k) {
            let j = choose|j: int| 0 <= j < s.drop_last().len() && #[trigger] s.drop_last()[j].0 == k;
            assert(s[j].0 == k);
        }
    } else {
        assert(t.drop_last() =~= s.drop_last().update(i, (k, v)));
        assert forall|j: int| 0 <= j < i implies #[trigger] s.drop_last()[j].0 != s.drop_last()[i].0 by {
            assert(s[j].0 != s[i].0);
        }
        lemma_pairs_map_update(s.drop_last(), i, v);
        lemma_pairs_map_dom(s.drop_last(), k);
        assert(s.drop_last()[i].0 == k);
        assert(t.last() == s.last());
    }
}

/// The LDAP names of GitHub users, by GitHub login.
#[derive(Debug)]
pub struct LdapMap {
    pairs: Vec<(String, String)>,
}

impl View for LdapMap {
    type V = Map<Seq<char>, Seq<char>>;

    closed spec fn view(&self) -> Map<Seq<char>, Seq<char>> {
        pairs_map(pair_views(self.pairs@))
    }
}

impl LdapMap {
    pub fn new() -> (r: Self)
        ensures
            r@ == Map::<Seq<char>, Seq<char>>::empty(),
    {
        let r = LdapMap { pairs: Vec::new() };
        assert(pair_views(r.pairs@) =~= Seq::<(Seq<char>, Seq<char>)>::empty());
        r
    }

    /// The first position that holds `key`, if any.
    fn position(&self, key: &str) -> (r: Option<usize>)
        ensures
            match r {
                Some(i) => i < self.pairs@.len() && pair_views(self.pairs@)[i as int].0 == key@
                    && forall|j: int| 0 <= j < i ==> #[trigger] pair_views(self.pairs@)[j].0 != key@,
                None => forall|j: int|
                    0 <= j < self.pairs@.len() ==> #[trigger] pair_views(self.pairs@)[j].0 != key@,
            },
    {
        let mut i: usize = 0;
        while i < self.pairs.len()
            invariant
                i <= self.pairs@.len(),
                forall|j: int| 0 <= j < i ==> #[trigger] pair_views(self.pairs@)[j].0 != key@,
            decreases self.pairs.len() - i,
        {
            if str_equal(self.pairs[i].0.as_str(), key) {
                return Some(i);
            }
            i += 1;
        }
        None
    }

    /// The LDAP name of the GitHub user `key`, if there is one.
    pub fn get(&self, key: &str) -> (r: Option<&String>)
        ensures
            match r {
                Some(v) => self@.dom().contains(key@) && self@[key@] == v@,
                None => !self@.dom().contains(key@),
            },
    {
        let ghost s = pair_views(self.pairs@);
        match self.position(key) {
            Some(i) => {
                proof {
                    lemma_pairs_map_first(s, i as int);
                }
                Some(&self.pairs[i].1)
            },
            None => {
                proof {
                    lemma_pairs_map_dom(s, key@);
                }
                None
            },
        }
    }

    /// Sets the LDAP name of the GitHub user `key` to `value`.
    pub fn insert(&mut self, key: String, value: String)
        ensures
            final(self)@ == old(self)@.insert(key@, value@),
    {
        let ghost s = pair_views(self.pairs@);
        match self.position(key.as_str()) {
            Some(i) => {
                proof {
                    lemma_pairs_map_update(s, i as int, value@);
                }
                self.pairs.set(i, (key, value));
                assert(pair_views(self.pairs@) =~= s.update(i as int, (s[i as int].0, value@)));
            },
            None => {
                proof {
                    lemma_pairs_map_dom(s, key@);
                }
                self.pairs.push((key, value));
                assert(pair_views(self.pairs@).drop_last() =~= s);
            },
        }
    }

    /// The `(login, LDAP name)` pairs; where a login occurs more than once,
    /// its first pair counts.
    pub fn pairs(&self) -> (r: &Vec<(String, String)>)
        ensures
            pairs_map(pair_views(r@)) == self@,
    {
        &self.pairs
    }
}

impl Clone for LdapMap {
    fn clone(&self) -> (r: Self)
        ensures
            r@ == self@,
    {
        let mut pairs: Vec<(String, String)> = Vec::new();
        let mut i: usize = 0;
        while i < self.pairs.len()
            invariant
                i <= self.pairs@.len(),
                pairs@.len() == i,
                pair_views(pairs@) == pair_views(self.pairs@).take(i as int),
            decreases self.pairs.len() - i,
        {
            let p = (self.pairs[i].0.clone(), self.pairs[i].1.clone());
            let ghost prev = pairs@;
            pairs.push(p);
            proof {
                let a = pair_views(pairs@);
                let b = pair_views(self.pairs@).take(i + 1);
                assert forall|k: int| 0 <= k < i + 1 implies a[k] == b[k] by {
                    if k < i {
                        assert(pairs@[k] == prev[k]);
                        assert(pair_views(prev)[k] == b[k]);
                    }
                }
                assert(a =~= b);
            }
            i += 1;
        }
        assert(pair_views(self.pairs@).take(self.pairs@.len() as int) =~= pair_views(self.pairs@));
        LdapMap { pairs }
    }
}

/// What the user has saved: a GitHub token, and the LDAP names of GitHub
/// users.
#[derive(Debug)]
pub struct UserPreference {
    token: Option<String>,
    github_ldap_map: Option<LdapMap>,
}

impl UserPreference {
    /// The saved token.
    pub closed spec fn saved_token(&self) -> Option<Seq<char>> {
        self.token.deep_view()
    }

    /// The saved LDAP names.
    pub closed spec fn ldap_names(&self) -> Option<Map<Seq<char>, Seq<char>>> {
        match self.github_ldap_map {
            Some(m) => Some(m@),
            None => None,
        }
    }

    pub fn new(token: Option<String>, github_ldap_map: Option<LdapMap>) -> (r: Self)
        ensures
            r.saved_token() == token.deep_view(),
            r.ldap_names() == (match github_ldap_map {
                Some(m) => Some(m@),
                None => None::<Map<Seq<char>, Seq<char>>>,
            }),
    {
        UserPreference { token, github_ldap_map }
    }

    pub fn token(&self) -> (r: Option<&str>)
        ensures
            match r {
                Some(t) => self.saved_token() == Some(t@),
                None => self.saved_token() is None,
            },
    {
        match &self.token {
            Some(t) => Some(t.as_str()),
            None => None,
        }
    }

    pub fn set_token(&mut self, token: &str)
        ensures
            final(self).saved_token() == Some(token@),
            final(self).ldap_names() == old(self).ldap_names(),
    {
        self.token = Some(token.to_owned());
    }

    pub fn github_ldap_map(&self) -> (r: Option<&LdapMap>)
        ensures
            match r {
                Some(m) => self.ldap_names() == Some(m@),
                None => self.ldap_names() is None,
            },
    {
        match &self.github_ldap_map {
            Some(m) => Some(m),
            None => None,
        }
    }
}

impl Default for UserPreference {
    fn default() -> (r: Self)
        ensures
            r.saved_token() is None,
            r.ldap_names() is None,
    {
        UserPreference { token: None, github_ldap_map: None }
    }
}

impl Clone for UserPreference {
    fn clone(&self) -> (r: Self)
        ensures
            r.saved_token() == self.saved_token(),
            r.ldap_names() == self.ldap_names(),
    {
        let token = match &self.token {
            Some(t) => Some(t.clone()),
            None => None,
        };
        let github_ldap_map = match &self.github_ldap_map {
            Some(m) => Some(m.clone()),
            None => None,
        };
        UserPreference { token, github_ldap_map }
    }
}

/// The LDAP name that the saved map gives for a login.
pub open spec fn ldap_lookup(names: Option<Map<Seq<char>, Seq<char>>>, login: Seq<char>) -> Option<
    Seq<char>,
> {
    match names {
        Some(m) => if m.dom().contains(login) {
            Some(m[login])
        } else {
            None
        },
        None => None,
    }
}

impl FormatterContext for UserPreference {
    open spec fn ldap_of(&self, github_id: Seq<char>) -> Option<Seq<char>> {
        ldap_lookup(self.ldap_names(), github_id)
    }

    fn github_id_to_ldap(&self, github_id: &str) -> (r: Option<String>) {
        match &self.github_ldap_map {
            Some(m) => match m.get(github_id) {
                Some(v) => Some(v.clone()),
                None => None,
            },
            None => None,
        }
    }
}


/// Reading a login back after setting its LDAP name gives that name, and
/// setting it changes no other login's name.
pub proof fn lemma_lookup_after_insert(
    names: Map<Seq<char>, Seq<char>>,
    login: Seq<char>,
    name: Seq<char>,
    other: Seq<char>,
)
    ensures
        ldap_lookup(Some(names.insert(login, name)), login) == Some(name),
        other != login ==> ldap_lookup(Some(names.insert(login, name)), other) == ldap_lookup(
            Some(names),
            other,
        ),
{
}

} // verus!
