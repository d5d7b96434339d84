//! Shares and the registry that holds them, keyed by share token.

use vstd::prelude::*;
use std::path::PathBuf;
use std::time::SystemTime;
use crate::text::str_eq;
use vstd::std_specs::convert::IntoSpec;

verus! {

/// `std::path::PathBuf`, which shares carry through unread.
#[verifier::external_type_specification]
#[verifier::external_body]
pub struct ExPathBuf(PathBuf);

/// `std::time::SystemTime`, which shares carry through unread.
#[verifier::external_type_specification]
#[verifier::external_body]
pub struct ExSystemTime(SystemTime);

/// `PathBuf::clone`: the copy is the same path.
pub assume_specification[ <PathBuf as Clone>::clone ](p: &PathBuf) -> (r: PathBuf)
    ensures
        r == *p,
;

/// The current time (`SystemTime::now`).
///
/// Trusted, with nothing said of the result: it is read from the system clock.
#[verifier::external_body]
fn current_time() -> SystemTime {
    SystemTime::now()
}

/// Where a share's bytes come from: a file picked by path.
#[derive(Debug)]
pub enum ShareSource {
    Path(PathBuf),
}

impl Clone for ShareSource {
    fn clone(&self) -> (r: Self)
        ensures
            r == *self,
    {
        match self {
            ShareSource::Path(p) => ShareSource::Path(p.clone()),
        }
    }
}

impl From<PathBuf> for ShareSource {
    fn from(p: PathBuf) -> (r: Self)
        ensures
            r == ShareSource::Path(p),
    {
        ShareSource::Path(p)
    }
}

impl vstd::std_specs::convert::FromSpecImpl<PathBuf> for ShareSource {
    open spec fn obeys_from_spec() -> bool {
        true
    }

    open spec fn from_spec(p: PathBuf) -> ShareSource {
        ShareSource::Path(p)
    }
}

/// One shared file: its token, where its bytes come from, the name and size
/// shown to recipients, the password hash if it is protected, how many
/// downloads have started, and when it was created.
#[derive(Debug)]
pub struct Share {
    pub token: String,
    pub source: ShareSource,
    pub name: String,
    pub size: u64,
    pub password_hash: Option<String>,
    pub download_count: u64,
    pub created_at: SystemTime,
}

impl Clone for Share {
    fn clone(&self) -> (r: Self)
        ensures
            r == *self,
    {
        let password_hash = match &self.password_hash {
            Some(h) => Some(h.clone()),
            None => None,
        };
        Share {
            token: self.token.clone(),
            source: self.source.clone(),
            name: self.name.clone(),
            size: self.size,
            password_hash,
            download_count: self.download_count,
            created_at: self.created_at,
        }
    }
}

impl Share {
    /// Creates a new share with download_count 0 and created_at now.
    pub fn new<S: Into<ShareSource>>(
        token: String,
        source: S,
        name: String,
        size: u64,
        password_hash: Option<String>,
    ) -> (r: Self)
        ensures
            r.token == token,
            S::obeys_into_spec() ==> r.source == source.into_spec(),
            r.name == name,
            r.size == size,
            r.password_hash == password_hash,
            r.download_count == 0,
    {
        Share {
            token,
            source: source.into(),
            name,
            size,
            password_hash,
            download_count: 0,
            created_at: current_time(),
        }
    }
}


/// Whether no two entries share a key.
pub open spec fn unique_keys(s: Seq<(String, Share)>) -> bool {
    forall|i: int, j: int| 0 <= i < j < s.len() ==> s[i].0@ != s[j].0@
}

/// The keys of the entries, in order.
pub open spec fn keys_of(s: Seq<(String, Share)>) -> Seq<Seq<char>> {
    s.map_values(|e: (String, Share)| e.0@)
}

/// The map that a list of (key, share) entries stands for.
pub open spec fn entries_map(s: Seq<(String, Share)>) -> Map<Seq<char>, Share> {
    Map::new(
        |k: Seq<char>| exists|i: int| 0 <= i < s.len() && s[i].0@ == k,
        |k: Seq<char>| s[choose|i: int| 0 <= i < s.len() && s[i].0@ == k].1,
    )
}

/// With unique keys, each entry is what the map holds under its key.
proof fn lemma_entry_lookup(s: Seq<(String, Share)>, i: int)
    requires
        unique_keys(s),
        0 <= i < s.len(),
    ensures
        entries_map(s).contains_key(s[i].0@),
        entries_map(s)[s[i].0@] == s[i].1,
{
    let k = s[i].0@;
    assert(exists|j: int| 0 <= j < s.len() && s[j].0@ == k);
    let j = choose|j: int| 0 <= j < s.len() && s[j].0@ == k;
    if j != i {
        if j < i {
            assert(s[j].0@ != s[i].0@);
        } else {
            assert(s[i].0@ != s[j].0@);
        }
    }
}

/// With unique keys, the map has as many keys as there are entries.
proof fn lemma_entries_len(s: Seq<(String, Share)>)
    requires
        unique_keys(s),
    ensures
        entries_map(s).dom() == keys_of(s).to_set(),
        entries_map(s).len() == s.len(),
{
    let ks = keys_of(s);
    assert(entries_map(s).dom() =~= ks.to_set()) by {
        assert forall|k: Seq<char>| entries_map(s).dom().contains(k) implies ks.to_set().contains(
            k,
        ) by {
            let i = choose|i: int| 0 <= i < s.len() && s[i].0@ == k;
            assert(ks[i] == k);
        }
        assert forall|k: Seq<char>| ks.to_set().contains(k) implies entries_map(
            s,
        ).dom().contains(k) by {
            let i = choose|i: int| 0 <= i < ks.len() && ks[i] == k;
            assert(s[i].0@ == k);
        }
    }
    assert(ks.no_duplicates()) by {
        assert forall|i: int, j: int| 0 <= i < ks.len() && 0 <= j < ks.len() && i != j implies ks[i]
            != ks[j] by {
            if i < j {
                assert(s[i].0@ != s[j].0@);
            } else {
                assert(s[j].0@ != s[i].0@);
            }
        }
    }
    ks.unique_seq_to_set();
}

/// Replacing the share of one entry, key kept, replaces it in the map.
proof fn lemma_entry_update(s: Seq<(String, Share)>, i: int, v: Share)
    requires
        unique_keys(s),
        0 <= i < s.len(),
    ensures
        unique_keys(s.update(i, (s[i].0, v))),
        entries_map(s.update(i, (s[i].0, v))) == entries_map(s).insert(s[i].0@, v),
{
    let t = s.update(i, (s[i].0, v));
    let k = s[i].0@;
    assert(unique_keys(t)) by {
        assert forall|a: int, b: int| 0 <= a < b < t.len() implies t[a].0@ != t[b].0@ by {
            assert(t[a].0@ == s[a].0@);
            assert(t[b].0@ == s[b].0@);
        }
    }
    assert forall|kk: Seq<char>| #[trigger] entries_map(t).dom().contains(kk)
        <==> entries_map(s).dom().contains(kk) by {
        if entries_map(t).dom().contains(kk) {
            let j = choose|j: int| 0 <= j < t.len() && t[j].0@ == kk;
            assert(s[j].0@ == kk);
        }
        if entries_map(s).dom().contains(kk) {
            let j = choose|j: int| 0 <= j < s.len() && s[j].0@ == kk;
            assert(t[j].0@ == kk);
        }
    }
    assert forall|kk: Seq<char>| #[trigger] entries_map(t).dom().contains(kk) implies entries_map(
        t,
    )[kk] == entries_map(s).insert(k, v)[kk] by {
        let j = choose|j: int| 0 <= j < t.len() && t[j].0@ == kk;
        lemma_entry_lookup(t, j);
        if kk != k {
            lemma_entry_lookup(s, j);
        }
    }
    assert(entries_map(t) =~= entries_map(s).insert(k, v));
}

/// Dropping one entry drops its key from the map.
proof fn lemma_entry_remove(s: Seq<(String, Share)>, i: int)
    requires
        unique_keys(s),
        0 <= i < s.len(),
    ensures
        unique_keys(s.remove(i)),
        entries_map(s.remove(i)) == entries_map(s).remove(s[i].0@),
{
    let t = s.remove(i);
    let k = s[i].0@;
    assert forall|a: int| 0 <= a < t.len() implies #[trigger] t[a] == if a < i {
        s[a]
    } else {
        s[a + 1]
    } by {}
    assert(unique_keys(t)) by {
        assert forall|a: int, b: int| 0 <= a < b < t.len() implies t[a].0@ != t[b].0@ by {
            if a < i {
                assert(t[a] == s[a]);
            } else {
                assert(t[a] == s[a + 1]);
            }
            if b < i {
                assert(t[b] == s[b]);
            } else {
                assert(t[b] == s[b + 1]);
            }
        }
    }
    assert forall|kk: Seq<char>| #[trigger] entries_map(t).dom().contains(kk)
        <==> entries_map(s).remove(k).dom().contains(kk) by {
        if entries_map(t).dom().contains(kk) {
            let j = choose|j: int| 0 <= j < t.len() && t[j].0@ == kk;
            if j < i {
                assert(s[j].0@ == kk);
                assert(s[j].0@ != s[i].0@);
            } else {
                assert(s[j + 1].0@ == kk);
                assert(s[i].0@ != s[j + 1].0@);
            }
        }
        if entries_map(s).remove(k).dom().contains(kk) {
            let j = choose|j: int| 0 <= j < s.len() && s[j].0@ == kk;
            assert(j != i);
            if j < i {
                assert(t[j].0@ == kk);
            } else {
                assert(t[j - 1].0@ == kk);
            }
        }
    }
    assert forall|kk: Seq<char>| #[trigger] entries_map(t).dom().contains(kk) implies entries_map(
        t,
    )[kk] == entries_map(s)[kk] by {
        let j = choose|j: int| 0 <= j < t.len() && t[j].0@ == kk;
        lemma_entry_lookup(t, j);
        if j < i {
            lemma_entry_lookup(s, j);
        } else {
            lemma_entry_lookup(s, j + 1);
        }
    }
    assert(entries_map(t) =~= entries_map(s).remove(k));
}

/// The registry of live shares, keyed by token.
pub struct ShareRegistry {
    shares: Vec<(String, Share)>,
}

impl View for ShareRegistry {
    type V = Map<Seq<char>, Share>;

    /// The shares, by token.
    closed spec fn view(&self) -> Map<Seq<char>, Share> {
        entries_map(self.shares@)
    }
}

impl Default for ShareRegistry {
    fn default() -> (r: Self)
        ensures
            r.wf(),
            r@ == Map::<Seq<char>, Share>::empty(),
    {
        ShareRegistry::new()
    }
}

impl ShareRegistry {
    /// Well-formedness: no token is held twice.
    pub closed spec fn wf(&self) -> bool {
        unique_keys(self.shares@)
    }

    /// An empty registry.
    pub fn new() -> (r: Self)
        ensures
            r.wf(),
            r@ == Map::<Seq<char>, Share>::empty(),
    {
        let r = ShareRegistry { shares: Vec::new() };
        assert(r@ =~= Map::<Seq<char>, Share>::empty());
        r
    }

    /// The position of the entry whose key is `token`.
    fn position(&self, token: &str) -> (r: Option<usize>)
        ensures
            match r {
                Some(i) => i < self.shares@.len() && self.shares@[i as int].0@ == token@,
                None => forall|i: int|
                    0 <= i < self.shares@.len() ==> self.shares@[i].0@ != token@,
            },
    {
        let mut i: usize = 0;
        while i < self.shares.len()
            invariant
                i <= self.shares@.len(),
                forall|j: int| 0 <= j < i ==> self.shares@[j].0@ != token@,
            decreases self.shares@.len() - i,
        {
            if str_eq(self.shares[i].0.as_str(), token) {
                return Some(i);
            }
            i = i + 1;
        }
        None
    }

    /// Adds a share under its token, replacing any share already held there.
    pub fn insert(&mut self, share: Share)
        requires
            old(self).wf(),
        ensures
            final(self).wf(),
            final(self)@ == old(self)@.insert(share.token@, share),
    {
        let ghost k = share.token@;
        let ghost old_entries = self.shares@;
        match self.position(share.token.as_str()) {
            Some(i) => {
                let key = self.shares[i].0.clone();
                proof {
                    lemma_entry_update(old_entries, i as int, share);
                }
                self.shares.set(i, (key, share));
            },
            None => {
                let key = share.token.clone();
                self.shares.push((key, share));
                proof {
                    let s = self.shares@;
                    assert(unique_keys(s)) by {
                        assert forall|a: int, b: int| 0 <= a < b < s.len() implies s[a].0@
                            != s[b].0@ by {
                            if b < old_entries.len() {
                                assert(s[a] == old_entries[a]);
                                assert(s[b] == old_entries[b]);
                            } else {
                                assert(s[a] == old_entries[a]);
                            }
                        }
                    }
                    assert forall|kk: Seq<char>| #[trigger] entries_map(s).dom().contains(kk)
                        <==> entries_map(old_entries).insert(k, share).dom().contains(kk) by {
                        if entries_map(s).dom().contains(kk) && kk != k {
                            let j = choose|j: int| 0 <= j < s.len() && s[j].0@ == kk;
                            assert(old_entries[j].0@ == kk);
                        }
                        if entries_map(old_entries).dom().contains(kk) {
                            let j = choose|j: int| 0 <= j < old_entries.len() && old_entries[j].0@ == kk;
                            assert(s[j].0@ == kk);
                        }
                        if kk == k {
                            assert(s[old_entries.len() as int].0@ == kk);
                        }
                    }
                    assert forall|kk: Seq<char>| #[trigger] entries_map(s).dom().contains(kk)
                        implies entries_map(s)[kk] == entries_map(old_entries).insert(k, share)[kk] by {
                        let j = choose|j: int| 0 <= j < s.len() && s[j].0@ == kk;
                        lemma_entry_lookup(s, j);
                        if kk != k {
                            assert(j < old_entries.len());
                            lemma_entry_lookup(old_entries, j);
                        }
                    }
                    assert(entries_map(s) =~= entries_map(old_entries).insert(k, share));
                }
            },
        }
    }

    /// The share held under `token`, if any.
    pub fn get(&self, token: &str) -> (r: Option<&Share>)
        requires
            self.wf(),
        ensures
            match r {
                Some(sh) => self@.contains_key(token@) && *sh == self@[token@],
                None => !self@.contains_key(token@),
            },
    {
        match self.position(token) {
            Some(i) => {
                proof {
                    lemma_entry_lookup(self.shares@, i as int);
                }
                Some(&self.shares[i].1)
            },
            None => None,
        }
    }

    /// Mutable access to the share held under `token`, if any; the token it
    /// is held under stays the same whatever is done through the reference.
    pub fn get_mut(&mut self, token: &str) -> (r: Option<&mut Share>)
        requires
            old(self).wf(),
        ensures
            final(self).wf(),
            match r {
                Some(sh) => {
                    &&& old(self)@.contains_key(token@)
                    &&& *sh == old(self)@[token@]
                    &&& final(self)@ == old(self)@.insert(token@, *final(sh))
                },
                None => {
                    &&& !old(self)@.contains_key(token@)
                    &&& final(self)@ == old(self)@
                },
            },
    {
        match self.position(token) {
            Some(i) => {
                proof {
                    lemma_entry_lookup(self.shares@, i as int);
                    assert forall|v: Share| #![trigger self.shares@.update(i as int, (self.shares@[i as int].0, v))]
                        unique_keys(self.shares@.update(i as int, (self.shares@[i as int].0, v)))
                        && entries_map(self.shares@.update(i as int, (self.shares@[i as int].0, v)))
                        == entries_map(self.shares@).insert(token@, v) by {
                        lemma_entry_update(self.shares@, i as int, v);
                    }
                }
                Some(&mut self.shares[i].1)
            },
            None => None,
        }
    }

    /// Takes the share held under `token` out of the registry.
    pub fn remove(&mut self, token: &str) -> (r: Option<Share>)
        requires
            old(self).wf(),
        ensures
            final(self).wf(),
            final(self)@ == old(self)@.remove(token@),
            match r {
                Some(sh) => old(self)@.contains_key(token@) && sh == old(self)@[token@],
                None => !old(self)@.contains_key(token@),
            },
    {
        match self.position(token) {
            Some(i) => {
                proof {
                    lemma_entry_lookup(self.shares@, i as int);
                    lemma_entry_remove(self.shares@, i as int);
                }
                let (_, sh) = self.shares.remove(i);
                Some(sh)
            },
            None => {
                assert(self@.remove(token@) =~= self@);
                None
            },
        }
    }

    /// Every share in the registry, each once, in some order.
    pub fn list(&self) -> (r: Vec<Share>)
        requires
            self.wf(),
        ensures
            r@.len() == self@.len(),
            exists|tokens: Seq<Seq<char>>|
                {
                    &&& tokens.no_duplicates()
                    &&& tokens.to_set() == self@.dom()
                    &&& r@ == tokens.map_values(|t: Seq<char>| self@[t])
                },
    {
        let mut out: Vec<Share> = Vec::new();
        let mut i: usize = 0;
        let ghost ks = keys_of(self.shares@);
        while i < self.shares.len()
            invariant
                self.wf(),
                ks == keys_of(self.shares@),
                i <= self.shares@.len(),
                out@ == ks.take(i as int).map_values(|t: Seq<char>| self@[t]),
            decreases self.shares@.len() - i,
        {
            let sh = self.shares[i].1.clone();
            proof {
                lemma_entry_lookup(self.shares@, i as int);
            }
            out.push(sh);
            assert(out@ =~= ks.take(i + 1).map_values(|t: Seq<char>| self@[t]));
            i = i + 1;
        }
        proof {
            lemma_entries_len(self.shares@);
            assert(ks.take(self.shares@.len() as int) =~= ks);
            assert(ks.no_duplicates()) by {
                assert forall|a: int, b: int| 0 <= a < ks.len() && 0 <= b < ks.len() && a != b
                    implies ks[a] != ks[b] by {
                    if a < b {
                        assert(self.shares@[a].0@ != self.shares@[b].0@);
                    } else {
                        assert(self.shares@[b].0@ != self.shares@[a].0@);
                    }
                }
            }
        }
        out
    }

    /// Whether the registry holds no share.
    pub fn is_empty(&self) -> (r: bool)
        requires
            self.wf(),
        ensures
            r == (self@.len() == 0),
    {
        proof {
            lemma_entries_len(self.shares@);
        }
        self.shares.len() == 0
    }

    /// How many shares the registry holds.
    pub fn len(&self) -> (r: usize)
        requires
            self.wf(),
        ensures
            r == self@.len(),
    {
        proof {
            lemma_entries_len(self.shares@);
        }
        self.shares.len()
    }

    /// The set of held tokens is finite.
    pub proof fn lemma_finite(&self)
        requires
            self.wf(),
        ensures
            self@.dom().finite(),
    {
        lemma_entries_len(self.shares@);
    }
}

} // verus!
