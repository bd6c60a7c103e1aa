//! The key-value registry schema and an exact in-memory model of the store.
//!
//! Two kinds of keys share one flat namespace: `site:<url>` holds the
//! last-seen normalized text of a tracked page, and `sub:<url>:<public-key>`
//! holds one serialized subscription record. This prefix convention is the
//! public schema of the registry, not an implementation detail. The host's
//! store is reached only through get/put/delete/list-by-prefix, which this
//! model states exactly over a map view.

use vstd::prelude::*;

verus! {

/// The registry key that holds a tracked page's last normalized snapshot.
pub open spec fn spec_site_key(url: Seq<char>) -> Seq<char> {
    "site:"@ + url
}

/// The registry key that holds one subscription record.
pub open spec fn spec_sub_key(url: Seq<char>, p256dh: Seq<char>) -> Seq<char> {
    "sub:"@ + url + ":"@ + p256dh
}

/// The common prefix of every subscription key for one page.
pub open spec fn spec_sub_prefix(url: Seq<char>) -> Seq<char> {
    "sub:"@ + url + ":"@
}

pub open spec fn spec_has_prefix(s: Seq<char>, p: Seq<char>) -> bool {
    p.len() <= s.len() && s.subrange(0, p.len() as int) == p
}

/// Builds `site:<url>`.
pub fn site_key(url: &String) -> (r: String)
    ensures
        r@ == spec_site_key(url@),
{
    let mut s = String::from_str("site:");
    s.append(url.as_str());
    s
}

/// Builds `sub:<url>:<p256dh>`.
pub fn sub_key(url: &String, p256dh: &String) -> (r: String)
    ensures
        r@ == spec_sub_key(url@, p256dh@),
{
    let mut s = String::from_str("sub:");
    s.append(url.as_str());
    s.append(":");
    s.append(p256dh.as_str());
    proof {
        assert(s@ =~= spec_sub_key(url@, p256dh@));
    }
    s
}

/// Builds `sub:<url>:`, the listing prefix for one page's subscriptions.
pub fn sub_prefix(url: &String) -> (r: String)
    ensures
        r@ == spec_sub_prefix(url@),
{
    let mut s = String::from_str("sub:");
    s.append(url.as_str());
    s.append(":");
    proof {
        assert(s@ =~= spec_sub_prefix(url@));
    }
    s
}

/// Whether `s` starts with `p`, by characters.
pub fn has_prefix(s: &str, p: &str) -> (r: bool)
    ensures
        r == spec_has_prefix(s@, p@),
{
    let sn = s.unicode_len();
    let pn = p.unicode_len();
    if pn > sn {
        return false;
    }
    let mut i: usize = 0;
    while i < pn
        invariant
            i <= pn <= sn,
            sn == s@.len(),
            pn == p@.len(),
            forall|j: int| 0 <= j < i ==> s@[j] == p@[j],
        decreases pn - i,
    {
        if s.get_char(i) != p.get_char(i) {
            return false;
        }
        i += 1;
    }
    proof {
        assert(s@.subrange(0, p@.len() as int) =~= p@);
    }
    true
}

/// The URL of a site key: the key with the `site:` prefix stripped, or
/// nothing where the key does not carry that prefix.
pub fn url_of_site_key(key: &String) -> (r: Option<String>)
    ensures
        r is Some <==> spec_has_prefix(key@, "site:"@),
        r matches Some(u) ==> key@ == spec_site_key(u@),
{
    proof {
        reveal_strlit("site:");
    }
    if has_prefix(key.as_str(), "site:") {
        let n = key.as_str().unicode_len();
        let u = key.as_str().substring_char(5, n).to_owned();
        proof {
            assert(key@ =~= spec_site_key(u@));
        }
        Some(u)
    } else {
        None
    }
}

/// The map that a sequence of entries denotes; a later entry overrides an
/// earlier one with the same key.
pub open spec fn kv_map(s: Seq<(String, String)>) -> Map<Seq<char>, Seq<char>>
    decreases s.len(),
{
    if s.len() == 0 {
        Map::empty()
    } else {
        kv_map(s.drop_last()).insert(s.last().0@, s.last().1@)
    }
}

proof fn lemma_kv_map_contains(s: Seq<(String, String)>, k: Seq<char>)
    ensures
        kv_map(s).contains_key(k) <==> (exists|i: int| 0 <= i < s.len() && s[i].0@ == k),
    decreases s.len(),
{
    if s.len() > 0 {
        lemma_kv_map_contains(s.drop_last(), k);
        if s.last().0@ == k {
            assert(s[s.len() - 1].0@ == k);
        } else if kv_map(s).contains_key(k) {
            let i = choose|i: int| 0 <= i < s.drop_last().len() && s.drop_last()[i].0@ == k;
            assert(s[i].0@ == k);
        } else if exists|i: int| 0 <= i < s.len() && s[i].0@ == k {
            let i = choose|i: int| 0 <= i < s.len() && s[i].0@ == k;
            assert(0 <= i < s.len() - 1);
            assert(s.drop_last()[i].0@ == k);
        }
    }
}

/// Pairwise-distinct keys among the entries.
pub open spec fn distinct_keys(s: Seq<(String, String)>) -> bool {
    forall|i: int, j: int| 0 <= i < j < s.len() ==> s[i].0@ != s[j].0@
}

proof fn lemma_kv_map_get(s: Seq<(String, String)>, i: int)
    requires
        distinct_keys(s),
        0 <= i < s.len(),
    ensures
        kv_map(s).contains_key(s[i].0@),
        kv_map(s)[s[i].0@] == s[i].1@,
    decreases s.len(),
{
    if i == s.len() - 1 {
    } else {
        assert(distinct_keys(s.drop_last()));
        assert(s.drop_last()[i].0@ == s[i].0@);
        lemma_kv_map_get(s.drop_last(), i);
        assert(s[i].0@ != s.last().0@);
    }
}

proof fn lemma_kv_map_remove(s: Seq<(String, String)>, i: int)
    requires
        distinct_keys(s),
        0 <= i < s.len(),
    ensures
        kv_map(s.remove(i)) =~= kv_map(s).remove(s[i].0@),
    decreases s.len(),
{
    if i == s.len() - 1 {
        assert(s.remove(i) =~= s.drop_last());
        lemma_kv_map_contains(s.drop_last(), s[i].0@);
        assert(!kv_map(s.drop_last()).contains_key(s[i].0@));
        assert(kv_map(s.drop_last()) =~= kv_map(s.drop_last()).insert(s.last().0@, s.last().1@).remove(
            s[i].0@,
        ));
    } else {
        assert(distinct_keys(s.drop_last()));
        lemma_kv_map_remove(s.drop_last(), i);
        assert(s.remove(i).drop_last() =~= s.drop_last().remove(i));
        assert(s.remove(i).last() == s.last());
        assert(s[i].0@ != s.last().0@);
        assert(kv_map(s.remove(i)) == kv_map(s.drop_last().remove(i)).insert(
            s.last().0@,
            s.last().1@,
        ));
    }
}

/// An in-memory model of the external key-value store: an association list
/// with pairwise-distinct keys, viewed as a map from key text to value text.
pub struct Registry {
    entries: Vec<(String, String)>,
}

impl View for Registry {
    type V = Map<Seq<char>, Seq<char>>;

    closed spec fn view(&self) -> Map<Seq<char>, Seq<char>> {
        kv_map(self.entries@)
    }
}

impl Registry {
    /// Well-formed: no key occurs twice.
    pub closed spec fn wf(&self) -> bool {
        distinct_keys(self.entries@)
    }

    /// An empty registry.
    pub fn new() -> (r: Registry)
        ensures
            r.wf(),
            r@ == Map::<Seq<char>, Seq<char>>::empty(),
    {
        Registry { entries: Vec::new() }
    }

    fn find(&self, key: &String) -> (r: Option<usize>)
        ensures
            r matches Some(i) ==> i < self.entries@.len() && self.entries@[i as int].0@ == key@,
            r is None ==> forall|j: int| 0 <= j < self.entries@.len() ==> self.entries@[j].0@
                != key@,
    {
        let n = self.entries.len();
        let mut i: usize = 0;
        while i < n
            invariant
                i <= n == self.entries@.len(),
                forall|j: int| 0 <= j < i ==> self.entries@[j].0@ != key@,
            decreases n - i,
        {
            if self.entries[i].0 == *key {
                return Some(i);
            }
            i += 1;
        }
        None
    }

    /// Looks a key up; nothing comes back exactly when the key is absent.
    pub fn get(&self, key: &String) -> (r: Option<String>)
        requires
            self.wf(),
        ensures
            r is Some <==> self@.contains_key(key@),
            r matches Some(v) ==> v@ == self@[key@],
    {
        proof {
            lemma_kv_map_contains(self.entries@, key@);
        }
        match self.find(key) {
            Some(i) => {
                proof {
                    lemma_kv_map_get(self.entries@, i as int);
                }
                Some(self.entries[i].1.clone())
            },
            None => None,
        }
    }

    /// Stores a value under a key, overwriting any earlier value there.
    pub fn put(&mut self, key: String, value: String)
        requires
            old(self).wf(),
        ensures
            final(self).wf(),
            final(self)@ == old(self)@.insert(key@, value@),
    {
        let ghost m0 = self@;
        match self.find(&key) {
            Some(i) => {
                proof {
                    lemma_kv_map_remove(self.entries@, i as int);
                }
                self.entries.remove(i);
                proof {
                    assert(forall|j: int|
                        0 <= j < self.entries@.len() ==> self.entries@[j].0@ != key@) by {
                        assert(distinct_keys(old(self).entries@));
                    }
                }
            },
            None => {},
        }
        let ghost m1 = kv_map(self.entries@);
        let ghost before = self.entries@;
        self.entries.push((key, value));
        proof {
            assert(self.entries@.drop_last() =~= before);
            assert(self@ =~= m0.insert(key@, value@));
        }
    }

    /// Deletes a key; deleting an absent key changes nothing.
    pub fn delete(&mut self, key: &String)
        requires
            old(self).wf(),
        ensures
            final(self).wf(),
            final(self)@ == old(self)@.remove(key@),
    {
        proof {
            lemma_kv_map_contains(self.entries@, key@);
        }
        match self.find(key) {
            Some(i) => {
                proof {
                    lemma_kv_map_remove(self.entries@, i as int);
                }
                self.entries.remove(i);
            },
            None => {
                proof {
                    assert(self@ =~= self@.remove(key@));
                }
            },
        }
    }

    /// Every stored key that starts with `prefix`, each exactly once, in
    /// unspecified order.
    pub fn keys_for_prefix(&self, prefix: &String) -> (r: Vec<String>)
        requires
            self.wf(),
        ensures
            forall|j: int|
                0 <= j < r@.len() ==> spec_has_prefix(#[trigger] r@[j]@, prefix@)
                    && self@.contains_key(r@[j]@),
            forall|k: Seq<char>|
                self@.contains_key(k) && spec_has_prefix(k, prefix@) ==> exists|j: int|
                    0 <= j < r@.len() && r@[j]@ == k,
            forall|j1: int, j2: int| 0 <= j1 < j2 < r@.len() ==> r@[j1]@ != r@[j2]@,
    {
        let n = self.entries.len();
        let mut out: Vec<String> = Vec::new();
        let mut i: usize = 0;
        while i < n
            invariant
                i <= n == self.entries@.len(),
                self.wf(),
                forall|j: int|
                    0 <= j < out@.len() ==> exists|ii: int|
                        0 <= ii < i && #[trigger] out@[j]@ == self.entries@[ii].0@,
                forall|j: int|
                    0 <= j < out@.len() ==> spec_has_prefix(#[trigger] out@[j]@, prefix@),
                forall|ii: int|
                    0 <= ii < i && spec_has_prefix(#[trigger] self.entries@[ii].0@, prefix@)
                        ==> exists|j: int| 0 <= j < out@.len() && out@[j]@ == self.entries@[ii].0@,
                forall|j1: int, j2: int| 0 <= j1 < j2 < out@.len() ==> out@[j1]@ != out@[j2]@,
            decreases n - i,
        {
            if has_prefix(self.entries[i].0.as_str(), prefix.as_str()) {
                let ghost out0 = out@;
                proof {
                    assert forall|j: int|
                        0 <= j < out@.len() implies out@[j]@ != self.entries@[i as int].0@ by {
                        let ii = choose|ii: int|
                            0 <= ii < i && out@[j]@ == self.entries@[ii].0@;
                        assert(self.entries@[ii].0@ != self.entries@[i as int].0@);
                    }
                }
                out.push(self.entries[i].0.clone());
                proof {
                    assert(out@[out@.len() - 1]@ == self.entries@[i as int].0@);
                    assert(forall|j: int| 0 <= j < out0.len() ==> out@[j] == out0[j]);
                }
            }
            i += 1;
        }
        proof {
            assert forall|j: int|
                0 <= j < out@.len() implies self@.contains_key(#[trigger] out@[j]@) by {
                let ii = choose|ii: int| 0 <= ii < n && out@[j]@ == self.entries@[ii].0@;
                lemma_kv_map_get(self.entries@, ii);
            }
            assert forall|k: Seq<char>|
                self@.contains_key(k) && spec_has_prefix(k, prefix@) implies exists|j: int|
                0 <= j < out@.len() && out@[j]@ == k by {
                lemma_kv_map_contains(self.entries@, k);
                let ii = choose|ii: int| 0 <= ii < n && self.entries@[ii].0@ == k;
                assert(spec_has_prefix(self.entries@[ii].0@, prefix@));
            }
        }
        out
    }
}

} // verus!
