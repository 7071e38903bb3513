//! In-memory mirror of the OS secret store: a string-to-string map that the
//! caller loads once and writes back whole after each change.
use vstd::prelude::*;

verus! {

pub type Entry = (Seq<char>, Seq<char>);

pub open spec fn entry_views(s: Seq<(String, String)>) -> Seq<Entry> {
    s.map_values(|e: (String, String)| (e.0@, e.1@))
}

/// The value of the last entry with key `k`.
pub open spec fn lookup(s: Seq<Entry>, k: Seq<char>) -> Option<Seq<char>>
    decreases s.len(),
{
    if s.len() == 0 {
        None
    } else if s.last().0 == k {
        Some(s.last().1)
    } else {
        lookup(s.drop_last(), k)
    }
}

/// The secret store's entries as they were last loaded or written.
#[derive(Debug)]
pub struct SecretCache {
    entries: Vec<(String, String)>,
}

impl View for SecretCache {
    type V = Map<Seq<char>, Seq<char>>;

    closed spec fn view(&self) -> Map<Seq<char>, Seq<char>> {
        Map::new(
            |k: Seq<char>| lookup(entry_views(self.entries@), k) is Some,
            |k: Seq<char>| lookup(entry_views(self.entries@), k)->Some_0,
        )
    }
}

proof fn lemma_lookup_push(s: Seq<Entry>, e: Entry, k: Seq<char>)
    ensures
        lookup(s.push(e), k) == if e.0 == k { Some(e.1) } else { lookup(s, k) },
{
    assert(s.push(e).drop_last() =~= s);
}

impl SecretCache {
    /// An empty store.
    pub fn new() -> (r: SecretCache)
        ensures
            r@ == Map::<Seq<char>, Seq<char>>::empty(),
    {
        let r = SecretCache { entries: Vec::new() };
        assert(r@ =~= Map::<Seq<char>, Seq<char>>::empty());
        r
    }

    /// The store as loaded: for a key given more than once the last value
    /// counts.
    pub fn from_entries(entries: Vec<(String, String)>) -> (r: SecretCache)
        ensures
            forall|k: Seq<char>| #[trigger] r@.contains_key(k) <==> lookup(entry_views(entries@), k) is Some,
            forall|k: Seq<char>| r@.contains_key(k) ==> #[trigger] r@[k] == lookup(entry_views(entries@), k)->Some_0,
    {
        SecretCache { entries }
    }

    /// The entries to write back, one per key.
    pub fn entries(&self) -> (r: &Vec<(String, String)>)
        ensures
            forall|k: Seq<char>| #[trigger] self@.contains_key(k) <==> lookup(entry_views(r@), k) is Some,
            forall|k: Seq<char>| self@.contains_key(k) ==> #[trigger] self@[k] == lookup(entry_views(r@), k)->Some_0,
    {
        &self.entries
    }

    /// An equal store.
    pub fn duplicate(&self) -> (r: SecretCache)
        ensures
            r@ == self@,
    {
        let mut out: Vec<(String, String)> = Vec::new();
        let mut i: usize = 0;
        while i < self.entries.len()
            invariant
                i <= self.entries@.len(),
                entry_views(out@) == entry_views(self.entries@.subrange(0, i as int)),
            decreases self.entries@.len() - i,
        {
            let e = &self.entries[i];
            let ghost before = out@;
            out.push((e.0.clone(), e.1.clone()));
            proof {
                assert(entry_views(out@) =~= entry_views(before).push((e.0@, e.1@)));
                assert(entry_views(self.entries@.subrange(0, i as int + 1)) =~= entry_views(self.entries@.subrange(0, i as int)).push((e.0@, e.1@)));
            }
            i = i + 1;
        }
        assert(self.entries@.subrange(0, i as int) =~= self.entries@);
        let r = SecretCache { entries: out };
        assert(r@ =~= self@);
        r
    }

    /// The entries without any of key `key`.
    fn without(&self, key: &str) -> (r: Vec<(String, String)>)
        ensures
            lookup(entry_views(r@), key@) is None,
            forall|k: Seq<char>| k != key@ ==> #[trigger] lookup(entry_views(r@), k) == lookup(entry_views(self.entries@), k),
    {
        let wanted = key.to_string();
        let mut out: Vec<(String, String)> = Vec::new();
        let mut i: usize = 0;
        while i < self.entries.len()
            invariant
                i <= self.entries@.len(),
                wanted@ == key@,
                lookup(entry_views(out@), key@) is None,
                forall|k: Seq<char>| k != key@ ==> #[trigger] lookup(entry_views(out@), k) == lookup(entry_views(self.entries@.subrange(0, i as int)), k),
            decreases self.entries@.len() - i,
        {
            let e = &self.entries[i];
            let ghost ev = (e.0@, e.1@);
            proof {
                assert(entry_views(self.entries@.subrange(0, i as int + 1)) =~= entry_views(self.entries@.subrange(0, i as int)).push(ev));
                assert forall|k: Seq<char>| true implies #[trigger] lookup(entry_views(self.entries@.subrange(0, i as int + 1)), k)
                    == if ev.0 == k { Some(ev.1) } else { lookup(entry_views(self.entries@.subrange(0, i as int)), k) } by {
                    lemma_lookup_push(entry_views(self.entries@.subrange(0, i as int)), ev, k);
                }
            }
            if !e.0.eq(&wanted) {
                let ghost before = out@;
                out.push((e.0.clone(), e.1.clone()));
                proof {
                    assert(entry_views(out@) =~= entry_views(before).push(ev));
                    assert forall|k: Seq<char>| true implies #[trigger] lookup(entry_views(out@), k)
                        == if ev.0 == k { Some(ev.1) } else { lookup(entry_views(before), k) } by {
                        lemma_lookup_push(entry_views(before), ev, k);
                    }
                }
            }
            i = i + 1;
        }
        assert(self.entries@.subrange(0, i as int) =~= self.entries@);
        out
    }
}

/// The value stored under `key`, if any.
pub fn get(cache: &SecretCache, key: &str) -> (r: Option<String>)
    ensures
        match r {
            Some(v) => cache@.contains_key(key@) && cache@[key@] == v@,
            None => !cache@.contains_key(key@),
        },
{
    let wanted = key.to_string();
    let mut i: usize = cache.entries.len();
    assert(cache.entries@.subrange(0, i as int) =~= cache.entries@);
    while i > 0
        invariant
            i <= cache.entries@.len(),
            wanted@ == key@,
            lookup(entry_views(cache.entries@), key@) == lookup(entry_views(cache.entries@.subrange(0, i as int)), key@),
        decreases i,
    {
        let e = &cache.entries[i - 1];
        proof {
            let pre = cache.entries@.subrange(0, i as int);
            assert(entry_views(pre).drop_last() =~= entry_views(cache.entries@.subrange(0, i - 1)));
            assert(entry_views(pre).last() == (e.0@, e.1@));
        }
        if e.0.eq(&wanted) {
            return Some(e.1.clone());
        }
        i = i - 1;
    }
    None
}

/// The store with `key` set to `value`.
pub fn save(cache: &SecretCache, key: &str, value: &str) -> (r: SecretCache)
    ensures
        r@ == cache@.insert(key@, value@),
{
    let mut entries = cache.without(key);
    let ghost before = entries@;
    entries.push((key.to_string(), value.to_string()));
    let r = SecretCache { entries };
    proof {
        assert(entry_views(r.entries@) =~= entry_views(before).push((key@, value@)));
        assert forall|k: Seq<char>| true implies #[trigger] lookup(entry_views(r.entries@), k)
            == if key@ == k { Some(value@) } else { lookup(entry_views(before), k) } by {
            lemma_lookup_push(entry_views(before), (key@, value@), k);
        }
        assert(r@ =~= cache@.insert(key@, value@));
    }
    r
}

/// The store without `key`; nothing when the key was absent, as then there
/// is nothing to write back.
pub fn remove(cache: &SecretCache, key: &str) -> (r: Option<SecretCache>)
    ensures
        match r {
            Some(c) => cache@.contains_key(key@) && c@ == cache@.remove(key@),
            None => !cache@.contains_key(key@),
        },
{
    match get(cache, key) {
        None => None,
        Some(_) => {
            let r = SecretCache { entries: cache.without(key) };
            assert(r@ =~= cache@.remove(key@));
            Some(r)
        },
    }
}

} // verus!
