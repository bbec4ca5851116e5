//! Small keyed collections: texts by name, and sets of names. Both keep
//! their entries in a vector; a name looked up finds its first entry.

use crate::json::{string_eq, text};
use vstd::prelude::*;

verus! {

/// The value of the first entry named `k`.
pub open spec fn first_value<W>(s: Seq<(Seq<char>, W)>, k: Seq<char>) -> Option<W>
    decreases s.len(),
{
    if s.len() == 0 {
        None
    } else if s[0].0 == k {
        Some(s[0].1)
    } else {
        first_value(s.drop_first(), k)
    }
}

/// The position of the first entry named `k`.
pub open spec fn first_index<W>(s: Seq<(Seq<char>, W)>, k: Seq<char>) -> Option<int>
    decreases s.len(),
{
    if s.len() == 0 {
        None
    } else if s[0].0 == k {
        Some(0)
    } else {
        match first_index(s.drop_first(), k) {
            Some(i) => Some(i + 1),
            None => None,
        }
    }
}

/// The map that lookups by first entry give.
pub open spec fn pairs_map<W>(s: Seq<(Seq<char>, W)>) -> Map<Seq<char>, W> {
    Map::new(|k: Seq<char>| first_value(s, k) is Some, |k: Seq<char>| first_value(s, k)->Some_0)
}

/// Whether an entry is named otherwise than `k`.
pub open spec fn key_differs<W>(k: Seq<char>) -> spec_fn((Seq<char>, W)) -> bool {
    |p: (Seq<char>, W)| p.0 != k
}

/// `s` without its entries named `k`.
pub open spec fn without_key<W>(s: Seq<(Seq<char>, W)>, k: Seq<char>) -> Seq<(Seq<char>, W)> {
    s.filter(key_differs(k))
}

/// `s` with the value of `k` set to `v`: the first entry named `k` takes
/// it, or a new entry is added at the end.
pub open spec fn with_value<W>(s: Seq<(Seq<char>, W)>, k: Seq<char>, v: W) -> Seq<(Seq<char>, W)> {
    match first_index(s, k) {
        Some(i) => s.update(i, (k, v)),
        None => s.push((k, v)),
    }
}

pub proof fn lemma_first_index<W>(s: Seq<(Seq<char>, W)>, k: Seq<char>)
    ensures
        first_index(s, k) is None <==> first_value(s, k) is None,
        first_index(s, k) is None ==> forall|j: int| 0 <= j < s.len() ==> #[trigger] s[j].0 != k,
        first_index(s, k) matches Some(i) ==> {
            &&& 0 <= i < s.len()
            &&& s[i].0 == k
            &&& first_value(s, k) == Some(s[i].1)
            &&& forall|j: int| 0 <= j < i ==> #[trigger] s[j].0 != k
        },
    decreases s.len(),
{
    if s.len() > 0 {
        lemma_first_index(s.drop_first(), k);
        if s[0].0 != k {
            assert forall|j: int| 0 < j < s.len() implies #[trigger] s[j].0 == s.drop_first()[j - 1].0 by {}
        }
    }
}

/// A lookup finds the first entry with the name, whatever follows it.
pub proof fn lemma_first_value_at<W>(s: Seq<(Seq<char>, W)>, k: Seq<char>, i: int)
    requires
        0 <= i < s.len(),
        s[i].0 == k,
        forall|j: int| 0 <= j < i ==> #[trigger] s[j].0 != k,
    ensures
        first_value(s, k) == Some(s[i].1),
        first_index(s, k) == Some(i),
    decreases s.len(),
{
    if i > 0 {
        assert forall|j: int| 0 <= j < i - 1 implies #[trigger] s.drop_first()[j].0 != k by {
            assert(s.drop_first()[j] == s[j + 1]);
        }
        lemma_first_value_at(s.drop_first(), k, i - 1);
    }
}

/// A lookup finds nothing when no entry has the name.
pub proof fn lemma_first_value_absent<W>(s: Seq<(Seq<char>, W)>, k: Seq<char>)
    requires
        forall|j: int| 0 <= j < s.len() ==> #[trigger] s[j].0 != k,
    ensures
        first_value(s, k) is None,
        first_index(s, k) is None,
    decreases s.len(),
{
    if s.len() > 0 {
        assert forall|j: int| 0 <= j < s.len() - 1 implies #[trigger] s.drop_first()[j].0 != k by {
            assert(s.drop_first()[j] == s[j + 1]);
        }
        lemma_first_value_absent(s.drop_first(), k);
    }
}

/// What a lookup gives after a value is set.
pub proof fn lemma_with_value<W>(s: Seq<(Seq<char>, W)>, k: Seq<char>, v: W, x: Seq<char>)
    ensures
        first_value(with_value(s, k, v), x) == (if x == k {
            Some(v)
        } else {
            first_value(s, x)
        }),
{
    lemma_first_index(s, k);
    lemma_first_index(s, x);
    let t = with_value(s, k, v);
    match first_index(s, k) {
        Some(i) => {
            if x == k {
                assert forall|j: int| 0 <= j < i implies #[trigger] t[j].0 != k by {}
                lemma_first_value_at(t, k, i);
            } else {
                match first_index(s, x) {
                    Some(m) => {
                        assert forall|j: int| 0 <= j < m implies #[trigger] t[j].0 != x by {}
                        lemma_first_value_at(t, x, m);
                    },
                    None => {
                        assert forall|j: int| 0 <= j < t.len() implies #[trigger] t[j].0 != x by {}
                        lemma_first_value_absent(t, x);
                    },
                }
            }
        },
        None => {
            if x == k {
                assert forall|j: int| 0 <= j < s.len() implies #[trigger] t[j].0 != k by {}
                lemma_first_value_at(t, k, s.len() as int);
            } else {
                match first_index(s, x) {
                    Some(m) => {
                        assert forall|j: int| 0 <= j < m implies #[trigger] t[j].0 != x by {}
                        lemma_first_value_at(t, x, m);
                    },
                    None => {
                        assert forall|j: int| 0 <= j < t.len() implies #[trigger] t[j].0 != x by {}
                        lemma_first_value_absent(t, x);
                    },
                }
            }
        },
    }
}

/// What a lookup gives after an entry is added at the end.
pub proof fn lemma_first_value_push<W>(s: Seq<(Seq<char>, W)>, p: (Seq<char>, W), x: Seq<char>)
    ensures
        first_value(s.push(p), x) == (if first_value(s, x) is Some {
            first_value(s, x)
        } else if p.0 == x {
            Some(p.1)
        } else {
            None
        }),
    decreases s.len(),
{
    if s.len() > 0 {
        assert(s.push(p)[0] == s[0]);
        assert(s.push(p).drop_first() =~= s.drop_first().push(p));
        lemma_first_value_push(s.drop_first(), p, x);
    } else {
        assert(s.push(p)[0] == p);
        assert(s.push(p).drop_first() =~= Seq::<(Seq<char>, W)>::empty());
        assert(first_value(Seq::<(Seq<char>, W)>::empty(), x) is None);
        assert(first_value(s, x) is None);
    }
}

/// What a lookup gives after the entries of a name are dropped.
pub proof fn lemma_without_key<W>(s: Seq<(Seq<char>, W)>, k: Seq<char>, x: Seq<char>)
    ensures
        first_value(without_key(s, k), x) == (if x == k {
            None
        } else {
            first_value(s, x)
        }),
{
    let keep = key_differs::<W>(k);
    lemma_first_value_filter(s, keep);
    assert(first_value(s.filter(keep), x) == kept_value(first_value(s, x), x, keep));
}

pub proof fn lemma_pairs_map_with_value<W>(s: Seq<(Seq<char>, W)>, k: Seq<char>, v: W)
    ensures
        pairs_map(with_value(s, k, v)) == pairs_map(s).insert(k, v),
{
    assert forall|x: Seq<char>| #[trigger] first_value(with_value(s, k, v), x) == (if x == k {
        Some(v)
    } else {
        first_value(s, x)
    }) by {
        lemma_with_value(s, k, v, x);
    }
    assert(pairs_map(with_value(s, k, v)) =~= pairs_map(s).insert(k, v));
}

pub proof fn lemma_pairs_map_without_key<W>(s: Seq<(Seq<char>, W)>, k: Seq<char>)
    ensures
        pairs_map(without_key(s, k)) == pairs_map(s).remove(k),
{
    assert forall|x: Seq<char>| #[trigger] first_value(without_key(s, k), x) == (if x == k {
        None
    } else {
        first_value(s, x)
    }) by {
        lemma_without_key(s, k, x);
    }
    assert(pairs_map(without_key(s, k)) =~= pairs_map(s).remove(k));
}

/// Texts by name: the state of an application, or the text typed into its
/// form fields.
pub struct TextMap {
    entries: Vec<(String, String)>,
}

impl TextMap {
    /// The entries as texts.
    pub closed spec fn pairs(&self) -> Seq<(Seq<char>, Seq<char>)> {
        self.entries@.map_values(|p: (String, String)| (p.0@, p.1@))
    }
}

impl View for TextMap {
    type V = Map<Seq<char>, Seq<char>>;

    closed spec fn view(&self) -> Map<Seq<char>, Seq<char>> {
        pairs_map(self.pairs())
    }
}

impl TextMap {
    pub fn new() -> (m: TextMap)
        ensures
            m@ == Map::<Seq<char>, Seq<char>>::empty(),
    {
        let m = TextMap { entries: Vec::new() };
        assert(m@ =~= Map::<Seq<char>, Seq<char>>::empty());
        m
    }

    /// The position of the first entry named `key`.
    fn position(&self, key: &str) -> (r: Option<usize>)
        ensures
            match r {
                Some(i) => first_index(self.pairs(), key@) == Some(i as int) && i < self.entries.len(),
                None => first_index(self.pairs(), key@) is None,
            },
    {
        let wanted = text(key);
        let ghost s = self.pairs();
        let mut i: usize = 0;
        while i < self.entries.len()
            invariant
                i <= self.entries.len(),
                s == self.pairs(),
                s.len() == self.entries.len(),
                wanted@ == key@,
                forall|j: int| 0 <= j < i ==> (#[trigger] s[j]).0 != key@,
            decreases self.entries.len() - i,
        {
            assert(s[i as int] == (self.entries@[i as int].0@, self.entries@[i as int].1@));
            if string_eq(&self.entries[i].0, &wanted) {
                proof {
                    lemma_first_value_at(s, key@, i as int);
                }
                return Some(i);
            }
            i = i + 1;
        }
        proof {
            lemma_first_value_absent(s, key@);
        }
        None
    }

    /// The text of `key`.
    pub fn get(&self, key: &str) -> (r: Option<&String>)
        ensures
            match r {
                Some(v) => self@.contains_key(key@) && self@[key@] == v@,
                None => !self@.contains_key(key@),
            },
    {
        proof {
            lemma_first_index(self.pairs(), key@);
        }
        match self.position(key) {
            Some(i) => {
                assert(self.pairs()[i as int] == (self.entries@[i as int].0@, self.entries@[i as int].1@));
                Some(&self.entries[i].1)
            },
            None => None,
        }
    }

    /// Sets `key` to `value`.
    pub fn insert(&mut self, key: String, value: String)
        ensures
            final(self)@ == old(self)@.insert(key@, value@),
    {
        let ghost s = self.pairs();
        proof {
            lemma_first_index(s, key@);
            lemma_pairs_map_with_value(s, key@, value@);
        }
        match self.position(key.as_str()) {
            Some(i) => {
                let kv = (key, value);
                self.entries.set(i, kv);
                assert(self.pairs() =~= with_value(s, kv.0@, kv.1@));
            },
            None => {
                let kv = (key, value);
                self.entries.push(kv);
                assert(self.pairs() =~= with_value(s, kv.0@, kv.1@));
            },
        }
    }

    /// Drops `key`.
    pub fn remove(&mut self, key: &str)
        ensures
            final(self)@ == old(self)@.remove(key@),
    {
        let ghost s = self.pairs();
        let mut kept: Vec<(String, String)> = Vec::new();
        let mut i: usize = 0;
        let wanted = text(key);
        while i < self.entries.len()
            invariant
                i <= self.entries.len(),
                s == self.pairs(),
                wanted@ == key@,
                kept@.map_values(|p: (String, String)| (p.0@, p.1@)) == without_key(
                    s.subrange(0, i as int),
                    key@,
                ),
            decreases self.entries.len() - i,
        {
            let ghost before = kept@.map_values(|p: (String, String)| (p.0@, p.1@));
            let ghost sub = s.subrange(0, i as int);
            proof {
                assert(s.subrange(0, i + 1) =~= sub.push(s[i as int]));
                lemma_filter_push(sub, key_differs::<Seq<char>>(key@), s[i as int]);
            }
            if !string_eq(&self.entries[i].0, &wanted) {
                let k = self.entries[i].0.clone();
                let v = self.entries[i].1.clone();
                kept.push((k, v));
                assert(kept@.map_values(|p: (String, String)| (p.0@, p.1@)) =~= before.push(s[i as int]));
            }
            i = i + 1;
        }
        assert(s.subrange(0, s.len() as int) =~= s);
        self.entries = kept;
        proof {
            lemma_pairs_map_without_key(s, key@);
        }
    }

    /// A copy of the map.
    pub fn copy(&self) -> (r: TextMap)
        ensures
            r@ == self@,
    {
        let mut entries: Vec<(String, String)> = Vec::new();
        let mut i: usize = 0;
        while i < self.entries.len()
            invariant
                i <= self.entries.len(),
                entries@.map_values(|p: (String, String)| (p.0@, p.1@)) == self.pairs().subrange(0, i as int),
            decreases self.entries.len() - i,
        {
            let ghost before = entries@.map_values(|p: (String, String)| (p.0@, p.1@));
            let k = self.entries[i].0.clone();
            let v = self.entries[i].1.clone();
            entries.push((k, v));
            assert(self.pairs()[i as int] == (self.entries@[i as int].0@, self.entries@[i as int].1@));
            assert(entries@.map_values(|p: (String, String)| (p.0@, p.1@)) =~= before.push(self.pairs()[i as int]));
            assert(self.pairs().subrange(0, i + 1) =~= self.pairs().subrange(0, i as int).push(self.pairs()[i as int]));
            i = i + 1;
        }
        let r = TextMap { entries };
        assert(r.pairs() =~= self.pairs());
        r
    }
}

/// `o`, when the entry it comes from is kept.
pub open spec fn kept_value<W>(o: Option<W>, x: Seq<char>, keep: spec_fn((Seq<char>, W)) -> bool) -> Option<W> {
    match o {
        Some(v) => if keep((x, v)) {
            Some(v)
        } else {
            None
        },
        None => None,
    }
}

/// `s.push(x)` filtered.
pub proof fn lemma_filter_push<A>(s: Seq<A>, pred: spec_fn(A) -> bool, x: A)
    ensures
        s.push(x).filter(pred) == (if pred(x) {
            s.filter(pred).push(x)
        } else {
            s.filter(pred)
        }),
{
    reveal(Seq::filter);
    assert(s.push(x).drop_last() =~= s);
}

/// Filtering by a predicate on entries keeps the lookups of the names it
/// keeps, and drops the others.
pub proof fn lemma_first_value_filter_at<W>(
    s: Seq<(Seq<char>, W)>,
    keep: spec_fn((Seq<char>, W)) -> bool,
    x: Seq<char>,
)
    requires
        forall|p: (Seq<char>, W), q: (Seq<char>, W)| #![trigger keep(p), keep(q)] p.0 == q.0 ==> keep(p) == keep(q),
    ensures
        first_value(s.filter(keep), x) == kept_value(first_value(s, x), x, keep),
    decreases s.len(),
{
    if s.len() == 0 {
        reveal(Seq::filter);
    } else {
        let t = s.drop_last();
        let last = s.last();
        lemma_first_value_filter_at(t, keep, x);
        assert(t.push(last) =~= s);
        lemma_filter_push(t, keep, last);
        lemma_first_value_push(t, last, x);
        lemma_first_value_push(t.filter(keep), last, x);
        if first_value(t, x) is Some && last.0 == x {
            let v = first_value(t, x)->Some_0;
            assert(keep((x, v)) == keep(last));
        }
        if first_value(t, x) is None && last.0 == x {
            assert(last == (x, last.1));
        }
    }
}

pub proof fn lemma_first_value_filter<W>(s: Seq<(Seq<char>, W)>, keep: spec_fn((Seq<char>, W)) -> bool)
    requires
        forall|p: (Seq<char>, W), q: (Seq<char>, W)| #![trigger keep(p), keep(q)] p.0 == q.0 ==> keep(p) == keep(q),
    ensures
        forall|x: Seq<char>| #[trigger] first_value(s.filter(keep), x) == kept_value(first_value(s, x), x, keep),
{
    assert forall|x: Seq<char>| #[trigger] first_value(s.filter(keep), x) == kept_value(first_value(s, x), x, keep) by {
        lemma_first_value_filter_at(s, keep, x);
    }
}

/// `prefix` is where `s` starts.
pub fn starts_with(s: &String, prefix: &str) -> (b: bool)
    ensures
        b == prefix@.is_prefix_of(s@),
{
    let sv = s.as_str();
    let n = prefix.unicode_len();
    let m = sv.unicode_len();
    if n > m {
        return false;
    }
    let mut i: usize = 0;
    while i < n
        invariant
            n == prefix@.len(),
            m == s@.len(),
            n <= m,
            i <= n,
            sv@ == s@,
            forall|j: int| 0 <= j < i ==> prefix@[j] == s@[j],
        decreases n - i,
    {
        if prefix.get_char(i) != sv.get_char(i) {
            return false;
        }
        i = i + 1;
    }
    assert(prefix@ =~= s@.subrange(0, n as int));
    true
}

/// A set of names.
pub struct NameSet {
    names: Vec<String>,
}

impl View for NameSet {
    type V = Set<Seq<char>>;

    closed spec fn view(&self) -> Set<Seq<char>> {
        self.names@.map_values(|s: String| s@).to_set()
    }
}

impl NameSet {
    pub fn new() -> (s: NameSet)
        ensures
            s@ == Set::<Seq<char>>::empty(),
    {
        let s = NameSet { names: Vec::new() };
        assert(s@ =~= Set::<Seq<char>>::empty());
        s
    }

    pub fn contains(&self, name: &str) -> (b: bool)
        ensures
            b == self@.contains(name@),
    {
        let wanted = text(name);
        let ghost v = self.names@.map_values(|s: String| s@);
        let mut i: usize = 0;
        while i < self.names.len()
            invariant
                i <= self.names.len(),
                v == self.names@.map_values(|s: String| s@),
                wanted@ == name@,
                forall|j: int| 0 <= j < i ==> v[j] != name@,
            decreases self.names.len() - i,
        {
            if string_eq(&self.names[i], &wanted) {
                assert(v[i as int] == name@);
                assert(v.contains(name@));
                return true;
            }
            i = i + 1;
        }
        assert(!v.contains(name@));
        false
    }

    pub fn insert(&mut self, name: String)
        ensures
            final(self)@ == old(self)@.insert(name@),
    {
        if !self.contains(name.as_str()) {
            let ghost v = self.names@.map_values(|s: String| s@);
            self.names.push(name);
            assert(self.names@.map_values(|s: String| s@) =~= v.push(name@));
            assert forall|x: Seq<char>| v.push(name@).contains(x) <==> (v.contains(x) || x == name@) by {
                if v.contains(x) {
                    let j = choose|j: int| 0 <= j < v.len() && v[j] == x;
                    assert(v.push(name@)[j] == x);
                }
                if x == name@ {
                    assert(v.push(name@)[v.len() as int] == name@);
                }
                if v.push(name@).contains(x) {
                    let j = choose|j: int| 0 <= j < v.push(name@).len() && v.push(name@)[j] == x;
                    if j < v.len() {
                        assert(v[j] == x);
                    }
                }
            }
            assert(self@ =~= old(self)@.insert(name@));
        } else {
            assert(self@ =~= old(self)@.insert(name@));
        }
    }

    pub fn remove(&mut self, name: &str)
        ensures
            final(self)@ == old(self)@.remove(name@),
    {
        let ghost v = self.names@.map_values(|s: String| s@);
        let ghost pred = |x: Seq<char>| x != name@;
        let wanted = text(name);
        let mut kept: Vec<String> = Vec::new();
        let mut i: usize = 0;
        while i < self.names.len()
            invariant
                i <= self.names.len(),
                v == self.names@.map_values(|s: String| s@),
                wanted@ == name@,
                pred == (|x: Seq<char>| x != name@),
                kept@.map_values(|s: String| s@) == v.subrange(0, i as int).filter(pred),
            decreases self.names.len() - i,
        {
            let ghost before = kept@.map_values(|s: String| s@);
            proof {
                assert(v.subrange(0, i + 1) =~= v.subrange(0, i as int).push(v[i as int]));
                lemma_filter_push(v.subrange(0, i as int), pred, v[i as int]);
            }
            if !string_eq(&self.names[i], &wanted) {
                let n = self.names[i].clone();
                kept.push(n);
                assert(kept@.map_values(|s: String| s@) =~= before.push(v[i as int]));
            }
            i = i + 1;
        }
        assert(v.subrange(0, v.len() as int) =~= v);
        self.names = kept;
        assert(self@ =~= old(self)@.remove(name@)) by {
            let f = v.filter(pred);
            assert forall|x: Seq<char>| f.contains(x) <==> (v.contains(x) && x != name@) by {
                if v.contains(x) && x != name@ {
                    let j = choose|j: int| 0 <= j < v.len() && v[j] == x;
                    v.lemma_filter_contains(pred, j);
                }
                if f.contains(x) {
                    v.lemma_filter_contains_rev(pred, x);
                    let j = choose|j: int| 0 <= j < f.len() && f[j] == x;
                    v.lemma_filter_pred(pred, j);
                }
            }
        }
    }
}

} // verus!
