//! Persistent storage of an application.
//!
//! Data lives in the standard data directory of the OS, under the
//! application's id. Lua reaches it two ways: a key-value store kept as one
//! JSON object in `kv.json`, and files in the same directory, sandboxed so
//! that no path leaves it (no `..` component, no absolute path).
//!
//! Paths are texts with `/` as separator. Reading and writing the files is
//! done by the caller; this module says where, and what.

use crate::collections::{
    first_index, first_value, lemma_first_index, lemma_pairs_map_with_value, lemma_pairs_map_without_key,
    lemma_without_key, pairs_map, with_value, without_key, key_differs, lemma_filter_push,
};
use crate::json::{
    json_pretty_text, member_models, opt_json, parse_json, parsed_json, pretty_json, string_eq,
    text, Json, JsonV,
};
use vstd::prelude::*;

verus! {

broadcast use crate::json::group_json_models;

/// `path` names a location from the root.
pub open spec fn is_absolute(path: Seq<char>) -> bool {
    path.len() > 0 && path[0] == '/'
}

/// `base` joined with `path`, as `Path::join` does on Unix: an absolute
/// `path` replaces `base`; otherwise a separator is put between them
/// unless `base` is empty or already ends with one.
pub open spec fn join_spec(base: Seq<char>, path: Seq<char>) -> Seq<char> {
    if is_absolute(path) {
        path
    } else if base.len() > 0 && base.last() != '/' {
        base + seq!['/'] + path
    } else {
        base + path
    }
}

/// A `..` component of `path` starts at `i`: two dots, with a separator
/// or an end of the text on each side.
pub open spec fn parent_at(path: Seq<char>, i: int) -> bool {
    &&& 0 <= i
    &&& i + 2 <= path.len()
    &&& path[i] == '.'
    &&& path[i + 1] == '.'
    &&& (i == 0 || path[i - 1] == '/')
    &&& (i + 2 == path.len() || path[i + 2] == '/')
}

/// `path` stays inside the directory it is taken from: it is not absolute
/// and none of its components is `..`.
pub open spec fn stays_inside(path: Seq<char>) -> bool {
    !is_absolute(path) && !exists|i: int| parent_at(path, i)
}

/// A directory where an application keeps its data.
pub struct AppStorage {
    dir: String,
}

impl View for AppStorage {
    type V = Seq<char>;

    closed spec fn view(&self) -> Seq<char> {
        self.dir@
    }
}

/// `std::path::Path::join`, on texts. Verified against the statement of
/// what `join` does on Unix.
pub fn join_path(base: &str, path: &str) -> (r: String)
    ensures
        r@ == join_spec(base@, path@),
{
    let mut r = text(base);
    if path.unicode_len() > 0 && path.get_char(0) == '/' {
        return text(path);
    }
    let n = base.unicode_len();
    if n > 0 && base.get_char(n - 1) != '/' {
        r.append("/");
        proof {
            reveal_strlit("/");
        }
    }
    r.append(path);
    r
}

/// The data directory of the user, by `dirs::data_dir`, as text (a path
/// that is not UTF-8 is read lossily). Nothing is claimed of it: it
/// depends on the platform and the environment.
#[verifier::external_body]
fn user_data_dir() -> Option<String> {
    dirs::data_dir().map(|p| p.to_string_lossy().into_owned())
}

/// The directory of an application in a data directory, or in the working
/// directory when there is none.
pub open spec fn app_dir_spec(data_dir: Option<Seq<char>>, app_id: Seq<char>) -> Seq<char> {
    match data_dir {
        Some(d) => join_spec(d, app_id),
        None => join_spec("."@, app_id),
    }
}

impl AppStorage {
    /// The storage of application `app_id`, in the user's data directory.
    /// The directory itself is created by the caller.
    pub fn new(app_id: &str) -> (s: AppStorage)
        ensures
            exists|d: Option<Seq<char>>| s@ == app_dir_spec(d, app_id@),
    {
        let data = user_data_dir();
        match &data {
            Some(d) => AppStorage::in_data_dir(Some(d.as_str()), app_id),
            None => AppStorage::in_data_dir(None, app_id),
        }
    }

    /// The storage of application `app_id` in data directory `data_dir`,
    /// or in the working directory when there is none.
    pub fn in_data_dir(data_dir: Option<&str>, app_id: &str) -> (s: AppStorage)
        ensures
            s@ == app_dir_spec(
                match data_dir {
                    Some(d) => Some(d@),
                    None => None,
                },
                app_id@,
            ),
    {
        let dir = match data_dir {
            Some(d) => join_path(d, app_id),
            None => join_path(".", app_id),
        };
        proof {
            if data_dir is None {
                reveal_strlit(".");
            }
        }
        AppStorage { dir }
    }

    /// The storage kept in directory `dir`.
    pub fn in_dir(dir: &str) -> (s: AppStorage)
        ensures
            s@ == dir@,
    {
        AppStorage { dir: text(dir) }
    }

    /// The data directory.
    pub fn dir(&self) -> (d: &str)
        ensures
            d@ == self@,
    {
        self.dir.as_str()
    }

    /// Where the key-value store is kept.
    pub fn kv_path(&self) -> (p: String)
        ensures
            p@ == join_spec(self@, "kv.json"@),
    {
        join_path(self.dir.as_str(), "kv.json")
    }

    /// `relative` inside the data directory, or `None` when it would leave
    /// it (a `..` component, or an absolute path).
    pub fn resolve(&self, relative: &str) -> (r: Option<String>)
        ensures
            match r {
                Some(p) => stays_inside(relative@) && p@ == join_spec(self@, relative@),
                None => !stays_inside(relative@),
            },
    {
        let n = relative.unicode_len();
        if n > 0 && relative.get_char(0) == '/' {
            return None;
        }
        let mut i: usize = 0;
        while n >= 2 && i <= n - 2
            invariant
                n == relative@.len(),
                !is_absolute(relative@),
                forall|j: int| 0 <= j < i ==> !parent_at(relative@, j),
            decreases n - i,
        {
            if relative.get_char(i) == '.' && relative.get_char(i + 1) == '.' && (i == 0 || relative.get_char(
                i - 1,
            ) == '/') && (i + 2 == n || relative.get_char(i + 2) == '/') {
                assert(parent_at(relative@, i as int));
                return None;
            }
            i = i + 1;
        }
        Some(join_path(self.dir.as_str(), relative))
    }
}

/// The key-value store of an application: one JSON object, whose members
/// are looked up by name.
pub struct KvStore {
    entries: Vec<(String, Json)>,
}

impl View for KvStore {
    type V = Map<Seq<char>, JsonV>;

    closed spec fn view(&self) -> Map<Seq<char>, JsonV> {
        pairs_map(self.pairs())
    }
}

/// The store that a JSON text holds: the members of the object it is, or
/// no member when it is not an object.
pub open spec fn kv_of_text(stored: Option<Seq<char>>) -> Seq<(Seq<char>, JsonV)> {
    match stored {
        Some(t) => match parsed_json(t) {
            Some(JsonV::Object(members)) => members,
            _ => Seq::empty(),
        },
        None => Seq::empty(),
    }
}

impl KvStore {
    /// The members, in order.
    pub closed spec fn pairs(&self) -> Seq<(Seq<char>, JsonV)> {
        member_models(self.entries@)
    }

    /// The store as a JSON object.
    pub closed spec fn object(&self) -> JsonV {
        JsonV::Object(self.pairs())
    }

    /// The store that `stored`, the text of `kv.json`, holds; an empty store
    /// when there is no text (the file is missing or unreadable), when it is
    /// not JSON, or when it is not an object.
    pub fn load(stored: Option<&str>) -> (s: KvStore)
        ensures
            s.pairs() == kv_of_text(opt_str(stored)),
    {
        match stored {
            Some(t) => match parse_json(t) {
                Some(Json::Object(members)) => KvStore { entries: members },
                _ => {
                    let s = KvStore { entries: Vec::new() };
                    assert(s.pairs() =~= Seq::empty());
                    s
                },
            },
            None => {
                let s = KvStore { entries: Vec::new() };
                assert(s.pairs() =~= Seq::empty());
                s
            },
        }
    }

    /// Position of the first member named `key`.
    fn position(&self, key: &str) -> (r: Option<usize>)
        ensures
            match r {
                Some(i) => first_index(self.pairs(), key@) == Some(i as int) && i < self.entries.len(),
                None => first_index(self.pairs(), key@) is None,
            },
    {
        let wanted = text(key);
        let ghost s = self.pairs();
        let mut i: usize = 0;
        while i < self.entries.len()
            invariant
                i <= self.entries.len(),
                s == self.pairs(),
                s.len() == self.entries.len(),
                wanted@ == key@,
                forall|j: int| 0 <= j < i ==> (#[trigger] s[j]).0 != key@,
            decreases self.entries.len() - i,
        {
            assert(s[i as int].0 == self.entries@[i as int].0@);
            if string_eq(&self.entries[i].0, &wanted) {
                proof {
                    crate::collections::lemma_first_value_at(s, key@, i as int);
                }
                return Some(i);
            }
            i = i + 1;
        }
        proof {
            crate::collections::lemma_first_value_absent(s, key@);
        }
        None
    }

    /// The value of `key`.
    pub fn get(&self, key: &str) -> (r: Option<Json>)
        ensures
            match r {
                Some(v) => self@.contains_key(key@) && self@[key@] == v@,
                None => !self@.contains_key(key@),
            },
    {
        proof {
            lemma_first_index(self.pairs(), key@);
        }
        match self.position(key) {
            Some(i) => {
                assert(self.pairs()[i as int] == (self.entries@[i as int].0@, self.entries@[i as int].1@));
                Some(self.entries[i].1.deep_clone())
            },
            None => None,
        }
    }

    /// Sets `key` to `value`.
    pub fn set(&mut self, key: &str, value: Json)
        ensures
            final(self).pairs() == with_value(old(self).pairs(), key@, value@),
            final(self)@ == old(self)@.insert(key@, value@),
    {
        let ghost s = self.pairs();
        proof {
            lemma_first_index(s, key@);
            lemma_pairs_map_with_value(s, key@, value@);
        }
        match self.position(key) {
            Some(i) => {
                let ghost vm = value@;
                self.entries.set(i, (text(key), value));
                assert(self.pairs() =~= with_value(s, key@, vm));
            },
            None => {
                let ghost vm = value@;
                self.entries.push((text(key), value));
                assert(self.pairs() =~= with_value(s, key@, vm));
            },
        }
    }

    /// Drops `key`.
    pub fn delete(&mut self, key: &str)
        ensures
            final(self).pairs() == without_key(old(self).pairs(), key@),
            final(self)@ == old(self)@.remove(key@),
    {
        let ghost s = self.pairs();
        let wanted = text(key);
        let mut kept: Vec<(String, Json)> = Vec::new();
        let mut i: usize = 0;
        let mut old_entries: Vec<(String, Json)> = Vec::new();
        std::mem::swap(&mut old_entries, &mut self.entries);
        assert(member_models(old_entries@) == s);
        while i < old_entries.len()
            invariant
                i <= old_entries.len(),
                s == member_models(old_entries@),
                wanted@ == key@,
                s.len() == old_entries.len(),
                member_models(kept@) == without_key(s.subrange(0, i as int), key@),
            decreases old_entries.len() - i,
        {
            let ghost before = member_models(kept@);
            let ghost sub = s.subrange(0, i as int);
            proof {
                assert(s.subrange(0, i + 1) =~= sub.push(s[i as int]));
                lemma_filter_push(sub, key_differs::<JsonV>(key@), s[i as int]);
                assert(s[i as int] == (old_entries@[i as int].0@, old_entries@[i as int].1@));
            }
            if !string_eq(&old_entries[i].0, &wanted) {
                let k = old_entries[i].0.clone();
                let v = old_entries[i].1.deep_clone();
                let ghost pair = (k@, v@);
                kept.push((k, v));
                assert(member_models(kept@) =~= before.push(pair));
            }
            i = i + 1;
        }
        assert(s.subrange(0, s.len() as int) =~= s);
        self.entries = kept;
        proof {
            lemma_pairs_map_without_key(s, key@);
        }
    }

    /// The store as a JSON object, members in order.
    pub fn to_json(&self) -> (r: Json)
        ensures
            r@ == self.object(),
    {
        let mut members: Vec<(String, Json)> = Vec::new();
        let mut i: usize = 0;
        while i < self.entries.len()
            invariant
                i <= self.entries.len(),
                member_models(members@) == self.pairs().subrange(0, i as int),
            decreases self.entries.len() - i,
        {
            let ghost before = member_models(members@);
            let k = self.entries[i].0.clone();
            let v = self.entries[i].1.deep_clone();
            members.push((k, v));
            assert(self.pairs()[i as int] == (self.entries@[i as int].0@, self.entries@[i as int].1@));
            assert(member_models(members@) =~= before.push(self.pairs()[i as int]));
            assert(self.pairs().subrange(0, i + 1) =~= self.pairs().subrange(0, i as int).push(self.pairs()[i as int]));
            i = i + 1;
        }
        assert(self.pairs().subrange(0, self.entries.len() as int) =~= self.pairs());
        Json::Object(members)
    }

    /// The text that `kv.json` holds for this store.
    pub fn to_text(&self) -> (t: String)
        ensures
            t@ == json_pretty_text(self.object()),
    {
        pretty_json(&self.to_json())
    }
}

impl AppStorage {
    /// The value of `key` in the store whose text is `stored` (`None` when
    /// `kv.json` cannot be read).
    pub fn kv_get(&self, stored: Option<&str>, key: &str) -> (r: Option<Json>)
        ensures
            opt_json(r) == first_value(kv_of_text(opt_str(stored)), key@),
    {
        let store = KvStore::load(stored);
        proof {
            lemma_first_index(store.pairs(), key@);
        }
        store.get(key)
    }

    /// The text that `kv.json` must hold once `key` is set to `value` in the
    /// store whose text is `stored`.
    pub fn kv_set(&self, stored: Option<&str>, key: &str, value: Json) -> (t: String)
        ensures
            t@ == json_pretty_text(JsonV::Object(with_value(kv_of_text(opt_str(stored)), key@, value@))),
    {
        let mut store = KvStore::load(stored);
        store.set(key, value);
        store.to_text()
    }

    /// The text that `kv.json` must hold once `key` is dropped from the
    /// store whose text is `stored`.
    pub fn kv_delete(&self, stored: Option<&str>, key: &str) -> (t: String)
        ensures
            t@ == json_pretty_text(JsonV::Object(without_key(kv_of_text(opt_str(stored)), key@))),
    {
        let mut store = KvStore::load(stored);
        store.delete(key);
        store.to_text()
    }

    /// All the values of the store whose text is `stored`.
    pub fn kv_all(&self, stored: Option<&str>) -> (r: KvStore)
        ensures
            r.pairs() == kv_of_text(opt_str(stored)),
    {
        KvStore::load(stored)
    }
}

/// The text of an optional string slice.
pub open spec fn opt_str(o: Option<&str>) -> Option<Seq<char>> {
    match o {
        Some(t) => Some(t@),
        None => None,
    }
}

/// A path that stays inside the data directory resolves to a location
/// under it: the directory is where the resolved text starts.
pub proof fn law_resolved_inside(dir: Seq<char>, relative: Seq<char>)
    requires
        stays_inside(relative),
    ensures
        dir.is_prefix_of(join_spec(dir, relative)),
{
    let j = join_spec(dir, relative);
    if dir.len() > 0 && dir.last() != '/' {
        assert(j.subrange(0, dir.len() as int) =~= dir);
    } else {
        assert(j.subrange(0, dir.len() as int) =~= dir);
    }
}

/// A value read right after it was written is the value written.
pub proof fn law_kv_read_after_write(entries: Seq<(Seq<char>, JsonV)>, key: Seq<char>, value: JsonV)
    ensures
        first_value(with_value(entries, key, value), key) == Some(value),
{
    crate::collections::lemma_with_value(entries, key, value, key);
}

/// Writing a key leaves the other keys as they were.
pub proof fn law_kv_write_keeps_others(
    entries: Seq<(Seq<char>, JsonV)>,
    key: Seq<char>,
    value: JsonV,
    other: Seq<char>,
)
    requires
        other != key,
    ensures
        first_value(with_value(entries, key, value), other) == first_value(entries, other),
{
    crate::collections::lemma_with_value(entries, key, value, other);
}

/// A key read right after it was deleted is absent, and the other keys
/// are as they were.
pub proof fn law_kv_delete(entries: Seq<(Seq<char>, JsonV)>, key: Seq<char>, other: Seq<char>)
    ensures
        first_value(without_key(entries, key), key) is None,
        other != key ==> first_value(without_key(entries, key), other) == first_value(entries, other),
{
    lemma_without_key(entries, key, key);
    lemma_without_key(entries, key, other);
}

} // verus!
