//! The configuration cache: key/value settings read from the database, with
//! typed accessors that fall back to defaults.

use vstd::prelude::*;

use crate::bindings::{to_lowercase, unicode_lower};
use crate::range::{split_chars, split_seq};
use crate::text::{parse_unsigned, parse_usize, str_chars, str_eq, string_from_chars, trim, trim_seq};

verus! {

/// The map that a list of key/value rows builds when they are inserted in
/// order: a later row for a key replaces an earlier one.
pub open spec fn entries_map(s: Seq<(String, String)>) -> Map<Seq<char>, Seq<char>>
    decreases s.len(),
{
    if s.len() == 0 {
        Map::empty()
    } else {
        entries_map(s.drop_last()).insert(s.last().0@, s.last().1@)
    }
}

/// Whether no row after `i` has the key `k`.
pub open spec fn last_with_key(s: Seq<(String, String)>, i: int, k: Seq<char>) -> bool {
    &&& 0 <= i < s.len()
    &&& s[i].0@ == k
    &&& forall|j: int| i < j < s.len() ==> (#[trigger] s[j]).0@ != k
}

proof fn lemma_lookup_last(s: Seq<(String, String)>, i: int, k: Seq<char>)
    requires
        last_with_key(s, i, k),
    ensures
        entries_map(s).contains_key(k),
        entries_map(s)[k] == s[i].1@,
    decreases s.len(),
{
    if i < s.len() - 1 {
        let t = s.drop_last();
        assert(s[s.len() - 1].0@ != k);
        assert forall|j: int| i < j < t.len() implies (#[trigger] t[j]).0@ != k by {
            assert(t[j] == s[j]);
        }
        lemma_lookup_last(t, i, k);
    }
}

proof fn lemma_lookup_absent(s: Seq<(String, String)>, k: Seq<char>)
    requires
        forall|j: int| 0 <= j < s.len() ==> (#[trigger] s[j]).0@ != k,
    ensures
        !entries_map(s).contains_key(k),
    decreases s.len(),
{
    if s.len() > 0 {
        let t = s.drop_last();
        assert forall|j: int| 0 <= j < t.len() implies (#[trigger] t[j]).0@ != k by {
            assert(t[j] == s[j]);
        }
        lemma_lookup_absent(t, k);
        assert(s[s.len() - 1].0@ != k);
    }
}

proof fn lemma_update_last(s: Seq<(String, String)>, i: int, p: (String, String))
    requires
        last_with_key(s, i, p.0@),
    ensures
        entries_map(s.update(i, p)) == entries_map(s).insert(p.0@, p.1@),
    decreases s.len(),
{
    let u = s.update(i, p);
    if i == s.len() - 1 {
        assert(u.drop_last() =~= s.drop_last());
        assert(entries_map(u) =~= entries_map(s).insert(p.0@, p.1@));
    } else {
        let t = s.drop_last();
        assert forall|j: int| i < j < t.len() implies (#[trigger] t[j]).0@ != p.0@ by {
            assert(t[j] == s[j]);
        }
        lemma_update_last(t, i, p);
        assert(u.drop_last() =~= t.update(i, p));
        assert(s.last().0@ != p.0@);
        assert(entries_map(u) =~= entries_map(s).insert(p.0@, p.1@));
    }
}

/// The text stored for `key`, or `default` where none is.
pub open spec fn value_or(m: Map<Seq<char>, Seq<char>>, key: Seq<char>, default: Seq<char>) -> Seq<char> {
    if m.contains_key(key) {
        m[key]
    } else {
        default
    }
}

/// The number stored for `key`, or `default` where none is or it does not
/// read as a `usize`.
pub open spec fn count_or(m: Map<Seq<char>, Seq<char>>, key: Seq<char>, default: nat) -> nat {
    if m.contains_key(key) && parse_unsigned(m[key], usize::MAX as nat) is Some {
        parse_unsigned(m[key], usize::MAX as nat)->0
    } else {
        default
    }
}

/// A read after a write gives back what was written under that key and what
/// was there before under every other key.
pub proof fn lemma_set_then_get(
    m: Map<Seq<char>, Seq<char>>,
    key: Seq<char>,
    value: Seq<char>,
    other: Seq<char>,
    default: Seq<char>,
)
    ensures
        m.insert(key, value).contains_key(key),
        value_or(m.insert(key, value), key, default) == value,
        other != key ==> m.insert(key, value).contains_key(other) == m.contains_key(other),
        other != key ==> value_or(m.insert(key, value), other, default) == value_or(m, other, default),
{
}

/// The pieces of a comma-separated list, each trimmed, empty ones dropped.
pub open spec fn csv_items(s: Seq<char>) -> Seq<Seq<char>> {
    split_seq(s, ',').map_values(|p: Seq<char>| trim_seq(p)).filter(|p: Seq<char>| p.len() > 0)
}

/// The pieces of a comma-separated list, each trimmed and put in lower case,
/// empty ones dropped.
pub open spec fn csv_items_lower(s: Seq<char>) -> Seq<Seq<char>> {
    split_seq(s, ',').map_values(|p: Seq<char>| unicode_lower(trim_seq(p))).filter(
        |p: Seq<char>| p.len() > 0,
    )
}

/// The texts of a list of strings.
pub open spec fn texts(v: Seq<String>) -> Seq<Seq<char>> {
    v.map_values(|s: String| s@)
}

fn split_csv(s: &str, lower: bool) -> (r: Vec<String>)
    ensures
        lower ==> texts(r@) == csv_items_lower(s@),
        !lower ==> texts(r@) == csv_items(s@),
{
    let c = str_chars(s);
    let pieces = split_chars(c.as_slice(), ',');
    let ghost sp = split_seq(s@, ',');
    let ghost f = if lower {
        |p: Seq<char>| unicode_lower(trim_seq(p))
    } else {
        |p: Seq<char>| trim_seq(p)
    };
    let ghost keep = |p: Seq<char>| p.len() > 0;
    let mut out: Vec<String> = Vec::new();
    let mut i: usize = 0;
    while i < pieces.len()
        invariant
            i <= pieces@.len(),
            pieces@.len() == sp.len(),
            forall|k: int| 0 <= k < pieces@.len() ==> #[trigger] pieces@[k]@ == sp[k],
            f == if lower {
                |p: Seq<char>| unicode_lower(trim_seq(p))
            } else {
                |p: Seq<char>| trim_seq(p)
            },
            keep == |p: Seq<char>| p.len() > 0,
            texts(out@) == sp.subrange(0, i as int).map_values(f).filter(keep),
        decreases pieces@.len() - i,
    {
        reveal_with_fuel(Seq::<_>::filter, 1);
        let ghost prev = sp.subrange(0, i as int);
        assert(sp.subrange(0, i + 1).drop_last() =~= prev);
        assert(sp.subrange(0, i + 1).map_values(f).drop_last() =~= prev.map_values(f));
        let t = trim(pieces[i].as_slice());
        let item = if lower {
            let ts = string_from_chars(t.as_slice());
            to_lowercase(ts.as_str())
        } else {
            string_from_chars(t.as_slice())
        };
        assert(item@ == f(sp[i as int]));
        if !item.as_str().is_empty() {
            let ghost before = out@;
            out.push(item);
            assert(texts(out@) =~= texts(before).push(item@));
        }
        i += 1;
    }
    assert(sp.subrange(0, pieces@.len() as int) =~= sp);
    out
}

/// The settings of the application, as the database's `config_items` table
/// holds them.
#[derive(Debug, Clone)]
pub struct ConfigManager {
    entries: Vec<(String, String)>,
}

impl View for ConfigManager {
    type V = Map<Seq<char>, Seq<char>>;

    closed spec fn view(&self) -> Map<Seq<char>, Seq<char>> {
        entries_map(self.entries@)
    }
}

impl Default for ConfigManager {
    fn default() -> (r: ConfigManager)
        ensures
            r@ == Map::<Seq<char>, Seq<char>>::empty(),
    {
        ConfigManager::new()
    }
}

impl ConfigManager {
    /// A cache that holds no setting.
    pub fn new() -> (r: ConfigManager)
        ensures
            r@ == Map::<Seq<char>, Seq<char>>::empty(),
    {
        ConfigManager { entries: Vec::new() }
    }

    /// Replaces the cache by the rows of the settings table, inserted in
    /// order.
    pub fn load_from_db(&mut self, rows: Vec<(String, String)>)
        ensures
            final(self)@ == entries_map(rows@),
    {
        self.entries = rows;
    }

    fn last_index(&self, key: &str) -> (r: Option<usize>)
        ensures
            match r {
                Some(i) => last_with_key(self.entries@, i as int, key@),
                None => forall|j: int|
                    0 <= j < self.entries@.len() ==> (#[trigger] self.entries@[j]).0@ != key@,
            },
    {
        let mut i: usize = self.entries.len();
        while i > 0
            invariant
                i <= self.entries@.len(),
                forall|j: int| i <= j < self.entries@.len() ==> (#[trigger] self.entries@[j]).0@ != key@,
            decreases i,
        {
            i -= 1;
            if str_eq(self.entries[i].0.as_str(), key) {
                return Some(i);
            }
        }
        None
    }

    /// The value stored for `key`.
    pub fn get(&self, key: &str) -> (r: Option<String>)
        ensures
            match r {
                Some(v) => self@.contains_key(key@) && self@[key@] == v@,
                None => !self@.contains_key(key@),
            },
    {
        match self.last_index(key) {
            Some(i) => {
                proof {
                    lemma_lookup_last(self.entries@, i as int, key@);
                }
                Some(self.entries[i].1.clone())
            },
            None => {
                proof {
                    lemma_lookup_absent(self.entries@, key@);
                }
                None
            },
        }
    }

    /// The value stored for `key`, or `default`.
    pub fn get_or_default(&self, key: &str, default: &str) -> (r: String)
        ensures
            r@ == value_or(self@, key@, default@),
    {
        match self.get(key) {
            Some(v) => v,
            None => default.to_owned(),
        }
    }

    /// Stores `value` under `key` (the database row is written by the
    /// caller).
    pub fn set(&mut self, key: &str, value: &str)
        ensures
            final(self)@ == old(self)@.insert(key@, value@),
    {
        let p = (key.to_owned(), value.to_owned());
        match self.last_index(key) {
            Some(i) => {
                proof {
                    lemma_update_last(self.entries@, i as int, p);
                }
                self.entries.set(i, p);
            },
            None => {
                let ghost before = self.entries@;
                self.entries.push(p);
                assert(self.entries@.drop_last() =~= before);
            },
        }
    }

    fn count_setting(&self, key: &str, default: usize) -> (r: usize)
        ensures
            r as nat == count_or(self@, key@, default as nat),
    {
        match self.get(key) {
            Some(v) => {
                let c = str_chars(v.as_str());
                match parse_usize(c.as_slice()) {
                    Some(n) => n,
                    None => default,
                }
            },
            None => default,
        }
    }

    /// `usenet.max-download-connections`, 15 by default.
    pub fn get_max_download_connections(&self) -> (r: usize)
        ensures
            r as nat == count_or(self@, "usenet.max-download-connections"@, 15),
    {
        self.count_setting("usenet.max-download-connections", 15)
    }

    /// `usenet.article-buffer-size`, 40 by default.
    pub fn get_article_buffer_size(&self) -> (r: usize)
        ensures
            r as nat == count_or(self@, "usenet.article-buffer-size"@, 40),
    {
        self.count_setting("usenet.article-buffer-size", 40)
    }

    /// `api.categories` as a list.
    pub fn get_categories(&self) -> (r: Vec<String>)
        ensures
            texts(r@) == csv_items(value_or(self@, "api.categories"@, ""@)),
    {
        let v = self.get_or_default("api.categories", "");
        split_csv(v.as_str(), false)
    }

    /// `api.duplicate-nzb-behavior`, `increment` by default.
    pub fn get_duplicate_nzb_behavior(&self) -> (r: String)
        ensures
            r@ == value_or(self@, "api.duplicate-nzb-behavior"@, "increment"@),
    {
        self.get_or_default("api.duplicate-nzb-behavior", "increment")
    }

    /// `api.import-strategy`, `symlinks` by default.
    pub fn get_import_strategy(&self) -> (r: String)
        ensures
            r@ == value_or(self@, "api.import-strategy"@, "symlinks"@),
    {
        self.get_or_default("api.import-strategy", "symlinks")
    }

    /// `api.download-file-blocklist` as a list of patterns.
    pub fn get_file_blocklist(&self) -> (r: Vec<String>)
        ensures
            texts(r@) == csv_items(value_or(self@, "api.download-file-blocklist"@, ""@)),
    {
        let v = self.get_or_default("api.download-file-blocklist", "");
        split_csv(v.as_str(), false)
    }

    /// `api.ensure-importable-video`: on unless stored as anything but
    /// `true`.
    pub fn is_ensure_importable_video_enabled(&self) -> (r: bool)
        ensures
            r == (!self@.contains_key("api.ensure-importable-video"@) || self@["api.ensure-importable-video"@]
                == "true"@),
    {
        match self.get("api.ensure-importable-video") {
            Some(v) => str_eq(v.as_str(), "true"),
            None => true,
        }
    }

    /// `queue.max-concurrent`, 2 by default.
    pub fn get_max_concurrent_queue(&self) -> (r: usize)
        ensures
            r as nat == count_or(self@, "queue.max-concurrent"@, 2),
    {
        self.count_setting("queue.max-concurrent", 2)
    }

    /// `api.ensure-article-existence-categories` as a list in lower case.
    pub fn get_ensure_article_existence_categories(&self) -> (r: Vec<String>)
        ensures
            texts(r@) == csv_items_lower(
                value_or(self@, "api.ensure-article-existence-categories"@, ""@),
            ),
    {
        let v = self.get_or_default("api.ensure-article-existence-categories", "");
        split_csv(v.as_str(), true)
    }
}

} // verus!
