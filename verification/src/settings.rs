//! The settings that the web interface reads and writes, and how they map to
//! configuration keys.

use vstd::prelude::*;

use crate::config::{count_or, value_or, ConfigManager};
use crate::text::{decimal, lemma_parse_decimal, str_eq, u64_to_string};

verus! {

/// The settings shown and edited by the web interface.
#[derive(Debug, Clone)]
pub struct SettingsResponse {
    pub categories: String,
    pub file_blocklist: String,
    pub ensure_importable_video: bool,
    pub duplicate_nzb_behavior: String,
    pub import_strategy: String,
    pub webdav_enforce_readonly: bool,
    pub strm_base_url: String,
    pub max_concurrent_queue: usize,
}

/// A flag stored under `key`: set where the stored text is `true`, else
/// `default` where nothing is stored.
pub open spec fn flag_or(m: Map<Seq<char>, Seq<char>>, key: Seq<char>, default: bool) -> bool {
    if m.contains_key(key) {
        m[key] == "true"@
    } else {
        default
    }
}

/// The text of a flag.
pub open spec fn flag_text(b: bool) -> Seq<char> {
    if b {
        "true"@
    } else {
        "false"@
    }
}

/// Whether `s` shows the settings of the configuration `m`.
pub open spec fn shows_config(s: SettingsResponse, m: Map<Seq<char>, Seq<char>>) -> bool {
    &&& s.categories@ == value_or(m, "api.categories"@, ""@)
    &&& s.file_blocklist@ == value_or(m, "api.download-file-blocklist"@, ""@)
    &&& s.ensure_importable_video == flag_or(m, "api.ensure-importable-video"@, true)
    &&& s.duplicate_nzb_behavior@ == value_or(m, "api.duplicate-nzb-behavior"@, "increment"@)
    &&& s.import_strategy@ == value_or(m, "api.import-strategy"@, "symlinks"@)
    &&& s.webdav_enforce_readonly == flag_or(m, "webdav.enforce-readonly"@, false)
    &&& s.strm_base_url@ == value_or(m, "api.strm-base-url"@, ""@)
    &&& s.max_concurrent_queue as nat == count_or(m, "queue.max-concurrent"@, 2)
}

/// The configuration keys and values that store the settings, in the order
/// in which they are written.
pub open spec fn settings_pairs(s: SettingsResponse) -> Seq<(Seq<char>, Seq<char>)> {
    seq![
        ("api.categories"@, s.categories@),
        ("api.download-file-blocklist"@, s.file_blocklist@),
        ("api.ensure-importable-video"@, flag_text(s.ensure_importable_video)),
        ("api.duplicate-nzb-behavior"@, s.duplicate_nzb_behavior@),
        ("api.import-strategy"@, s.import_strategy@),
        ("webdav.enforce-readonly"@, flag_text(s.webdav_enforce_readonly)),
        ("api.strm-base-url"@, s.strm_base_url@),
        ("queue.max-concurrent"@, decimal(s.max_concurrent_queue as nat)),
    ]
}

/// The configuration after each pair is stored in turn.
pub open spec fn apply_pairs(m: Map<Seq<char>, Seq<char>>, pairs: Seq<(Seq<char>, Seq<char>)>) -> Map<
    Seq<char>,
    Seq<char>,
>
    decreases pairs.len(),
{
    if pairs.len() == 0 {
        m
    } else {
        apply_pairs(m, pairs.drop_last()).insert(pairs.last().0, pairs.last().1)
    }
}

fn flag_string(b: bool) -> (r: String)
    ensures
        r@ == flag_text(b),
{
    if b {
        "true".to_owned()
    } else {
        "false".to_owned()
    }
}

fn flag_setting(config: &ConfigManager, key: &str, default: bool) -> (r: bool)
    ensures
        r == flag_or(config@, key@, default),
{
    match config.get(key) {
        Some(v) => str_eq(v.as_str(), "true"),
        None => default,
    }
}

impl SettingsResponse {
    /// The settings that the configuration holds.
    pub fn from_config(config: &ConfigManager) -> (r: SettingsResponse)
        ensures
            shows_config(r, config@),
    {
        let q = config.get_max_concurrent_queue();
        SettingsResponse {
            categories: config.get_or_default("api.categories", ""),
            file_blocklist: config.get_or_default("api.download-file-blocklist", ""),
            ensure_importable_video: config.is_ensure_importable_video_enabled(),
            duplicate_nzb_behavior: config.get_duplicate_nzb_behavior(),
            import_strategy: config.get_import_strategy(),
            webdav_enforce_readonly: flag_setting(config, "webdav.enforce-readonly", false),
            strm_base_url: config.get_or_default("api.strm-base-url", ""),
            max_concurrent_queue: q,
        }
    }

    /// The configuration rows that store these settings, in order.
    pub fn to_config_pairs(&self) -> (r: Vec<(String, String)>)
        ensures
            r@.len() == settings_pairs(*self).len(),
            forall|i: int|
                0 <= i < r@.len() ==> (#[trigger] r@[i]).0@ == settings_pairs(*self)[i].0 && r@[i].1@
                    == settings_pairs(*self)[i].1,
    {
        let mut v: Vec<(String, String)> = Vec::new();
        v.push(("api.categories".to_owned(), self.categories.clone()));
        v.push(("api.download-file-blocklist".to_owned(), self.file_blocklist.clone()));
        v.push(("api.ensure-importable-video".to_owned(), flag_string(self.ensure_importable_video)));
        v.push(("api.duplicate-nzb-behavior".to_owned(), self.duplicate_nzb_behavior.clone()));
        v.push(("api.import-strategy".to_owned(), self.import_strategy.clone()));
        v.push(("webdav.enforce-readonly".to_owned(), flag_string(self.webdav_enforce_readonly)));
        v.push(("api.strm-base-url".to_owned(), self.strm_base_url.clone()));
        v.push(("queue.max-concurrent".to_owned(), u64_to_string(self.max_concurrent_queue as u64)));
        v
    }

    /// Stores these settings in the configuration, pair by pair.
    pub fn apply_to(&self, config: &mut ConfigManager)
        ensures
            final(config)@ == apply_pairs(old(config)@, settings_pairs(*self)),
    {
        let pairs = self.to_config_pairs();
        let ghost ps = settings_pairs(*self);
        let mut i: usize = 0;
        while i < pairs.len()
            invariant
                i <= pairs@.len(),
                pairs@.len() == ps.len(),
                ps == settings_pairs(*self),
                forall|k: int|
                    0 <= k < pairs@.len() ==> (#[trigger] pairs@[k]).0@ == ps[k].0 && pairs@[k].1@
                        == ps[k].1,
                config@ == apply_pairs(old(config)@, ps.subrange(0, i as int)),
            decreases pairs@.len() - i,
        {
            assert(ps.subrange(0, i + 1).drop_last() =~= ps.subrange(0, i as int));
            config.set(pairs[i].0.as_str(), pairs[i].1.as_str());
            i += 1;
        }
        assert(ps.subrange(0, ps.len() as int) =~= ps);
    }
}

/// The settings are stored under eight distinct keys.
proof fn lemma_setting_keys_distinct()
    ensures
        "api.categories"@ != "api.download-file-blocklist"@,
        "api.categories"@ != "api.ensure-importable-video"@,
        "api.categories"@ != "api.duplicate-nzb-behavior"@,
        "api.categories"@ != "api.import-strategy"@,
        "api.categories"@ != "webdav.enforce-readonly"@,
        "api.categories"@ != "api.strm-base-url"@,
        "api.categories"@ != "queue.max-concurrent"@,
        "api.download-file-blocklist"@ != "api.ensure-importable-video"@,
        "api.download-file-blocklist"@ != "api.duplicate-nzb-behavior"@,
        "api.download-file-blocklist"@ != "api.import-strategy"@,
        "api.download-file-blocklist"@ != "webdav.enforce-readonly"@,
        "api.download-file-blocklist"@ != "api.strm-base-url"@,
        "api.download-file-blocklist"@ != "queue.max-concurrent"@,
        "api.ensure-importable-video"@ != "api.duplicate-nzb-behavior"@,
        "api.ensure-importable-video"@ != "api.import-strategy"@,
        "api.ensure-importable-video"@ != "webdav.enforce-readonly"@,
        "api.ensure-importable-video"@ != "api.strm-base-url"@,
        "api.ensure-importable-video"@ != "queue.max-concurrent"@,
        "api.duplicate-nzb-behavior"@ != "api.import-strategy"@,
        "api.duplicate-nzb-behavior"@ != "webdav.enforce-readonly"@,
        "api.duplicate-nzb-behavior"@ != "api.strm-base-url"@,
        "api.duplicate-nzb-behavior"@ != "queue.max-concurrent"@,
        "api.import-strategy"@ != "webdav.enforce-readonly"@,
        "api.import-strategy"@ != "api.strm-base-url"@,
        "api.import-strategy"@ != "queue.max-concurrent"@,
        "webdav.enforce-readonly"@ != "api.strm-base-url"@,
        "webdav.enforce-readonly"@ != "queue.max-concurrent"@,
        "api.strm-base-url"@ != "queue.max-concurrent"@,
{
    reveal_strlit("api.categories");
    reveal_strlit("api.download-file-blocklist");
    reveal_strlit("api.ensure-importable-video");
    reveal_strlit("api.duplicate-nzb-behavior");
    reveal_strlit("api.import-strategy");
    reveal_strlit("webdav.enforce-readonly");
    reveal_strlit("api.strm-base-url");
    reveal_strlit("queue.max-concurrent");
    assert("api.categories"@[4] != "api.download-file-blocklist"@[4]);
    assert("api.categories"@[4] != "api.ensure-importable-video"@[4]);
    assert("api.categories"@[4] != "api.duplicate-nzb-behavior"@[4]);
    assert("api.categories"@[4] != "api.import-strategy"@[4]);
    assert("api.categories"@[0] != "webdav.enforce-readonly"@[0]);
    assert("api.categories"@[4] != "api.strm-base-url"@[4]);
    assert("api.categories"@[0] != "queue.max-concurrent"@[0]);
    assert("api.download-file-blocklist"@[4] != "api.ensure-importable-video"@[4]);
    assert("api.download-file-blocklist"@[5] != "api.duplicate-nzb-behavior"@[5]);
    assert("api.download-file-blocklist"@[4] != "api.import-strategy"@[4]);
    assert("api.download-file-blocklist"@[0] != "webdav.enforce-readonly"@[0]);
    assert("api.download-file-blocklist"@[4] != "api.strm-base-url"@[4]);
    assert("api.download-file-blocklist"@[0] != "queue.max-concurrent"@[0]);
    assert("api.ensure-importable-video"@[4] != "api.duplicate-nzb-behavior"@[4]);
    assert("api.ensure-importable-video"@[4] != "api.import-strategy"@[4]);
    assert("api.ensure-importable-video"@[0] != "webdav.enforce-readonly"@[0]);
    assert("api.ensure-importable-video"@[4] != "api.strm-base-url"@[4]);
    assert("api.ensure-importable-video"@[0] != "queue.max-concurrent"@[0]);
    assert("api.duplicate-nzb-behavior"@[4] != "api.import-strategy"@[4]);
    assert("api.duplicate-nzb-behavior"@[0] != "webdav.enforce-readonly"@[0]);
    assert("api.duplicate-nzb-behavior"@[4] != "api.strm-base-url"@[4]);
    assert("api.duplicate-nzb-behavior"@[0] != "queue.max-concurrent"@[0]);
    assert("api.import-strategy"@[0] != "webdav.enforce-readonly"@[0]);
    assert("api.import-strategy"@[4] != "api.strm-base-url"@[4]);
    assert("api.import-strategy"@[0] != "queue.max-concurrent"@[0]);
    assert("webdav.enforce-readonly"@[0] != "api.strm-base-url"@[0]);
    assert("webdav.enforce-readonly"@[0] != "queue.max-concurrent"@[0]);
    assert("api.strm-base-url"@[0] != "queue.max-concurrent"@[0]);
}

/// Settings stored in any configuration are the settings that it then
/// shows: the keys are distinct, the flags are written as `true`/`false`,
/// and the queue limit as its decimal digits, which read back as the same
/// number.
pub proof fn lemma_settings_round_trip(m: Map<Seq<char>, Seq<char>>, s: SettingsResponse)
    ensures
        shows_config(s, apply_pairs(m, settings_pairs(s))),
{
    let ps = settings_pairs(s);
    reveal_strlit("api.categories");
    reveal_strlit("api.download-file-blocklist");
    reveal_strlit("api.ensure-importable-video");
    reveal_strlit("api.duplicate-nzb-behavior");
    reveal_strlit("api.import-strategy");
    reveal_strlit("webdav.enforce-readonly");
    reveal_strlit("api.strm-base-url");
    reveal_strlit("queue.max-concurrent");
    reveal_strlit("true");
    reveal_strlit("false");
    reveal_with_fuel(apply_pairs, 9);
    assert(ps.drop_last() =~= ps.subrange(0, 7));
    assert(ps.subrange(0, 7).drop_last() =~= ps.subrange(0, 6));
    assert(ps.subrange(0, 6).drop_last() =~= ps.subrange(0, 5));
    assert(ps.subrange(0, 5).drop_last() =~= ps.subrange(0, 4));
    assert(ps.subrange(0, 4).drop_last() =~= ps.subrange(0, 3));
    assert(ps.subrange(0, 3).drop_last() =~= ps.subrange(0, 2));
    assert(ps.subrange(0, 2).drop_last() =~= ps.subrange(0, 1));
    assert(ps.subrange(0, 1).drop_last() =~= ps.subrange(0, 0));
    lemma_parse_decimal(s.max_concurrent_queue as nat, usize::MAX as nat);
    lemma_setting_keys_distinct();
    let n = apply_pairs(m, ps);
    assert(n == m.insert(ps[0].0, ps[0].1).insert(ps[1].0, ps[1].1).insert(ps[2].0, ps[2].1).insert(
        ps[3].0,
        ps[3].1,
    ).insert(ps[4].0, ps[4].1).insert(ps[5].0, ps[5].1).insert(ps[6].0, ps[6].1).insert(
        ps[7].0,
        ps[7].1,
    ));
    assert(n["api.categories"@] == s.categories@);
    assert(n["api.download-file-blocklist"@] == s.file_blocklist@);
    assert(n["api.ensure-importable-video"@] == flag_text(s.ensure_importable_video));
    assert(n["webdav.enforce-readonly"@] == flag_text(s.webdav_enforce_readonly));
    assert(n["queue.max-concurrent"@] == decimal(s.max_concurrent_queue as nat));
}

/// Whether two settings are the same in all eight fields.
pub open spec fn same_settings(a: SettingsResponse, b: SettingsResponse) -> bool {
    &&& a.categories@ == b.categories@
    &&& a.file_blocklist@ == b.file_blocklist@
    &&& a.ensure_importable_video == b.ensure_importable_video
    &&& a.duplicate_nzb_behavior@ == b.duplicate_nzb_behavior@
    &&& a.import_strategy@ == b.import_strategy@
    &&& a.webdav_enforce_readonly == b.webdav_enforce_readonly
    &&& a.strm_base_url@ == b.strm_base_url@
    &&& a.max_concurrent_queue == b.max_concurrent_queue
}

/// Reading the settings back after they were stored gives them unchanged:
/// whatever `from_config` returns for a configuration that `apply_to`
/// left after storing `s` is the same as `s` in all eight fields.
pub proof fn lemma_settings_read_back(m: Map<Seq<char>, Seq<char>>, s: SettingsResponse, r: SettingsResponse)
    requires
        shows_config(r, apply_pairs(m, settings_pairs(s))),
    ensures
        same_settings(r, s),
{
    lemma_settings_round_trip(m, s);
}

} // verus!
