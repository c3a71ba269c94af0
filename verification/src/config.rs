//! User preferences: default versions, language, theme, font size, AI
//! provider and study defaults, read and written as text by key.
use vstd::prelude::*;
use vstd::string::StringExecFns;

use crate::ai::{lens_for_key, lens_slug, mode_for_key, mode_slug, Denomination, StudyMode};
use crate::model::{lang_code, lang_for_key, Lang};
use crate::text::{parse_u16_std, parse_u16_text, chars_of, copy_str, decimal, eq_lit, join, join_strings, lower_chars, lower_seq, push_decimal, replace_char, replace_char_vec, split, split_chars, string_of, trim, trim_chars};

verus! {

/// A protected version read live through an API (with the user's key).
#[derive(Debug, Clone, PartialEq, Eq)]
pub struct Connector {
    /// Slug used by `--version` (ex.: `ara`, `esv`).
    pub slug: String,
    /// Connector kind: `apibible` or `esv`.
    pub kind: String,
    /// Bible id at API.Bible (only for `kind = "apibible"`).
    pub bible_id: Option<String>,
    /// Display name.
    pub name: String,
    /// Display abbreviation.
    pub abbrev: String,
    /// Language of the text.
    pub language: Lang,
}

/// User preferences.
#[derive(Debug, Clone, PartialEq, Eq)]
pub struct Config {
    /// Default versions of `read` when `--version` is omitted.
    pub versions: Vec<String>,
    /// Default display language.
    pub language: Lang,
    /// Color theme name.
    pub theme: String,
    /// Font size (where the terminal allows it).
    pub font_size: Option<u16>,
    /// Active AI provider (`anthropic`/`openai`/`ollama`); empty = none.
    pub provider: String,
    /// Default study mode.
    pub study_mode: StudyMode,
    /// Default denominational lens of studies.
    pub study_lens: Denomination,
    /// Connectors of protected versions (opt-in, read live).
    pub connectors: Vec<Connector>,
}

/// Abstract preferences.
pub struct ConfigView {
    pub versions: Seq<Seq<char>>,
    pub language: Lang,
    pub theme: Seq<char>,
    pub font_size: Option<u16>,
    pub provider: Seq<char>,
    pub study_mode: StudyMode,
    pub study_lens: Denomination,
    pub connectors: Seq<Connector>,
}

impl View for Config {
    type V = ConfigView;

    open spec fn view(&self) -> ConfigView {
        ConfigView {
            versions: self.versions@.map_values(|s: String| s@),
            language: self.language,
            theme: self.theme@,
            font_size: self.font_size,
            provider: self.provider@,
            study_mode: self.study_mode,
            study_lens: self.study_lens,
            connectors: self.connectors@,
        }
    }
}

/// The defaults: `kjv`, Portuguese, `auto` theme, no font size, no provider,
/// introductory mode, Presbyterian lens, no connector.
pub open spec fn default_config() -> ConfigView {
    ConfigView {
        versions: seq!["kjv"@],
        language: Lang::Pt,
        theme: "auto"@,
        font_size: None,
        provider: seq![],
        study_mode: StudyMode::Introductory,
        study_lens: Denomination::Presbyterian,
        connectors: seq![],
    }
}

impl Default for Config {
    fn default() -> (r: Config)
        ensures
            r@ == default_config(),
    {
        let r = Config {
            versions: vec![copy_str("kjv")],
            language: Lang::Pt,
            theme: copy_str("auto"),
            font_size: None,
            provider: String::new(),
            study_mode: StudyMode::Introductory,
            study_lens: Denomination::Presbyterian,
            connectors: Vec::new(),
        };
        assert(r@.versions =~= seq!["kjv"@]);
        assert(r@.connectors =~= Seq::<Connector>::empty());
        r
    }
}

/// Configuration errors.
#[derive(Debug)]
pub enum ConfigError {
    /// I/O error reading or writing the file (message).
    Io(String),
    /// Invalid TOML (message).
    Parse(String),
    /// Serialization failure (message).
    Serialize(String),
    /// Unknown configuration key.
    UnknownKey(String),
    /// Invalid value for the key.
    BadValue {
        /// Key concerned.
        key: String,
        /// Rejected value.
        value: String,
    },
    /// The configuration directory could not be determined.
    NoConfigDir,
}

/// Abstract outcome of a `set` that fails.
pub enum CfgErr {
    UnknownKey(Seq<char>),
    BadValue(Seq<char>, Seq<char>),
}

/// The keys, in listing order.
pub open spec fn config_keys() -> Seq<Seq<char>> {
    seq!["versions"@, "language"@, "theme"@, "font-size"@, "provider"@, "study-mode"@, "study-lens"@]
}

/// Configurable keys (for `config set/get/list`).
pub fn keys() -> (r: Vec<&'static str>)
    ensures
        r@.map_values(|k: &str| k@) == config_keys(),
{
    let r = vec!["versions", "language", "theme", "font-size", "provider", "study-mode", "study-lens"];
    assert(r@.map_values(|k: &str| k@) =~= config_keys());
    r
}

/// A key as compared: trimmed, ASCII-lowercased, `_` read as `-`.
pub open spec fn normalized_key(key: Seq<char>) -> Seq<char> {
    replace_char(lower_seq(trim(key)), '_', '-')
}

fn normalize_key(key: &str) -> (r: Vec<char>)
    ensures
        r@ == normalized_key(key@),
{
    let t = trim_chars(chars_of(key).as_slice());
    let l = lower_chars(t.as_slice());
    replace_char_vec(l.as_slice(), '_', '-')
}

/// The trimmed non-empty pieces, in order.
pub open spec fn nonempty_trimmed(ps: Seq<Seq<char>>) -> Seq<Seq<char>>
    decreases ps.len(),
{
    if ps.len() == 0 {
        seq![]
    } else if trim(ps.last()).len() > 0 {
        nonempty_trimmed(ps.drop_last()).push(trim(ps.last()))
    } else {
        nonempty_trimmed(ps.drop_last())
    }
}

/// A version list: the comma-separated names, trimmed, empty ones dropped.
pub open spec fn version_list(value: Seq<char>) -> Seq<Seq<char>> {
    nonempty_trimmed(split(value, ','))
}


/// What `set(key, value)` makes of the preferences, or the error it reports.
pub open spec fn set_spec(c: ConfigView, key: Seq<char>, value: Seq<char>) -> Result<ConfigView, CfgErr> {
    let k = normalized_key(key);
    if k == "versions"@ {
        let vs = version_list(value);
        if vs.len() == 0 {
            Err(CfgErr::BadValue("versions"@, value))
        } else {
            Ok(ConfigView { versions: vs, ..c })
        }
    } else if k == "language"@ {
        match lang_for_key(lower_seq(trim(value))) {
            Some(l) => Ok(ConfigView { language: l, ..c }),
            None => Err(CfgErr::BadValue("language"@, value)),
        }
    } else if k == "theme"@ {
        if trim(value).len() == 0 {
            Err(CfgErr::BadValue("theme"@, value))
        } else {
            Ok(ConfigView { theme: trim(value), ..c })
        }
    } else if k == "font-size"@ {
        let v = trim(value);
        if v.len() == 0 || lower_seq(v) == "none"@ {
            Ok(ConfigView { font_size: None, ..c })
        } else {
            match parse_u16_std(v) {
                Some(n) => Ok(ConfigView { font_size: Some(n), ..c }),
                None => Err(CfgErr::BadValue("font-size"@, value)),
            }
        }
    } else if k == "provider"@ {
        Ok(ConfigView { provider: lower_seq(trim(value)), ..c })
    } else if k == "study-mode"@ {
        match mode_for_key(lower_seq(trim(value))) {
            Some(m) => Ok(ConfigView { study_mode: m, ..c }),
            None => Err(CfgErr::BadValue("study-mode"@, value)),
        }
    } else if k == "study-lens"@ || k == "lens"@ {
        match lens_for_key(lower_seq(trim(value))) {
            Some(d) => Ok(ConfigView { study_lens: d, ..c }),
            None => Err(CfgErr::BadValue("study-lens"@, value)),
        }
    } else {
        Err(CfgErr::UnknownKey(key))
    }
}

/// A key's value as text, `None` for an unknown key.
pub open spec fn get_spec(c: ConfigView, key: Seq<char>) -> Option<Seq<char>> {
    let k = normalized_key(key);
    if k == "versions"@ {
        Some(join(c.versions, ","@))
    } else if k == "language"@ {
        Some(lang_code(c.language))
    } else if k == "theme"@ {
        Some(c.theme)
    } else if k == "font-size"@ {
        Some(
            match c.font_size {
                Some(n) => decimal(n as nat),
                None => "none"@,
            },
        )
    } else if k == "provider"@ {
        Some(c.provider)
    } else if k == "study-mode"@ {
        Some(mode_slug(c.study_mode))
    } else if k == "study-lens"@ {
        Some(lens_slug(c.study_lens))
    } else {
        None
    }
}

pub open spec fn err_view(e: ConfigError) -> Option<CfgErr> {
    match e {
        ConfigError::UnknownKey(k) => Some(CfgErr::UnknownKey(k@)),
        ConfigError::BadValue { key, value } => Some(CfgErr::BadValue(key@, value@)),
        _ => None,
    }
}

fn bad_value(key: &str, value: &str) -> (r: ConfigError)
    ensures
        err_view(r) == Some(CfgErr::BadValue(key@, value@)),
{
    ConfigError::BadValue { key: copy_str(key), value: copy_str(value) }
}

fn version_list_exec(value: &str) -> (r: Vec<String>)
    ensures
        r@.map_values(|s: String| s@) == version_list(value@),
{
    let v = chars_of(value);
    let ps = split_chars(v.as_slice(), ',');
    let ghost pv = ps@.map_values(|w: Vec<char>| w@);
    let mut out: Vec<String> = Vec::new();
    let mut i: usize = 0;
    while i < ps.len()
        invariant
            i <= ps.len(),
            pv == ps@.map_values(|w: Vec<char>| w@),
            pv == split(value@, ','),
            out@.map_values(|s: String| s@) == nonempty_trimmed(pv.take(i as int)),
        decreases ps.len() - i,
    {
        assert(pv.take((i + 1) as int).drop_last() =~= pv.take(i as int));
        assert(pv.take((i + 1) as int).last() == ps@[i as int]@);
        let t = trim_chars(ps[i].as_slice());
        if t.len() > 0 {
            let ghost o0 = out@;
            out.push(string_of(t.as_slice()));
            assert(out@.map_values(|s: String| s@) =~= o0.map_values(|s: String| s@).push(t@));
        }
        i = i + 1;
    }
    assert(pv.take(ps.len() as int) =~= pv);
    out
}

impl Config {
    /// Sets a key from text, validating the value. On an error nothing changes.
    pub fn set(&mut self, key: &str, value: &str) -> (r: Result<(), ConfigError>)
        ensures
            match set_spec(old(self)@, key@, value@) {
                Ok(c) => r is Ok && final(self)@ == c,
                Err(e) => r matches Err(x) && err_view(x) == Some(e) && final(self)@ == old(
                    self,
                )@,
            },
    {
        let k = normalize_key(key);
        let ks = k.as_slice();
        proof {
            reveal_strlit("versions");
            reveal_strlit("language");
            reveal_strlit("theme");
            reveal_strlit("font-size");
            reveal_strlit("provider");
            reveal_strlit("study-mode");
            reveal_strlit("study-lens");
            reveal_strlit("lens");
        }
        if eq_lit(ks, "versions") {
            let vs = version_list_exec(value);
            if vs.len() == 0 {
                return Err(bad_value("versions", value));
            }
            self.versions = vs;
        } else if eq_lit(ks, "language") {
            match Lang::parse(value) {
                Ok(l) => self.language = l,
                Err(_) => return Err(bad_value("language", value)),
            }
        } else if eq_lit(ks, "theme") {
            let t = trim_chars(chars_of(value).as_slice());
            if t.len() == 0 {
                return Err(bad_value("theme", value));
            }
            self.theme = string_of(t.as_slice());
        } else if eq_lit(ks, "font-size") {
            let t = trim_chars(chars_of(value).as_slice());
            let l = lower_chars(t.as_slice());
            if t.len() == 0 || eq_lit(l.as_slice(), "none") {
                self.font_size = None;
            } else {
                match parse_u16_text(t.as_slice()) {
                    Some(n) => self.font_size = Some(n),
                    None => return Err(bad_value("font-size", value)),
                }
            }
        } else if eq_lit(ks, "provider") {
            let t = trim_chars(chars_of(value).as_slice());
            let l = lower_chars(t.as_slice());
            self.provider = string_of(l.as_slice());
        } else if eq_lit(ks, "study-mode") {
            match StudyMode::parse(value) {
                Some(m) => self.study_mode = m,
                None => return Err(bad_value("study-mode", value)),
            }
        } else if eq_lit(ks, "study-lens") || eq_lit(ks, "lens") {
            match Denomination::parse(value) {
                Ok(d) => self.study_lens = d,
                Err(_) => return Err(bad_value("study-lens", value)),
            }
        } else {
            return Err(ConfigError::UnknownKey(copy_str(key)));
        }
        Ok(())
    }

    /// Reads a key as text; `None` when the key is unknown.
    pub fn get(&self, key: &str) -> (r: Option<String>)
        ensures
            match get_spec(self@, key@) {
                Some(t) => r matches Some(s) && s@ == t,
                None => r is None,
            },
    {
        let k = normalize_key(key);
        let ks = k.as_slice();
        proof {
            reveal_strlit("versions");
            reveal_strlit("language");
            reveal_strlit("theme");
            reveal_strlit("font-size");
            reveal_strlit("provider");
            reveal_strlit("study-mode");
            reveal_strlit("study-lens");
        }
        if eq_lit(ks, "versions") {
            Some(join_strings(self.versions.as_slice(), ","))
        } else if eq_lit(ks, "language") {
            Some(copy_str(self.language.code()))
        } else if eq_lit(ks, "theme") {
            Some(copy_str(self.theme.as_str()))
        } else if eq_lit(ks, "font-size") {
            match self.font_size {
                Some(n) => {
                    let mut s = String::new();
                    push_decimal(&mut s, n as u64);
                    Some(s)
                },
                None => Some(copy_str("none")),
            }
        } else if eq_lit(ks, "provider") {
            Some(copy_str(self.provider.as_str()))
        } else if eq_lit(ks, "study-mode") {
            Some(copy_str(self.study_mode.slug()))
        } else if eq_lit(ks, "study-lens") {
            Some(copy_str(self.study_lens.slug()))
        } else {
            None
        }
    }

    /// Every key with its value, in a stable order (for `config list`).
    pub fn entries(&self) -> (r: Vec<(String, String)>)
        ensures
            r@.len() == config_keys().len(),
            forall|i: int|
                0 <= i < r@.len() ==> (#[trigger] r@[i]).0@ == config_keys()[i] && get_spec(
                    self@,
                    config_keys()[i],
                ) == Some(r@[i].1@),
    {
        let ks = keys();
        let ghost kv = ks@.map_values(|k: &str| k@);
        let mut out: Vec<(String, String)> = Vec::new();
        let mut i: usize = 0;
        while i < ks.len()
            invariant
                i <= ks.len(),
                kv == ks@.map_values(|k: &str| k@),
                kv == config_keys(),
                out@.len() == i,
                forall|j: int|
                    0 <= j < i ==> (#[trigger] out@[j]).0@ == config_keys()[j] && get_spec(
                        self@,
                        config_keys()[j],
                    ) == Some(out@[j].1@),
            decreases ks.len() - i,
        {
            let k = ks[i];
            assert(k@ == config_keys()[i as int]);
            proof {
                lemma_known_key(i as int);
            }
            assert(get_spec(self@, k@) is Some);
            let v = match self.get(k) {
                Some(v) => v,
                None => String::new(),
            };
            let ghost o0 = out@;
            out.push((copy_str(k), v));
            assert(out@[i as int].0@ == config_keys()[i as int]);
            assert(forall|j: int| 0 <= j < i ==> out@[j] == o0[j]);
            i = i + 1;
        }
        out
    }
}

/// Every listed key is known to `get`.
proof fn lemma_known_key(i: int)
    requires
        0 <= i < config_keys().len(),
    ensures
        normalized_key(config_keys()[i]) == config_keys()[i],
        forall|c: ConfigView| #[trigger] get_spec(c, config_keys()[i]) is Some,
{
    reveal_strlit("versions");
    reveal_strlit("language");
    reveal_strlit("theme");
    reveal_strlit("font-size");
    reveal_strlit("provider");
    reveal_strlit("study-mode");
    reveal_strlit("study-lens");
    let k = config_keys()[i];
    assert(trim(k) == k) by {
        crate::text::lemma_trim_plain(k);
    }
    assert(lower_seq(k) =~= k);
    assert(replace_char(k, '_', '-') =~= k);
}

/// Which preference a normalized key names (0: none).
pub open spec fn key_field(k: Seq<char>) -> int {
    if k == "versions"@ {
        1
    } else if k == "language"@ {
        2
    } else if k == "theme"@ {
        3
    } else if k == "font-size"@ {
        4
    } else if k == "provider"@ {
        5
    } else if k == "study-mode"@ {
        6
    } else if k == "study-lens"@ || k == "lens"@ {
        7
    } else {
        0
    }
}

/// A successful `set` touches only its own preference: `get` of a key that
/// names another preference gives what it gave before.
pub proof fn lemma_set_keeps_other_keys(c: ConfigView, key: Seq<char>, value: Seq<char>, other: Seq<char>)
    requires
        set_spec(c, key, value) is Ok,
        key_field(normalized_key(other)) != key_field(normalized_key(key)),
    ensures
        get_spec(set_spec(c, key, value)->Ok_0, other) == get_spec(c, other),
{
}

/// Every preference but the one named by field number `f` (see `key_field`)
/// is the same in `a` and `b`.
pub open spec fn same_except(a: ConfigView, b: ConfigView, f: int) -> bool {
    &&& (f != 1 ==> a.versions == b.versions)
    &&& (f != 2 ==> a.language == b.language)
    &&& (f != 3 ==> a.theme == b.theme)
    &&& (f != 4 ==> a.font_size == b.font_size)
    &&& (f != 5 ==> a.provider == b.provider)
    &&& (f != 6 ==> a.study_mode == b.study_mode)
    &&& (f != 7 ==> a.study_lens == b.study_lens)
    &&& a.connectors == b.connectors
}

/// `set` refuses a key as unknown exactly when its normalized form names no
/// preference (the seven listed keys and the alias `lens`), and then reports
/// the key as given. A known key fails only with `BadValue` on the canonical
/// key name and the value as given, and it does so exactly when the value is
/// rejected: a version list with no non-blank name, a language, study mode or
/// lens that is not recognised, a blank theme, or a font size that is neither
/// blank, `none` nor a `u16`; a provider is never rejected. When `set`
/// succeeds, only the named preference may differ.
pub proof fn lemma_set_outcome(c: ConfigView, key: Seq<char>, value: Seq<char>)
    ensures
        ({
            let k = normalized_key(key);
            let r = set_spec(c, key, value);
            let t = trim(value);
            &&& (r is Err && r->Err_0 is UnknownKey) <==> key_field(k) == 0
            &&& r matches Err(CfgErr::UnknownKey(x)) ==> x == key
            &&& r matches Err(CfgErr::BadValue(n, v)) ==> v == value && key_field(k) != 0
                && n == config_keys()[key_field(k) - 1]
            &&& key_field(k) == 1 ==> (r is Err <==> version_list(value).len() == 0)
            &&& key_field(k) == 2 ==> (r is Err <==> lang_for_key(lower_seq(t)) is None)
            &&& key_field(k) == 3 ==> (r is Err <==> t.len() == 0)
            &&& key_field(k) == 4 ==> (r is Err <==> !(t.len() == 0 || lower_seq(t) == "none"@
                || parse_u16_std(t) is Some))
            &&& key_field(k) == 5 ==> r is Ok
            &&& key_field(k) == 6 ==> (r is Err <==> mode_for_key(lower_seq(t)) is None)
            &&& key_field(k) == 7 ==> (r is Err <==> lens_for_key(lower_seq(t)) is None)
            &&& r matches Ok(c2) ==> same_except(c, c2, key_field(k))
        }),
{
    reveal_strlit("versions");
    reveal_strlit("language");
    reveal_strlit("theme");
    reveal_strlit("font-size");
    reveal_strlit("provider");
    reveal_strlit("study-mode");
    reveal_strlit("study-lens");
    reveal_strlit("lens");
}

/// `get` answers exactly the listed keys (after normalization) and gives
/// `None` for every other key, the `lens` alias of `set` included.
pub proof fn lemma_get_known(c: ConfigView, key: Seq<char>)
    ensures
        get_spec(c, key) is Some <==> config_keys().contains(normalized_key(key)),
        normalized_key(key) == "lens"@ ==> get_spec(c, key) is None,
{
    reveal_strlit("versions");
    reveal_strlit("language");
    reveal_strlit("theme");
    reveal_strlit("font-size");
    reveal_strlit("provider");
    reveal_strlit("study-mode");
    reveal_strlit("study-lens");
    reveal_strlit("lens");
    let k = normalized_key(key);
    let ks = config_keys();
    if get_spec(c, key) is Some {
        if k == "versions"@ {
            assert(ks[0] == k);
        } else if k == "language"@ {
            assert(ks[1] == k);
        } else if k == "theme"@ {
            assert(ks[2] == k);
        } else if k == "font-size"@ {
            assert(ks[3] == k);
        } else if k == "provider"@ {
            assert(ks[4] == k);
        } else if k == "study-mode"@ {
            assert(ks[5] == k);
        } else {
            assert(ks[6] == k);
        }
    }
    if ks.contains(k) {
        let i = choose|i: int| 0 <= i < ks.len() && ks[i] == k;
        assert(0 <= i < 7);
    }
    if k == "lens"@ {
        assert(k.len() == 4);
        assert(get_spec(c, key) is None);
    }
}

/// What `get` shows of a key after `set` accepted `value` for it: the
/// version list joined by commas, the language code, the trimmed theme, the
/// font size in decimal (`none` when unset), the lowercased trimmed
/// provider, the study mode's or lens's slug. The `lens` alias is set but
/// not shown.
pub proof fn lemma_get_after_set(c: ConfigView, key: Seq<char>, value: Seq<char>)
    requires
        set_spec(c, key, value) is Ok,
    ensures
        normalized_key(key) == "versions"@ ==> get_spec(set_spec(c, key, value)->Ok_0, key) == Some(
            join(version_list(value), ","@),
        ),
        normalized_key(key) == "language"@ ==> get_spec(set_spec(c, key, value)->Ok_0, key) == Some(
            lang_code(lang_for_key(lower_seq(trim(value)))->Some_0),
        ),
        normalized_key(key) == "theme"@ ==> get_spec(set_spec(c, key, value)->Ok_0, key) == Some(trim(value)),
        normalized_key(key) == "font-size"@ ==> get_spec(set_spec(c, key, value)->Ok_0, key) == Some(
            if trim(value).len() == 0 || lower_seq(trim(value)) == "none"@ {
                "none"@
            } else {
                decimal(parse_u16_std(trim(value))->Some_0 as nat)
            },
        ),
        normalized_key(key) == "provider"@ ==> get_spec(set_spec(c, key, value)->Ok_0, key) == Some(
            lower_seq(trim(value)),
        ),
        normalized_key(key) == "study-mode"@ ==> get_spec(set_spec(c, key, value)->Ok_0, key) == Some(
            mode_slug(mode_for_key(lower_seq(trim(value)))->Some_0),
        ),
        normalized_key(key) == "study-lens"@ ==> get_spec(set_spec(c, key, value)->Ok_0, key) == Some(
            lens_slug(lens_for_key(lower_seq(trim(value)))->Some_0),
        ),
        normalized_key(key) == "lens"@ ==> get_spec(set_spec(c, key, value)->Ok_0, key) is None,
{
    reveal_strlit("versions");
    reveal_strlit("language");
    reveal_strlit("theme");
    reveal_strlit("font-size");
    reveal_strlit("provider");
    reveal_strlit("study-mode");
    reveal_strlit("study-lens");
    reveal_strlit("lens");
    let k = normalized_key(key);
    let c2 = set_spec(c, key, value)->Ok_0;
    if k == "lens"@ {
        assert(k.len() == 4);
    } else if k == "language"@ {
        assert(k[0] == 'l' && k.len() == 8);
        assert(get_spec(c2, key) == Some(lang_code(c2.language)));
    } else if k == "theme"@ {
        assert(k[0] == 't' && k.len() == 5);
        assert(get_spec(c2, key) == Some(c2.theme));
    } else if k == "versions"@ {
        assert(k[0] == 'v' && k.len() == 8);
        assert(get_spec(c2, key) == Some(join(c2.versions, ","@)));
    } else if k == "font-size"@ {
        assert(k[0] == 'f' && k.len() == 9);
    } else if k == "provider"@ {
        assert(k[0] == 'p' && k.len() == 8);
        assert(get_spec(c2, key) == Some(c2.provider));
    } else if k == "study-mode"@ {
        assert(k[6] == 'm' && k.len() == 10);
        assert(get_spec(c2, key) == Some(mode_slug(c2.study_mode)));
    } else if k == "study-lens"@ {
        assert(k[6] == 'l' && k.len() == 10);
        assert(get_spec(c2, key) == Some(lens_slug(c2.study_lens)));
    }
}

proof fn lemma_nonempty_trimmed_props(ps: Seq<Seq<char>>, c: char)
    requires
        forall|i: int| 0 <= i < ps.len() ==> !(#[trigger] ps[i]).contains(c),
    ensures
        forall|i: int|
            0 <= i < nonempty_trimmed(ps).len() ==> {
                let w = #[trigger] nonempty_trimmed(ps)[i];
                &&& w.len() > 0
                &&& trim(w) == w
                &&& !w.contains(c)
            },
    decreases ps.len(),
{
    if ps.len() > 0 {
        let init = ps.drop_last();
        assert forall|i: int| 0 <= i < init.len() implies !(#[trigger] init[i]).contains(c) by {
            assert(init[i] == ps[i]);
        }
        lemma_nonempty_trimmed_props(init, c);
        let x = ps.last();
        let t = trim(x);
        crate::text::lemma_trim_idem(x);
        crate::text::lemma_trim_sub(x);
        if t.contains(c) {
            let m = choose|m: int| 0 <= m < t.len() && t[m] == c;
            let j = choose|j: int| 0 <= j < x.len() && x[j] == t[m];
            assert(ps[ps.len() - 1] == x);
            assert(x.contains(c));
        }
        let prev = nonempty_trimmed(init);
        let r = nonempty_trimmed(ps);
        assert forall|i: int| 0 <= i < r.len() implies {
            let w = #[trigger] r[i];
            &&& w.len() > 0
            &&& trim(w) == w
            &&& !w.contains(c)
        } by {
            if i < prev.len() {
                assert(r[i] == prev[i]);
            } else {
                assert(r[i] == t);
            }
        }
    }
}

proof fn lemma_nonempty_trimmed_fixed(vs: Seq<Seq<char>>)
    requires
        forall|i: int| 0 <= i < vs.len() ==> (#[trigger] vs[i]).len() > 0 && trim(vs[i]) == vs[i],
    ensures
        nonempty_trimmed(vs) == vs,
    decreases vs.len(),
{
    if vs.len() > 0 {
        let init = vs.drop_last();
        assert forall|i: int| 0 <= i < init.len() implies (#[trigger] init[i]).len() > 0 && trim(init[i]) == init[i] by {
            assert(init[i] == vs[i]);
        }
        lemma_nonempty_trimmed_fixed(init);
        assert(vs.last() == vs[vs.len() - 1]);
        assert(init.push(vs.last()) =~= vs);
    }
}

/// A version list read back from its own text is the same list.
proof fn lemma_versions_roundtrip(value: Seq<char>)
    requires
        version_list(value).len() > 0,
    ensures
        version_list(join(version_list(value), ","@)) == version_list(value),
{
    let vs = version_list(value);
    crate::text::lemma_split_pieces(value, ',', 0);
    lemma_nonempty_trimmed_props(split(value, ','), ',');
    reveal_strlit(",");
    assert(","@ =~= seq![',']);
    crate::text::lemma_split_join(vs, ',');
    lemma_nonempty_trimmed_fixed(vs);
}

/// Setting a key to the text `get` gives for it after a successful `set`
/// changes nothing: what `get` shows is what `set` reads back.
pub proof fn lemma_set_get_roundtrip(c: ConfigView, key: Seq<char>, value: Seq<char>)
    requires
        set_spec(c, key, value) is Ok,
        normalized_key(key) != "lens"@,
    ensures
        ({
            let c2 = set_spec(c, key, value)->Ok_0;
            set_spec(c2, key, get_spec(c2, key)->Some_0) == Ok::<ConfigView, CfgErr>(c2)
        }),
{
    let k = normalized_key(key);
    let c2 = set_spec(c, key, value)->Ok_0;
    let t = trim(value);
    crate::text::lemma_trim_idem(value);
    reveal_strlit("pt");
    reveal_strlit("en");
    reveal_strlit("none");
    reveal_strlit("academic");
    reveal_strlit("devotional");
    reveal_strlit("introductory");
    reveal_strlit("sermon");
    reveal_strlit("baptist");
    reveal_strlit("presbyterian");
    reveal_strlit("lutheran");
    reveal_strlit("pentecostal");
    reveal_strlit("catholic");
    reveal_strlit("orthodox");
    if k == "versions"@ {
        lemma_versions_roundtrip(value);
        assert(set_spec(c2, key, get_spec(c2, key)->Some_0) == Ok::<ConfigView, CfgErr>(c2));
    } else if k == "language"@ {
        crate::model::lemma_lang_code_key(c2.language);
        assert(set_spec(c2, key, get_spec(c2, key)->Some_0) == Ok::<ConfigView, CfgErr>(c2));
    } else if k == "theme"@ {
        assert(set_spec(c2, key, get_spec(c2, key)->Some_0) == Ok::<ConfigView, CfgErr>(c2));
    } else if k == "font-size"@ {
        match c2.font_size {
            Some(n) => {
                let d = decimal(n as nat);
                crate::text::lemma_decimal_digits(n as nat);
                crate::text::lemma_parse_decimal(n);
                crate::text::lemma_trim_plain(d);
                assert(d[0] != '+');
                assert(lower_seq(d) != "none"@) by {
                    assert(lower_seq(d)[0] == d[0]);
                }
            },
            None => {
                crate::text::lemma_trim_plain("none"@);
                assert(lower_seq("none"@) =~= "none"@);
            },
        }
        assert(set_spec(c2, key, get_spec(c2, key)->Some_0) == Ok::<ConfigView, CfgErr>(c2));
    } else if k == "provider"@ {
        crate::text::lemma_lower_trimmed(t);
        assert(set_spec(c2, key, get_spec(c2, key)->Some_0) == Ok::<ConfigView, CfgErr>(c2));
    } else if k == "study-mode"@ {
        crate::ai::lemma_mode_slug_key(c2.study_mode);
        assert(set_spec(c2, key, get_spec(c2, key)->Some_0) == Ok::<ConfigView, CfgErr>(c2));
    } else if k == "study-lens"@ {
        crate::ai::lemma_lens_slug_key(c2.study_lens);
        assert(set_spec(c2, key, get_spec(c2, key)->Some_0) == Ok::<ConfigView, CfgErr>(c2));
    }
}

} // verus!
