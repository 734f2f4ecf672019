//! Language, translations, download speed and the saved settings.
use vstd::prelude::*;

use crate::json::{field_or_none, json_parse, parse_json, str_of, Json};
use crate::text::{
    contains, decimal, decimal_exec, lowercase, opt_view, replace, replace_exec, starts_with,
    str_contains, str_eq, str_starts_with, to_lower,
};

verus! {

// ---------------------------------------------------------------------------
// Language
// ---------------------------------------------------------------------------

#[derive(PartialEq, Eq, Structural, Clone, Copy, Debug)]
pub enum Language {
    English,
    Spanish,
    Chinese,
}

pub open spec fn language_name(l: Language) -> Seq<char> {
    match l {
        Language::English => "English"@,
        Language::Spanish => "Spanish"@,
        Language::Chinese => "Chinese"@,
    }
}

/// The language of a system locale (the value of `LANG`, `LC_ALL` or
/// `LC_MESSAGES`): Chinese for `zh...` or a locale naming `zh_cn`, Spanish for
/// `es...`, English otherwise; letter case does not matter.
pub open spec fn language_of_locale(locale: Seq<char>) -> Language {
    let l = lowercase(locale);
    if starts_with(l, "zh"@) || contains(l, "zh_cn"@) {
        Language::Chinese
    } else if starts_with(l, "es"@) {
        Language::Spanish
    } else {
        Language::English
    }
}

/// The language saved under a name; an unknown name is English.
pub open spec fn language_named(s: Seq<char>) -> Language {
    if s == "Spanish"@ {
        Language::Spanish
    } else if s == "Chinese"@ {
        Language::Chinese
    } else {
        Language::English
    }
}

impl Language {
    /// The name of the language (its `Display` text).
    pub fn name(&self) -> (r: &'static str)
        ensures
            r@ == language_name(*self),
    {
        match self {
            Language::English => "English",
            Language::Spanish => "Spanish",
            Language::Chinese => "Chinese",
        }
    }

    /// The language of a system locale.
    pub fn from_locale(locale: &str) -> (r: Language)
        ensures
            r == language_of_locale(locale@),
    {
        let l = to_lower(locale);
        if str_starts_with(l.as_str(), "zh") || str_contains(l.as_str(), "zh_cn") {
            Language::Chinese
        } else if str_starts_with(l.as_str(), "es") {
            Language::Spanish
        } else {
            Language::English
        }
    }

    /// The language saved under `s`.
    pub fn from_name(s: &str) -> (r: Language)
        ensures
            r == language_named(s@),
    {
        if str_eq(s, "Spanish") {
            Language::Spanish
        } else if str_eq(s, "Chinese") {
            Language::Chinese
        } else {
            Language::English
        }
    }
}

/// A language's name reads back as the same language.
pub proof fn lemma_language_name_roundtrip(l: Language)
    ensures
        language_named(language_name(l)) == l,
{
    reveal_strlit("English");
    reveal_strlit("Spanish");
    reveal_strlit("Chinese");
    assert("English"@[0] != "Spanish"@[0]);
    assert("English"@[0] != "Chinese"@[0]);
    assert("Chinese"@[0] != "Spanish"@[0]);
}

// ---------------------------------------------------------------------------
// Translations
// ---------------------------------------------------------------------------

/// A table of translated texts, each key once.
pub struct Translations {
    pub entries: Vec<(String, String)>,
}

pub open spec fn pair_views(v: Seq<(String, String)>) -> Seq<(Seq<char>, Seq<char>)> {
    v.map_values(|p: (String, String)| (p.0@, p.1@))
}

/// The text of the first entry under `key`.
pub open spec fn lookup_text(entries: Seq<(Seq<char>, Seq<char>)>, key: Seq<char>) -> Option<Seq<char>>
    decreases entries.len(),
{
    if entries.len() == 0 {
        None
    } else if entries[0].0 == key {
        Some(entries[0].1)
    } else {
        lookup_text(entries.drop_first(), key)
    }
}

/// The translation of `key`, or the key itself where there is none.
pub open spec fn translated(entries: Seq<(Seq<char>, Seq<char>)>, key: Seq<char>) -> Seq<char> {
    match lookup_text(entries, key) {
        Some(t) => t,
        None => key,
    }
}

/// `{i}`: the placeholder of argument `i`.
pub open spec fn placeholder(i: nat) -> Seq<char> {
    seq!['{'] + decimal(i) + seq!['}']
}

/// The template with the placeholders `{0}`, `{1}`, ... of the first `n`
/// arguments replaced in turn by those arguments.
pub open spec fn fill(template: Seq<char>, args: Seq<Seq<char>>, n: nat) -> Seq<char>
    decreases n,
{
    if n == 0 {
        template
    } else {
        replace(fill(template, args, (n - 1) as nat), placeholder((n - 1) as nat), args[n - 1])
    }
}

/// No key occurs twice in the table.
pub open spec fn keys_unique(t: Seq<(Seq<char>, Seq<char>)>) -> bool {
    forall|i: int, j: int| 0 <= i < j < t.len() ==> #[trigger] t[i].0 != #[trigger] t[j].0
}

/// The table with `k` set to `v`, as a map's insert does: the entry under `k`
/// is replaced where there is one, else the pair is added at the end.
pub open spec fn put_text(t: Seq<(Seq<char>, Seq<char>)>, k: Seq<char>, v: Seq<char>) -> Seq<(Seq<char>, Seq<char>)> {
    if exists|i: int| 0 <= i < t.len() && #[trigger] t[i].0 == k {
        t.update(choose|i: int| 0 <= i < t.len() && #[trigger] t[i].0 == k, (k, v))
    } else {
        t.push((k, v))
    }
}

/// The members of an object whose values are all text, as a table of text
/// pairs (a later member under a key replaces an earlier one).
pub open spec fn text_members(m: Seq<(String, Json)>) -> Option<Seq<(Seq<char>, Seq<char>)>>
    decreases m.len(),
{
    if m.len() == 0 {
        Some(seq![])
    } else {
        match (text_members(m.drop_last()), m.last().1) {
            (Some(rest), Json::Str(v)) => Some(put_text(rest, m.last().0@, v@)),
            _ => None,
        }
    }
}

/// The table held by a translation file: an object of texts; anything else
/// gives an empty table.
pub open spec fn translations_of(doc: Option<Json>) -> Seq<(Seq<char>, Seq<char>)> {
    match doc {
        Some(Json::Object(m)) => match text_members(m@) {
            Some(t) => t,
            None => seq![],
        },
        _ => seq![],
    }
}

impl Translations {
    pub open spec fn table(&self) -> Seq<(Seq<char>, Seq<char>)> {
        pair_views(self.entries@)
    }

    /// An empty table.
    pub fn empty() -> (r: Translations)
        ensures
            r.table().len() == 0,
            keys_unique(r.table()),
    {
        Translations { entries: Vec::new() }
    }

    /// Reads a translation file (a JSON object of texts); each key is held once.
    pub fn from_json(json: &str) -> (r: Translations)
        ensures
            r.table() == translations_of(json_parse(json@)),
            keys_unique(r.table()),
    {
        let doc = parse_json(json);
        let members = match &doc {
            Some(Json::Object(m)) => m,
            _ => return Translations::empty(),
        };
        let mut entries: Vec<(String, String)> = Vec::new();
        let mut i: usize = 0;
        while i < members.len()
            invariant
                i <= members.len(),
                translations_of(json_parse(json@)) == (match text_members(members@) {
                    Some(t) => t,
                    None => seq![],
                }),
                text_members(members@.take(i as int)) == Some(pair_views(entries@)),
                keys_unique(pair_views(entries@)),
            decreases members.len() - i,
        {
            assert(members@.take(i + 1).drop_last() =~= members@.take(i as int));
            assert(members@.take(i + 1).last() == members@[i as int]);
            match &members[i].1 {
                Json::Str(v) => {
                    let k = members[i].0.clone();
                    let t = v.clone();
                    put_entry(&mut entries, k, t);
                },
                _ => {
                    proof {
                        lemma_text_members_none(members@, i as int + 1);
                    }
                    return Translations::empty();
                },
            }
            i = i + 1;
        }
        assert(members@.take(members.len() as int) =~= members@);
        Translations { entries }
    }

    /// The translation of `key`, if there is one.
    pub fn get(&self, key: &str) -> (r: Option<String>)
        ensures
            opt_view(r) == lookup_text(self.table(), key@),
    {
        let ghost t = self.table();
        let mut i: usize = 0;
        assert(t.skip(0) =~= t);
        while i < self.entries.len()
            invariant
                i <= self.entries.len(),
                t == self.table(),
                t.len() == self.entries@.len(),
                lookup_text(t.skip(i as int), key@) == lookup_text(t, key@),
            decreases self.entries.len() - i,
        {
            assert(t.skip(i as int)[0] == (self.entries@[i as int].0@, self.entries@[i as int].1@));
            if str_eq(self.entries[i].0.as_str(), key) {
                return Some(self.entries[i].1.clone());
            }
            assert(t.skip(i as int).drop_first() =~= t.skip(i + 1));
            i = i + 1;
        }
        None
    }

    /// The translation of `key`, or `key` itself.
    pub fn t(&self, key: &str) -> (r: String)
        ensures
            r@ == translated(self.table(), key@),
    {
        match self.get(key) {
            Some(s) => s,
            None => String::from_str(key),
        }
    }

    /// The translation of `key` with `{0}`, `{1}`, ... replaced by the arguments in turn.
    pub fn tf(&self, key: &str, args: &[&str]) -> (r: String)
        ensures
            r@ == fill(translated(self.table(), key@), args@.map_values(|a: &str| a@), args@.len()),
    {
        let ghost avs = args@.map_values(|a: &str| a@);
        let mut result = self.t(key);
        let mut i: usize = 0;
        while i < args.len()
            invariant
                i <= args.len(),
                avs == args@.map_values(|a: &str| a@),
                result@ == fill(translated(self.table(), key@), avs, i as nat),
            decreases args.len() - i,
        {
            let mut ph = String::from_str("{");
            let n = decimal_exec(i as u64);
            ph.append(n.as_str());
            ph.append("}");
            proof {
                reveal_strlit("{");
                reveal_strlit("}");
                assert(ph@ =~= placeholder(i as nat));
            }
            assert(avs[i as int] == args@[i as int]@);
            result = replace_exec(result.as_str(), ph.as_str(), args[i]);
            i = i + 1;
        }
        result
    }
}

/// Sets `k` to `v` in a table whose keys are unique, keeping them unique.
fn put_entry(entries: &mut Vec<(String, String)>, k: String, v: String)
    requires
        keys_unique(pair_views(old(entries)@)),
    ensures
        pair_views(final(entries)@) == put_text(pair_views(old(entries)@), k@, v@),
        keys_unique(pair_views(final(entries)@)),
{
    let ghost t = pair_views(entries@);
    let mut j: usize = 0;
    while j < entries.len()
        invariant
            j <= entries.len(),
            t == pair_views(entries@),
            t == pair_views(old(entries)@),
            t.len() == entries@.len(),
            keys_unique(t),
            forall|i: int| 0 <= i < j ==> #[trigger] t[i].0 != k@,
        decreases entries.len() - j,
    {
        assert(t[j as int] == (entries@[j as int].0@, entries@[j as int].1@));
        if str_eq(entries[j].0.as_str(), k.as_str()) {
            proof {
                assert(t[j as int].0 == k@);
                let c = choose|i: int| 0 <= i < t.len() && #[trigger] t[i].0 == k@;
                assert(t[c].0 == k@);
                assert(c == j as int);
                assert(put_text(t, k@, v@) == t.update(j as int, (k@, v@)));
            }
            entries.set(j, (k, v));
            proof {
                assert(pair_views(entries@) =~= t.update(j as int, (k@, v@)));
            }
            return;
        }
        j = j + 1;
    }
    assert(!(exists|i: int| 0 <= i < t.len() && #[trigger] t[i].0 == k@));
    entries.push((k, v));
    assert(pair_views(entries@) =~= t.push((k@, v@)));
}

pub proof fn lemma_text_members_none(m: Seq<(String, Json)>, n: int)
    requires
        0 < n <= m.len(),
        !(m[n - 1].1 is Str),
    ensures
        text_members(m) is None,
    decreases m.len(),
{
    if n < m.len() {
        assert(m.drop_last()[n - 1] == m[n - 1]);
        lemma_text_members_none(m.drop_last(), n);
    }
}

// ---------------------------------------------------------------------------
// Download speed
// ---------------------------------------------------------------------------

#[derive(PartialEq, Eq, Structural, Clone, Copy, Debug)]
pub enum SpeedLimit {
    Low,
    Medium,
    High,
    Max,
}

pub open spec fn rate_of(s: SpeedLimit) -> Option<Seq<char>> {
    match s {
        SpeedLimit::Low => Some("500k"@),
        SpeedLimit::Medium => Some("2m"@),
        SpeedLimit::High => Some("8m"@),
        SpeedLimit::Max => None,
    }
}

pub open spec fn label_key_of(s: SpeedLimit) -> Seq<char> {
    match s {
        SpeedLimit::Low => "cfg_speed_low"@,
        SpeedLimit::Medium => "cfg_speed_medium"@,
        SpeedLimit::High => "cfg_speed_high"@,
        SpeedLimit::Max => "cfg_speed_max"@,
    }
}

/// The speed saved under a text: its name (`Low`, `Medium`, `High`) or the
/// key of its label (`cfg_speed_low`, ...), which is what the settings file
/// holds; anything else means no limit.
pub open spec fn speed_named(s: Seq<char>) -> SpeedLimit {
    if s == "Low"@ || s == label_key_of(SpeedLimit::Low) {
        SpeedLimit::Low
    } else if s == "Medium"@ || s == label_key_of(SpeedLimit::Medium) {
        SpeedLimit::Medium
    } else if s == "High"@ || s == label_key_of(SpeedLimit::High) {
        SpeedLimit::High
    } else {
        SpeedLimit::Max
    }
}

/// The limits handed to the downloader (500 KB/s, 2 MB/s, 8 MB/s, none) and
/// the keys of their labels.
pub proof fn lemma_speed_table(s: SpeedLimit)
    ensures
        rate_of(s) == (match s {
            SpeedLimit::Low => Some("500k"@),
            SpeedLimit::Medium => Some("2m"@),
            SpeedLimit::High => Some("8m"@),
            SpeedLimit::Max => None::<Seq<char>>,
        }),
        label_key_of(s) == "cfg_speed_"@ + (match s {
            SpeedLimit::Low => "low"@,
            SpeedLimit::Medium => "medium"@,
            SpeedLimit::High => "high"@,
            SpeedLimit::Max => "max"@,
        }),
{
    reveal_strlit("cfg_speed_");
    reveal_strlit("low");
    reveal_strlit("medium");
    reveal_strlit("high");
    reveal_strlit("max");
    reveal_strlit("cfg_speed_low");
    reveal_strlit("cfg_speed_medium");
    reveal_strlit("cfg_speed_high");
    reveal_strlit("cfg_speed_max");
    assert("cfg_speed_low"@ =~= "cfg_speed_"@ + "low"@);
    assert("cfg_speed_medium"@ =~= "cfg_speed_"@ + "medium"@);
    assert("cfg_speed_high"@ =~= "cfg_speed_"@ + "high"@);
    assert("cfg_speed_max"@ =~= "cfg_speed_"@ + "max"@);
}

/// A speed saved under the key of its label reads back as that speed.
pub proof fn lemma_saved_speed_roundtrip(s: SpeedLimit)
    ensures
        speed_named(label_key_of(s)) == s,
{
    reveal_strlit("Low");
    reveal_strlit("Medium");
    reveal_strlit("High");
    reveal_strlit("cfg_speed_low");
    reveal_strlit("cfg_speed_medium");
    reveal_strlit("cfg_speed_high");
    reveal_strlit("cfg_speed_max");
    assert("cfg_speed_low"@.len() == 13 && "cfg_speed_max"@.len() == 13);
    assert("cfg_speed_medium"@.len() == 16 && "cfg_speed_high"@.len() == 14);
    assert("Low"@.len() == 3 && "Medium"@.len() == 6 && "High"@.len() == 4);
    assert("cfg_speed_low"@[10] != "cfg_speed_max"@[10]);
    match s {
        SpeedLimit::Max => {
            assert("cfg_speed_max"@ != "cfg_speed_low"@);
        },
        _ => {},
    }
}

impl SpeedLimit {
    /// The `--limit-rate` value of the downloader; none without a limit.
    pub fn rate_arg(&self) -> (r: Option<&'static str>)
        ensures
            match r {
                Some(a) => rate_of(*self) == Some(a@),
                None => rate_of(*self) is None,
            },
    {
        match self {
            SpeedLimit::Low => Some("500k"),
            SpeedLimit::Medium => Some("2m"),
            SpeedLimit::High => Some("8m"),
            SpeedLimit::Max => None,
        }
    }

    /// The translation key of the speed's label.
    pub fn label_key(&self) -> (r: &'static str)
        ensures
            r@ == label_key_of(*self),
    {
        match self {
            SpeedLimit::Low => "cfg_speed_low",
            SpeedLimit::Medium => "cfg_speed_medium",
            SpeedLimit::High => "cfg_speed_high",
            SpeedLimit::Max => "cfg_speed_max",
        }
    }

    /// The translated label, `?` where the table has none.
    pub fn label(&self, i18n: &Translations) -> (r: String)
        ensures
            r@ == (match lookup_text(i18n.table(), label_key_of(*self)) {
                Some(t) => t,
                None => "?"@,
            }),
    {
        match i18n.get(self.label_key()) {
            Some(s) => s,
            None => String::from_str("?"),
        }
    }

    /// The speed saved under `s` (a name or a label key).
    pub fn from_name(s: &str) -> (r: SpeedLimit)
        ensures
            r == speed_named(s@),
    {
        if str_eq(s, "Low") || str_eq(s, "cfg_speed_low") {
            SpeedLimit::Low
        } else if str_eq(s, "Medium") || str_eq(s, "cfg_speed_medium") {
            SpeedLimit::Medium
        } else if str_eq(s, "High") || str_eq(s, "cfg_speed_high") {
            SpeedLimit::High
        } else {
            SpeedLimit::Max
        }
    }
}

// ---------------------------------------------------------------------------
// Saved settings
// ---------------------------------------------------------------------------

/// The saved settings held by a settings file: the language (English by
/// default), the download directory ("" by default) and the speed name
/// ("Max" by default); nothing where the text is not JSON.
pub open spec fn saved_settings_of(doc: Option<Json>) -> Option<(Language, Seq<char>, Seq<char>)> {
    match doc {
        Some(_) => Some(
            (
                language_named(
                    match str_of(field_or_none(doc, "lang"@)) {
                        Some(s) => s,
                        None => "English"@,
                    },
                ),
                match str_of(field_or_none(doc, "download_dir"@)) {
                    Some(s) => s,
                    None => Seq::empty(),
                },
                match str_of(field_or_none(doc, "speed_limit"@)) {
                    Some(s) => s,
                    None => "Max"@,
                },
            ),
        ),
        None => None,
    }
}

pub open spec fn saved_view(s: Option<(Language, String, String)>) -> Option<(Language, Seq<char>, Seq<char>)> {
    match s {
        Some((l, d, sp)) => Some((l, d@, sp@)),
        None => None,
    }
}

fn member_text_or(doc: &Json, key: &str, default: &str) -> (r: String)
    ensures
        r@ == (match str_of(field_or_none(Some(*doc), key@)) {
            Some(s) => s,
            None => default@,
        }),
{
    match doc.get(key) {
        Some(x) => match x.as_str() {
            Some(s) => s.clone(),
            None => String::from_str(default),
        },
        None => String::from_str(default),
    }
}

/// Reads the settings file text.
pub fn saved_settings_from_json(json: &str) -> (r: Option<(Language, String, String)>)
    ensures
        saved_view(r) == saved_settings_of(json_parse(json@)),
{
    let doc = parse_json(json);
    match &doc {
        Some(v) => {
            let lang = member_text_or(v, "lang", "English");
            let dir = member_text_or(v, "download_dir", "");
            let speed = member_text_or(v, "speed_limit", "Max");
            proof {
                reveal_strlit("");
            }
            Some((Language::from_name(lang.as_str()), dir, speed))
        },
        None => None,
    }
}

/// The settings in force at start.
pub struct Settings {
    pub lang: Language,
    pub download_dir: String,
    pub speed_limit: SpeedLimit,
    pub first_run: bool,
}

/// The settings at start: the saved ones where there are any (with the speed
/// read from its saved name or label key), else the system language, the default directory
/// and no speed limit on a first run; an empty directory is replaced by the
/// default one.
pub fn initial_settings(
    saved: Option<(Language, String, String)>,
    system_lang: Language,
    default_dir: String,
) -> (r: Settings)
    ensures
        match saved {
            Some((l, d, sp)) => {
                &&& r.lang == l
                &&& r.speed_limit == speed_named(sp@)
                &&& !r.first_run
                &&& r.download_dir@ == (if d@.len() == 0 {
                    default_dir@
                } else {
                    d@
                })
            },
            None => {
                &&& r.lang == system_lang
                &&& r.speed_limit == SpeedLimit::Max
                &&& r.first_run
                &&& r.download_dir@ == default_dir@
            },
        },
        forall|s: SpeedLimit|
            #![trigger label_key_of(s)]
            (saved matches Some(x) && x.2@ == label_key_of(s)) ==> r.speed_limit == s,
{
    proof {
        assert forall|s: SpeedLimit| #![trigger label_key_of(s)] speed_named(label_key_of(s)) == s by {
            lemma_saved_speed_roundtrip(s);
        }
    }
    match saved {
        Some((l, d, sp)) => {
            let dir = if d.as_str().is_empty() {
                default_dir
            } else {
                d
            };
            Settings {
                lang: l,
                download_dir: dir,
                speed_limit: SpeedLimit::from_name(sp.as_str()),
                first_run: false,
            }
        },
        None => Settings {
            lang: system_lang,
            download_dir: default_dir,
            speed_limit: SpeedLimit::Max,
            first_run: true,
        },
    }
}

} // verus!
