//! The catalogue of distributions: reading it from JSON, filtering it, and
//! what a click on one of its entries does.
use std::hash::{Hash, Hasher};
use vstd::prelude::*;

use crate::json::{
    array_of, bool_of, field, field_or_none, json_parse, parse_json, str_of, u64_of, Json,
};
use crate::text::{
    contains, decimal, decimal_exec, lowercase, opt_view, str_contains, str_eq, to_chars, to_lower,
};

verus! {

/// The category of a distribution (`All` only as a filter).
#[derive(PartialEq, Eq, Structural, Clone, Copy, Debug)]
pub enum Category {
    All,
    Rolling,
    Lts,
    NoSystemd,
    Server,
    Security,
    Gaming,
    Windows,
}

/// The category named in the catalogue; an unknown name counts as LTS.
pub open spec fn category_named(s: Seq<char>) -> Category {
    if s == "rolling"@ {
        Category::Rolling
    } else if s == "lts"@ {
        Category::Lts
    } else if s == "nosystemd"@ {
        Category::NoSystemd
    } else if s == "server"@ {
        Category::Server
    } else if s == "security"@ {
        Category::Security
    } else if s == "gaming"@ {
        Category::Gaming
    } else if s == "windows"@ {
        Category::Windows
    } else {
        Category::Lts
    }
}

/// The name under which the catalogue writes a category (`All` is only a
/// filter and has none of its own).
pub open spec fn category_key(c: Category) -> Seq<char> {
    match c {
        Category::All => "all"@,
        Category::Rolling => "rolling"@,
        Category::Lts => "lts"@,
        Category::NoSystemd => "nosystemd"@,
        Category::Server => "server"@,
        Category::Security => "security"@,
        Category::Gaming => "gaming"@,
        Category::Windows => "windows"@,
    }
}

/// Each category name of the catalogue reads back as its own category, no
/// text reads as the `All` filter, and any text that names no category
/// counts as LTS.
pub proof fn lemma_category_names(c: Category, s: Seq<char>)
    ensures
        c != Category::All ==> category_named(category_key(c)) == c,
        category_named(s) != Category::All,
        (forall|d: Category| d != Category::All ==> s != #[trigger] category_key(d)) ==> category_named(s)
            == Category::Lts,
{
    reveal_strlit("rolling");
    reveal_strlit("lts");
    reveal_strlit("nosystemd");
    reveal_strlit("server");
    reveal_strlit("security");
    reveal_strlit("gaming");
    reveal_strlit("windows");
    assert("rolling"@.len() == 7 && "lts"@.len() == 3 && "nosystemd"@.len() == 9);
    assert("server"@.len() == 6 && "security"@.len() == 8 && "gaming"@.len() == 6);
    assert("windows"@.len() == 7);
    assert("rolling"@[0] != "windows"@[0]);
    assert("server"@[1] != "gaming"@[1]);
    if forall|d: Category| d != Category::All ==> s != #[trigger] category_key(d) {
        assert(s != category_key(Category::Rolling));
        assert(s != category_key(Category::Lts));
        assert(s != category_key(Category::NoSystemd));
        assert(s != category_key(Category::Server));
        assert(s != category_key(Category::Security));
        assert(s != category_key(Category::Gaming));
        assert(s != category_key(Category::Windows));
    }
}

/// Reads a category name of the catalogue.
pub fn parse_category(s: &str) -> (r: Category)
    ensures
        r == category_named(s@),
{
    if str_eq(s, "rolling") {
        Category::Rolling
    } else if str_eq(s, "lts") {
        Category::Lts
    } else if str_eq(s, "nosystemd") {
        Category::NoSystemd
    } else if str_eq(s, "server") {
        Category::Server
    } else if str_eq(s, "security") {
        Category::Security
    } else if str_eq(s, "gaming") {
        Category::Gaming
    } else if str_eq(s, "windows") {
        Category::Windows
    } else {
        Category::Lts
    }
}

/// A distribution of the catalogue.
pub struct Distro {
    pub id: String,
    pub name: String,
    pub logo: String,
    pub description: String,
    pub category: Category,
    pub arch: String,
    pub size_mb: u64,
    pub url: String,
    pub is_windows: bool,
}

/// A distribution's fields as text.
pub struct DistroModel {
    pub id: Seq<char>,
    pub name: Seq<char>,
    pub logo: Seq<char>,
    pub description: Seq<char>,
    pub category: Category,
    pub arch: Seq<char>,
    pub size_mb: u64,
    pub url: Seq<char>,
    pub is_windows: bool,
}

impl View for Distro {
    type V = DistroModel;

    open spec fn view(&self) -> DistroModel {
        DistroModel {
            id: self.id@,
            name: self.name@,
            logo: self.logo@,
            description: self.description@,
            category: self.category,
            arch: self.arch@,
            size_mb: self.size_mb,
            url: self.url@,
            is_windows: self.is_windows,
        }
    }
}

pub open spec fn text_or(v: Option<Seq<char>>, default: Seq<char>) -> Seq<char> {
    match v {
        Some(s) => s,
        None => default,
    }
}

/// The distribution described by a catalogue entry: `id` and `name` are
/// required text; the other members have defaults (no logo, no description,
/// category `lts`, architecture `x86_64`, size 0, no URL, not Windows).
pub open spec fn distro_of(d: Json) -> Option<DistroModel> {
    match (str_of(field(d, "id"@)), str_of(field(d, "name"@))) {
        (Some(id), Some(name)) => Some(
            DistroModel {
                id,
                name,
                logo: text_or(str_of(field(d, "logo"@)), Seq::empty()),
                description: text_or(str_of(field(d, "description"@)), Seq::empty()),
                category: category_named(text_or(str_of(field(d, "category"@)), "lts"@)),
                arch: text_or(str_of(field(d, "arch"@)), "x86_64"@),
                size_mb: match u64_of(field(d, "size_mb"@)) {
                    Some(n) => n,
                    None => 0,
                },
                url: text_or(str_of(field(d, "url"@)), Seq::empty()),
                is_windows: match bool_of(field(d, "is_windows"@)) {
                    Some(b) => b,
                    None => false,
                },
            },
        ),
        _ => None,
    }
}

/// The distributions of a list of entries, skipping the entries without `id` or `name`.
pub open spec fn distros_of(items: Seq<Json>) -> Seq<DistroModel>
    decreases items.len(),
{
    if items.len() == 0 {
        seq![]
    } else {
        let rest = distros_of(items.drop_last());
        match distro_of(items.last()) {
            Some(d) => rest.push(d),
            None => rest,
        }
    }
}

/// The catalogue held by a parsed document: its `distros` array, or nothing.
pub open spec fn catalog_of(doc: Option<Json>) -> Seq<DistroModel> {
    match array_of(field_or_none(doc, "distros"@)) {
        Some(items) => distros_of(items),
        None => seq![],
    }
}

pub open spec fn models(v: Seq<Distro>) -> Seq<DistroModel> {
    v.map_values(|d: Distro| d@)
}

fn text_field_or(d: &Json, key: &str, default: &str) -> (r: String)
    ensures
        r@ == text_or(str_of(field(*d, key@)), default@),
{
    match d.get(key) {
        Some(x) => match x.as_str() {
            Some(s) => s.clone(),
            None => String::from_str(default),
        },
        None => String::from_str(default),
    }
}

fn text_field(d: &Json, key: &str) -> (r: Option<String>)
    ensures
        opt_view(r) == str_of(field(*d, key@)),
{
    match d.get(key) {
        Some(x) => match x.as_str() {
            Some(s) => Some(s.clone()),
            None => None,
        },
        None => None,
    }
}

/// The distribution described by one catalogue entry.
pub fn distro_from_json(d: &Json) -> (r: Option<Distro>)
    ensures
        match r {
            Some(x) => distro_of(*d) == Some(x@),
            None => distro_of(*d) is None,
        },
{
    let id = match text_field(d, "id") {
        Some(s) => s,
        None => return None,
    };
    let name = match text_field(d, "name") {
        Some(s) => s,
        None => return None,
    };
    let logo = text_field_or(d, "logo", "");
    let description = text_field_or(d, "description", "");
    let category = parse_category(text_field_or(d, "category", "lts").as_str());
    let arch = text_field_or(d, "arch", "x86_64");
    let size_mb = match d.get("size_mb") {
        Some(x) => match x.as_u64() {
            Some(n) => n,
            None => 0,
        },
        None => 0,
    };
    let url = text_field_or(d, "url", "");
    let is_windows = match d.get("is_windows") {
        Some(x) => match x.as_bool() {
            Some(b) => b,
            None => false,
        },
        None => false,
    };
    proof {
        assert(""@ =~= Seq::<char>::empty()) by {
            reveal_strlit("");
        }
    }
    Some(Distro { id, name, logo, description, category, arch, size_mb, url, is_windows })
}

/// The catalogue held by a parsed document.
pub fn catalog_from_json(doc: &Option<Json>) -> (r: Vec<Distro>)
    ensures
        models(r@) == catalog_of(*doc),
{
    let items = match doc {
        Some(v) => match v.get("distros") {
            Some(x) => match x.as_array() {
                Some(a) => a,
                None => return Vec::new(),
            },
            None => return Vec::new(),
        },
        None => return Vec::new(),
    };
    let mut r: Vec<Distro> = Vec::new();
    let mut i: usize = 0;
    while i < items.len()
        invariant
            i <= items.len(),
            models(r@) == distros_of(items@.take(i as int)),
        decreases items.len() - i,
    {
        assert(items@.take(i + 1).drop_last() =~= items@.take(i as int));
        assert(items@.take(i + 1).last() == items@[i as int]);
        match distro_from_json(&items[i]) {
            Some(d) => {
                assert(models(r@.push(d)) =~= models(r@).push(d@));
                r.push(d);
            },
            None => {},
        }
        i = i + 1;
    }
    assert(items@.take(items.len() as int) =~= items@);
    r
}

/// Reads the catalogue from its JSON text; text that is not JSON gives an empty catalogue.
pub fn load_catalog(json: &str) -> (r: Vec<Distro>)
    ensures
        models(r@) == catalog_of(json_parse(json@)),
{
    let doc = parse_json(json);
    catalog_from_json(&doc)
}

/// A fetched catalogue is used only where its `distros` array has an entry.
pub open spec fn catalog_text_ok(doc: Option<Json>) -> bool {
    match array_of(field_or_none(doc, "distros"@)) {
        Some(items) => items.len() > 0,
        None => false,
    }
}

/// Whether a downloaded catalogue text holds a non-empty `distros` array.
pub fn remote_catalog_ok(json: &str) -> (r: bool)
    ensures
        r == catalog_text_ok(json_parse(json@)),
{
    let doc = parse_json(json);
    match &doc {
        Some(v) => match v.get("distros") {
            Some(x) => match x.as_array() {
                Some(a) => a.len() > 0,
                None => false,
            },
            None => false,
        },
        None => false,
    }
}

// ---------------------------------------------------------------------------
// Filtering
// ---------------------------------------------------------------------------

/// A distribution is shown when it is in the chosen category (or the filter is
/// `All`) and the lowercase search text is empty or occurs in its lowercase
/// name, description or architecture.
pub open spec fn shows(d: DistroModel, filter: Category, query: Seq<char>) -> bool {
    let q = lowercase(query);
    &&& (filter == Category::All || d.category == filter)
    &&& (q.len() == 0 || contains(lowercase(d.name), q) || contains(lowercase(d.description), q)
        || contains(lowercase(d.arch), q))
}

/// The positions of the shown distributions, in catalogue order.
pub fn visible_distros(catalog: &Vec<Distro>, filter: Category, search: &str) -> (r: Vec<usize>)
    ensures
        forall|k: int| 0 <= k < r@.len() ==> #[trigger] r@[k] < catalog@.len(),
        forall|k: int, l: int| 0 <= k < l < r@.len() ==> r@[k] < r@[l],
        forall|i: int|
            0 <= i < catalog@.len() ==> (r@.contains(i as usize) <==> shows(
                catalog@[i]@,
                filter,
                search@,
            )),
        search@.len() == 0 ==> forall|i: int|
            0 <= i < catalog@.len() ==> (r@.contains(i as usize) <==> (filter == Category::All
                || catalog@[i].category == filter)),
{
    let q = to_lower(search);
    let qs = q.as_str();
    let mut r: Vec<usize> = Vec::new();
    let mut i: usize = 0;
    while i < catalog.len()
        invariant
            i <= catalog.len(),
            q@ == lowercase(search@),
            qs@ == q@,
            search@.len() == 0 ==> q@.len() == 0,
            forall|k: int| 0 <= k < r@.len() ==> #[trigger] r@[k] < i,
            forall|k: int, l: int| 0 <= k < l < r@.len() ==> r@[k] < r@[l],
            forall|j: int|
                0 <= j < i ==> (r@.contains(j as usize) <==> shows(catalog@[j]@, filter, search@)),
        decreases catalog.len() - i,
    {
        let d = &catalog[i];
        let in_category = filter == Category::All || d.category == filter;
        let hit = in_category && (qs.is_empty() || str_contains(to_lower(d.name.as_str()).as_str(), qs)
            || str_contains(to_lower(d.description.as_str()).as_str(), qs) || str_contains(
            to_lower(d.arch.as_str()).as_str(),
            qs,
        ));
        assert(hit == shows(catalog@[i as int]@, filter, search@));
        let ghost old_r = r@;
        if hit {
            r.push(i);
        }
        assert forall|j: int|
            0 <= j < i + 1 implies (r@.contains(j as usize) <==> shows(
            catalog@[j]@,
            filter,
            search@,
        )) by {
            if j < i {
                if r@.contains(j as usize) {
                    let k = choose|k: int| 0 <= k < r@.len() && r@[k] == j as usize;
                    if k < old_r.len() {
                        assert(old_r[k] == j as usize);
                    }
                }
                if old_r.contains(j as usize) {
                    let k = choose|k: int| 0 <= k < old_r.len() && old_r[k] == j as usize;
                    assert(r@[k] == j as usize);
                }
            } else {
                if hit {
                    assert(r@[old_r.len() as int] == i);
                } else {
                    if r@.contains(j as usize) {
                        let k = choose|k: int| 0 <= k < r@.len() && r@[k] == j as usize;
                        assert(old_r[k] < i);
                    }
                }
            }
        }
        i = i + 1;
    }
    r
}

// ---------------------------------------------------------------------------
// Catalogue refresh
// ---------------------------------------------------------------------------

/// The hash of a text as `std::collections::hash_map::DefaultHasher` computes it.
pub uninterp spec fn text_hash(s: Seq<char>) -> u64;

/// Hashes `s` with a new `DefaultHasher` (`Hash::hash` then `Hasher::finish`);
/// the result is the named hash of the text.
#[verifier::external_body]
pub(crate) fn hash_str(s: &str) -> (r: u64)
    ensures
        r == text_hash(s@),
{
    let mut h = std::collections::hash_map::DefaultHasher::new();
    s.hash(&mut h);
    h.finish()
}

/// The catalogue in use and the hash of the text it was read from.
pub struct CatalogState {
    pub distros: Vec<Distro>,
    pub hash: u64,
}

impl CatalogState {
    /// The catalogue read from a text, with the hash of the text.
    pub fn from_text(json: &str) -> (r: CatalogState)
        ensures
            models(r.distros@) == catalog_of(json_parse(json@)),
            r.hash == text_hash(json@),
    {
        CatalogState { distros: load_catalog(json), hash: hash_str(json) }
    }
}

/// Takes a freshly fetched catalogue text: when its hash differs from the
/// current one and it holds at least one distribution, it replaces the
/// catalogue (and the result is `true`); otherwise nothing changes.
pub fn refresh_catalog(state: &mut CatalogState, json: &str) -> (replaced: bool)
    ensures
        replaced == (text_hash(json@) != old(state).hash && catalog_of(json_parse(json@)).len() > 0),
        replaced ==> final(state).hash == text_hash(json@) && models(final(state).distros@)
            == catalog_of(json_parse(json@)),
        !replaced ==> final(state).hash == old(state).hash && final(state).distros@ == old(
            state,
        ).distros@,
{
    let remote_hash = hash_str(json);
    if remote_hash != state.hash {
        let new_catalog = load_catalog(json);
        assert(models(new_catalog@).len() == new_catalog@.len());
        if new_catalog.len() > 0 {
            state.distros = new_catalog;
            state.hash = remote_hash;
            return true;
        }
    }
    false
}


// ---------------------------------------------------------------------------
// Category badges
// ---------------------------------------------------------------------------

/// The colour theme.
#[derive(PartialEq, Eq, Structural, Clone, Copy, Debug)]
pub enum Theme {
    Dark,
    Light,
}

/// A colour.
#[derive(PartialEq, Eq, Structural, Clone, Copy, Debug)]
pub struct Rgb {
    pub r: u8,
    pub g: u8,
    pub b: u8,
}

/// The translation key of a category's badge.
pub open spec fn badge_key_of(c: Category) -> Seq<char> {
    match c {
        Category::All => "cat_badge_all"@,
        Category::Rolling => "cat_badge_rolling"@,
        Category::Lts => "cat_badge_lts"@,
        Category::NoSystemd => "cat_badge_nosystemd"@,
        Category::Server => "cat_badge_server"@,
        Category::Security => "cat_badge_security"@,
        Category::Gaming => "cat_badge_gaming"@,
        Category::Windows => "cat_badge_windows"@,
    }
}

pub fn badge_key(c: Category) -> (r: &'static str)
    ensures
        r@ == badge_key_of(c),
{
    match c {
        Category::All => "cat_badge_all",
        Category::Rolling => "cat_badge_rolling",
        Category::Lts => "cat_badge_lts",
        Category::NoSystemd => "cat_badge_nosystemd",
        Category::Server => "cat_badge_server",
        Category::Security => "cat_badge_security",
        Category::Gaming => "cat_badge_gaming",
        Category::Windows => "cat_badge_windows",
    }
}

/// The background and text colours of a category's badge in a theme.
pub open spec fn badge_colors_of(c: Category, t: Theme) -> (Rgb, Rgb) {
    match t {
        Theme::Dark => match c {
            Category::All => (Rgb { r: 40, g: 40, b: 60 }, Rgb { r: 180, g: 180, b: 200 }),
            Category::Rolling => (Rgb { r: 60, g: 30, b: 90 }, Rgb { r: 180, g: 120, b: 230 }),
            Category::Lts => (Rgb { r: 20, g: 60, b: 40 }, Rgb { r: 80, g: 200, b: 120 }),
            Category::NoSystemd => (Rgb { r: 80, g: 40, b: 0 }, Rgb { r: 220, g: 150, b: 60 }),
            Category::Server => (Rgb { r: 20, g: 50, b: 80 }, Rgb { r: 80, g: 160, b: 220 }),
            Category::Security => (Rgb { r: 80, g: 30, b: 30 }, Rgb { r: 220, g: 100, b: 100 }),
            Category::Gaming => (Rgb { r: 80, g: 50, b: 20 }, Rgb { r: 220, g: 160, b: 60 }),
            Category::Windows => (Rgb { r: 0, g: 50, b: 100 }, Rgb { r: 80, g: 160, b: 240 }),
        },
        Theme::Light => match c {
            Category::All => (Rgb { r: 220, g: 220, b: 235 }, Rgb { r: 70, g: 70, b: 110 }),
            Category::Rolling => (Rgb { r: 230, g: 215, b: 245 }, Rgb { r: 110, g: 50, b: 170 }),
            Category::Lts => (Rgb { r: 210, g: 240, b: 220 }, Rgb { r: 30, g: 130, b: 70 }),
            Category::NoSystemd => (Rgb { r: 255, g: 240, b: 210 }, Rgb { r: 150, g: 80, b: 0 }),
            Category::Server => (Rgb { r: 210, g: 230, b: 245 }, Rgb { r: 30, g: 100, b: 170 }),
            Category::Security => (Rgb { r: 250, g: 220, b: 220 }, Rgb { r: 180, g: 40, b: 40 }),
            Category::Gaming => (Rgb { r: 250, g: 235, b: 205 }, Rgb { r: 160, g: 100, b: 10 }),
            Category::Windows => (Rgb { r: 210, g: 230, b: 255 }, Rgb { r: 20, g: 80, b: 190 }),
        },
    }
}

/// A category's badge: its colours in the theme and its translated name
/// (the key itself where the table has no translation).
pub fn cat_badge(c: Category, t: Theme, i18n: &crate::settings::Translations) -> (r: (Rgb, Rgb, String))
    ensures
        (r.0, r.1) == badge_colors_of(c, t),
        r.2@ == crate::settings::translated(i18n.table(), badge_key_of(c)),
{
    let text = i18n.t(badge_key(c));
    let (bg, fg) = match t {
        Theme::Dark => match c {
            Category::All => (Rgb { r: 40, g: 40, b: 60 }, Rgb { r: 180, g: 180, b: 200 }),
            Category::Rolling => (Rgb { r: 60, g: 30, b: 90 }, Rgb { r: 180, g: 120, b: 230 }),
            Category::Lts => (Rgb { r: 20, g: 60, b: 40 }, Rgb { r: 80, g: 200, b: 120 }),
            Category::NoSystemd => (Rgb { r: 80, g: 40, b: 0 }, Rgb { r: 220, g: 150, b: 60 }),
            Category::Server => (Rgb { r: 20, g: 50, b: 80 }, Rgb { r: 80, g: 160, b: 220 }),
            Category::Security => (Rgb { r: 80, g: 30, b: 30 }, Rgb { r: 220, g: 100, b: 100 }),
            Category::Gaming => (Rgb { r: 80, g: 50, b: 20 }, Rgb { r: 220, g: 160, b: 60 }),
            Category::Windows => (Rgb { r: 0, g: 50, b: 100 }, Rgb { r: 80, g: 160, b: 240 }),
        },
        Theme::Light => match c {
            Category::All => (Rgb { r: 220, g: 220, b: 235 }, Rgb { r: 70, g: 70, b: 110 }),
            Category::Rolling => (Rgb { r: 230, g: 215, b: 245 }, Rgb { r: 110, g: 50, b: 170 }),
            Category::Lts => (Rgb { r: 210, g: 240, b: 220 }, Rgb { r: 30, g: 130, b: 70 }),
            Category::NoSystemd => (Rgb { r: 255, g: 240, b: 210 }, Rgb { r: 150, g: 80, b: 0 }),
            Category::Server => (Rgb { r: 210, g: 230, b: 245 }, Rgb { r: 30, g: 100, b: 170 }),
            Category::Security => (Rgb { r: 250, g: 220, b: 220 }, Rgb { r: 180, g: 40, b: 40 }),
            Category::Gaming => (Rgb { r: 250, g: 235, b: 205 }, Rgb { r: 160, g: 100, b: 10 }),
            Category::Windows => (Rgb { r: 210, g: 230, b: 255 }, Rgb { r: 20, g: 80, b: 190 }),
        },
    };
    (bg, fg, text)
}


/// The Microsoft download page for a Windows image: Windows 11 where the
/// name mentions `11`, Windows 10 otherwise.
pub open spec fn windows_page_of(name: Seq<char>) -> Seq<char> {
    if contains(name, "11"@) {
        "https://www.microsoft.com/software-download/windows11"@
    } else {
        "https://www.microsoft.com/software-download/windows10"@
    }
}

pub fn windows_download_page(name: &str) -> (r: &'static str)
    ensures
        r@ == windows_page_of(name@),
{
    if str_contains(name, "11") {
        "https://www.microsoft.com/software-download/windows11"
    } else {
        "https://www.microsoft.com/software-download/windows10"
    }
}

} // verus!
