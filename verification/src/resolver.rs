//! Finding the current download URL of a distribution from the index pages
//! of its mirrors.
use vstd::prelude::*;

use crate::json::{field_or_none, json_parse, parse_json, str_of, field_str};
use crate::text::{
    decimal, lemma_decimal, lemma_parse_decimal, lemma_split_first, lemma_split_single,
    lemma_prefix_starts_with, lemma_split_nonempty, lemma_trim_end_char, opt_view, trim_end_str, trim_start_char, trim_end_str_exec, trim_start_char_exec,
    str_contains, str_ends_with, str_starts_with,
    contains, ends_with, find_from, find_from_exec, lemma_find_from_some, parse_u64,
    parse_u64_exec, split_char, split_char_exec, starts_with, starts_with_exec, string_of,
    to_chars, trim_end_char, trim_end_char_exec, views,
};

verus! {

// ---------------------------------------------------------------------------
// Links of an index page
// ---------------------------------------------------------------------------

/// A link is kept unless it is empty, a query (`?`), an absolute path (`/`)
/// or a full URL (`http...`).
pub open spec fn keep_href(h: Seq<char>) -> bool {
    &&& h.len() > 0
    &&& !starts_with(h, seq!['?'])
    &&& !starts_with(h, seq!['/'])
    &&& !starts_with(h, "http"@)
}

/// The links of `html` found from index `pos` on: the text between each
/// `href="` and the next `"`, kept links only, without trailing slashes.
pub open spec fn hrefs_from(html: Seq<char>, pos: int) -> Seq<Seq<char>>
    decreases html.len() + 1 - pos,
{
    if pos < 0 || pos > html.len() {
        seq![]
    } else {
        match find_from(html, "href=\""@, pos) {
            None => seq![],
            Some(i) => {
                let start = i + "href=\""@.len();
                match find_from(html, seq!['"'], start) {
                    None => seq![],
                    Some(e) => if pos <= i && start <= e && e < html.len() {
                        let h = html.subrange(start, e);
                        let rest = hrefs_from(html, e + 1);
                        if keep_href(h) {
                            seq![trim_end_char(h, '/')].add(rest)
                        } else {
                            rest
                        }
                    } else {
                        seq![]
                    },
                }
            },
        }
    }
}

/// The links of an index page, in document order.
pub open spec fn hrefs(html: Seq<char>) -> Seq<Seq<char>> {
    hrefs_from(html, 0)
}

fn keep_href_exec(h: &Vec<char>, http: &Vec<char>) -> (r: bool)
    requires
        http@ == "http"@,
    ensures
        r == keep_href(h@),
{
    let q = vec!['?'];
    let slash = vec!['/'];
    assert(q@ == seq!['?']);
    assert(slash@ == seq!['/']);
    h.len() > 0 && !starts_with_exec(h, &q) && !starts_with_exec(h, &slash) && !starts_with_exec(h, http)
}

/// The links of an index page (`href="..."`), in document order.
pub fn extract_hrefs(html: &str) -> (r: Vec<String>)
    ensures
        views(r@) == hrefs(html@),
{
    let v = to_chars(html);
    let pat = to_chars("href=\"");
    let quote = vec!['"'];
    assert(quote@ == seq!['"']);
    let http = to_chars("http");
    let mut r: Vec<String> = Vec::new();
    let mut pos: usize = 0;
    assert(views(r@) =~= Seq::<Seq<char>>::empty());
    assert(views(r@) + hrefs_from(v@, 0) =~= hrefs(v@));
    loop
        invariant
            v@ == html@,
            pat@ == "href=\""@,
            quote@ == seq!['"'],
            http@ == "http"@,
            pos <= v.len(),
            views(r@) + hrefs_from(v@, pos as int) == hrefs(v@),
        decreases v.len() + 1 - pos,
    {
        let i = match find_from_exec(&v, &pat, pos) {
            Some(i) => i,
            None => {
                assert(hrefs_from(v@, pos as int) =~= Seq::<Seq<char>>::empty());
                assert(views(r@) + hrefs_from(v@, pos as int) =~= views(r@));
                return r;
            },
        };
        proof {
            lemma_find_from_some(v@, pat@, pos as int);
        }
        let start = i + pat.len();
        let e = match find_from_exec(&v, &quote, start) {
            Some(e) => e,
            None => {
                assert(hrefs_from(v@, pos as int) =~= Seq::<Seq<char>>::empty());
                assert(views(r@) + hrefs_from(v@, pos as int) =~= views(r@));
                return r;
            },
        };
        proof {
            lemma_find_from_some(v@, quote@, start as int);
        }
        let h = string_of(&v, start, e);
        let hv = to_chars(h.as_str());
        if keep_href_exec(&hv, &http) {
            let t = trim_end_char_exec(h.as_str(), '/');
            proof {
                assert(views(r@.push(t)) =~= views(r@).push(t@));
                assert(views(r@) + hrefs_from(v@, pos as int)
                    =~= views(r@.push(t)) + hrefs_from(v@, e + 1));
            }
            r.push(t);
        }
        pos = e + 1;
    }
}

// ---------------------------------------------------------------------------
// Versions
// ---------------------------------------------------------------------------

/// A version `major.minor[.patch]` read from a directory name: the first two
/// dot-separated fields must be numbers; a third that is not one counts as 0.
pub open spec fn version_of(s: Seq<char>) -> Option<(u64, u64, u64)> {
    let p = split_char(s, '.');
    if p.len() >= 2 {
        match (parse_u64(p[0]), parse_u64(p[1])) {
            (Some(a), Some(b)) => Some(
                (
                    a,
                    b,
                    if p.len() > 2 {
                        match parse_u64(p[2]) {
                            Some(c) => c,
                            None => 0,
                        }
                    } else {
                        0
                    },
                ),
            ),
            _ => None,
        }
    } else {
        None
    }
}

/// Reads `major.minor[.patch]` from `s`.
pub fn parse_ver(s: &str) -> (r: Option<(u64, u64, u64)>)
    ensures
        r == version_of(s@),
{
    let p = split_char_exec(s, '.');
    assert(views(p@).len() == p@.len());
    if p.len() >= 2 {
        assert(views(p@)[0] == p@[0]@);
        assert(views(p@)[1] == p@[1]@);
        let a = parse_u64_exec(p[0].as_str());
        let b = parse_u64_exec(p[1].as_str());
        match (a, b) {
            (Some(a), Some(b)) => {
                let c = if p.len() > 2 {
                    assert(views(p@)[2] == p@[2]@);
                    match parse_u64_exec(p[2].as_str()) {
                        Some(c) => c,
                        None => 0,
                    }
                } else {
                    0
                };
                Some((a, b, c))
            },
            _ => None,
        }
    } else {
        None
    }
}

/// Text order: character by character, a proper prefix first (the order of `String`).
pub open spec fn text_lt(a: Seq<char>, b: Seq<char>) -> bool
    decreases a.len(),
{
    if a.len() == 0 {
        b.len() > 0
    } else if b.len() == 0 {
        false
    } else if a[0] != b[0] {
        a[0] < b[0]
    } else {
        text_lt(a.drop_first(), b.drop_first())
    }
}

pub proof fn lemma_text_lt_irreflexive(a: Seq<char>)
    ensures
        !text_lt(a, a),
    decreases a.len(),
{
    if a.len() > 0 {
        lemma_text_lt_irreflexive(a.drop_first());
    }
}

pub proof fn lemma_text_lt_transitive(a: Seq<char>, b: Seq<char>, c: Seq<char>)
    requires
        text_lt(a, b),
        text_lt(b, c),
    ensures
        text_lt(a, c),
    decreases a.len(),
{
    if a.len() > 0 && b.len() > 0 && c.len() > 0 && a[0] == b[0] && b[0] == c[0] {
        lemma_text_lt_transitive(a.drop_first(), b.drop_first(), c.drop_first());
    }
}

pub proof fn lemma_text_lt_total(a: Seq<char>, b: Seq<char>)
    ensures
        a == b || text_lt(a, b) || text_lt(b, a),
    decreases a.len(),
{
    if a.len() > 0 && b.len() > 0 && a[0] == b[0] {
        lemma_text_lt_total(a.drop_first(), b.drop_first());
        if a.drop_first() == b.drop_first() {
            assert(a =~= seq![a[0]] + a.drop_first());
            assert(b =~= seq![b[0]] + b.drop_first());
        }
    } else if a.len() == 0 && b.len() == 0 {
        assert(a =~= b);
    }
}

pub proof fn lemma_text_lt_asymmetric(a: Seq<char>, b: Seq<char>)
    requires
        text_lt(a, b),
    ensures
        !text_lt(b, a),
{
    if text_lt(b, a) {
        lemma_text_lt_transitive(a, b, a);
        lemma_text_lt_irreflexive(a);
    }
}

/// `a < b` for strings.
pub fn text_lt_exec(a: &Vec<char>, b: &Vec<char>) -> (r: bool)
    ensures
        r == text_lt(a@, b@),
{
    let mut i: usize = 0;
    assert(a@.skip(0) =~= a@);
    assert(b@.skip(0) =~= b@);
    while i < a.len() && i < b.len() && a[i] == b[i]
        invariant
            i <= a.len(),
            i <= b.len(),
            text_lt(a@.skip(i as int), b@.skip(i as int)) == text_lt(a@, b@),
        decreases a.len() - i,
    {
        assert(a@.skip(i as int).drop_first() =~= a@.skip(i + 1));
        assert(b@.skip(i as int).drop_first() =~= b@.skip(i + 1));
        i = i + 1;
    }
    if i == a.len() {
        i < b.len()
    } else if i == b.len() {
        false
    } else {
        a[i] < b[i]
    }
}

/// The sort key of a version directory: its version, then its name.
pub type VersionKey = (u64, u64, u64, Seq<char>);

pub open spec fn key_lt(x: VersionKey, y: VersionKey) -> bool {
    ||| x.0 < y.0
    ||| (x.0 == y.0 && x.1 < y.1)
    ||| (x.0 == y.0 && x.1 == y.1 && x.2 < y.2)
    ||| (x.0 == y.0 && x.1 == y.1 && x.2 == y.2 && text_lt(x.3, y.3))
}

pub open spec fn key_le(x: VersionKey, y: VersionKey) -> bool {
    x == y || key_lt(x, y)
}

/// The key of `h` where `h` names a version.
pub open spec fn key_of(h: Seq<char>) -> VersionKey {
    let v = version_of(h)->0;
    (v.0, v.1, v.2, h)
}

pub open spec fn is_version_dir(h: Seq<char>) -> bool {
    version_of(h) is Some
}

/// `h` is the greatest version directory among `hs`.
pub open spec fn is_latest(hs: Seq<Seq<char>>, h: Seq<char>) -> bool {
    &&& hs.contains(h)
    &&& is_version_dir(h)
    &&& forall|i: int| 0 <= i < hs.len() && is_version_dir(hs[i]) ==> key_le(key_of(hs[i]), key_of(h))
}

/// The directory with the greatest version, names breaking ties
/// (the last one after sorting by version and name).
pub open spec fn latest_of(hs: Seq<Seq<char>>) -> Option<Seq<char>> {
    if exists|h: Seq<char>| is_latest(hs, h) {
        Some(choose|h: Seq<char>| is_latest(hs, h))
    } else {
        None
    }
}

pub proof fn lemma_key_lt_transitive(x: VersionKey, y: VersionKey, z: VersionKey)
    requires
        key_lt(x, y),
        key_lt(y, z),
    ensures
        key_lt(x, z),
{
    if x.0 == y.0 && x.1 == y.1 && x.2 == y.2 && y.0 == z.0 && y.1 == z.1 && y.2 == z.2 {
        lemma_text_lt_transitive(x.3, y.3, z.3);
    }
}

pub proof fn lemma_key_total(x: VersionKey, y: VersionKey)
    ensures
        key_le(x, y) || key_le(y, x),
{
    lemma_text_lt_total(x.3, y.3);
}

pub proof fn lemma_key_antisymmetric(x: VersionKey, y: VersionKey)
    requires
        key_le(x, y),
        key_le(y, x),
    ensures
        x == y,
{
    if x != y {
        if x.0 == y.0 && x.1 == y.1 && x.2 == y.2 {
            lemma_text_lt_asymmetric(x.3, y.3);
        }
    }
}

/// There is at most one greatest version directory.
pub proof fn lemma_latest_unique(hs: Seq<Seq<char>>, a: Seq<char>, b: Seq<char>)
    requires
        is_latest(hs, a),
        is_latest(hs, b),
    ensures
        a == b,
{
    let ia = choose|i: int| 0 <= i < hs.len() && hs[i] == a;
    let ib = choose|i: int| 0 <= i < hs.len() && hs[i] == b;
    assert(key_le(key_of(hs[ia]), key_of(b)));
    assert(key_le(key_of(hs[ib]), key_of(a)));
    lemma_key_antisymmetric(key_of(a), key_of(b));
}

/// Compares the keys of two version directories.
fn key_lt_exec(x: (u64, u64, u64), xs: &String, y: (u64, u64, u64), ys: &String) -> (r: bool)
    ensures
        r == key_lt((x.0, x.1, x.2, xs@), (y.0, y.1, y.2, ys@)),
{
    if x.0 != y.0 {
        x.0 < y.0
    } else if x.1 != y.1 {
        x.1 < y.1
    } else if x.2 != y.2 {
        x.2 < y.2
    } else {
        text_lt_exec(&to_chars(xs.as_str()), &to_chars(ys.as_str()))
    }
}

/// The directory name with the greatest version among `hrefs`.
pub fn latest_dir(hrefs: &Vec<String>) -> (r: Option<String>)
    ensures
        match r {
            Some(s) => latest_of(views(hrefs@)) == Some(s@),
            None => latest_of(views(hrefs@)) is None,
        },
{
    let ghost hs = views(hrefs@);
    let mut best: Option<((u64, u64, u64), usize)> = None;
    let mut i: usize = 0;
    while i < hrefs.len()
        invariant
            i <= hrefs.len(),
            hs == views(hrefs@),
            hs.len() == hrefs@.len(),
            match best {
                None => forall|j: int| 0 <= j < i ==> !is_version_dir(hs[j]),
                Some((v, k)) => {
                    &&& k < i
                    &&& version_of(hs[k as int]) == Some(v)
                    &&& forall|j: int|
                        0 <= j < i && is_version_dir(hs[j]) ==> key_le(
                            key_of(hs[j]),
                            key_of(hs[k as int]),
                        )
                },
            },
        decreases hrefs.len() - i,
    {
        assert(hs[i as int] == hrefs@[i as int]@);
        match parse_ver(hrefs[i].as_str()) {
            None => {},
            Some(v) => {
                match best {
                    None => {
                        best = Some((v, i));
                    },
                    Some((bv, k)) => {
                        assert(hs[k as int] == hrefs@[k as int]@);
                        if !key_lt_exec(v, &hrefs[i], bv, &hrefs[k]) {
                            proof {
                                let kn = key_of(hs[i as int]);
                                let kb = key_of(hs[k as int]);
                                lemma_key_total(kn, kb);
                                assert forall|j: int|
                                    0 <= j < i + 1 && is_version_dir(hs[j]) implies key_le(
                                    key_of(hs[j]),
                                    kn,
                                ) by {
                                    if j < i {
                                        if key_lt(key_of(hs[j]), kb) && key_lt(kb, kn) {
                                            lemma_key_lt_transitive(key_of(hs[j]), kb, kn);
                                        }
                                    }
                                }
                            }
                            best = Some((v, i));
                        }
                    },
                }
            },
        }
        i = i + 1;
    }
    match best {
        None => {
            proof {
                if exists|h: Seq<char>| is_latest(hs, h) {
                    let h = choose|h: Seq<char>| is_latest(hs, h);
                    let j = choose|j: int| 0 <= j < hs.len() && hs[j] == h;
                    assert(is_version_dir(hs[j]));
                }
            }
            None
        },
        Some((_, k)) => {
            let s = hrefs[k].clone();
            proof {
                assert(hs[k as int] == s@);
                assert(is_latest(hs, s@));
                let h = choose|h: Seq<char>| is_latest(hs, h);
                lemma_latest_unique(hs, h, s@);
            }
            Some(s)
        },
    }
}


// ---------------------------------------------------------------------------
// Building URLs
// ---------------------------------------------------------------------------

/// The concatenation of `a` and `b`.
pub fn cat(a: &str, b: &str) -> (r: String)
    ensures
        r@ == a@ + b@,
{
    let mut r = String::from_str(a);
    r.append(b);
    r
}

pub fn cat3(a: &str, b: &str, c: &str) -> (r: String)
    ensures
        r@ == a@ + b@ + c@,
{
    let mut r = cat(a, b);
    r.append(c);
    r
}

/// `a + v + b + v + c`: a URL that names a version twice.
pub fn cat_twice(a: &str, v: &str, b: &str, c: &str) -> (r: String)
    ensures
        r@ == a@ + v@ + b@ + v@ + c@,
{
    let mut r = cat3(a, v, b);
    r.append(v);
    r.append(c);
    r
}

// ---------------------------------------------------------------------------
// Choosing a link
// ---------------------------------------------------------------------------

/// The kinds of link that a resolver looks for among the links of a page.
pub open spec fn fits(kind: int, h: Seq<char>) -> bool {
    if kind == 0 {
        ends_with(h, "-amd64-netinst.iso"@)
    } else if kind == 1 {
        starts_with(h, "alpine-standard"@) && ends_with(h, "-x86_64.iso"@)
    } else if kind == 2 {
        starts_with(h, "void-live-x86_64"@) && ends_with(h, "-xfce.iso"@)
    } else if kind == 3 {
        contains(h, "musl"@) && ends_with(h, ".iso"@)
    } else if kind == 4 {
        starts_with(h, "void-live-x86_64-2025"@) && ends_with(h, ".iso"@) && !contains(h, "xfce"@)
            && !contains(h, "musl"@)
    } else if kind == 5 {
        ends_with(h, "-DVD-x86_64-Media.iso"@)
    } else if kind == 6 {
        starts_with(h, "nixos-"@)
    } else {
        h.len() == 8 && crate::text::all_digits(h)
    }
}

pub fn fits_exec(kind: u8, h: &str) -> (r: bool)
    ensures
        r == fits(kind as int, h@),
{
    if kind == 0 {
        str_ends_with(h, "-amd64-netinst.iso")
    } else if kind == 1 {
        str_starts_with(h, "alpine-standard") && str_ends_with(h, "-x86_64.iso")
    } else if kind == 2 {
        str_starts_with(h, "void-live-x86_64") && str_ends_with(h, "-xfce.iso")
    } else if kind == 3 {
        str_contains(h, "musl") && str_ends_with(h, ".iso")
    } else if kind == 4 {
        str_starts_with(h, "void-live-x86_64-2025") && str_ends_with(h, ".iso") && !str_contains(
            h,
            "xfce",
        ) && !str_contains(h, "musl")
    } else if kind == 5 {
        str_ends_with(h, "-DVD-x86_64-Media.iso")
    } else if kind == 6 {
        str_starts_with(h, "nixos-")
    } else {
        let v = to_chars(h);
        if v.len() != 8 {
            return false;
        }
        let mut i: usize = 0;
        while i < 8
            invariant
                i <= 8,
                kind > 6,
                v.len() == 8,
                v@ == h@,
                forall|j: int| 0 <= j < i ==> #[trigger] crate::text::is_digit(v@[j]),
            decreases 8 - i,
        {
            if !('0' <= v[i] && v[i] <= '9') {
                assert(!crate::text::is_digit(v@[i as int]));
                return false;
            }
            i = i + 1;
        }
        true
    }
}

/// The first link of the kind.
pub open spec fn first_fit(hs: Seq<Seq<char>>, kind: int) -> Option<Seq<char>>
    decreases hs.len(),
{
    if hs.len() == 0 {
        None
    } else if fits(kind, hs[0]) {
        Some(hs[0])
    } else {
        first_fit(hs.drop_first(), kind)
    }
}

/// The last link of the kind.
pub open spec fn last_fit(hs: Seq<Seq<char>>, kind: int) -> Option<Seq<char>>
    decreases hs.len(),
{
    if hs.len() == 0 {
        None
    } else if fits(kind, hs.last()) {
        Some(hs.last())
    } else {
        last_fit(hs.drop_last(), kind)
    }
}

/// `h` is a link of the kind and no link of the kind is greater as text.
pub open spec fn is_greatest_fit(hs: Seq<Seq<char>>, kind: int, h: Seq<char>) -> bool {
    &&& hs.contains(h)
    &&& fits(kind, h)
    &&& forall|i: int| 0 <= i < hs.len() && fits(kind, hs[i]) ==> !text_lt(h, hs[i])
}

/// The greatest link of the kind as text (`Iterator::max` over the links).
pub open spec fn greatest_fit(hs: Seq<Seq<char>>, kind: int) -> Option<Seq<char>> {
    if exists|h: Seq<char>| is_greatest_fit(hs, kind, h) {
        Some(choose|h: Seq<char>| is_greatest_fit(hs, kind, h))
    } else {
        None
    }
}

pub fn first_fit_exec(hs: &Vec<String>, kind: u8) -> (r: Option<String>)
    ensures
        match r {
            Some(s) => first_fit(views(hs@), kind as int) == Some(s@),
            None => first_fit(views(hs@), kind as int) is None,
        },
{
    let ghost all = views(hs@);
    let mut i: usize = 0;
    assert(all.skip(0) =~= all);
    while i < hs.len()
        invariant
            i <= hs.len(),
            all == views(hs@),
            first_fit(all.skip(i as int), kind as int) == first_fit(all, kind as int),
        decreases hs.len() - i,
    {
        assert(all.skip(i as int)[0] == hs@[i as int]@);
        if fits_exec(kind, hs[i].as_str()) {
            return Some(hs[i].clone());
        }
        assert(all.skip(i as int).drop_first() =~= all.skip(i + 1));
        i = i + 1;
    }
    None
}

pub fn last_fit_exec(hs: &Vec<String>, kind: u8) -> (r: Option<String>)
    ensures
        match r {
            Some(s) => last_fit(views(hs@), kind as int) == Some(s@),
            None => last_fit(views(hs@), kind as int) is None,
        },
{
    let ghost all = views(hs@);
    let mut i: usize = hs.len();
    assert(all.take(i as int) =~= all);
    while i > 0
        invariant
            i <= hs.len(),
            all == views(hs@),
            last_fit(all.take(i as int), kind as int) == last_fit(all, kind as int),
        decreases i,
    {
        assert(all.take(i as int).last() == hs@[i - 1]@);
        if fits_exec(kind, hs[i - 1].as_str()) {
            return Some(hs[i - 1].clone());
        }
        assert(all.take(i as int).drop_last() =~= all.take(i - 1));
        i = i - 1;
    }
    None
}

pub proof fn lemma_greatest_unique(hs: Seq<Seq<char>>, kind: int, a: Seq<char>, b: Seq<char>)
    requires
        is_greatest_fit(hs, kind, a),
        is_greatest_fit(hs, kind, b),
    ensures
        a == b,
{
    let ia = choose|i: int| 0 <= i < hs.len() && hs[i] == a;
    let ib = choose|i: int| 0 <= i < hs.len() && hs[i] == b;
    assert(!text_lt(a, hs[ib]));
    assert(!text_lt(b, hs[ia]));
    lemma_text_lt_total(a, b);
}

pub fn greatest_fit_exec(hs: &Vec<String>, kind: u8) -> (r: Option<String>)
    ensures
        match r {
            Some(s) => greatest_fit(views(hs@), kind as int) == Some(s@),
            None => greatest_fit(views(hs@), kind as int) is None,
        },
{
    let ghost all = views(hs@);
    let mut best: Option<usize> = None;
    let mut i: usize = 0;
    while i < hs.len()
        invariant
            i <= hs.len(),
            all == views(hs@),
            all.len() == hs@.len(),
            match best {
                None => forall|j: int| 0 <= j < i ==> !fits(kind as int, all[j]),
                Some(k) => {
                    &&& k < i
                    &&& fits(kind as int, all[k as int])
                    &&& forall|j: int|
                        0 <= j < i && fits(kind as int, all[j]) ==> !text_lt(all[k as int], all[j])
                },
            },
        decreases hs.len() - i,
    {
        assert(all[i as int] == hs@[i as int]@);
        if fits_exec(kind, hs[i].as_str()) {
            match best {
                None => {
                    proof {
                        lemma_text_lt_irreflexive(all[i as int]);
                    }
                    best = Some(i);
                },
                Some(k) => {
                    assert(all[k as int] == hs@[k as int]@);
                    let cur = to_chars(hs[k].as_str());
                    let new = to_chars(hs[i].as_str());
                    if text_lt_exec(&cur, &new) {
                        proof {
                            assert forall|j: int|
                                0 <= j < i + 1 && fits(kind as int, all[j]) implies !text_lt(
                                all[i as int],
                                all[j],
                            ) by {
                                if j < i && text_lt(all[i as int], all[j]) {
                                    lemma_text_lt_transitive(all[k as int], all[i as int], all[j]);
                                }
                                if j == i {
                                    lemma_text_lt_irreflexive(all[j]);
                                }
                            }
                        }
                        best = Some(i);
                    }
                },
            }
        } else {
            assert(!fits(kind as int, all[i as int]));
        }
        i = i + 1;
    }
    match best {
        None => {
            proof {
                if exists|h: Seq<char>| is_greatest_fit(all, kind as int, h) {
                    let h = choose|h: Seq<char>| is_greatest_fit(all, kind as int, h);
                    let j = choose|j: int| 0 <= j < all.len() && all[j] == h;
                    assert(fits(kind as int, all[j]));
                }
            }
            None
        },
        Some(k) => {
            let s = hs[k].clone();
            proof {
                assert(all[k as int] == s@);
                assert(is_greatest_fit(all, kind as int, s@));
                let h = choose|h: Seq<char>| is_greatest_fit(all, kind as int, h);
                lemma_greatest_unique(all, kind as int, h, s@);
            }
            Some(s)
        },
    }
}


// ---------------------------------------------------------------------------
// One distribution at a time
// ---------------------------------------------------------------------------

/// The ISO URL that Arch Linux publishes in its release feed (`iso_url`).
pub open spec fn arch_answer(feed: Seq<char>) -> Option<Seq<char>> {
    str_of(field_or_none(json_parse(feed), "iso_url"@))
}

/// The ISO URL named by the Arch Linux release feed `feed`.
pub fn arch(feed: &str) -> (r: Option<String>)
    ensures
        opt_view(r) == arch_answer(feed@),
{
    let j = parse_json(feed);
    let r = match &j {
        Some(v) => field_str(Some(v), "iso_url"),
        None => None,
    };
    r
}

/// The index of Ubuntu releases of a flavour ("" for Ubuntu itself).
pub open spec fn ubuntu_index(flavor: Seq<char>) -> Seq<char> {
    if flavor.len() == 0 {
        "https://releases.ubuntu.com/"@
    } else {
        "https://cdimage.ubuntu.com/"@ + flavor + "/releases/"@
    }
}

/// The desktop ISO of release `v` of a flavour.
pub open spec fn ubuntu_iso(flavor: Seq<char>, v: Seq<char>) -> Seq<char> {
    if flavor.len() == 0 {
        "https://releases.ubuntu.com/"@ + v + "/ubuntu-"@ + v + "-desktop-amd64.iso"@
    } else {
        "https://cdimage.ubuntu.com/"@ + flavor + "/releases/"@ + v + "/release/"@ + flavor
            + "-"@ + v + "-desktop-amd64.iso"@
    }
}

pub open spec fn ubuntu_answer(flavor: Seq<char>, page: Seq<char>) -> Option<Seq<char>> {
    match latest_of(hrefs(page)) {
        Some(v) => Some(ubuntu_iso(flavor, v)),
        None => None,
    }
}

pub fn ubuntu_index_url(flavor: &str) -> (r: String)
    ensures
        r@ == ubuntu_index(flavor@),
{
    if flavor.is_empty() {
        String::from_str("https://releases.ubuntu.com/")
    } else {
        cat3("https://cdimage.ubuntu.com/", flavor, "/releases/")
    }
}

/// The desktop ISO of the latest release listed on `page`, the index of the flavour.
pub fn ubuntu_flavor(flavor: &str, page: &str) -> (r: Option<String>)
    ensures
        opt_view(r) == ubuntu_answer(flavor@, page@),
{
    let version = match latest_dir(&extract_hrefs(page)) {
        Some(v) => v,
        None => return None,
    };
    let v = version.as_str();
    if flavor.is_empty() {
        Some(cat_twice("https://releases.ubuntu.com/", v, "/ubuntu-", "-desktop-amd64.iso"))
    } else {
        let mut u = cat3("https://cdimage.ubuntu.com/", flavor, "/releases/");
        u.append(v);
        u.append("/release/");
        u.append(flavor);
        u.append("-");
        u.append(v);
        u.append("-desktop-amd64.iso");
        Some(u)
    }
}

/// The latest Fedora release listed on the releases index `page`.
pub fn fedora_ver(page: &str) -> (r: Option<String>)
    ensures
        opt_view(r) == latest_of(hrefs(page@)),
{
    latest_dir(&extract_hrefs(page))
}

/// The latest Linux Mint version listed on the mirror index `page`.
pub fn mint_version(page: &str) -> (r: Option<String>)
    ensures
        opt_view(r) == latest_of(hrefs(page@)),
{
    latest_dir(&extract_hrefs(page))
}

pub open spec fn debian_index() -> Seq<char> {
    "https://cdimage.debian.org/debian-cd/current/amd64/iso-cd/"@
}

pub open spec fn debian_answer(page: Seq<char>) -> Option<Seq<char>> {
    match first_fit(hrefs(page), 0) {
        Some(iso) => Some(debian_index() + iso),
        None => None,
    }
}

/// The first `...-amd64-netinst.iso` linked from the Debian index `page`.
pub fn debian_netinst(page: &str) -> (r: Option<String>)
    ensures
        opt_view(r) == debian_answer(page@),
{
    match first_fit_exec(&extract_hrefs(page), 0) {
        Some(iso) => Some(cat("https://cdimage.debian.org/debian-cd/current/amd64/iso-cd/", iso.as_str())),
        None => None,
    }
}

pub open spec fn alpine_index(major_minor: Seq<char>) -> Seq<char> {
    "https://dl-cdn.alpinelinux.org/alpine/v"@ + major_minor + "/releases/x86_64/"@
}

pub open spec fn alpine_answer(major_minor: Seq<char>, page: Seq<char>) -> Option<Seq<char>> {
    match first_fit(hrefs(page), 1) {
        Some(iso) => Some(alpine_index(major_minor) + iso),
        None => None,
    }
}

pub fn alpine_index_url(major_minor: &str) -> (r: String)
    ensures
        r@ == alpine_index(major_minor@),
{
    cat3("https://dl-cdn.alpinelinux.org/alpine/v", major_minor, "/releases/x86_64/")
}

/// The first `alpine-standard...-x86_64.iso` linked from the index `page` of a release.
pub fn alpine_latest(major_minor: &str, page: &str) -> (r: Option<String>)
    ensures
        opt_view(r) == alpine_answer(major_minor@, page@),
{
    match first_fit_exec(&extract_hrefs(page), 1) {
        Some(iso) => {
            let base = alpine_index_url(major_minor);
            Some(cat(base.as_str(), iso.as_str()))
        },
        None => None,
    }
}


// ---------------------------------------------------------------------------
// The table of resolvers
// ---------------------------------------------------------------------------

/// The number of resolvers; they are tried in order.
pub open spec fn resolver_count() -> int {
    30
}

/// The text that a distribution's name must contain for resolver `e` to apply.
pub open spec fn pattern(e: int) -> Seq<char> {
    if e == 0 {
        "Arch Linux"@
    } else if e == 1 {
        "Ubuntu "@
    } else if e == 2 {
        "Kubuntu"@
    } else if e == 3 {
        "Xubuntu"@
    } else if e == 4 {
        "Lubuntu"@
    } else if e == 5 {
        "Ubuntu Budgie"@
    } else if e == 6 {
        "Ubuntu Cinnamon"@
    } else if e == 7 {
        "Ubuntu Studio"@
    } else if e == 8 {
        "Ubuntu Server"@
    } else if e == 9 {
        "Linux Mint"@
    } else if e == 10 {
        "LMDE"@
    } else if e == 11 {
        "Fedora 44 Workstation"@
    } else if e == 12 {
        "Fedora 44 KDE"@
    } else if e == 13 {
        "Fedora 44 Xfce"@
    } else if e == 14 {
        "Fedora 44 Cinnamon"@
    } else if e == 15 {
        "Fedora 44 MATE-Compiz"@
    } else if e == 16 {
        "Fedora 44 i3"@
    } else if e == 17 {
        "Fedora 44 LXQt"@
    } else if e == 18 {
        "Fedora 44 Sway"@
    } else if e == 19 {
        "Fedora 44 Server"@
    } else if e == 20 {
        "Debian"@
    } else if e == 21 {
        "Alpine"@
    } else if e == 22 {
        "NixOS"@
    } else if e == 23 {
        "openSUSE Tumbleweed"@
    } else if e == 24 {
        "Void Linux"@
    } else if e == 25 {
        "Void Linux musl"@
    } else if e == 26 {
        "Void Linux base"@
    } else if e == 27 {
        "KDE neon"@
    } else if e == 28 {
        "Deepin"@
    } else {
        "openSUSE Leap"@
    }
}

pub fn pattern_exec(e: usize) -> (r: &'static str)
    requires
        e < 30,
    ensures
        r@ == pattern(e as int),
{
    if e == 0 {
        "Arch Linux"
    } else if e == 1 {
        "Ubuntu "
    } else if e == 2 {
        "Kubuntu"
    } else if e == 3 {
        "Xubuntu"
    } else if e == 4 {
        "Lubuntu"
    } else if e == 5 {
        "Ubuntu Budgie"
    } else if e == 6 {
        "Ubuntu Cinnamon"
    } else if e == 7 {
        "Ubuntu Studio"
    } else if e == 8 {
        "Ubuntu Server"
    } else if e == 9 {
        "Linux Mint"
    } else if e == 10 {
        "LMDE"
    } else if e == 11 {
        "Fedora 44 Workstation"
    } else if e == 12 {
        "Fedora 44 KDE"
    } else if e == 13 {
        "Fedora 44 Xfce"
    } else if e == 14 {
        "Fedora 44 Cinnamon"
    } else if e == 15 {
        "Fedora 44 MATE-Compiz"
    } else if e == 16 {
        "Fedora 44 i3"
    } else if e == 17 {
        "Fedora 44 LXQt"
    } else if e == 18 {
        "Fedora 44 Sway"
    } else if e == 19 {
        "Fedora 44 Server"
    } else if e == 20 {
        "Debian"
    } else if e == 21 {
        "Alpine"
    } else if e == 22 {
        "NixOS"
    } else if e == 23 {
        "openSUSE Tumbleweed"
    } else if e == 24 {
        "Void Linux"
    } else if e == 25 {
        "Void Linux musl"
    } else if e == 26 {
        "Void Linux base"
    } else if e == 27 {
        "KDE neon"
    } else if e == 28 {
        "Deepin"
    } else {
        "openSUSE Leap"
    }
}

/// The Ubuntu flavour of resolvers 1 to 8.
pub open spec fn flavor_of(e: int) -> Seq<char> {
    if e == 1 {
        ""@
    } else if e == 2 {
        "kubuntu"@
    } else if e == 3 {
        "xubuntu"@
    } else if e == 4 {
        "lubuntu"@
    } else if e == 5 {
        "ubuntu-budgie"@
    } else if e == 6 {
        "ubuntucinnamon"@
    } else if e == 7 {
        "ubuntustudio"@
    } else {
        "ubuntu"@
    }
}

fn flavor_exec(e: usize) -> (r: &'static str)
    requires
        1 <= e <= 8,
    ensures
        r@ == flavor_of(e as int),
{
    if e == 1 {
        ""
    } else if e == 2 {
        "kubuntu"
    } else if e == 3 {
        "xubuntu"
    } else if e == 4 {
        "lubuntu"
    } else if e == 5 {
        "ubuntu-budgie"
    } else if e == 6 {
        "ubuntucinnamon"
    } else if e == 7 {
        "ubuntustudio"
    } else {
        "ubuntu"
    }
}

/// The path of the ISO within a Fedora release, for resolvers 11 to 19.
pub open spec fn fedora_path(e: int) -> Seq<char> {
    if e == 11 {
        "/Workstation/x86_64/iso/Fedora-Workstation-Live-x86_64-"@
    } else if e == 12 {
        "/Spins/x86_64/iso/Fedora-KDE-Live-x86_64-"@
    } else if e == 13 {
        "/Spins/x86_64/iso/Fedora-Xfce-Live-x86_64-"@
    } else if e == 14 {
        "/Spins/x86_64/iso/Fedora-Cinnamon-Live-x86_64-"@
    } else if e == 15 {
        "/Spins/x86_64/iso/Fedora-MATE_Compiz-Live-x86_64-"@
    } else if e == 16 {
        "/Spins/x86_64/iso/Fedora-i3-Live-x86_64-"@
    } else if e == 17 {
        "/Spins/x86_64/iso/Fedora-LXQt-Live-x86_64-"@
    } else if e == 18 {
        "/Spins/x86_64/iso/Fedora-Sway-Live-x86_64-"@
    } else {
        "/Server/x86_64/iso/Fedora-Server-dvd-x86_64-"@
    }
}

fn fedora_path_exec(e: usize) -> (r: &'static str)
    requires
        11 <= e <= 19,
    ensures
        r@ == fedora_path(e as int),
{
    if e == 11 {
        "/Workstation/x86_64/iso/Fedora-Workstation-Live-x86_64-"
    } else if e == 12 {
        "/Spins/x86_64/iso/Fedora-KDE-Live-x86_64-"
    } else if e == 13 {
        "/Spins/x86_64/iso/Fedora-Xfce-Live-x86_64-"
    } else if e == 14 {
        "/Spins/x86_64/iso/Fedora-Cinnamon-Live-x86_64-"
    } else if e == 15 {
        "/Spins/x86_64/iso/Fedora-MATE_Compiz-Live-x86_64-"
    } else if e == 16 {
        "/Spins/x86_64/iso/Fedora-i3-Live-x86_64-"
    } else if e == 17 {
        "/Spins/x86_64/iso/Fedora-LXQt-Live-x86_64-"
    } else if e == 18 {
        "/Spins/x86_64/iso/Fedora-Sway-Live-x86_64-"
    } else {
        "/Server/x86_64/iso/Fedora-Server-dvd-x86_64-"
    }
}

pub open spec fn mint_index() -> Seq<char> {
    "https://mirrors.layeronline.com/linuxmint/stable/"@
}

pub open spec fn fedora_index() -> Seq<char> {
    "https://dl.fedoraproject.org/pub/fedora/linux/releases/"@
}

/// The edition of Linux Mint named by a distribution name.
pub open spec fn mint_edition(name: Seq<char>) -> Seq<char> {
    if contains(name, "Xfce"@) {
        "xfce"@
    } else if contains(name, "MATE"@) {
        "mate"@
    } else {
        "cinnamon"@
    }
}

/// The NixOS edition named by the old URL.
pub open spec fn nixos_edition(old: Seq<char>) -> Seq<char> {
    if contains(old, "gnome"@) {
        "gnome"@
    } else if contains(old, "plasma6"@) || contains(old, "kde"@) {
        "plasma6"@
    } else {
        "minimal"@
    }
}

/// The Alpine `major.minor` named by the old URL: its fourth `/`-separated field
/// without leading `v`s.
pub open spec fn alpine_version(old: Seq<char>) -> Option<Seq<char>> {
    let p = split_char(old, '/');
    if p.len() > 3 {
        Some(trim_start_char(p[3], 'v'))
    } else {
        None
    }
}

/// The directory of the old Void Linux URL: the URL without its last `/`-separated field.
pub open spec fn void_base(old: Seq<char>) -> Seq<char> {
    trim_end_str(old, split_char(old, '/').last())
}

/// The ISO directory of the openSUSE Leap release named by the old URL
/// (its fifth `/`-separated field), where the URL has at least seven fields.
pub open spec fn leap_base(old: Seq<char>) -> Option<Seq<char>> {
    let p = split_char(old, '/');
    if p.len() >= 7 {
        Some("https://download.opensuse.org/distribution/leap/"@ + p[4] + "/iso/"@)
    } else {
        None
    }
}

/// The page that resolver `e` reads, where it reads one.
pub open spec fn fetch_url(e: int, name: Seq<char>, old: Seq<char>) -> Option<Seq<char>> {
    if e == 0 {
        Some("https://archlinux.org/releng/releases/json/"@)
    } else if 1 <= e <= 8 {
        Some(ubuntu_index(flavor_of(e)))
    } else if e == 9 || e == 10 {
        Some(mint_index())
    } else if 11 <= e <= 19 {
        Some(fedora_index())
    } else if e == 20 {
        if contains(name, "Netinstall"@) || contains(name, "netinst"@) {
            Some(debian_index())
        } else {
            None
        }
    } else if e == 21 {
        match alpine_version(old) {
            Some(v) => Some(alpine_index(v)),
            None => None,
        }
    } else if e == 22 {
        Some("https://channels.nixos.org/"@)
    } else if e == 23 {
        None
    } else if 24 <= e <= 26 {
        Some(void_base(old))
    } else if e == 27 {
        Some("https://files.kde.org/neon/images/user/"@)
    } else if e == 28 {
        Some("https://cdimage.deepin.com/releases/"@)
    } else {
        leap_base(old)
    }
}

/// The answer of resolver `e` where it reads no page.
pub open spec fn direct_answer(e: int) -> Option<Seq<char>> {
    if e == 23 {
        Some("https://download.opensuse.org/tumbleweed/iso/openSUSE-Tumbleweed-DVD-x86_64-Current.iso"@)
    } else {
        None
    }
}

/// The answer of resolver `e` from the page it read.
pub open spec fn page_answer(e: int, name: Seq<char>, old: Seq<char>, page: Seq<char>) -> Option<Seq<char>> {
    let hs = hrefs(page);
    if e == 0 {
        arch_answer(page)
    } else if 1 <= e <= 8 {
        ubuntu_answer(flavor_of(e), page)
    } else if e == 9 {
        match latest_of(hs) {
            Some(v) => Some(mint_index() + v + "/linuxmint-"@ + v + "-"@ + mint_edition(name) + "-64bit.iso"@),
            None => None,
        }
    } else if e == 10 {
        match latest_of(hs) {
            Some(v) => Some("https://mirrors.layeronline.com/linuxmint/debian/"@ + v + "/lmde-"@ + v + "-cinnamon-64bit.iso"@),
            None => None,
        }
    } else if 11 <= e <= 19 {
        match latest_of(hs) {
            Some(v) => Some(fedora_index() + v + fedora_path(e) + v + "-1.1.iso"@),
            None => None,
        }
    } else if e == 20 {
        debian_answer(page)
    } else if e == 21 {
        match alpine_version(old) {
            Some(v) => alpine_answer(v, page),
            None => None,
        }
    } else if e == 22 {
        match last_fit(hs, 6) {
            Some(c) => Some("https://channels.nixos.org/"@ + c + "/latest-nixos-"@ + nixos_edition(old) + "-x86_64-linux.iso"@),
            None => None,
        }
    } else if e == 23 {
        None
    } else if e == 24 {
        match first_fit(hs, 2) {
            Some(f) => Some(void_base(old) + "void-live-x86_64-"@ + trim_end_str(f, "-xfce.iso"@) + ".iso"@),
            None => None,
        }
    } else if e == 25 {
        match first_fit(hs, 3) {
            Some(f) => Some(void_base(old) + "void-live-x86_64-musl-"@ + trim_end_str(f, ".iso"@) + ".iso"@),
            None => None,
        }
    } else if e == 26 {
        match first_fit(hs, 4) {
            Some(f) => Some(void_base(old) + "void-live-x86_64-"@ + trim_end_str(f, ".iso"@) + ".iso"@),
            None => None,
        }
    } else if e == 27 {
        match greatest_fit(hs, 7) {
            Some(d) => Some("https://files.kde.org/neon/images/user/"@ + d + "/neon-user-"@ + d + ".iso"@),
            None => None,
        }
    } else if e == 28 {
        match latest_of(hs) {
            Some(v) => Some("https://cdimage.deepin.com/releases/"@ + v + "/deepin-desktop-community-"@ + v + "-amd64.iso"@),
            None => None,
        }
    } else {
        match (leap_base(old), first_fit(hs, 5)) {
            (Some(b), Some(iso)) => Some(b + iso),
            _ => None,
        }
    }
}

/// What a resolver needs before it can answer.
pub enum Step {
    /// The page at this URL.
    Fetch(String),
    /// Nothing: this is its answer.
    Answer(Option<String>),
}

fn alpine_version_exec(old: &str) -> (r: Option<String>)
    ensures
        opt_view(r) == alpine_version(old@),
{
    let p = split_char_exec(old, '/');
    assert(views(p@).len() == p@.len());
    if p.len() > 3 {
        assert(views(p@)[3] == p@[3]@);
        Some(trim_start_char_exec(p[3].as_str(), 'v'))
    } else {
        None
    }
}

fn void_base_exec(old: &str) -> (r: String)
    ensures
        r@ == void_base(old@),
{
    let p = split_char_exec(old, '/');
    assert(views(p@).len() == p@.len());
    proof {
        lemma_split_nonempty(old@, '/', 0, 0);
    }
    assert(p.len() > 0);
    let last = p.len() - 1;
    assert(views(p@)[last as int] == p@[last as int]@);
    trim_end_str_exec(old, p[last].as_str())
}

fn leap_base_exec(old: &str) -> (r: Option<String>)
    ensures
        opt_view(r) == leap_base(old@),
{
    let p = split_char_exec(old, '/');
    assert(views(p@).len() == p@.len());
    if p.len() >= 7 {
        assert(views(p@)[4] == p@[4]@);
        Some(cat3("https://download.opensuse.org/distribution/leap/", p[4].as_str(), "/iso/"))
    } else {
        None
    }
}

/// What resolver `e` needs for a distribution `name` whose known URL is `old_url`.
pub fn resolver_request(e: usize, name: &str, old_url: &str) -> (r: Step)
    requires
        e < 30,
    ensures
        match r {
            Step::Fetch(u) => fetch_url(e as int, name@, old_url@) == Some(u@),
            Step::Answer(a) => fetch_url(e as int, name@, old_url@) is None && opt_view(a)
                == direct_answer(e as int),
        },
{
    if e == 0 {
        Step::Fetch(String::from_str("https://archlinux.org/releng/releases/json/"))
    } else if e <= 8 {
        Step::Fetch(ubuntu_index_url(flavor_exec(e)))
    } else if e == 9 || e == 10 {
        Step::Fetch(String::from_str("https://mirrors.layeronline.com/linuxmint/stable/"))
    } else if e <= 19 {
        Step::Fetch(String::from_str("https://dl.fedoraproject.org/pub/fedora/linux/releases/"))
    } else if e == 20 {
        if str_contains(name, "Netinstall") || str_contains(name, "netinst") {
            Step::Fetch(String::from_str("https://cdimage.debian.org/debian-cd/current/amd64/iso-cd/"))
        } else {
            Step::Answer(None)
        }
    } else if e == 21 {
        match alpine_version_exec(old_url) {
            Some(v) => Step::Fetch(alpine_index_url(v.as_str())),
            None => Step::Answer(None),
        }
    } else if e == 22 {
        Step::Fetch(String::from_str("https://channels.nixos.org/"))
    } else if e == 23 {
        Step::Answer(Some(String::from_str("https://download.opensuse.org/tumbleweed/iso/openSUSE-Tumbleweed-DVD-x86_64-Current.iso")))
    } else if e <= 26 {
        proof {
            lemma_split_nonempty(old_url@, '/', 0, 0);
        }
        Step::Fetch(void_base_exec(old_url))
    } else if e == 27 {
        Step::Fetch(String::from_str("https://files.kde.org/neon/images/user/"))
    } else if e == 28 {
        Step::Fetch(String::from_str("https://cdimage.deepin.com/releases/"))
    } else {
        match leap_base_exec(old_url) {
            Some(b) => Step::Fetch(b),
            None => Step::Answer(None),
        }
    }
}

fn mint_edition_exec(name: &str) -> (r: &'static str)
    ensures
        r@ == mint_edition(name@),
{
    if str_contains(name, "Xfce") {
        "xfce"
    } else if str_contains(name, "MATE") {
        "mate"
    } else {
        "cinnamon"
    }
}

fn nixos_edition_exec(old: &str) -> (r: &'static str)
    ensures
        r@ == nixos_edition(old@),
{
    if str_contains(old, "gnome") {
        "gnome"
    } else if str_contains(old, "plasma6") || str_contains(old, "kde") {
        "plasma6"
    } else {
        "minimal"
    }
}

/// The answer of a resolver that reads several links of the page.
fn links_answer(e: usize, name: &str, old_url: &str, page: &str) -> (r: Option<String>)
    requires
        9 <= e <= 28,
        e != 20 && e != 21 && e != 23,
    ensures
        opt_view(r) == page_answer(e as int, name@, old_url@, page@),
{
    let hs = extract_hrefs(page);
    if e == 9 || e == 10 || e <= 19 || e == 28 {
        let v = match latest_dir(&hs) {
            Some(v) => v,
            None => return None,
        };
        let v = v.as_str();
        if e == 9 {
            let mut u = cat_twice("https://mirrors.layeronline.com/linuxmint/stable/", v, "/linuxmint-", "-");
            u.append(mint_edition_exec(name));
            u.append("-64bit.iso");
            Some(u)
        } else if e == 10 {
            Some(cat_twice("https://mirrors.layeronline.com/linuxmint/debian/", v, "/lmde-", "-cinnamon-64bit.iso"))
        } else if e == 28 {
            Some(cat_twice("https://cdimage.deepin.com/releases/", v, "/deepin-desktop-community-", "-amd64.iso"))
        } else {
            Some(cat_twice("https://dl.fedoraproject.org/pub/fedora/linux/releases/", v, fedora_path_exec(e), "-1.1.iso"))
        }
    } else if e == 22 {
        match last_fit_exec(&hs, 6) {
            Some(c) => {
                let mut u = cat3("https://channels.nixos.org/", c.as_str(), "/latest-nixos-");
                u.append(nixos_edition_exec(old_url));
                u.append("-x86_64-linux.iso");
                Some(u)
            },
            None => None,
        }
    } else if e == 27 {
        match greatest_fit_exec(&hs, 7) {
            Some(d) => Some(cat_twice("https://files.kde.org/neon/images/user/", d.as_str(), "/neon-user-", ".iso")),
            None => None,
        }
    } else {
        proof {
            lemma_split_nonempty(old_url@, '/', 0, 0);
        }
        let kind: u8 = if e == 24 { 2 } else if e == 25 { 3 } else { 4 };
        match first_fit_exec(&hs, kind) {
            Some(f) => {
                let base = void_base_exec(old_url);
                let (prefix, suffix) = if e == 24 {
                    ("void-live-x86_64-", "-xfce.iso")
                } else if e == 25 {
                    ("void-live-x86_64-musl-", ".iso")
                } else {
                    ("void-live-x86_64-", ".iso")
                };
                let stem = trim_end_str_exec(f.as_str(), suffix);
                let mut u = cat3(base.as_str(), prefix, stem.as_str());
                u.append(".iso");
                Some(u)
            },
            None => None,
        }
    }
}

/// The answer of resolver `e` from `page`, the page at `fetch_url(e, ..)`.
pub fn resolver_answer(e: usize, name: &str, old_url: &str, page: &str) -> (r: Option<String>)
    requires
        e < 30,
    ensures
        opt_view(r) == page_answer(e as int, name@, old_url@, page@),
{
    if e == 0 {
        arch(page)
    } else if e <= 8 {
        ubuntu_flavor(flavor_exec(e), page)
    } else if e == 20 {
        debian_netinst(page)
    } else if e == 21 {
        match alpine_version_exec(old_url) {
            Some(v) => alpine_latest(v.as_str(), page),
            None => None,
        }
    } else if e == 23 {
        None
    } else if e == 29 {
        match leap_base_exec(old_url) {
            Some(b) => match first_fit_exec(&extract_hrefs(page), 5) {
                Some(iso) => Some(cat(b.as_str(), iso.as_str())),
                None => None,
            },
            None => None,
        }
    } else {
        links_answer(e, name, old_url, page)
    }
}


// ---------------------------------------------------------------------------
// Resolving a distribution
// ---------------------------------------------------------------------------

/// The answer of resolver `e` once it has read `page` (`None`: the read failed).
pub open spec fn outcome(e: int, name: Seq<char>, old: Seq<char>, page: Option<Seq<char>>) -> Option<Seq<char>> {
    match fetch_url(e, name, old) {
        None => direct_answer(e),
        Some(_) => match page {
            Some(p) => page_answer(e, name, old, p),
            None => None,
        },
    }
}

/// `fetch` may give `page` for `url`.
pub open spec fn fetched<F: Fn(&str) -> Option<String>>(fetch: F, url: Seq<char>, page: Option<String>) -> bool {
    exists|x: &str| x@ == url && #[trigger] fetch.ensures((x,), page)
}

/// Resolver `e` may answer `out` for the distribution, given what `fetch` may return.
pub open spec fn may_answer<F: Fn(&str) -> Option<String>>(
    fetch: F,
    e: int,
    name: Seq<char>,
    old: Seq<char>,
    out: Option<Seq<char>>,
) -> bool {
    match fetch_url(e, name, old) {
        None => out == direct_answer(e),
        Some(u) => exists|page: Option<String>|
            fetched(fetch, u, page) && out == #[trigger] outcome(e, name, old, opt_view(page)),
    }
}

/// An answer counts when it is a non-empty URL.
pub open spec fn is_url(out: Option<Seq<char>>) -> bool {
    out matches Some(u) && u.len() > 0
}

/// Resolver `e` applies to the distribution and gave no URL.
pub open spec fn failed<F: Fn(&str) -> Option<String>>(fetch: F, e: int, name: Seq<char>, old: Seq<char>) -> bool {
    exists|out: Option<Seq<char>>| #[trigger] may_answer(fetch, e, name, old, out) && !is_url(out)
}

pub open spec fn applies(e: int, name: Seq<char>) -> bool {
    0 <= e < resolver_count() && contains(name, pattern(e))
}

/// The answer of resolver `e` where reading the URL `u` gives `read(u)`.
pub open spec fn answer_with(
    e: int,
    name: Seq<char>,
    old: Seq<char>,
    read: spec_fn(Seq<char>) -> Option<Seq<char>>,
) -> Option<Seq<char>> {
    match fetch_url(e, name, old) {
        None => direct_answer(e),
        Some(u) => outcome(e, name, old, read(u)),
    }
}

/// Going through the resolvers from `e` on, in table order: the answer of the
/// first one that applies to the name and gives a URL; later ones are not tried.
pub open spec fn resolved_from(
    name: Seq<char>,
    old: Seq<char>,
    read: spec_fn(Seq<char>) -> Option<Seq<char>>,
    e: int,
) -> Option<Seq<char>>
    decreases resolver_count() - e,
{
    if e < 0 || e >= resolver_count() {
        None
    } else if applies(e, name) && is_url(answer_with(e, name, old, read)) {
        answer_with(e, name, old, read)
    } else {
        resolved_from(name, old, read, e + 1)
    }
}

/// `fetch` reads as `read` does: whatever it gives for a URL is `read` of it.
pub open spec fn reads_like<F: Fn(&str) -> Option<String>>(
    fetch: F,
    read: spec_fn(Seq<char>) -> Option<Seq<char>>,
) -> bool {
    forall|x: &str, p: Option<String>| #[trigger] fetch.ensures((x,), p) ==> opt_view(p) == read(x@)
}

/// The current download URL of the distribution `name`, whose known URL is
/// `old_url`: the answer of the first resolver whose pattern the name contains
/// and that gives a non-empty URL. `fetch` reads a page (`None` when it cannot).
pub fn resolve_url<F: Fn(&str) -> Option<String>>(name: &str, old_url: &str, fetch: &F) -> (r: Option<String>)
    requires
        forall|u: &str| fetch.requires((u,)),
    ensures
        match r {
            Some(u) => exists|e: int|
                {
                    &&& #[trigger] applies(e, name@)
                    &&& may_answer(*fetch, e, name@, old_url@, Some(u@))
                    &&& u@.len() > 0
                    &&& forall|k: int| 0 <= k < e && applies(k, name@) ==> failed(*fetch, k, name@, old_url@)
                },
            None => forall|k: int| applies(k, name@) ==> failed(*fetch, k, name@, old_url@),
        },
        forall|read: spec_fn(Seq<char>) -> Option<Seq<char>>|
            #[trigger] reads_like(*fetch, read) ==> opt_view(r) == resolved_from(name@, old_url@, read, 0),
{
    let mut e: usize = 0;
    while e < 30
        invariant
            e <= 30,
            forall|u: &str| fetch.requires((u,)),
            forall|k: int| 0 <= k < e && applies(k, name@) ==> failed(*fetch, k, name@, old_url@),
            forall|read: spec_fn(Seq<char>) -> Option<Seq<char>>|
                #[trigger] reads_like(*fetch, read) ==> resolved_from(name@, old_url@, read, 0)
                    == resolved_from(name@, old_url@, read, e as int),
        decreases 30 - e,
    {
        if !str_contains(name, pattern_exec(e)) {
            assert forall|read: spec_fn(Seq<char>) -> Option<Seq<char>>|
                #[trigger] reads_like(*fetch, read) implies resolved_from(name@, old_url@, read, 0)
                    == resolved_from(name@, old_url@, read, e + 1) by {
                assert(!applies(e as int, name@));
                assert(resolved_from(name@, old_url@, read, e as int) == resolved_from(
                    name@,
                    old_url@,
                    read,
                    e + 1,
                ));
            }
        }
        if str_contains(name, pattern_exec(e)) {
            assert(applies(e as int, name@));
            let out = match resolver_request(e, name, old_url) {
                Step::Answer(a) => {
                    assert(may_answer(*fetch, e as int, name@, old_url@, opt_view(a)));
                    assert forall|read: spec_fn(Seq<char>) -> Option<Seq<char>>|
                        #[trigger] reads_like(*fetch, read) implies opt_view(a) == answer_with(
                        e as int,
                        name@,
                        old_url@,
                        read,
                    ) by {}
                    a
                },
                Step::Fetch(u) => {
                    let us = u.as_str();
                    let page = fetch(us);
                    let a = match &page {
                        Some(body) => resolver_answer(e, name, old_url, body.as_str()),
                        None => None,
                    };
                    proof {
                        assert(fetched(*fetch, u@, page));
                        assert(opt_view(a) == outcome(e as int, name@, old_url@, opt_view(page)));
                        assert(may_answer(*fetch, e as int, name@, old_url@, opt_view(a)));
                        assert forall|read: spec_fn(Seq<char>) -> Option<Seq<char>>|
                            #[trigger] reads_like(*fetch, read) implies opt_view(a) == answer_with(
                            e as int,
                            name@,
                            old_url@,
                            read,
                        ) by {
                            assert(fetch.ensures((us,), page));
                            assert(opt_view(page) == read(u@));
                        }
                    }
                    a
                },
            };
            let ghost outv = opt_view(out);
            match out {
                Some(url) => {
                    if !url.as_str().is_empty() {
                        assert(may_answer(*fetch, e as int, name@, old_url@, Some(url@)));
                        assert forall|read: spec_fn(Seq<char>) -> Option<Seq<char>>|
                            #[trigger] reads_like(*fetch, read) implies opt_view(Some(url)) == resolved_from(
                            name@,
                            old_url@,
                            read,
                            0,
                        ) by {
                            assert(answer_with(e as int, name@, old_url@, read) == Some(url@));
                            assert(resolved_from(name@, old_url@, read, e as int) == Some(url@));
                        }
                        return Some(url);
                    }
                    assert(failed(*fetch, e as int, name@, old_url@));
                },
                None => {
                    assert(failed(*fetch, e as int, name@, old_url@));
                },
            }
            assert(!is_url(outv));
            assert forall|read: spec_fn(Seq<char>) -> Option<Seq<char>>|
                #[trigger] reads_like(*fetch, read) implies resolved_from(name@, old_url@, read, 0)
                    == resolved_from(name@, old_url@, read, e + 1) by {
                assert(answer_with(e as int, name@, old_url@, read) == outv);
                assert(resolved_from(name@, old_url@, read, e as int) == resolved_from(
                    name@,
                    old_url@,
                    read,
                    e + 1,
                ));
            }
        }
        e = e + 1;
    }
    None
}


// ---------------------------------------------------------------------------
// Laws
// ---------------------------------------------------------------------------

/// The names each resolver applies to, in table order: resolver `e` applies
/// exactly to the names that contain its text.
pub proof fn lemma_resolver_patterns(e: int, name: Seq<char>)
    requires
        0 <= e < 30,
    ensures
        applies(e, name) == contains(
            name,
            if e == 0 { "Arch Linux"@ }
            else if e == 1 { "Ubuntu "@ }
            else if e == 2 { "Kubuntu"@ }
            else if e == 3 { "Xubuntu"@ }
            else if e == 4 { "Lubuntu"@ }
            else if e == 5 { "Ubuntu Budgie"@ }
            else if e == 6 { "Ubuntu Cinnamon"@ }
            else if e == 7 { "Ubuntu Studio"@ }
            else if e == 8 { "Ubuntu Server"@ }
            else if e == 9 { "Linux Mint"@ }
            else if e == 10 { "LMDE"@ }
            else if e == 11 { "Fedora 44 Workstation"@ }
            else if e == 12 { "Fedora 44 KDE"@ }
            else if e == 13 { "Fedora 44 Xfce"@ }
            else if e == 14 { "Fedora 44 Cinnamon"@ }
            else if e == 15 { "Fedora 44 MATE-Compiz"@ }
            else if e == 16 { "Fedora 44 i3"@ }
            else if e == 17 { "Fedora 44 LXQt"@ }
            else if e == 18 { "Fedora 44 Sway"@ }
            else if e == 19 { "Fedora 44 Server"@ }
            else if e == 20 { "Debian"@ }
            else if e == 21 { "Alpine"@ }
            else if e == 22 { "NixOS"@ }
            else if e == 23 { "openSUSE Tumbleweed"@ }
            else if e == 24 { "Void Linux"@ }
            else if e == 25 { "Void Linux musl"@ }
            else if e == 26 { "Void Linux base"@ }
            else if e == 27 { "KDE neon"@ }
            else if e == 28 { "Deepin"@ }
            else { "openSUSE Leap"@ },
        ),
{
}

/// The Fedora resolvers read the releases index and build the ISO URL of the
/// latest release under that edition's own tree: Workstation under
/// `Workstation`, the desktop spins under `Spins`, Server under `Server`.
pub proof fn lemma_fedora_urls(e: int, name: Seq<char>, old: Seq<char>, page: Seq<char>)
    requires
        11 <= e <= 19,
    ensures
        fetch_url(e, name, old) == Some("https://dl.fedoraproject.org/pub/fedora/linux/releases/"@),
        match latest_of(hrefs(page)) {
            None => page_answer(e, name, old, page) is None,
            Some(v) => page_answer(e, name, old, page) == Some(
                "https://dl.fedoraproject.org/pub/fedora/linux/releases/"@ + v + (
                if e == 11 { "/Workstation/x86_64/iso/Fedora-Workstation-Live-x86_64-"@ }
                else if e == 12 { "/Spins/x86_64/iso/Fedora-KDE-Live-x86_64-"@ }
                else if e == 13 { "/Spins/x86_64/iso/Fedora-Xfce-Live-x86_64-"@ }
                else if e == 14 { "/Spins/x86_64/iso/Fedora-Cinnamon-Live-x86_64-"@ }
                else if e == 15 { "/Spins/x86_64/iso/Fedora-MATE_Compiz-Live-x86_64-"@ }
                else if e == 16 { "/Spins/x86_64/iso/Fedora-i3-Live-x86_64-"@ }
                else if e == 17 { "/Spins/x86_64/iso/Fedora-LXQt-Live-x86_64-"@ }
                else if e == 18 { "/Spins/x86_64/iso/Fedora-Sway-Live-x86_64-"@ }
                else { "/Server/x86_64/iso/Fedora-Server-dvd-x86_64-"@ }) + v + "-1.1.iso"@,
            ),
        },
{
}

/// The Ubuntu resolvers read the releases index of their flavour and build
/// the desktop ISO URL of the latest release: Ubuntu itself on
/// releases.ubuntu.com, the flavours (and Ubuntu Server, as `ubuntu`) on
/// cdimage.ubuntu.com.
pub proof fn lemma_ubuntu_urls(e: int, name: Seq<char>, old: Seq<char>, page: Seq<char>)
    requires
        1 <= e <= 8,
    ensures
        ({
            let f = if e == 2 { "kubuntu"@ }
                else if e == 3 { "xubuntu"@ }
                else if e == 4 { "lubuntu"@ }
                else if e == 5 { "ubuntu-budgie"@ }
                else if e == 6 { "ubuntucinnamon"@ }
                else if e == 7 { "ubuntustudio"@ }
                else { "ubuntu"@ };
            &&& fetch_url(e, name, old) == Some(
                if e == 1 {
                    "https://releases.ubuntu.com/"@
                } else {
                    "https://cdimage.ubuntu.com/"@ + f + "/releases/"@
                },
            )
            &&& match latest_of(hrefs(page)) {
                None => page_answer(e, name, old, page) is None,
                Some(v) => page_answer(e, name, old, page) == Some(
                    if e == 1 {
                        "https://releases.ubuntu.com/"@ + v + "/ubuntu-"@ + v + "-desktop-amd64.iso"@
                    } else {
                        "https://cdimage.ubuntu.com/"@ + f + "/releases/"@ + v + "/release/"@ + f + "-"@ + v
                            + "-desktop-amd64.iso"@
                    },
                ),
            }
        }),
{
    reveal_strlit("");
    reveal_strlit("kubuntu");
    reveal_strlit("xubuntu");
    reveal_strlit("lubuntu");
    reveal_strlit("ubuntu-budgie");
    reveal_strlit("ubuntucinnamon");
    reveal_strlit("ubuntustudio");
    reveal_strlit("ubuntu");
}

/// The resolvers that read the latest release directory of an index: Linux
/// Mint (its edition from the name: Xfce, MATE, else Cinnamon), LMDE and Deepin.
pub proof fn lemma_release_dir_urls(e: int, name: Seq<char>, old: Seq<char>, page: Seq<char>)
    requires
        e == 9 || e == 10 || e == 28,
    ensures
        fetch_url(e, name, old) == Some(
            if e == 28 {
                "https://cdimage.deepin.com/releases/"@
            } else {
                "https://mirrors.layeronline.com/linuxmint/stable/"@
            },
        ),
        match latest_of(hrefs(page)) {
            None => page_answer(e, name, old, page) is None,
            Some(v) => page_answer(e, name, old, page) == Some(
                if e == 9 {
                    "https://mirrors.layeronline.com/linuxmint/stable/"@ + v + "/linuxmint-"@ + v + "-"@ + (
                    if contains(name, "Xfce"@) {
                        "xfce"@
                    } else if contains(name, "MATE"@) {
                        "mate"@
                    } else {
                        "cinnamon"@
                    }) + "-64bit.iso"@
                } else if e == 10 {
                    "https://mirrors.layeronline.com/linuxmint/debian/"@ + v + "/lmde-"@ + v + "-cinnamon-64bit.iso"@
                } else {
                    "https://cdimage.deepin.com/releases/"@ + v + "/deepin-desktop-community-"@ + v + "-amd64.iso"@
                },
            ),
        },
{
}

/// The resolvers that pick one link of an index: Debian (only for a netinstall
/// name) takes the first `...-amd64-netinst.iso`, Alpine the first
/// `alpine-standard...-x86_64.iso` of the release named in the old URL, and
/// openSUSE Leap the first `...-DVD-x86_64-Media.iso`; openSUSE Tumbleweed
/// needs no index.
pub proof fn lemma_link_urls(name: Seq<char>, old: Seq<char>, page: Seq<char>)
    ensures
        fetch_url(20, name, old) == (if contains(name, "Netinstall"@) || contains(name, "netinst"@) {
            Some("https://cdimage.debian.org/debian-cd/current/amd64/iso-cd/"@)
        } else {
            None::<Seq<char>>
        }),
        direct_answer(20) is None,
        page_answer(20, name, old, page) == (match first_fit(hrefs(page), 0) {
            Some(iso) => Some("https://cdimage.debian.org/debian-cd/current/amd64/iso-cd/"@ + iso),
            None => None,
        }),
        match alpine_version(old) {
            Some(v) => fetch_url(21, name, old) == Some(
                "https://dl-cdn.alpinelinux.org/alpine/v"@ + v + "/releases/x86_64/"@,
            ) && page_answer(21, name, old, page) == (match first_fit(hrefs(page), 1) {
                Some(iso) => Some("https://dl-cdn.alpinelinux.org/alpine/v"@ + v + "/releases/x86_64/"@ + iso),
                None => None,
            }),
            None => fetch_url(21, name, old) is None && direct_answer(21) is None,
        },
        fetch_url(23, name, old) is None,
        direct_answer(23) == Some(
            "https://download.opensuse.org/tumbleweed/iso/openSUSE-Tumbleweed-DVD-x86_64-Current.iso"@,
        ),
        page_answer(29, name, old, page) == (match (leap_base(old), first_fit(hrefs(page), 5)) {
            (Some(b), Some(iso)) => Some(b + iso),
            _ => None,
        }),
        fetch_url(29, name, old) == leap_base(old),
{
}

/// The remaining resolvers: Arch Linux takes the `iso_url` of its release
/// feed; NixOS the last `nixos-` channel with the edition of the old URL
/// (GNOME, Plasma 6 for `plasma6` or `kde`, else minimal); the Void Linux
/// ones the first matching image beside the old one; KDE neon its greatest
/// dated directory.
pub proof fn lemma_other_urls(name: Seq<char>, old: Seq<char>, page: Seq<char>)
    ensures
        fetch_url(0, name, old) == Some("https://archlinux.org/releng/releases/json/"@),
        page_answer(0, name, old, page) == str_of(field_or_none(json_parse(page), "iso_url"@)),
        fetch_url(22, name, old) == Some("https://channels.nixos.org/"@),
        page_answer(22, name, old, page) == (match last_fit(hrefs(page), 6) {
            Some(c) => Some(
                "https://channels.nixos.org/"@ + c + "/latest-nixos-"@ + (if contains(old, "gnome"@) {
                    "gnome"@
                } else if contains(old, "plasma6"@) || contains(old, "kde"@) {
                    "plasma6"@
                } else {
                    "minimal"@
                }) + "-x86_64-linux.iso"@,
            ),
            None => None,
        }),
        fetch_url(24, name, old) == Some(void_base(old)),
        fetch_url(25, name, old) == Some(void_base(old)),
        fetch_url(26, name, old) == Some(void_base(old)),
        page_answer(24, name, old, page) == (match first_fit(hrefs(page), 2) {
            Some(f) => Some(void_base(old) + "void-live-x86_64-"@ + trim_end_str(f, "-xfce.iso"@) + ".iso"@),
            None => None,
        }),
        page_answer(25, name, old, page) == (match first_fit(hrefs(page), 3) {
            Some(f) => Some(void_base(old) + "void-live-x86_64-musl-"@ + trim_end_str(f, ".iso"@) + ".iso"@),
            None => None,
        }),
        page_answer(26, name, old, page) == (match first_fit(hrefs(page), 4) {
            Some(f) => Some(void_base(old) + "void-live-x86_64-"@ + trim_end_str(f, ".iso"@) + ".iso"@),
            None => None,
        }),
        fetch_url(27, name, old) == Some("https://files.kde.org/neon/images/user/"@),
        page_answer(27, name, old, page) == (match greatest_fit(hrefs(page), 7) {
            Some(d) => Some("https://files.kde.org/neon/images/user/"@ + d + "/neon-user-"@ + d + ".iso"@),
            None => None,
        }),
{
}

/// The kinds of link, as the resolvers look for them.
pub proof fn lemma_link_kinds(h: Seq<char>)
    ensures
        fits(0, h) == ends_with(h, "-amd64-netinst.iso"@),
        fits(1, h) == (starts_with(h, "alpine-standard"@) && ends_with(h, "-x86_64.iso"@)),
        fits(2, h) == (starts_with(h, "void-live-x86_64"@) && ends_with(h, "-xfce.iso"@)),
        fits(3, h) == (contains(h, "musl"@) && ends_with(h, ".iso"@)),
        fits(4, h) == (starts_with(h, "void-live-x86_64-2025"@) && ends_with(h, ".iso"@) && !contains(
            h,
            "xfce"@,
        ) && !contains(h, "musl"@)),
        fits(5, h) == ends_with(h, "-DVD-x86_64-Media.iso"@),
        fits(6, h) == starts_with(h, "nixos-"@),
        fits(7, h) == (h.len() == 8 && forall|i: int| 0 <= i < 8 ==> '0' <= #[trigger] h[i] <= '9'),
{
    assert(fits(7, h) == (h.len() == 8 && forall|i: int| 0 <= i < 8 ==> '0' <= #[trigger] h[i] <= '9')) by {
        if h.len() == 8 {
            if crate::text::all_digits(h) {
                assert forall|i: int| 0 <= i < 8 implies '0' <= #[trigger] h[i] <= '9' by {
                    assert(crate::text::is_digit(h[i]));
                }
            }
            if forall|i: int| 0 <= i < 8 ==> '0' <= #[trigger] h[i] <= '9' {
                assert forall|i: int| 0 <= i < h.len() implies #[trigger] crate::text::is_digit(h[i]) by {
                    assert('0' <= h[i] <= '9');
                }
            }
        }
    }
}

/// The first link of a kind is a link of the page of that kind, and no
/// earlier link is of that kind; there is none only where no link is.
pub proof fn lemma_first_fit(hs: Seq<Seq<char>>, kind: int)
    ensures
        first_fit(hs, kind) matches Some(h) ==> exists|i: int|
            0 <= i < hs.len() && hs[i] == h && fits(kind, h) && forall|j: int| 0 <= j < i ==> !fits(kind, #[trigger] hs[j]),
        first_fit(hs, kind) is None <==> forall|i: int| 0 <= i < hs.len() ==> !fits(kind, #[trigger] hs[i]),
    decreases hs.len(),
{
    if hs.len() > 0 {
        lemma_first_fit(hs.drop_first(), kind);
        if !fits(kind, hs[0]) {
            if let Some(h) = first_fit(hs, kind) {
                let i = choose|i: int|
                    0 <= i < hs.drop_first().len() && hs.drop_first()[i] == h && fits(kind, h) && forall|j: int|
                        0 <= j < i ==> !fits(kind, #[trigger] hs.drop_first()[j]);
                assert(hs[i + 1] == h);
                assert forall|j: int| 0 <= j < i + 1 implies !fits(kind, #[trigger] hs[j]) by {
                    if j > 0 {
                        assert(hs[j] == hs.drop_first()[j - 1]);
                    }
                }
            }
            assert((forall|i: int| 0 <= i < hs.len() ==> !fits(kind, #[trigger] hs[i])) <==> (forall|i: int|
                0 <= i < hs.drop_first().len() ==> !fits(kind, #[trigger] hs.drop_first()[i]))) by {
                if forall|i: int| 0 <= i < hs.drop_first().len() ==> !fits(kind, #[trigger] hs.drop_first()[i]) {
                    assert forall|i: int| 0 <= i < hs.len() implies !fits(kind, #[trigger] hs[i]) by {
                        if i > 0 {
                            assert(hs[i] == hs.drop_first()[i - 1]);
                        }
                    }
                }
                if forall|i: int| 0 <= i < hs.len() ==> !fits(kind, #[trigger] hs[i]) {
                    assert forall|i: int| 0 <= i < hs.drop_first().len() implies !fits(kind, #[trigger] hs.drop_first()[i]) by {
                        assert(hs.drop_first()[i] == hs[i + 1]);
                    }
                }
            }
        } else {
            assert(first_fit(hs, kind) == Some(hs[0]));
        }
    }
}

/// A link as the resolvers read it: not empty, neither a query, an absolute
/// path nor a full URL, and without a trailing slash.
pub open spec fn clean_link(h: Seq<char>) -> bool {
    &&& h.len() > 0
    &&& !starts_with(h, seq!['?'])
    &&& !starts_with(h, seq!['/'])
    &&& !starts_with(h, "http"@)
    &&& h.last() != '/'
}

proof fn lemma_trimmed_link_clean(h: Seq<char>)
    requires
        keep_href(h),
    ensures
        clean_link(trim_end_char(h, '/')),
{
    let t = trim_end_char(h, '/');
    lemma_trim_end_char(h, '/');
    assert(h[0] != '/') by {
        assert(h.subrange(0, 1) =~= seq![h[0]]);
    }
    if starts_with(t, seq!['?']) {
        lemma_prefix_starts_with(h, t, seq!['?']);
    }
    if starts_with(t, seq!['/']) {
        lemma_prefix_starts_with(h, t, seq!['/']);
    }
    if starts_with(t, "http"@) {
        lemma_prefix_starts_with(h, t, "http"@);
    }
}

proof fn lemma_hrefs_from_clean(html: Seq<char>, pos: int)
    ensures
        forall|i: int| 0 <= i < hrefs_from(html, pos).len() ==> clean_link(#[trigger] hrefs_from(html, pos)[i]),
    decreases html.len() + 1 - pos,
{
    if !(pos < 0 || pos > html.len()) {
        match find_from(html, "href=\""@, pos) {
            None => {},
            Some(i) => {
                let start = i + "href=\""@.len();
                match find_from(html, seq!['"'], start) {
                    None => {},
                    Some(e) => {
                        if pos <= i && start <= e && e < html.len() {
                            let h = html.subrange(start, e);
                            lemma_hrefs_from_clean(html, e + 1);
                            if keep_href(h) {
                                lemma_trimmed_link_clean(h);
                                let rest = hrefs_from(html, e + 1);
                                let all = seq![trim_end_char(h, '/')].add(rest);
                                assert forall|k: int| 0 <= k < all.len() implies clean_link(#[trigger] all[k]) by {
                                    if k > 0 {
                                        assert(all[k] == rest[k - 1]);
                                    }
                                }
                            }
                        }
                    },
                }
            },
        }
    }
}

/// Every link that `extract_hrefs` returns is clean: not empty, neither a
/// query, an absolute path nor a full URL, and without a trailing slash.
pub proof fn lemma_hrefs_clean(html: Seq<char>)
    ensures
        forall|i: int| 0 <= i < hrefs(html).len() ==> clean_link(#[trigger] hrefs(html)[i]),
{
    lemma_hrefs_from_clean(html, 0);
}

/// Among the first `n` links, a greatest version directory, where there is one.
#[verifier::spinoff_prover]
#[verifier::rlimit(40)]
proof fn lemma_greatest_exists(hs: Seq<Seq<char>>, n: int)
    requires
        0 <= n <= hs.len(),
        exists|j: int| 0 <= j < n && is_version_dir(hs[j]),
    ensures
        exists|k: int|
            0 <= k < n && is_version_dir(hs[k]) && forall|j: int|
                0 <= j < n && is_version_dir(hs[j]) ==> key_le(key_of(hs[j]), key_of(#[trigger] hs[k])),
    decreases n,
{
    if exists|j: int| 0 <= j < n - 1 && is_version_dir(hs[j]) {
        lemma_greatest_exists(hs, n - 1);
        let k = choose|k: int|
            0 <= k < n - 1 && is_version_dir(hs[k]) && forall|j: int|
                0 <= j < n - 1 && is_version_dir(hs[j]) ==> key_le(key_of(hs[j]), key_of(#[trigger] hs[k]));
        if is_version_dir(hs[n - 1]) && !key_le(key_of(hs[n - 1]), key_of(hs[k])) {
            lemma_key_total(key_of(hs[n - 1]), key_of(hs[k]));
            assert forall|j: int|
                0 <= j < n && is_version_dir(hs[j]) implies key_le(key_of(hs[j]), key_of(hs[n - 1])) by {
                if j < n - 1 {
                    assert(key_le(key_of(hs[j]), key_of(hs[k])));
                    if key_lt(key_of(hs[j]), key_of(hs[k])) {
                        lemma_key_lt_transitive(key_of(hs[j]), key_of(hs[k]), key_of(hs[n - 1]));
                    }
                }
            }
            assert(is_version_dir(hs[n - 1]));
        } else {
            assert forall|j: int|
                0 <= j < n && is_version_dir(hs[j]) implies key_le(key_of(hs[j]), key_of(hs[k])) by {}
        }
    } else {
        assert forall|j: int|
            0 <= j < n && is_version_dir(hs[j]) implies key_le(key_of(hs[j]), key_of(hs[n - 1])) by {
            if j < n - 1 {
                assert(!is_version_dir(hs[j]));
            }
        }
        assert(is_version_dir(hs[n - 1]));
    }
}

/// `latest_dir` finds a version directory exactly when some link names a
/// version, and then it finds the greatest one (by version, then by name).
pub proof fn lemma_latest_is_greatest(hs: Seq<Seq<char>>)
    ensures
        latest_of(hs) is None <==> forall|i: int| 0 <= i < hs.len() ==> !is_version_dir(#[trigger] hs[i]),
        latest_of(hs) matches Some(h) ==> {
            &&& hs.contains(h)
            &&& is_version_dir(h)
            &&& forall|i: int|
                0 <= i < hs.len() && is_version_dir(hs[i]) ==> key_le(key_of(#[trigger] hs[i]), key_of(h))
        },
{
    if exists|j: int| 0 <= j < hs.len() && is_version_dir(hs[j]) {
        lemma_greatest_exists(hs, hs.len() as int);
        let k = choose|k: int|
            0 <= k < hs.len() && is_version_dir(hs[k]) && forall|j: int|
                0 <= j < hs.len() && is_version_dir(hs[j]) ==> key_le(key_of(hs[j]), key_of(#[trigger] hs[k]));
        assert(is_latest(hs, hs[k]));
    } else {
        if exists|h: Seq<char>| is_latest(hs, h) {
            let h = choose|h: Seq<char>| is_latest(hs, h);
            let j = choose|j: int| 0 <= j < hs.len() && hs[j] == h;
            assert(is_version_dir(hs[j]));
        }
    }
}


/// The directory chosen has the highest version number: compared by major,
/// then minor, then patch, no other version directory among the links is newer.
pub proof fn lemma_latest_is_newest(hs: Seq<Seq<char>>, i: int)
    requires
        0 <= i < hs.len(),
        version_of(hs[i]) is Some,
    ensures
        latest_of(hs) matches Some(h) && ({
            let w = version_of(hs[i])->0;
            let v = version_of(h)->0;
            version_of(h) is Some && (w.0 < v.0 || (w.0 == v.0 && w.1 < v.1) || (w.0 == v.0 && w.1 == v.1
                && w.2 <= v.2))
        }),
{
    lemma_latest_is_greatest(hs);
    assert(is_version_dir(hs[i]));
    let h = latest_of(hs)->0;
    assert(key_le(key_of(hs[i]), key_of(h)));
}

/// The greatest version directory does not depend on the order of the links
/// (nor on repeated links): two lists holding the same links give the same answer.
pub proof fn lemma_latest_order_free(a: Seq<Seq<char>>, b: Seq<Seq<char>>)
    requires
        forall|h: Seq<char>| a.contains(h) <==> b.contains(h),
    ensures
        latest_of(a) == latest_of(b),
{
    assert forall|x: Seq<Seq<char>>, y: Seq<Seq<char>>, h: Seq<char>|
        (forall|g: Seq<char>| x.contains(g) <==> y.contains(g)) && #[trigger] is_latest(x, h)
        implies #[trigger] is_latest(y, h) by {
        assert forall|j: int| 0 <= j < y.len() && is_version_dir(y[j]) implies key_le(
            key_of(#[trigger] y[j]),
            key_of(h),
        ) by {
            assert(y.contains(y[j]));
            assert(x.contains(y[j]));
            let i = choose|i: int| 0 <= i < x.len() && x[i] == y[j];
            assert(key_le(key_of(x[i]), key_of(h)));
        }
    }
    if exists|h: Seq<char>| is_latest(a, h) {
        let ha = choose|h: Seq<char>| is_latest(a, h);
        assert(is_latest(b, ha));
        let hb = choose|h: Seq<char>| is_latest(b, h);
        assert(is_latest(a, hb));
        lemma_latest_unique(a, ha, hb);
    } else {
        if exists|h: Seq<char>| is_latest(b, h) {
            let hb = choose|h: Seq<char>| is_latest(b, h);
            assert(is_latest(a, hb));
        }
    }
}

proof fn lemma_decimal_no_dot(n: nat)
    ensures
        forall|j: int| 0 <= j < decimal(n).len() ==> decimal(n)[j] != '.',
{
    lemma_decimal(n);
    assert forall|j: int| 0 <= j < decimal(n).len() implies decimal(n)[j] != '.' by {
        assert(crate::text::is_digit(decimal(n)[j]));
    }
}

/// A version written as `major.minor.patch` or `major.minor` reads back as
/// itself (with patch 0 where it is left out).
pub proof fn lemma_version_roundtrip(a: u64, b: u64, c: u64)
    ensures
        version_of(decimal(a as nat) + seq!['.'] + decimal(b as nat) + seq!['.'] + decimal(c as nat))
            == Some((a, b, c)),
        version_of(decimal(a as nat) + seq!['.'] + decimal(b as nat)) == Some((a, b, 0u64)),
{
    let da = decimal(a as nat);
    let db = decimal(b as nat);
    let dc = decimal(c as nat);
    lemma_decimal_no_dot(a as nat);
    lemma_decimal_no_dot(b as nat);
    lemma_decimal_no_dot(c as nat);
    lemma_parse_decimal(a);
    lemma_parse_decimal(b);
    lemma_parse_decimal(c);
    let tail3 = db + seq!['.'] + dc;
    lemma_split_single(dc, '.');
    lemma_split_first(db, '.', dc);
    assert(da + seq!['.'] + db + seq!['.'] + dc =~= da + seq!['.'] + tail3);
    lemma_split_first(da, '.', tail3);
    let p3 = split_char(da + seq!['.'] + db + seq!['.'] + dc, '.');
    assert(p3 =~= seq![da, db, dc]);
    lemma_split_single(db, '.');
    lemma_split_first(da, '.', db);
    let p2 = split_char(da + seq!['.'] + db, '.');
    assert(p2 =~= seq![da, db]);
}

} // verus!
