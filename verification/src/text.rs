//! Character-level text operations with their mathematical meaning.
//!
//! Text is modelled as `Seq<char>`, the view of `str` and `String`.
use vstd::prelude::*;

verus! {

// ---------------------------------------------------------------------------
// Specifications
// ---------------------------------------------------------------------------

/// `p` occurs in `s` starting at index `i`.
pub open spec fn matches_at(s: Seq<char>, p: Seq<char>, i: int) -> bool {
    0 <= i && i + p.len() <= s.len() && s.subrange(i, i + p.len()) == p
}

pub open spec fn starts_with(s: Seq<char>, p: Seq<char>) -> bool {
    matches_at(s, p, 0)
}

pub open spec fn ends_with(s: Seq<char>, p: Seq<char>) -> bool {
    p.len() <= s.len() && matches_at(s, p, s.len() - p.len())
}

pub open spec fn contains(s: Seq<char>, p: Seq<char>) -> bool {
    exists|i: int| matches_at(s, p, i)
}

/// The first index `j >= i` at which `p` occurs in `s`.
pub open spec fn find_from(s: Seq<char>, p: Seq<char>, i: int) -> Option<int>
    decreases s.len() + 1 - i,
{
    if i < 0 || i + p.len() > s.len() {
        None
    } else if matches_at(s, p, i) {
        Some(i)
    } else {
        find_from(s, p, i + 1)
    }
}

/// `s` with every trailing `c` removed.
pub open spec fn trim_end_char(s: Seq<char>, c: char) -> Seq<char>
    decreases s.len(),
{
    if s.len() > 0 && s.last() == c {
        trim_end_char(s.drop_last(), c)
    } else {
        s
    }
}

/// `s` with every leading `c` removed.
pub open spec fn trim_start_char(s: Seq<char>, c: char) -> Seq<char>
    decreases s.len(),
{
    if s.len() > 0 && s[0] == c {
        trim_start_char(s.drop_first(), c)
    } else {
        s
    }
}

/// `s` with the suffix `p` removed as long as it ends with it
/// (an empty `p` removes nothing).
pub open spec fn trim_end_str(s: Seq<char>, p: Seq<char>) -> Seq<char>
    decreases s.len(),
{
    if p.len() > 0 && ends_with(s, p) {
        trim_end_str(s.take(s.len() - p.len()), p)
    } else {
        s
    }
}

/// The pieces of `s[start..]` between occurrences of `c`, while scanning from `i`
/// (the current piece started at `start`).
pub open spec fn split_from(s: Seq<char>, c: char, start: int, i: int) -> Seq<Seq<char>>
    decreases s.len() - i,
{
    if i < start || start < 0 || i >= s.len() {
        seq![s.subrange(start, s.len() as int)]
    } else if s[i] == c {
        seq![s.subrange(start, i)].add(split_from(s, c, i + 1, i + 1))
    } else {
        split_from(s, c, start, i + 1)
    }
}

/// A text contains whatever stands in it between a prefix and a suffix.
pub proof fn lemma_contains_middle(a: Seq<char>, b: Seq<char>, c: Seq<char>)
    ensures
        contains(a + b + c, b),
{
    assert((a + b + c).subrange(a.len() as int, (a.len() + b.len()) as int) =~= b);
    assert(matches_at(a + b + c, b, a.len() as int));
}

pub proof fn lemma_split_nonempty(s: Seq<char>, c: char, start: int, i: int)
    ensures
        split_from(s, c, start, i).len() > 0,
    decreases s.len() - i,
{
    if !(i < start || start < 0 || i >= s.len()) {
        if s[i] == c {
            lemma_split_nonempty(s, c, i + 1, i + 1);
        } else {
            lemma_split_nonempty(s, c, start, i + 1);
        }
    }
}

/// The pieces of `s` between occurrences of `c` (there is always at least one).
pub open spec fn split_char(s: Seq<char>, c: char) -> Seq<Seq<char>> {
    split_from(s, c, 0, 0)
}

/// The Unicode `White_Space` characters, which `char::is_whitespace` accepts.
pub open spec fn is_ws(c: char) -> bool {
    ||| ('\u{9}' <= c && c <= '\u{d}')
    ||| c == ' '
    ||| c == '\u{85}'
    ||| c == '\u{a0}'
    ||| c == '\u{1680}'
    ||| ('\u{2000}' <= c && c <= '\u{200a}')
    ||| c == '\u{2028}'
    ||| c == '\u{2029}'
    ||| c == '\u{202f}'
    ||| c == '\u{205f}'
    ||| c == '\u{3000}'
}

pub open spec fn trim_ws_start(s: Seq<char>) -> Seq<char>
    decreases s.len(),
{
    if s.len() > 0 && is_ws(s[0]) {
        trim_ws_start(s.drop_first())
    } else {
        s
    }
}

pub open spec fn trim_ws_end(s: Seq<char>) -> Seq<char>
    decreases s.len(),
{
    if s.len() > 0 && is_ws(s.last()) {
        trim_ws_end(s.drop_last())
    } else {
        s
    }
}

/// `str::trim`: leading and trailing white space removed.
pub open spec fn trim_ws(s: Seq<char>) -> Seq<char> {
    trim_ws_end(trim_ws_start(s))
}

pub open spec fn is_digit(c: char) -> bool {
    '0' <= c && c <= '9'
}

pub open spec fn all_digits(s: Seq<char>) -> bool {
    forall|i: int| 0 <= i < s.len() ==> #[trigger] is_digit(s[i])
}

/// The number written in decimal by the digits `s`.
pub open spec fn digits_value(s: Seq<char>) -> nat
    decreases s.len(),
{
    if s.len() == 0 {
        0
    } else {
        digits_value(s.drop_last()) * 10 + ((s.last() as nat) - ('0' as nat)) as nat
    }
}

/// `str::parse::<u64>`: an optional `+`, then at least one ASCII digit, within range.
pub open spec fn parse_u64(s: Seq<char>) -> Option<u64> {
    let d = if s.len() > 0 && s[0] == '+' {
        s.drop_first()
    } else {
        s
    };
    if d.len() > 0 && all_digits(d) && digits_value(d) <= u64::MAX {
        Some(digits_value(d) as u64)
    } else {
        None
    }
}

/// The decimal digits of `n`, without leading zeros ("0" for zero).
pub open spec fn decimal(n: nat) -> Seq<char>
    decreases n,
{
    if n < 10 {
        seq![digit_char(n)]
    } else {
        decimal(n / 10).push(digit_char(n % 10))
    }
}

pub open spec fn digit_char(d: nat) -> char {
    ((d + ('0' as nat)) as u32) as char
}

/// The lowercase mapping of `str::to_lowercase`.
pub uninterp spec fn lowercase(s: Seq<char>) -> Seq<char>;

// ---------------------------------------------------------------------------
// Trusted std operations
// ---------------------------------------------------------------------------

/// `String::push`: the string afterwards is the old one followed by `c`.
#[verifier::external_body]
pub(crate) fn push_char(s: &mut String, c: char)
    ensures
        final(s)@ == old(s)@.push(c),
{
    s.push(c);
}

/// Every character of `s` is ASCII.
pub open spec fn is_ascii(s: Seq<char>) -> bool {
    forall|i: int| 0 <= i < s.len() ==> (#[trigger] s[i] as u32) < 128
}

/// ASCII lower case of a character: `A`-`Z` become `a`-`z`, others stay.
pub open spec fn ascii_lower_char(c: char) -> char {
    if 65 <= (c as u32) && (c as u32) <= 90 {
        ((c as u32) + 32) as char
    } else {
        c
    }
}

/// ASCII lower case of a text, character by character.
pub open spec fn ascii_lower(s: Seq<char>) -> Seq<char> {
    s.map_values(|c: char| ascii_lower_char(c))
}

/// `str::to_lowercase`: its result is the Unicode lowercase mapping of `s`, a
/// function of `s` alone; the empty string stays empty, and an ASCII text is
/// lowered character by character (`A`-`Z` to `a`-`z`, the rest unchanged),
/// as the Unicode mapping does for ASCII. Nothing more is stated of the
/// mapping.
#[verifier::external_body]
pub(crate) fn to_lower(s: &str) -> (r: String)
    ensures
        r@ == lowercase(s@),
        s@.len() == 0 ==> r@.len() == 0,
        is_ascii(s@) ==> r@ == ascii_lower(s@),
{
    s.to_lowercase()
}

// ---------------------------------------------------------------------------
// Executable operations
// ---------------------------------------------------------------------------

/// The characters of `s`, in order.
pub fn to_chars(s: &str) -> (v: Vec<char>)
    ensures
        v@ == s@,
{
    let mut v: Vec<char> = Vec::new();
    for c in it: s.chars()
        invariant
            v@ == it.seq().take(it.index() as int),
    {
        v.push(c);
    }
    v
}

/// The string made of `v[from..to]`.
pub fn string_of(v: &Vec<char>, from: usize, to: usize) -> (r: String)
    requires
        from <= to <= v.len(),
    ensures
        r@ == v@.subrange(from as int, to as int),
{
    let mut r = String::new();
    let mut i = from;
    while i < to
        invariant
            from <= i <= to <= v.len(),
            r@ == v@.subrange(from as int, i as int),
        decreases to - i,
    {
        push_char(&mut r, v[i]);
        assert(v@.subrange(from as int, i + 1) == v@.subrange(from as int, i as int).push(v@[i as int]));
        i = i + 1;
    }
    r
}

pub fn string_of_all(v: &Vec<char>) -> (r: String)
    ensures
        r@ == v@,
{
    let r = string_of(v, 0, v.len());
    assert(v@.subrange(0, v@.len() as int) == v@);
    r
}

pub fn matches_at_exec(s: &Vec<char>, p: &Vec<char>, i: usize) -> (r: bool)
    ensures
        r == matches_at(s@, p@, i as int),
{
    if p.len() > s.len() || i > s.len() - p.len() {
        return false;
    }
    let mut k: usize = 0;
    while k < p.len()
        invariant
            i + p.len() <= s.len(),
            k <= p.len(),
            forall|j: int| 0 <= j < k ==> s@[i + j] == p@[j],
        decreases p.len() - k,
    {
        if s[i + k] != p[k] {
            assert(s@.subrange(i as int, i + p.len())[k as int] != p@[k as int]);
            return false;
        }
        k = k + 1;
    }
    assert(s@.subrange(i as int, i + p.len()) =~= p@);
    true
}

/// The first occurrence of `p` in `s` at or after `i`.
pub fn find_from_exec(s: &Vec<char>, p: &Vec<char>, i: usize) -> (r: Option<usize>)
    ensures
        match find_from(s@, p@, i as int) {
            Some(j) => r == Some(j as usize),
            None => r is None,
        },
{
    if p.len() > s.len() || i > s.len() - p.len() {
        return None;
    }
    let last = s.len() - p.len();
    let mut j = i;
    while j <= last
        invariant
            i <= j,
            last == s.len() - p.len(),
            find_from(s@, p@, i as int) == find_from(s@, p@, j as int),
        decreases last + 1 - j,
    {
        if matches_at_exec(s, p, j) {
            return Some(j);
        }
        if j == last {
            assert(find_from(s@, p@, j + 1) is None);
            return None;
        }
        j = j + 1;
    }
    None
}

pub fn starts_with_exec(s: &Vec<char>, p: &Vec<char>) -> (r: bool)
    ensures
        r == starts_with(s@, p@),
{
    matches_at_exec(s, p, 0)
}

pub fn ends_with_exec(s: &Vec<char>, p: &Vec<char>) -> (r: bool)
    ensures
        r == ends_with(s@, p@),
{
    if p.len() > s.len() {
        false
    } else {
        matches_at_exec(s, p, s.len() - p.len())
    }
}

pub proof fn lemma_find_from_none(s: Seq<char>, p: Seq<char>, i: int)
    requires
        0 <= i,
        find_from(s, p, i) is None,
    ensures
        forall|j: int| i <= j ==> !matches_at(s, p, j),
    decreases s.len() + 1 - i,
{
    if i + p.len() <= s.len() {
        lemma_find_from_none(s, p, i + 1);
    }
}

pub proof fn lemma_find_from_some(s: Seq<char>, p: Seq<char>, i: int)
    requires
        find_from(s, p, i) is Some,
    ensures
        ({
            let j = find_from(s, p, i)->0;
            &&& i <= j
            &&& matches_at(s, p, j)
            &&& forall|k: int| i <= k < j ==> !matches_at(s, p, k)
        }),
    decreases s.len() + 1 - i,
{
    if !matches_at(s, p, i) {
        lemma_find_from_some(s, p, i + 1);
    }
}

pub fn contains_exec(s: &Vec<char>, p: &Vec<char>) -> (r: bool)
    ensures
        r == contains(s@, p@),
{
    match find_from_exec(s, p, 0) {
        Some(j) => {
            proof {
                lemma_find_from_some(s@, p@, 0);
            }
            true
        },
        None => {
            proof {
                lemma_find_from_none(s@, p@, 0);
            }
            false
        },
    }
}

/// `s.contains(p)` on strings.
pub fn str_contains(s: &str, p: &str) -> (r: bool)
    ensures
        r == contains(s@, p@),
{
    contains_exec(&to_chars(s), &to_chars(p))
}

pub fn str_starts_with(s: &str, p: &str) -> (r: bool)
    ensures
        r == starts_with(s@, p@),
{
    starts_with_exec(&to_chars(s), &to_chars(p))
}

pub fn str_ends_with(s: &str, p: &str) -> (r: bool)
    ensures
        r == ends_with(s@, p@),
{
    ends_with_exec(&to_chars(s), &to_chars(p))
}

/// Equality of two strings by their characters.
pub fn str_eq(a: &str, b: &str) -> (r: bool)
    ensures
        r == (a@ == b@),
{
    let x = to_chars(a);
    let y = to_chars(b);
    if x.len() != y.len() {
        return false;
    }
    let r = matches_at_exec(&x, &y, 0);
    assert(r ==> x@.subrange(0, y@.len() as int) == y@);
    assert(x@.subrange(0, x@.len() as int) =~= x@);
    r
}


/// The text of an optional string.
pub open spec fn opt_view(o: Option<String>) -> Option<Seq<char>> {
    match o {
        Some(s) => Some(s@),
        None => None,
    }
}

/// The views of a sequence of strings.
pub open spec fn views(v: Seq<String>) -> Seq<Seq<char>> {
    v.map_values(|x: String| x@)
}

/// `s` without its trailing `c`s (`str::trim_end_matches` with a char).
pub fn trim_end_char_exec(s: &str, c: char) -> (r: String)
    ensures
        r@ == trim_end_char(s@, c),
{
    let v = to_chars(s);
    let mut e = v.len();
    assert(v@.take(e as int) =~= v@);
    while e > 0 && v[e - 1] == c
        invariant
            e <= v.len(),
            trim_end_char(v@.take(e as int), c) == trim_end_char(v@, c),
        decreases e,
    {
        assert(v@.take(e as int).drop_last() =~= v@.take(e - 1));
        e = e - 1;
    }
    assert(v@.take(e as int) =~= v@.subrange(0, e as int));
    string_of(&v, 0, e)
}

/// `s` without its leading `c`s (`str::trim_start_matches` with a char).
pub fn trim_start_char_exec(s: &str, c: char) -> (r: String)
    ensures
        r@ == trim_start_char(s@, c),
{
    let v = to_chars(s);
    let mut b: usize = 0;
    assert(v@.skip(0) =~= v@);
    while b < v.len() && v[b] == c
        invariant
            b <= v.len(),
            trim_start_char(v@.skip(b as int), c) == trim_start_char(v@, c),
        decreases v.len() - b,
    {
        assert(v@.skip(b as int).drop_first() =~= v@.skip(b + 1));
        b = b + 1;
    }
    assert(v@.skip(b as int) =~= v@.subrange(b as int, v@.len() as int));
    string_of(&v, b, v.len())
}

/// `s` without the repeated suffix `p` (`str::trim_end_matches` with a string).
pub fn trim_end_str_exec(s: &str, p: &str) -> (r: String)
    ensures
        r@ == trim_end_str(s@, p@),
{
    let v = to_chars(s);
    let pv = to_chars(p);
    let mut e = v.len();
    assert(v@.take(e as int) =~= v@);
    while pv.len() > 0 && pv.len() <= e && matches_at_exec(&v, &pv, e - pv.len())
        invariant
            e <= v.len(),
            trim_end_str(v@.take(e as int), pv@) == trim_end_str(v@, pv@),
        decreases e,
    {
        assert(v@.take(e as int).subrange(e - pv.len(), e as int) =~= v@.subrange(e - pv.len(), e as int));
        assert(v@.take(e as int).take(e - pv.len()) =~= v@.take(e - pv.len()));
        e = e - pv.len();
    }
    proof {
        if pv@.len() > 0 && pv@.len() <= e {
            assert(v@.take(e as int).subrange(e - pv.len(), e as int) =~= v@.subrange(e - pv.len(), e as int));
        }
    }
    assert(v@.take(e as int) =~= v@.subrange(0, e as int));
    string_of(&v, 0, e)
}

/// `s.split(c)`, collected.
pub fn split_char_exec(s: &str, c: char) -> (r: Vec<String>)
    ensures
        views(r@) == split_char(s@, c),
{
    let v = to_chars(s);
    let mut r: Vec<String> = Vec::new();
    let mut start: usize = 0;
    let mut i: usize = 0;
    while i < v.len()
        invariant
            start <= i <= v.len(),
            views(r@) + split_from(v@, c, start as int, i as int) == split_char(v@, c),
        decreases v.len() - i,
    {
        if v[i] == c {
            let piece = string_of(&v, start, i);
            proof {
                assert(views(r@.push(piece)) =~= views(r@).push(piece@));
                assert(views(r@) + split_from(v@, c, start as int, i as int)
                    =~= views(r@.push(piece)) + split_from(v@, c, i + 1, i + 1));
            }
            r.push(piece);
            i = i + 1;
            start = i;
        } else {
            i = i + 1;
        }
    }
    let piece = string_of(&v, start, v.len());
    proof {
        assert(views(r@.push(piece)) =~= views(r@).push(piece@));
        assert(views(r@) + split_from(v@, c, start as int, i as int) =~= views(r@.push(piece)));
    }
    r.push(piece);
    r
}

pub fn is_ws_exec(c: char) -> (r: bool)
    ensures
        r == is_ws(c),
{
    ('\u{9}' <= c && c <= '\u{d}') || c == ' ' || c == '\u{85}' || c == '\u{a0}' || c == '\u{1680}'
        || ('\u{2000}' <= c && c <= '\u{200a}') || c == '\u{2028}' || c == '\u{2029}'
        || c == '\u{202f}' || c == '\u{205f}' || c == '\u{3000}'
}

fn ws_start_index(v: &Vec<char>) -> (b: usize)
    ensures
        b <= v.len(),
        trim_ws_start(v@) == v@.skip(b as int),
{
    let mut b: usize = 0;
    assert(v@.skip(0) =~= v@);
    while b < v.len() && is_ws_exec(v[b])
        invariant
            b <= v.len(),
            trim_ws_start(v@.skip(b as int)) == trim_ws_start(v@),
        decreases v.len() - b,
    {
        assert(v@.skip(b as int).drop_first() =~= v@.skip(b + 1));
        b = b + 1;
    }
    b
}

fn ws_end_index(v: &Vec<char>, b: usize) -> (e: usize)
    requires
        b <= v.len(),
    ensures
        b <= e <= v.len(),
        trim_ws_end(v@.skip(b as int)) == v@.subrange(b as int, e as int),
{
    let ghost t = v@.skip(b as int);
    let mut e = v.len();
    assert(t.take((e - b) as int) =~= t);
    while e > b && is_ws_exec(v[e - 1])
        invariant
            b <= e <= v.len(),
            t == v@.skip(b as int),
            trim_ws_end(t.take(e - b)) == trim_ws_end(t),
        decreases e,
    {
        assert(t.take(e - b).drop_last() =~= t.take(e - 1 - b));
        e = e - 1;
    }
    assert(t.take(e - b) =~= v@.subrange(b as int, e as int));
    e
}

/// `str::trim`.
pub fn trim_ws_exec(s: &str) -> (r: String)
    ensures
        r@ == trim_ws(s@),
{
    let v = to_chars(s);
    let b = ws_start_index(&v);
    let e = ws_end_index(&v, b);
    string_of(&v, b, e)
}

pub proof fn lemma_digits_value_prefix(s: Seq<char>, k: int)
    requires
        0 <= k <= s.len(),
    ensures
        digits_value(s) >= digits_value(s.take(k)),
    decreases s.len(),
{
    if k < s.len() {
        assert(s.take(k) =~= s.drop_last().take(k));
        lemma_digits_value_prefix(s.drop_last(), k);
        let x = digits_value(s.drop_last());
        assert(x * 10 >= x) by (nonlinear_arith);
    } else {
        assert(s.take(k) =~= s);
    }
}

/// `s.parse::<u64>().ok()`.
pub fn parse_u64_exec(s: &str) -> (r: Option<u64>)
    ensures
        r == parse_u64(s@),
{
    let v = to_chars(s);
    let b: usize = if v.len() > 0 && v[0] == '+' { 1 } else { 0 };
    let ghost d = if v@.len() > 0 && v@[0] == '+' { v@.drop_first() } else { v@ };
    assert(d =~= v@.skip(b as int));
    if b >= v.len() {
        assert(d.len() == 0);
        return None;
    }
    let mut acc: u64 = 0;
    let mut i = b;
    assert(d.take(0) =~= Seq::<char>::empty());
    while i < v.len()
        invariant
            b <= i <= v.len(),
            b < v.len(),
            v@ == s@,
            d == v@.skip(b as int),
            d == (if v@.len() > 0 && v@[0] == '+' { v@.drop_first() } else { v@ }),
            all_digits(d.take(i - b)),
            acc as nat == digits_value(d.take(i - b)),
        decreases v.len() - i,
    {
        let c = v[i];
        assert(d[i - b] == c);
        if !('0' <= c && c <= '9') {
            assert(!is_digit(d[i - b]));
            return None;
        }
        assert(d.take(i - b + 1).drop_last() =~= d.take(i - b));
        assert(d.take(i - b + 1).last() == c);
        let dig = ((c as u32) - ('0' as u32)) as u64;
        if acc > (u64::MAX - dig) / 10 {
            proof {
                assert(acc * 10 + dig > u64::MAX) by (nonlinear_arith)
                    requires acc > (u64::MAX - dig) / 10, dig <= 9;
                if all_digits(d) {
                    lemma_digits_value_prefix(d, i - b + 1);
                }
            }
            return None;
        }
        proof {
            assert(acc * 10 + dig <= u64::MAX) by (nonlinear_arith)
                requires acc <= (u64::MAX - dig) / 10, dig <= 9;
        }
        acc = acc * 10 + dig;
        i = i + 1;
    }
    assert(d.take(i - b) =~= d);
    Some(acc)
}

/// The decimal text of `n` (`n.to_string()`).
pub fn decimal_exec(n: u64) -> (r: String)
    ensures
        r@ == decimal(n as nat),
    decreases n,
{
    let d = (n % 10) as u32;
    let ch = char_of_digit(d);
    if n < 10 {
        let mut r = String::new();
        push_char(&mut r, ch);
        assert(r@ =~= seq![digit_char(n as nat)]);
        r
    } else {
        let mut r = decimal_exec(n / 10);
        push_char(&mut r, ch);
        r
    }
}

fn char_of_digit(d: u32) -> (c: char)
    requires
        d < 10,
    ensures
        c == digit_char(d as nat),
{
    if d == 0 { '0' } else if d == 1 { '1' } else if d == 2 { '2' } else if d == 3 { '3' }
    else if d == 4 { '4' } else if d == 5 { '5' } else if d == 6 { '6' } else if d == 7 { '7' }
    else if d == 8 { '8' } else { '9' }
}

/// `format!("{:02}", n)`: at least two digits, padded with a leading zero.
pub open spec fn two_digits(n: nat) -> Seq<char> {
    if n < 10 {
        seq!['0'].add(decimal(n))
    } else {
        decimal(n)
    }
}

pub fn two_digits_exec(n: u64) -> (r: String)
    ensures
        r@ == two_digits(n as nat),
{
    if n < 10 {
        let mut r = String::new();
        push_char(&mut r, '0');
        let d = decimal_exec(n);
        r.append(d.as_str());
        r
    } else {
        decimal_exec(n)
    }
}

/// Every occurrence of the non-empty `p` in `s[pos..]`, from left to right and
/// without overlap, replaced by `r` (`str::replace`).
pub open spec fn replace_from(s: Seq<char>, p: Seq<char>, r: Seq<char>, pos: int) -> Seq<char>
    recommends
        p.len() > 0,
    decreases s.len() + 1 - pos,
{
    if pos < 0 || pos > s.len() || p.len() == 0 {
        s.subrange(if 0 <= pos <= s.len() { pos } else { s.len() as int }, s.len() as int)
    } else {
        match find_from(s, p, pos) {
            None => s.subrange(pos, s.len() as int),
            Some(j) => if pos <= j && j + p.len() <= s.len() {
                s.subrange(pos, j) + r + replace_from(s, p, r, j + p.len())
            } else {
                s.subrange(pos, s.len() as int)
            },
        }
    }
}

pub open spec fn replace(s: Seq<char>, p: Seq<char>, r: Seq<char>) -> Seq<char> {
    replace_from(s, p, r, 0)
}

/// `s.replace(p, r)` for a non-empty pattern `p`.
pub fn replace_exec(s: &str, p: &str, r: &str) -> (out: String)
    requires
        p@.len() > 0,
    ensures
        out@ == replace(s@, p@, r@),
{
    let v = to_chars(s);
    let pv = to_chars(p);
    let mut out = String::new();
    let mut pos: usize = 0;
    assert(out@ + replace_from(v@, pv@, r@, 0) =~= replace(v@, pv@, r@));
    loop
        invariant
            pv@.len() > 0,
            v@ == s@,
            pv@ == p@,
            pos <= v.len(),
            out@ + replace_from(v@, pv@, r@, pos as int) == replace(v@, pv@, r@),
        decreases v.len() + 1 - pos,
    {
        match find_from_exec(&v, &pv, pos) {
            None => {
                let rest = string_of(&v, pos, v.len());
                let ghost before = out@;
                out.append(rest.as_str());
                assert(out@ =~= before + replace_from(v@, pv@, r@, pos as int));
                return out;
            },
            Some(j) => {
                proof {
                    lemma_find_from_some(v@, pv@, pos as int);
                }
                let piece = string_of(&v, pos, j);
                let ghost before = out@;
                out.append(piece.as_str());
                out.append(r);
                assert(before + replace_from(v@, pv@, r@, pos as int)
                    =~= out@ + replace_from(v@, pv@, r@, j + pv@.len()));
                pos = j + pv.len();
            },
        }
    }
}


/// `s` with the prefix `p` removed as long as it starts with it
/// (`str::trim_start_matches` with a string; an empty `p` removes nothing).
pub open spec fn trim_start_str(s: Seq<char>, p: Seq<char>) -> Seq<char>
    decreases s.len(),
{
    if p.len() > 0 && starts_with(s, p) {
        trim_start_str(s.skip(p.len() as int), p)
    } else {
        s
    }
}

pub fn trim_start_str_exec(s: &str, p: &str) -> (r: String)
    ensures
        r@ == trim_start_str(s@, p@),
{
    let v = to_chars(s);
    let pv = to_chars(p);
    let mut b: usize = 0;
    assert(v@.skip(0) =~= v@);
    while pv.len() > 0 && matches_at_exec(&v, &pv, b)
        invariant
            b <= v.len(),
            trim_start_str(v@.skip(b as int), pv@) == trim_start_str(v@, pv@),
        decreases v.len() - b,
    {
        assert(v@.skip(b as int).subrange(0, pv@.len() as int) =~= v@.subrange(b as int, b + pv@.len()));
        assert(v@.skip(b as int).skip(pv@.len() as int) =~= v@.skip(b + pv@.len()));
        b = b + pv.len();
    }
    proof {
        if pv@.len() > 0 && v@.skip(b as int).len() >= pv@.len() {
            assert(v@.skip(b as int).subrange(0, pv@.len() as int) =~= v@.subrange(b as int, b + pv@.len()));
        }
    }
    assert(v@.skip(b as int) =~= v@.subrange(b as int, v@.len() as int));
    string_of(&v, b, v.len())
}

/// A line without the `\r` of a `\r\n` ending.
pub open spec fn strip_cr(l: Seq<char>) -> Seq<char> {
    if l.len() > 0 && l.last() == '\r' {
        l.drop_last()
    } else {
        l
    }
}

/// `str::lines`: the pieces between `\n`s, without a last empty piece, and
/// without the `\r` before a `\n`.
pub open spec fn lines(s: Seq<char>) -> Seq<Seq<char>> {
    let p = split_char(s, '\n');
    let q = if p.last().len() == 0 {
        p.drop_last()
    } else {
        p
    };
    Seq::new(q.len(), |i: int| if i < p.len() - 1 { strip_cr(q[i]) } else { q[i] })
}

/// The lines of `s`.
pub fn lines_exec(s: &str) -> (r: Vec<String>)
    ensures
        views(r@) == lines(s@),
{
    let p = split_char_exec(s, '\n');
    proof {
        lemma_split_nonempty(s@, '\n', 0, 0);
    }
    assert(views(p@).len() == p@.len());
    let n = p.len();
    assert(views(p@)[n - 1] == p@[n - 1]@);
    let m = if p[n - 1].as_str().is_empty() {
        n - 1
    } else {
        n
    };
    let mut r: Vec<String> = Vec::new();
    let mut i: usize = 0;
    while i < m
        invariant
            i <= m <= n,
            n == p@.len(),
            n > 0,
            views(p@) == split_char(s@, '\n'),
            m == lines(s@).len(),
            views(r@) == lines(s@).take(i as int),
        decreases m - i,
    {
        assert(views(p@)[i as int] == p@[i as int]@);
        let v = to_chars(p[i].as_str());
        let line = if i < n - 1 && v.len() > 0 && v[v.len() - 1] == '\r' {
            string_of(&v, 0, v.len() - 1)
        } else {
            string_of(&v, 0, v.len())
        };
        proof {
            assert(v@.subrange(0, v@.len() as int) =~= v@);
            assert(v@.subrange(0, v@.len() - 1) =~= v@.drop_last());
            assert(views(r@.push(line)) =~= views(r@).push(line@));
            assert(lines(s@).take(i + 1) =~= lines(s@).take(i as int).push(lines(s@)[i as int]));
        }
        r.push(line);
        i = i + 1;
    }
    assert(lines(s@).take(m as int) =~= lines(s@));
    r
}


/// Removing trailing `c`s leaves a prefix that does not end with `c`, and
/// leaves a text whose first character is not `c` non-empty.
pub proof fn lemma_trim_end_char(s: Seq<char>, c: char)
    ensures
        trim_end_char(s, c).len() <= s.len(),
        trim_end_char(s, c) == s.take(trim_end_char(s, c).len() as int),
        trim_end_char(s, c).len() > 0 ==> trim_end_char(s, c).last() != c,
        s.len() > 0 && s[0] != c ==> trim_end_char(s, c).len() > 0,
    decreases s.len(),
{
    if s.len() > 0 && s.last() == c {
        lemma_trim_end_char(s.drop_last(), c);
        let r = trim_end_char(s.drop_last(), c);
        assert(s.drop_last().take(r.len() as int) =~= s.take(r.len() as int));
        if s.len() > 1 {
            assert(s.drop_last()[0] == s[0]);
        }
    } else {
        assert(s.take(s.len() as int) =~= s);
    }
}

/// A prefix of a text starts with whatever the prefix starts with.
pub proof fn lemma_prefix_starts_with(s: Seq<char>, t: Seq<char>, p: Seq<char>)
    requires
        t == s.take(t.len() as int),
        t.len() <= s.len(),
        starts_with(t, p),
    ensures
        starts_with(s, p),
{
    assert(s.subrange(0, p.len() as int) =~= t.subrange(0, p.len() as int));
}


/// The decimal text of a number is made of digits and reads back as the number.
pub proof fn lemma_decimal(n: nat)
    ensures
        decimal(n).len() > 0,
        all_digits(decimal(n)),
        digits_value(decimal(n)) == n,
    decreases n,
{
    if n < 10 {
        assert(decimal(n) =~= seq![digit_char(n)]);
        assert(digit_char(n) as nat == n + 48);
        assert(decimal(n).drop_last() =~= Seq::<char>::empty());
        assert(digits_value(Seq::<char>::empty()) == 0);
        assert(('0' as nat) == 48);
        assert(decimal(n).last() == digit_char(n));
        assert(digits_value(decimal(n)) == 0 * 10 + ((digit_char(n) as nat) - 48));
    } else {
        lemma_decimal(n / 10);
        let d = decimal(n / 10);
        assert(digit_char(n % 10) as nat == n % 10 + 48);
        assert(decimal(n).drop_last() =~= d);
        vstd::arithmetic::div_mod::lemma_fundamental_div_mod(n as int, 10);
        assert(decimal(n).last() == digit_char(n % 10));
        let q = digits_value(d);
        assert(q == n / 10);
        assert(q * 10 == 10 * q) by (nonlinear_arith);
        assert(digits_value(decimal(n)) == q * 10 + n % 10);
        assert forall|i: int| 0 <= i < decimal(n).len() implies #[trigger] is_digit(decimal(n)[i]) by {
            if i < d.len() {
                assert(decimal(n)[i] == d[i]);
            }
        }
    }
}

/// The decimal text of a `u64` parses back to it.
pub proof fn lemma_parse_decimal(n: u64)
    ensures
        parse_u64(decimal(n as nat)) == Some(n),
{
    lemma_decimal(n as nat);
    assert(is_digit(decimal(n as nat)[0]));
}

/// Scanning over characters other than the separator does not change the pieces.
pub proof fn lemma_split_scan(s: Seq<char>, c: char, start: int, i: int, k: int)
    requires
        0 <= start <= i <= k <= s.len(),
        forall|j: int| i <= j < k ==> s[j] != c,
    ensures
        split_from(s, c, start, i) == split_from(s, c, start, k),
    decreases k - i,
{
    if i < k {
        lemma_split_scan(s, c, start, i + 1, k);
    }
}

/// Splitting the end of a text splits as the end alone does.
pub proof fn lemma_split_shift(p: Seq<char>, r: Seq<char>, c: char, st: int, i: int)
    requires
        0 <= st <= i <= r.len(),
    ensures
        split_from(p + r, c, p.len() + st, p.len() + i) == split_from(r, c, st, i),
    decreases r.len() - i,
{
    let s = p + r;
    if i >= r.len() {
        assert(s.subrange(p.len() + st, s.len() as int) =~= r.subrange(st, r.len() as int));
    } else {
        assert(s[p.len() + i] == r[i]);
        if r[i] == c {
            assert(s.subrange(p.len() + st, p.len() + i) =~= r.subrange(st, i));
            lemma_split_shift(p, r, c, i + 1, i + 1);
        } else {
            lemma_split_shift(p, r, c, st, i + 1);
        }
    }
}

/// A text without the separator is a single piece.
pub proof fn lemma_split_single(s: Seq<char>, c: char)
    requires
        forall|j: int| 0 <= j < s.len() ==> s[j] != c,
    ensures
        split_char(s, c) == seq![s],
{
    lemma_split_scan(s, c, 0, 0, s.len() as int);
    assert(s.subrange(0, s.len() as int) =~= s);
}

/// A first piece without the separator, then the separator, then the rest.
pub proof fn lemma_split_first(a: Seq<char>, c: char, rest: Seq<char>)
    requires
        forall|j: int| 0 <= j < a.len() ==> a[j] != c,
    ensures
        split_char(a + seq![c] + rest, c) == seq![a] + split_char(rest, c),
{
    let s = a + seq![c] + rest;
    let p = a + seq![c];
    assert(s =~= p + rest);
    assert forall|j: int| 0 <= j < a.len() implies s[j] != c by {
        assert(s[j] == a[j]);
    }
    lemma_split_scan(s, c, 0, 0, a.len() as int);
    assert(s[a.len() as int] == c);
    assert(s.subrange(0, a.len() as int) =~= a);
    lemma_split_shift(p, rest, c, 0, 0);
}

} // verus!
