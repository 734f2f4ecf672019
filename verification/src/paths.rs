//! File names: disk images among the files of a folder, and the folders
//! suggested while a path is typed.
use vstd::prelude::*;

use crate::text::{
    lowercase, opt_view, push_char, split_char, split_char_exec, starts_with, str_eq, str_starts_with, to_chars, to_lower,
    trim_end_char, trim_end_char_exec, views, lemma_split_nonempty,
};

verus! {

/// The last position of `c` in `s`.
pub open spec fn last_index(s: Seq<char>, c: char) -> Option<int>
    decreases s.len(),
{
    if s.len() == 0 {
        None
    } else if s.last() == c {
        Some(s.len() - 1)
    } else {
        last_index(s.drop_last(), c)
    }
}

/// `Path::extension` of a file name: the text after its last `.`, where the
/// name has a `.` that is not its first character (`.` and `..` name no file).
pub open spec fn extension_of(name: Seq<char>) -> Option<Seq<char>> {
    if name.len() == 0 || name == seq!['.'] || name == seq!['.', '.'] {
        None
    } else {
        match last_index(name, '.') {
            Some(i) => if i > 0 {
                Some(name.skip(i + 1))
            } else {
                None
            },
            None => None,
        }
    }
}

/// A disk image is a file whose extension is `iso` or `img` in any letter case.
pub open spec fn is_disk_image_name(name: Seq<char>) -> bool {
    match extension_of(name) {
        Some(e) => lowercase(e) == "iso"@ || lowercase(e) == "img"@,
        None => false,
    }
}

fn last_dot(v: &Vec<char>) -> (r: Option<usize>)
    ensures
        r matches Some(i) ==> i < v.len(),
        match r {
            Some(i) => last_index(v@, '.') == Some(i as int),
            None => last_index(v@, '.') is None,
        },
{
    let mut e = v.len();
    assert(v@.take(e as int) =~= v@);
    while e > 0
        invariant
            e <= v.len(),
            last_index(v@.take(e as int), '.') == last_index(v@, '.'),
        decreases e,
    {
        if v[e - 1] == '.' {
            assert(v@.take(e as int).last() == '.');
            return Some(e - 1);
        }
        assert(v@.take(e as int).drop_last() =~= v@.take(e - 1));
        e = e - 1;
    }
    None
}

/// Whether a file name is that of a disk image.
pub fn is_disk_image(name: &str) -> (r: bool)
    ensures
        r == is_disk_image_name(name@),
{
    let v = to_chars(name);
    if v.len() == 0 || (v.len() == 1 && v[0] == '.') || (v.len() == 2 && v[0] == '.' && v[1] == '.') {
        proof {
            if v@.len() == 1 {
                assert(v@ =~= seq!['.']);
            }
            if v@.len() == 2 {
                assert(v@ =~= seq!['.', '.']);
            }
        }
        return false;
    }
    proof {
        if v@ == seq!['.'] {
            assert(v@[0] == '.');
        }
        if v@ == seq!['.', '.'] {
            assert(v@[0] == '.' && v@[1] == '.');
        }
    }
    assert(v@ == name@);
    assert(!(name@.len() == 0 || name@ == seq!['.'] || name@ == seq!['.', '.']));
    match last_dot(&v) {
        Some(i) => {
            if i == 0 {
                assert(last_index(name@, '.') == Some(0int));
                assert(extension_of(name@) is None);
                return false;
            }
            let ext = crate::text::string_of(&v, i + 1, v.len());
            assert(v@.subrange(i + 1, v@.len() as int) =~= v@.skip(i + 1));
            let low = to_lower(ext.as_str());
            str_eq(low.as_str(), "iso") || str_eq(low.as_str(), "img")
        },
        None => false,
    }
}

/// The path of a sub-folder: the folder without trailing slashes, `/`, the name.
pub open spec fn joined(dir: Seq<char>, name: Seq<char>) -> Seq<char> {
    trim_end_char(dir, '/') + seq!['/'] + name
}

/// A suggested folder's last path component starts with the typed prefix,
/// in any letter case.
pub open spec fn suggested(path: Seq<char>, prefix: Seq<char>) -> bool {
    starts_with(lowercase(split_char(path, '/').last()), lowercase(prefix))
}

/// The suggestions for the sub-folders `names` of `dir` (in the order of the
/// folder listing) while `prefix` is typed: the first six whose last
/// component matches the prefix.
pub open spec fn suggestions_of(dir: Seq<char>, prefix: Seq<char>, names: Seq<Seq<char>>) -> Seq<Seq<char>> {
    let all = names.map_values(|n: Seq<char>| joined(dir, n)).filter(|p: Seq<char>| suggested(p, prefix));
    all.take(if all.len() < 6 { all.len() as int } else { 6 })
}

/// The sub-folders of `dir` suggested for the typed `prefix`.
pub fn path_suggestions(dir: &str, prefix: &str, names: &Vec<String>) -> (r: Vec<String>)
    ensures
        views(r@) == suggestions_of(dir@, prefix@, views(names@)),
{
    let base = trim_end_char_exec(dir, '/');
    let lp = to_lower(prefix);
    let ghost nv = views(names@);
    let ghost full = nv.map_values(|n: Seq<char>| joined(dir@, n));
    let ghost pred = |p: Seq<char>| suggested(p, prefix@);
    let ghost all = full.filter(pred);
    let mut r: Vec<String> = Vec::new();
    let mut i: usize = 0;
    assert(full.take(0).filter(pred) =~= Seq::<Seq<char>>::empty()) by {
        reveal_with_fuel(Seq::<_>::filter, 1);
    }
    while i < names.len() && r.len() < 6
        invariant
            i <= names.len(),
            nv == views(names@),
            full == nv.map_values(|n: Seq<char>| joined(dir@, n)),
            pred == (|p: Seq<char>| suggested(p, prefix@)),
            all == full.filter(pred),
            base@ == trim_end_char(dir@, '/'),
            lp@ == lowercase(prefix@),
            views(r@) == full.take(i as int).filter(pred),
            r@.len() <= 6,
        decreases names.len() - i,
    {
        assert(nv[i as int] == names@[i as int]@);
        let mut p = String::from_str(base.as_str());
        crate::text::push_char(&mut p, '/');
        p.append(names[i].as_str());
        assert(p@ =~= joined(dir@, nv[i as int]));
        let parts = split_char_exec(p.as_str(), '/');
        proof {
            lemma_split_nonempty(p@, '/', 0, 0);
        }
        assert(views(parts@).len() == parts@.len());
        let last = parts.len() - 1;
        assert(views(parts@)[last as int] == parts@[last as int]@);
        let keep = str_starts_with(to_lower(parts[last].as_str()).as_str(), lp.as_str());
        proof {
            reveal_with_fuel(Seq::<_>::filter, 1);
            assert(full.take(i + 1).drop_last() =~= full.take(i as int));
            assert(full.take(i + 1).last() == p@);
        }
        if keep {
            assert(views(r@.push(p)) =~= views(r@).push(p@));
            r.push(p);
        }
        i = i + 1;
    }
    proof {
        full.take(i as int).lemma_filter_len(pred);
        if r@.len() < 6 {
            assert(full.take(i as int) =~= full);
            assert(all.take(all.len() as int) =~= all);
        } else {
            lemma_filter_prefix(full, pred, i as int);
            assert(all.take(6) =~= views(r@));
        }
    }
    r
}

/// Filtering a prefix gives a prefix of the filtered whole.
pub proof fn lemma_filter_prefix(s: Seq<Seq<char>>, pred: spec_fn(Seq<char>) -> bool, k: int)
    requires
        0 <= k <= s.len(),
    ensures
        s.take(k).filter(pred).len() <= s.filter(pred).len(),
        s.take(k).filter(pred) == s.filter(pred).take(s.take(k).filter(pred).len() as int),
    decreases s.len() - k,
{
    reveal_with_fuel(Seq::<_>::filter, 1);
    if k == s.len() {
        assert(s.take(k) =~= s);
        assert(s.filter(pred).take(s.filter(pred).len() as int) =~= s.filter(pred));
    } else {
        lemma_filter_prefix(s, pred, k + 1);
        let a = s.take(k).filter(pred);
        let b = s.take(k + 1).filter(pred);
        assert(s.take(k + 1).drop_last() =~= s.take(k));
        if pred(s[k]) {
            assert(b == a.push(s[k]));
            assert(a =~= b.take(a.len() as int));
            assert(s.filter(pred).take(b.len() as int).take(a.len() as int) =~= s.filter(pred).take(
                a.len() as int,
            ));
        } else {
            assert(b == a);
        }
    }
}

// ---------------------------------------------------------------------------
// The typed path
// ---------------------------------------------------------------------------

/// What `Path::parent` gives for a path, as text (`None` for a root or an
/// empty path).
pub uninterp spec fn path_parent(p: Seq<char>) -> Option<Seq<char>>;

/// What `Path::file_name` gives for a path, as text (`None` where the path
/// ends in `..` or is a root).
pub uninterp spec fn path_file_name(p: Seq<char>) -> Option<Seq<char>>;

/// `std::path::Path::parent` of `p`; the result is the named parent of `p`.
#[verifier::external_body]
fn parent_of(p: &str) -> (r: Option<String>)
    ensures
        opt_view(r) == path_parent(p@),
{
    match std::path::Path::new(p).parent() {
        Some(x) => Some(x.to_string_lossy().to_string()),
        None => None,
    }
}

/// `std::path::Path::file_name` of `p`; the result is the named last component of `p`.
#[verifier::external_body]
fn file_name_of(p: &str) -> (r: Option<String>)
    ensures
        opt_view(r) == path_file_name(p@),
{
    match std::path::Path::new(p).file_name() {
        Some(x) => Some(x.to_string_lossy().to_string()),
        None => None,
    }
}

/// The folder to list and the prefix typed so far, for a typed path: nothing
/// for an empty path; the whole path and no prefix where it ends in `/`;
/// otherwise its parent (`/` where it has none) and its last component (empty
/// where it has none).
pub open spec fn typed_parts_of(partial: Seq<char>) -> Option<(Seq<char>, Seq<char>)> {
    if partial.len() == 0 {
        None
    } else if partial.last() == '/' {
        Some((partial, Seq::empty()))
    } else {
        Some(
            (
                match path_parent(partial) {
                    Some(d) => d,
                    None => seq!['/'],
                },
                match path_file_name(partial) {
                    Some(n) => n,
                    None => Seq::empty(),
                },
            ),
        )
    }
}

pub fn typed_path_parts(partial: &str) -> (r: Option<(String, String)>)
    ensures
        match r {
            Some((d, p)) => typed_parts_of(partial@) == Some((d@, p@)),
            None => typed_parts_of(partial@) is None,
        },
{
    let v = to_chars(partial);
    if v.len() == 0 {
        return None;
    }
    if v[v.len() - 1] == '/' {
        proof {
            reveal_strlit("");
        }
        return Some((String::from_str(partial), String::from_str("")));
    }
    let dir = match parent_of(partial) {
        Some(d) => d,
        None => {
            let mut d = String::new();
            push_char(&mut d, '/');
            assert(d@ =~= seq!['/']);
            d
        },
    };
    let name = match file_name_of(partial) {
        Some(n) => n,
        None => String::new(),
    };
    Some((dir, name))
}

} // verus!
