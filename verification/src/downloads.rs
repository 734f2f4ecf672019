//! The download queue: adding catalogue entries, the life of a download, and
//! the saved queue.
use vstd::prelude::*;

use crate::catalog::{Distro, DistroModel};
use crate::json::{array_of, field, json_parse, number_text_of, parse_json, str_of, Json};
use crate::settings::{translated, Translations};
use crate::text::{
    ascii_lower, ascii_lower_char, is_ascii, is_digit, lemma_decimal, lemma_parse_decimal, lemma_split_first,
    lemma_split_single, trim_ws_end, trim_ws_start, decimal, decimal_exec, lines, lines_exec, lowercase, opt_view, parse_u64, parse_u64_exec, push_char,
    split_char, split_char_exec, starts_with, str_eq, str_starts_with, to_chars, to_lower, trim_ws,
    trim_ws_exec, views,
};

verus! {

// ---------------------------------------------------------------------------
// File names
// ---------------------------------------------------------------------------

/// Whether `char::is_alphanumeric` holds of a character (Unicode `Alphabetic`
/// or `Numeric`).
pub uninterp spec fn alphanumeric(c: char) -> bool;

/// An ASCII letter or digit: `a`-`z`, `A`-`Z`, `0`-`9`.
pub open spec fn ascii_alnum(c: char) -> bool {
    ||| (97 <= (c as u32) && (c as u32) <= 122)
    ||| (65 <= (c as u32) && (c as u32) <= 90)
    ||| (48 <= (c as u32) && (c as u32) <= 57)
}

/// `char::is_alphanumeric`; the result is the named property of `c`. Among
/// ASCII characters (below 128) it holds exactly of the letters and digits,
/// as std documents for the alphabetic and numeric characters.
#[verifier::external_body]
pub(crate) fn is_alphanumeric(c: char) -> (r: bool)
    ensures
        r == alphanumeric(c),
        (c as u32) < 128 ==> (r <==> ascii_alnum(c)),
{
    c.is_alphanumeric()
}

/// A character that may stay in a file name: among ASCII characters, only
/// letters, digits, `-` and `_` (so never `/`, `.` or white space).
pub open spec fn file_safe(c: char) -> bool {
    (c as u32) < 128 ==> (ascii_alnum(c) || c == '-' || c == '_')
}

/// A character kept in a file name: alphanumeric, `-` or `_`; others become `_`.
pub open spec fn file_char(c: char) -> char {
    if alphanumeric(c) || c == '-' || c == '_' {
        c
    } else {
        '_'
    }
}

/// `name` with every character that is not alphanumeric, `-` or `_` replaced by `_`.
pub open spec fn safe_name_of(name: Seq<char>) -> Seq<char> {
    name.map_values(|c: char| file_char(c))
}

/// A file name made from a distribution name: as long as the name, and with
/// no ASCII character other than letters, digits, `-` and `_`.
pub fn safe_name(s: &str) -> (r: String)
    ensures
        r@ == safe_name_of(s@),
        r@.len() == s@.len(),
        forall|i: int| 0 <= i < r@.len() ==> file_safe(#[trigger] r@[i]),
{
    let v = to_chars(s);
    let mut r = String::new();
    let mut i: usize = 0;
    while i < v.len()
        invariant
            i <= v.len(),
            r@ == safe_name_of(v@.take(i as int)),
            forall|j: int| 0 <= j < r@.len() ==> file_safe(#[trigger] r@[j]),
        decreases v.len() - i,
    {
        let c = v[i];
        let k = if is_alphanumeric(c) || c == '-' || c == '_' {
            c
        } else {
            '_'
        };
        assert(file_safe(k));
        push_char(&mut r, k);
        assert(safe_name_of(v@.take(i + 1)) =~= safe_name_of(v@.take(i as int)).push(file_char(c)));
        i = i + 1;
    }
    assert(v@.take(v.len() as int) =~= v@);
    r
}

/// Making a name safe twice changes nothing more, and keeps its length.
pub proof fn lemma_safe_name_idempotent(name: Seq<char>)
    ensures
        safe_name_of(safe_name_of(name)) == safe_name_of(name),
        safe_name_of(name).len() == name.len(),
{
    assert(safe_name_of(safe_name_of(name)) =~= safe_name_of(name));
}

// ---------------------------------------------------------------------------
// Downloads
// ---------------------------------------------------------------------------

/// Where a download stands.
pub enum DownloadStatus {
    Queued,
    Downloading,
    Paused,
    Done,
    Error(String),
}

/// A download of the queue; `runtime` is what the application keeps beside it
/// (progress, channels), which the queue's logic carries along untouched.
pub struct Download<R> {
    pub name: String,
    pub url: String,
    pub display_size: String,
    pub dest_path: String,
    pub status: DownloadStatus,
    pub speed: String,
    pub runtime: R,
}

/// `"<size> MB"`.
pub open spec fn size_text(size_mb: u64) -> Seq<char> {
    decimal(size_mb as nat) + " MB"@
}

/// `"<dir>/<safe name>.iso"`.
pub open spec fn dest_path_of(dir: Seq<char>, name: Seq<char>) -> Seq<char> {
    dir + "/"@ + safe_name_of(name) + ".iso"@
}

/// A new queued download of a distribution into `dir`.
pub open spec fn fresh_download<R>(d: DistroModel, dir: Seq<char>, x: Download<R>) -> bool {
    &&& x.name@ == d.name
    &&& x.url@ == d.url
    &&& x.display_size@ == size_text(d.size_mb)
    &&& x.dest_path@ == dest_path_of(dir, d.name)
    &&& x.status is Queued
    &&& x.speed@.len() == 0
}

impl<R> Download<R> {
    /// The download of distribution `d` into `dir`, queued.
    pub fn for_distro(d: &Distro, dir: &str, runtime: R) -> (r: Download<R>)
        ensures
            fresh_download(d@, dir@, r),
            r.runtime == runtime,
    {
        let mut size = decimal_exec(d.size_mb);
        size.append(" MB");
        let mut dest = String::from_str(dir);
        dest.append("/");
        let safe = safe_name(d.name.as_str());
        dest.append(safe.as_str());
        dest.append(".iso");
        Download {
            name: d.name.clone(),
            url: d.url.clone(),
            display_size: size,
            dest_path: dest,
            status: DownloadStatus::Queued,
            speed: String::new(),
            runtime,
        }
    }

    /// Starts the download unless it is running; on a start the status becomes
    /// `Downloading` and the speed text says that it connects.
    pub fn begin(&mut self) -> (started: bool)
        ensures
            started == !(old(self).status is Downloading),
            started ==> final(self).status is Downloading && final(self).speed@ == "Conectando..."@
                && final(self).name == old(self).name && final(self).url == old(self).url
                && final(self).display_size == old(self).display_size && final(self).dest_path
                == old(self).dest_path && final(self).runtime == old(self).runtime,
            !started ==> *final(self) == *old(self),
    {
        if let DownloadStatus::Downloading = self.status {
            return false;
        }
        self.status = DownloadStatus::Downloading;
        self.speed = String::from_str("Conectando...");
        true
    }

    /// Takes one report of the running download: a report with an error ends it
    /// (paused where the error is the pause marker, failed otherwise), a final
    /// report completes it, and any other report gives the current speed.
    /// The result says whether the download ended.
    pub fn apply_report(&mut self, done: bool, error: Option<String>, speed: String) -> (ended: bool)
        ensures
            ended == (error is Some || done),
            match error {
                Some(e) => if e@ == "__PAUSED__"@ {
                    final(self).status is Paused
                } else {
                    final(self).status matches DownloadStatus::Error(m) && m@ == e@
                },
                None => if done {
                    final(self).status is Done
                } else {
                    final(self).status == old(self).status && final(self).speed@ == speed@
                },
            },
            final(self).name == old(self).name,
            final(self).url == old(self).url,
            final(self).display_size == old(self).display_size,
            final(self).dest_path == old(self).dest_path,
            final(self).runtime == old(self).runtime,
            (error is Some || done) ==> final(self).speed == old(self).speed,
    {
        match error {
            Some(e) => {
                if str_eq(e.as_str(), "__PAUSED__") {
                    self.status = DownloadStatus::Paused;
                } else {
                    self.status = DownloadStatus::Error(e);
                }
                true
            },
            None => {
                if done {
                    self.status = DownloadStatus::Done;
                    true
                } else {
                    self.speed = speed;
                    false
                }
            },
        }
    }
}

/// One progress report of a running download: whether it finished, the
/// error it ended with, and the current speed.
pub struct DlReport {
    pub done: bool,
    pub error: Option<String>,
    pub speed: String,
}

/// A report that ends the download.
pub open spec fn ends(r: DlReport) -> bool {
    r.error is Some || r.done
}

impl<R> Download<R> {
    /// Takes the queued reports of the running download in order, up to and
    /// including the first that ends it: the reports before it only update the
    /// speed, and the one that ends it sets the status as
    /// [`Download::apply_report`] does. The result is how many were taken.
    pub fn take_reports(&mut self, reports: &Vec<DlReport>) -> (taken: usize)
        ensures
            taken <= reports@.len(),
            forall|k: int| 0 <= k && k + 1 < taken ==> !ends(#[trigger] reports@[k]),
            taken < reports@.len() ==> taken > 0 && ends(reports@[taken - 1]),
            final(self).name == old(self).name,
            final(self).url == old(self).url,
            final(self).display_size == old(self).display_size,
            final(self).dest_path == old(self).dest_path,
            final(self).runtime == old(self).runtime,
            final(self).speed@ == (if taken >= 2 || (taken == 1 && !ends(reports@[0])) {
                if ends(reports@[taken - 1]) {
                    reports@[taken - 2].speed@
                } else {
                    reports@[taken - 1].speed@
                }
            } else {
                old(self).speed@
            }),
            (taken > 0 && ends(reports@[taken - 1])) ==> match reports@[taken - 1].error {
                Some(e) => if e@ == "__PAUSED__"@ {
                    final(self).status is Paused
                } else {
                    final(self).status matches DownloadStatus::Error(m) && m@ == e@
                },
                None => final(self).status is Done,
            },
            !(taken > 0 && ends(reports@[taken - 1])) ==> final(self).status == old(self).status,
    {
        let mut i: usize = 0;
        while i < reports.len()
            invariant
                i <= reports@.len(),
                forall|k: int| 0 <= k < i ==> !ends(#[trigger] reports@[k]),
                self.name == old(self).name,
                self.url == old(self).url,
                self.display_size == old(self).display_size,
                self.dest_path == old(self).dest_path,
                self.runtime == old(self).runtime,
                self.status == old(self).status,
                self.speed@ == (if i > 0 {
                    reports@[i - 1].speed@
                } else {
                    old(self).speed@
                }),
            decreases reports@.len() - i,
        {
            let r = &reports[i];
            let error = match &r.error {
                Some(e) => Some(e.clone()),
                None => None,
            };
            let ended = self.apply_report(r.done, error, r.speed.clone());
            i = i + 1;
            if ended {
                return i;
            }
        }
        i
    }
}

/// Some download of the list has the URL.
pub open spec fn has_url<R>(list: Seq<Download<R>>, url: Seq<char>) -> bool {
    exists|i: int| 0 <= i < list.len() && #[trigger] list[i].url@ == url
}

/// Whether a download of the list has the URL.
pub fn is_queued<R>(list: &Vec<Download<R>>, url: &str) -> (r: bool)
    ensures
        r == has_url(list@, url@),
{
    let mut i: usize = 0;
    while i < list.len()
        invariant
            i <= list.len(),
            forall|j: int| 0 <= j < i ==> #[trigger] list@[j].url@ != url@,
        decreases list.len() - i,
    {
        if str_eq(list[i].url.as_str(), url) {
            assert(list@[i as int].url@ == url@);
            return true;
        }
        i = i + 1;
    }
    false
}

/// What choosing a catalogue entry does.
pub enum Choice<R> {
    /// A Windows image: show how to get it, for this name.
    WindowsHelp(String),
    /// Queue this new download (and show the queue).
    Queue(Download<R>),
    /// Nothing: its URL is queued already.
    AlreadyQueued,
}

/// Choosing a catalogue entry: Windows images get instructions; any other
/// distribution is queued into `dir` unless a download of its URL is queued.
pub fn choose_distro<R>(d: &Distro, list: &Vec<Download<R>>, dir: &str, runtime: R) -> (r: Choice<R>)
    ensures
        d.is_windows ==> (r matches Choice::WindowsHelp(n) && n@ == d.name@),
        !d.is_windows && has_url(list@, d.url@) ==> r is AlreadyQueued,
        !d.is_windows && !has_url(list@, d.url@) ==> (r matches Choice::Queue(x) && fresh_download(
            d@,
            dir@,
            x,
        ) && x.runtime == runtime),
{
    if d.is_windows {
        Choice::WindowsHelp(d.name.clone())
    } else if is_queued(list, d.url.as_str()) {
        Choice::AlreadyQueued
    } else {
        Choice::Queue(Download::for_distro(d, dir, runtime))
    }
}

/// Adds a download to the list unless its URL is there; the result says whether it was added.
pub fn enqueue<R>(list: &mut Vec<Download<R>>, x: Download<R>) -> (added: bool)
    ensures
        added == !has_url(old(list)@, x.url@),
        added ==> final(list)@ == old(list)@.push(x),
        !added ==> final(list)@ == old(list)@,
{
    if is_queued(list, x.url.as_str()) {
        false
    } else {
        list.push(x);
        true
    }
}

pub open spec fn not_done<R>(x: Download<R>) -> bool {
    !(x.status is Done)
}

/// Removes the finished downloads, keeping the others in order.
pub fn clear_done<R>(list: &mut Vec<Download<R>>)
    ensures
        final(list)@ == old(list)@.filter(|x: Download<R>| not_done(x)),
{
    let ghost orig = list@;
    let mut rest: Vec<Download<R>> = Vec::new();
    std::mem::swap(list, &mut rest);
    let mut k: usize = 0;
    let n = rest.len();
    assert(orig.take(0).filter(|x: Download<R>| not_done(x)) =~= Seq::<Download<R>>::empty()) by {
        reveal_with_fuel(Seq::<_>::filter, 1);
    }
    assert(orig.skip(0) =~= orig);
    while k < n
        invariant
            k <= n,
            n == orig.len(),
            rest@ == orig.skip(k as int),
            list@ == orig.take(k as int).filter(|x: Download<R>| not_done(x)),
        decreases n - k,
    {
        let x = rest.remove(0);
        assert(x == orig[k as int]);
        assert(orig.take(k + 1).drop_last() =~= orig.take(k as int));
        assert(orig.take(k + 1).last() == orig[k as int]);
        let keep = match x.status {
            DownloadStatus::Done => false,
            _ => true,
        };
        proof {
            reveal_with_fuel(Seq::<_>::filter, 1);
        }
        if keep {
            list.push(x);
        }
        assert(orig.skip(k as int).remove(0) =~= orig.skip(k + 1));
        k = k + 1;
    }
    assert(orig.take(n as int) =~= orig);
}

// ---------------------------------------------------------------------------
// The actions of a download's card
// ---------------------------------------------------------------------------

/// The button a download shows.
#[derive(PartialEq, Eq, Structural, Clone, Copy, Debug)]
pub enum DownloadButton {
    /// Open the folder of a finished download.
    Open,
    /// Start (or resume) the download.
    Start,
    /// Resume a paused download.
    Resume,
    /// Pause the running download.
    Pause,
    /// None: the download folder is not usable.
    Nothing,
}

/// The button of a download: open when done, pause while running, and start
/// (resume when paused) otherwise, provided that the download folder is usable.
pub fn button_for(status: &DownloadStatus, dir_ok: bool) -> (r: DownloadButton)
    ensures
        status is Done ==> r == DownloadButton::Open,
        status is Downloading ==> r == DownloadButton::Pause,
        status is Paused ==> r == (if dir_ok {
            DownloadButton::Resume
        } else {
            DownloadButton::Nothing
        }),
        (status is Queued || status is Error) ==> r == (if dir_ok {
            DownloadButton::Start
        } else {
            DownloadButton::Nothing
        }),
{
    match status {
        DownloadStatus::Done => DownloadButton::Open,
        DownloadStatus::Downloading => DownloadButton::Pause,
        DownloadStatus::Paused => if dir_ok {
            DownloadButton::Resume
        } else {
            DownloadButton::Nothing
        },
        _ => if dir_ok {
            DownloadButton::Start
        } else {
            DownloadButton::Nothing
        },
    }
}

// ---------------------------------------------------------------------------
// The saved queue
// ---------------------------------------------------------------------------

/// The status under which a download is saved: running and queued ones are
/// saved as paused.
pub open spec fn saved_status_of(s: DownloadStatus) -> Seq<char> {
    match s {
        DownloadStatus::Queued => "paused"@,
        DownloadStatus::Downloading => "paused"@,
        DownloadStatus::Paused => "paused"@,
        DownloadStatus::Error(_) => "error"@,
        DownloadStatus::Done => "done"@,
    }
}

pub fn saved_status(s: &DownloadStatus) -> (r: &'static str)
    ensures
        r@ == saved_status_of(*s),
{
    match s {
        DownloadStatus::Queued | DownloadStatus::Downloading | DownloadStatus::Paused => "paused",
        DownloadStatus::Error(_) => "error",
        DownloadStatus::Done => "done",
    }
}

/// The positions of the downloads that are saved (all but the finished ones), in order.
pub fn saved_positions<R>(list: &Vec<Download<R>>) -> (r: Vec<usize>)
    ensures
        forall|k: int, l: int| 0 <= k < l < r@.len() ==> r@[k] < r@[l],
        forall|k: int| 0 <= k < r@.len() ==> #[trigger] r@[k] < list@.len(),
        forall|i: int|
            0 <= i < list@.len() ==> (r@.contains(i as usize) <==> not_done(#[trigger] list@[i])),
{
    let mut r: Vec<usize> = Vec::new();
    let mut i: usize = 0;
    while i < list.len()
        invariant
            i <= list.len(),
            forall|k: int, l: int| 0 <= k < l < r@.len() ==> r@[k] < r@[l],
            forall|k: int| 0 <= k < r@.len() ==> #[trigger] r@[k] < i,
            forall|j: int| 0 <= j < i ==> (r@.contains(j as usize) <==> not_done(#[trigger] list@[j])),
        decreases list.len() - i,
    {
        let keep = match list[i].status {
            DownloadStatus::Done => false,
            _ => true,
        };
        let ghost old_r = r@;
        if keep {
            r.push(i);
        }
        assert forall|j: int| 0 <= j < i + 1 implies (r@.contains(j as usize) <==> not_done(
            #[trigger] list@[j],
        )) by {
            if r@.contains(j as usize) {
                let k = choose|k: int| 0 <= k < r@.len() && r@[k] == j as usize;
                if k < old_r.len() {
                    assert(old_r.contains(j as usize));
                }
            }
            if j < i && old_r.contains(j as usize) {
                let k = choose|k: int| 0 <= k < old_r.len() && old_r[k] == j as usize;
                assert(r@[k] == j as usize);
            }
            if j == i && keep {
                assert(r@[old_r.len() as int] == i);
            }
        }
        i = i + 1;
    }
    r
}

/// A download read back from the saved queue.
pub struct SavedDownload {
    pub name: String,
    pub url: String,
    pub display_size: String,
    pub dest_path: String,
    /// The saved progress as the text of its number, where it is one.
    pub progress: Option<String>,
}

pub struct SavedModel {
    pub name: Seq<char>,
    pub url: Seq<char>,
    pub display_size: Seq<char>,
    pub dest_path: Seq<char>,
    pub progress: Option<Seq<char>>,
}

impl View for SavedDownload {
    type V = SavedModel;

    open spec fn view(&self) -> SavedModel {
        SavedModel {
            name: self.name@,
            url: self.url@,
            display_size: self.display_size@,
            dest_path: self.dest_path@,
            progress: opt_view(self.progress),
        }
    }
}

/// A saved download: `name`, `url` and `dest_path` are required text, the size
/// text defaults to "".
pub open spec fn saved_of(d: Json) -> Option<SavedModel> {
    match (str_of(field(d, "name"@)), str_of(field(d, "url"@)), str_of(field(d, "dest_path"@))) {
        (Some(name), Some(url), Some(dest)) => Some(
            SavedModel {
                name,
                url,
                display_size: match str_of(field(d, "display_size"@)) {
                    Some(s) => s,
                    None => Seq::empty(),
                },
                dest_path: dest,
                progress: number_text_of(field(d, "progress"@)),
            },
        ),
        _ => None,
    }
}

pub open spec fn saved_list_of(items: Seq<Json>) -> Seq<SavedModel>
    decreases items.len(),
{
    if items.len() == 0 {
        seq![]
    } else {
        let rest = saved_list_of(items.drop_last());
        match saved_of(items.last()) {
            Some(d) => rest.push(d),
            None => rest,
        }
    }
}

/// The saved queue held by the file: its top-level array, or nothing.
pub open spec fn saved_queue_of(doc: Option<Json>) -> Seq<SavedModel> {
    match doc {
        Some(v) => match array_of(Some(v)) {
            Some(items) => saved_list_of(items),
            None => seq![],
        },
        None => seq![],
    }
}

pub open spec fn saved_models(v: Seq<SavedDownload>) -> Seq<SavedModel> {
    v.map_values(|d: SavedDownload| d@)
}

fn member_text(d: &Json, key: &str) -> (r: Option<String>)
    ensures
        opt_view(r) == str_of(field(*d, key@)),
{
    match d.get(key) {
        Some(x) => match x.as_str() {
            Some(s) => Some(s.clone()),
            None => None,
        },
        None => None,
    }
}

fn saved_from_json(d: &Json) -> (r: Option<SavedDownload>)
    ensures
        match r {
            Some(x) => saved_of(*d) == Some(x@),
            None => saved_of(*d) is None,
        },
{
    let name = match member_text(d, "name") {
        Some(s) => s,
        None => return None,
    };
    let url = match member_text(d, "url") {
        Some(s) => s,
        None => return None,
    };
    let dest_path = match member_text(d, "dest_path") {
        Some(s) => s,
        None => return None,
    };
    let display_size = match member_text(d, "display_size") {
        Some(s) => s,
        None => String::new(),
    };
    let progress = match d.get("progress") {
        Some(x) => match x.number_text() {
            Some(t) => Some(t.clone()),
            None => None,
        },
        None => None,
    };
    Some(SavedDownload { name, url, display_size, dest_path, progress })
}

/// Reads the saved queue; its downloads come back paused.
pub fn saved_queue_from_json(json: &str) -> (r: Vec<SavedDownload>)
    ensures
        saved_models(r@) == saved_queue_of(json_parse(json@)),
{
    let doc = parse_json(json);
    let items = match &doc {
        Some(v) => match v.as_array() {
            Some(a) => a,
            None => return Vec::new(),
        },
        None => return Vec::new(),
    };
    let mut r: Vec<SavedDownload> = Vec::new();
    let mut i: usize = 0;
    while i < items.len()
        invariant
            i <= items.len(),
            saved_models(r@) == saved_list_of(items@.take(i as int)),
        decreases items.len() - i,
    {
        assert(items@.take(i + 1).drop_last() =~= items@.take(i as int));
        assert(items@.take(i + 1).last() == items@[i as int]);
        match saved_from_json(&items[i]) {
            Some(d) => {
                assert(saved_models(r@.push(d)) =~= saved_models(r@).push(d@));
                r.push(d);
            },
            None => {},
        }
        i = i + 1;
    }
    assert(items@.take(items.len() as int) =~= items@);
    r
}

/// A download restored from the saved queue: paused, with no speed shown.
pub fn restore<R>(s: SavedDownload, runtime: R) -> (r: Download<R>)
    ensures
        r.name@ == s.name@,
        r.url@ == s.url@,
        r.display_size@ == s.display_size@,
        r.dest_path@ == s.dest_path@,
        r.status is Paused,
        r.speed@.len() == 0,
        r.runtime == runtime,
{
    Download {
        name: s.name,
        url: s.url,
        display_size: s.display_size,
        dest_path: s.dest_path,
        status: DownloadStatus::Paused,
        speed: String::new(),
        runtime,
    }
}

// ---------------------------------------------------------------------------
// The download folder
// ---------------------------------------------------------------------------

/// Checks a download folder from what the file system says of it: an empty
/// path, a missing one and one that is not a folder each give their translated
/// message.
pub fn validate_download_dir(path: &str, exists: bool, is_dir: bool, i18n: &Translations) -> (r: Result<(), String>)
    ensures
        path@.len() == 0 ==> (r matches Err(m) && m@ == translated(i18n.table(), "cfg_path_empty"@)),
        path@.len() > 0 && !exists ==> (r matches Err(m) && m@ == translated(
            i18n.table(),
            "cfg_path_not_exist"@,
        )),
        path@.len() > 0 && exists && !is_dir ==> (r matches Err(m) && m@ == translated(
            i18n.table(),
            "cfg_path_not_dir"@,
        )),
        path@.len() > 0 && exists && is_dir ==> r is Ok,
{
    if path.is_empty() {
        return Err(i18n.t("cfg_path_empty"));
    }
    if !exists {
        return Err(i18n.t("cfg_path_not_exist"));
    }
    if !is_dir {
        return Err(i18n.t("cfg_path_not_dir"));
    }
    Ok(())
}


// ---------------------------------------------------------------------------
// Laws of the queue
// ---------------------------------------------------------------------------

/// No two downloads of the list have the same URL.
pub open spec fn urls_distinct<R>(list: Seq<Download<R>>) -> bool {
    forall|i: int, j: int| 0 <= i < j < list.len() ==> #[trigger] list[i].url@ != #[trigger] list[j].url@
}

/// The queue never holds a URL twice: adding a download (as `enqueue` does,
/// appending it only where its URL is new) keeps the URLs distinct.
pub proof fn lemma_enqueue_keeps_urls_distinct<R>(list: Seq<Download<R>>, x: Download<R>)
    requires
        urls_distinct(list),
    ensures
        urls_distinct(if has_url(list, x.url@) {
            list
        } else {
            list.push(x)
        }),
{
    if !has_url(list, x.url@) {
        let l2 = list.push(x);
        assert forall|i: int, j: int| 0 <= i < j < l2.len() implies #[trigger] l2[i].url@ != #[trigger] l2[j].url@ by {
            if j == list.len() {
                assert(l2[i] == list[i]);
                if l2[i].url@ == x.url@ {
                    assert(list[i].url@ == x.url@);
                }
            } else {
                assert(l2[i] == list[i] && l2[j] == list[j]);
            }
        }
    }
}

/// Clearing finished downloads removes exactly those: no finished download
/// stays, every unfinished one stays, and nothing is added.
pub proof fn lemma_clear_done_removes_only_finished<R>(list: Seq<Download<R>>)
    ensures
        ({
            let kept = list.filter(|x: Download<R>| not_done(x));
            &&& forall|i: int| 0 <= i < kept.len() ==> not_done(#[trigger] kept[i])
            &&& forall|i: int| 0 <= i < list.len() && not_done(list[i]) ==> #[trigger] kept.contains(list[i])
            &&& forall|x: Download<R>| kept.contains(x) ==> #[trigger] list.contains(x)
            &&& kept.len() <= list.len()
        }),
{
    broadcast use vstd::seq_lib::group_filter_ensures;
    let pred = |x: Download<R>| not_done(x);
    let kept = list.filter(pred);
    assert forall|i: int| 0 <= i < kept.len() implies not_done(#[trigger] kept[i]) by {
        list.lemma_filter_pred(pred, i);
    }
    assert forall|i: int| 0 <= i < list.len() && not_done(list[i]) implies #[trigger] kept.contains(list[i]) by {
        list.lemma_filter_contains(pred, i);
    }
    assert forall|x: Download<R>| kept.contains(x) implies #[trigger] list.contains(x) by {
        list.lemma_filter_contains_rev(pred, x);
    }
    list.lemma_filter_len(pred);
}


// ---------------------------------------------------------------------------
// Sizes announced by a server
// ---------------------------------------------------------------------------

/// The first header line that starts, in any letter case, with `content-length:`.
pub open spec fn length_line(ls: Seq<Seq<char>>) -> Option<Seq<char>>
    decreases ls.len(),
{
    if ls.len() == 0 {
        None
    } else if starts_with(lowercase(ls[0]), "content-length:"@) {
        Some(ls[0])
    } else {
        length_line(ls.drop_first())
    }
}

/// The size announced by response headers (those of `curl -sIL`): the value
/// after the first `:` of the first `Content-Length` line, trimmed; 0 where
/// there is none or it is not a number.
pub open spec fn content_length_of(headers: Seq<char>) -> u64 {
    match length_line(lines(headers)) {
        Some(l) => {
            let p = split_char(l, ':');
            if p.len() > 1 {
                match parse_u64(trim_ws(p[1])) {
                    Some(n) => n,
                    None => 0,
                }
            } else {
                0
            }
        },
        None => 0,
    }
}

/// For header lines in ASCII: the first line that starts with
/// `content-length:` in any letter case.
pub open spec fn ascii_length_line(ls: Seq<Seq<char>>) -> Option<Seq<char>>
    decreases ls.len(),
{
    if ls.len() == 0 {
        None
    } else if starts_with(ascii_lower(ls[0]), "content-length:"@) {
        Some(ls[0])
    } else {
        ascii_length_line(ls.drop_first())
    }
}

/// The number after the first `:` of a header line, trimmed; 0 where there
/// is none.
pub open spec fn header_number(l: Seq<char>) -> u64 {
    let p = split_char(l, ':');
    if p.len() > 1 {
        match parse_u64(trim_ws(p[1])) {
            Some(n) => n,
            None => 0,
        }
    } else {
        0
    }
}

/// The size that ASCII header lines announce.
pub open spec fn ascii_content_length(ls: Seq<Seq<char>>) -> u64 {
    match ascii_length_line(ls) {
        Some(l) => header_number(l),
        None => 0,
    }
}

/// The size in bytes that response headers announce; for ASCII header lines
/// it is the number on the first `Content-Length` line (in any letter case).
pub fn content_length(headers: &str) -> (r: u64)
    ensures
        r == content_length_of(headers@),
        (forall|j: int| 0 <= j < lines(headers@).len() ==> is_ascii(#[trigger] lines(headers@)[j]))
            ==> r == ascii_content_length(lines(headers@)),
{
    let ls = lines_exec(headers);
    let ghost lv = lines(headers@);
    let ghost all = forall|j: int| 0 <= j < lv.len() ==> is_ascii(#[trigger] lv[j]);
    let mut i: usize = 0;
    assert(lv.skip(0) =~= lv);
    while i < ls.len()
        invariant
            i <= ls.len(),
            views(ls@) == lv,
            lv == lines(headers@),
            length_line(lv.skip(i as int)) == length_line(lv),
            all == (forall|j: int| 0 <= j < lv.len() ==> is_ascii(#[trigger] lv[j])),
            all ==> ascii_length_line(lv.skip(i as int)) == ascii_length_line(lv),
        decreases ls.len() - i,
    {
        assert(lv.skip(i as int)[0] == ls@[i as int]@);
        assert(lv[i as int] == ls@[i as int]@);
        let low = to_lower(ls[i].as_str());
        if str_starts_with(low.as_str(), "content-length:") {
            assert(all ==> ascii_length_line(lv) == Some(lv[i as int]));
            let p = split_char_exec(ls[i].as_str(), ':');
            assert(views(p@).len() == p@.len());
            if p.len() > 1 {
                assert(views(p@)[1] == p@[1]@);
                let t = trim_ws_exec(p[1].as_str());
                return match parse_u64_exec(t.as_str()) {
                    Some(n) => n,
                    None => 0,
                };
            }
            return 0;
        }
        assert(lv.skip(i as int).drop_first() =~= lv.skip(i + 1));
        i = i + 1;
    }
    0
}

/// Header lines announce the number written on their first `Content-Length`
/// line, whatever its size: the lines before it (a status line, other
/// headers) do not count, nor do those after it.
pub proof fn lemma_announced_size(before: Seq<Seq<char>>, name: Seq<char>, n: u64, after: Seq<Seq<char>>)
    requires
        forall|j: int| 0 <= j < before.len() ==> !starts_with(ascii_lower(#[trigger] before[j]), "content-length:"@),
        ascii_lower(name) == "content-length"@,
    ensures
        ascii_content_length(before + seq![name + ": "@ + decimal(n as nat)] + after) == n,
    decreases before.len(),
{
    reveal_strlit("content-length");
    reveal_strlit("content-length:");
    reveal_strlit(": ");
    let line = name + ": "@ + decimal(n as nat);
    let ls = before + seq![line] + after;
    if before.len() > 0 {
        lemma_announced_size(before.drop_first(), name, n, after);
        assert(ls.drop_first() =~= before.drop_first() + seq![line] + after);
        assert(ls[0] == before[0]);
    } else {
        assert(ls =~= seq![line] + after);
        assert(ascii_lower(line) =~= ascii_lower(name) + ascii_lower(": "@ + decimal(n as nat)));
        assert(ascii_lower(line).subrange(0, 15) =~= "content-length:"@) by {
            assert(ascii_lower(": "@ + decimal(n as nat))[0] == ':');
        }
        assert(ascii_length_line(ls) == Some(line));
        assert forall|j: int| 0 <= j < name.len() implies name[j] != ':' by {
            assert(ascii_lower(name)[j] == ascii_lower_char(name[j]));
            assert("content-length"@[j] != ':');
        }
        lemma_decimal(n as nat);
        let digits = decimal(n as nat);
        assert forall|j: int| 0 <= j < (seq![' '] + digits).len() implies (seq![' '] + digits)[j] != ':' by {
            if j > 0 {
                assert(is_digit(digits[j - 1]));
            }
        }
        assert(line =~= name + seq![':'] + (seq![' '] + digits));
        lemma_split_first(name, ':', seq![' '] + digits);
        lemma_split_single(seq![' '] + digits, ':');
        assert(split_char(line, ':') =~= seq![name, seq![' '] + digits]);
        assert(trim_ws_start(seq![' '] + digits) == trim_ws_start(digits)) by {
            assert((seq![' '] + digits).drop_first() =~= digits);
        }
        assert(is_digit(digits[0]));
        assert(trim_ws_start(digits) == digits);
        assert(is_digit(digits.last()));
        assert(trim_ws_end(digits) == digits);
        lemma_parse_decimal(n);
    }
}

} // verus!
