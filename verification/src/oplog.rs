//! The log of a long operation (installing Ventoy) and its outcome.
use vstd::prelude::*;

use crate::settings::{fill, translated, Translations};
use crate::text::{two_digits, two_digits_exec};

verus! {

#[derive(PartialEq, Eq, Structural, Clone, Copy, Debug)]
pub enum LogLevel {
    Info,
    Success,
    Warn,
    Error,
}

pub struct LogEntry {
    pub timestamp: String,
    pub message: String,
    pub level: LogLevel,
}

/// `hh:mm:ss` of a UNIX time (UTC).
pub open spec fn clock_text(secs: nat) -> Seq<char> {
    two_digits((secs / 3600) % 24) + ":"@ + two_digits((secs / 60) % 60) + ":"@ + two_digits(
        secs % 60,
    )
}

/// Two decimal digits of a number below 100, the tens first.
pub proof fn lemma_two_digits(n: nat)
    requires
        n < 100,
    ensures
        two_digits(n) == seq![((48 + n / 10) as u32) as char, ((48 + n % 10) as u32) as char],
{
    reveal_with_fuel(crate::text::decimal, 2);
    if n < 10 {
        assert(two_digits(n) =~= seq![((48 + n / 10) as u32) as char, ((48 + n % 10) as u32) as char]);
    } else {
        assert(n / 10 < 10);
        assert(two_digits(n) =~= seq![((48 + n / 10) as u32) as char, ((48 + n % 10) as u32) as char]);
    }
}

/// The clock of a time is its hour of the day, minute and second, each in two
/// digits: a time `h` hours, `m` minutes and `x` seconds into a day (of any
/// number of whole days) reads `hh:mm:ss`.
pub proof fn lemma_clock_fields(days: nat, h: nat, m: nat, x: nat)
    requires
        h < 24,
        m < 60,
        x < 60,
    ensures
        clock_text(days * 86400 + h * 3600 + m * 60 + x) == two_digits(h) + ":"@ + two_digits(m) + ":"@
            + two_digits(x),
{
    let s = days * 86400 + h * 3600 + m * 60 + x;
    assert(s / 3600 == days * 24 + h) by (nonlinear_arith)
        requires
            s == days * 86400 + h * 3600 + m * 60 + x,
            m < 60,
            x < 60,
    ;
    assert((days * 24 + h) % 24 == h) by (nonlinear_arith)
        requires
            h < 24,
    ;
    assert(s / 60 == days * 1440 + h * 60 + m) by (nonlinear_arith)
        requires
            s == days * 86400 + h * 3600 + m * 60 + x,
            x < 60,
    ;
    assert((days * 1440 + h * 60 + m) % 60 == m) by (nonlinear_arith)
        requires
            m < 60,
    ;
    assert(s % 60 == x) by (nonlinear_arith)
        requires
            s == days * 86400 + h * 3600 + m * 60 + x,
            x < 60,
    ;
}

/// The `hh:mm:ss` of a UNIX time.
pub fn clock(secs: u64) -> (r: String)
    ensures
        r@ == clock_text(secs as nat),
{
    let mut r = two_digits_exec((secs / 3600) % 24);
    r.append(":");
    r.append(two_digits_exec((secs / 60) % 60).as_str());
    r.append(":");
    r.append(two_digits_exec(secs % 60).as_str());
    r
}

/// The current UNIX time in seconds (`SystemTime::now()` since `UNIX_EPOCH`, 0
/// for a clock set before it); nothing is promised of its value.
#[verifier::external_body]
fn unix_time_secs() -> (r: u64) {
    std::time::SystemTime::now().duration_since(std::time::UNIX_EPOCH).unwrap_or_default().as_secs()
}

/// How an operation ended, as its log shows it.
#[derive(PartialEq, Eq, Structural, Clone, Copy, Debug)]
pub enum Outcome {
    /// Some success and no error.
    Completed,
    /// At least one error.
    WithErrors,
    /// Neither.
    Cancelled,
}

pub open spec fn has_level(logs: Seq<LogEntry>, l: LogLevel) -> bool {
    exists|i: int| 0 <= i < logs.len() && #[trigger] logs[i].level == l
}

/// One message of a running operation to its log; `done` marks the last one.
pub struct Report {
    pub message: String,
    pub level: LogLevel,
    pub done: bool,
}

pub open spec fn reports_view(v: Seq<Report>) -> Seq<(Seq<char>, LogLevel, bool)> {
    v.map_values(|r: Report| (r.message@, r.level, r.done))
}

/// An operation: its label, whether it runs, and its log.
pub struct Operation {
    pub label: String,
    pub active: bool,
    pub logs: Vec<LogEntry>,
    pub logs_expanded: bool,
}

impl Operation {
    /// No operation yet.
    pub fn idle() -> (r: Operation)
        ensures
            !r.active,
            r.label@.len() == 0,
            r.logs@.len() == 0,
            !r.logs_expanded,
    {
        Operation { label: String::new(), active: false, logs: Vec::new(), logs_expanded: false }
    }

    /// Adds a message to the log, stamped with the current time of day.
    pub fn log(&mut self, msg: &str, level: LogLevel)
        ensures
            final(self).logs@.len() == old(self).logs@.len() + 1,
            final(self).logs@.drop_last() == old(self).logs@,
            final(self).logs@.last().message@ == msg@,
            final(self).logs@.last().level == level,
            exists|s: nat| final(self).logs@.last().timestamp@ == #[trigger] clock_text(s),
            final(self).label == old(self).label,
            final(self).active == old(self).active,
            final(self).logs_expanded == old(self).logs_expanded,
    {
        let s = unix_time_secs();
        let timestamp = clock(s);
        self.logs.push(LogEntry { timestamp, message: String::from_str(msg), level });
        assert(self.logs@.drop_last() =~= old(self).logs@);
    }

    /// Whether some entry of the log has the level.
    pub fn any_level(&self, l: LogLevel) -> (r: bool)
        ensures
            r == has_level(self.logs@, l),
    {
        let mut i: usize = 0;
        while i < self.logs.len()
            invariant
                i <= self.logs.len(),
                forall|j: int| 0 <= j < i ==> #[trigger] self.logs@[j].level != l,
            decreases self.logs.len() - i,
        {
            if self.logs[i].level == l {
                assert(self.logs@[i as int].level == l);
                return true;
            }
            i = i + 1;
        }
        false
    }

    /// How the operation ended.
    pub fn outcome(&self) -> (r: Outcome)
        ensures
            r == (if has_level(self.logs@, LogLevel::Success) && !has_level(self.logs@, LogLevel::Error) {
                Outcome::Completed
            } else if has_level(self.logs@, LogLevel::Error) {
                Outcome::WithErrors
            } else {
                Outcome::Cancelled
            }),
    {
        let ok = self.any_level(LogLevel::Success);
        let err = self.any_level(LogLevel::Error);
        if ok && !err {
            Outcome::Completed
        } else if err {
            Outcome::WithErrors
        } else {
            Outcome::Cancelled
        }
    }

    /// Takes a report of the running operation: it is logged, and a final
    /// report ends the operation. The result says whether it ended in success.
    pub fn report(&mut self, msg: &str, level: LogLevel, done: bool) -> (succeeded: bool)
        ensures
            succeeded == (done && level == LogLevel::Success),
            final(self).active == (old(self).active && !done),
            final(self).label == old(self).label,
            final(self).logs_expanded == old(self).logs_expanded,
            final(self).logs@.drop_last() == old(self).logs@,
            final(self).logs@.len() == old(self).logs@.len() + 1,
            final(self).logs@.last().message@ == msg@,
            final(self).logs@.last().level == level,
    {
        self.log(msg, level);
        if done {
            self.active = false;
        }
        done && level == LogLevel::Success
    }

    /// Takes the queued messages of the running operation in order, up to and
    /// including the first final one: each is logged, and a final one ends the
    /// operation. The result is how many were taken.
    pub fn take_reports(&mut self, reports: &Vec<Report>) -> (taken: usize)
        ensures
            taken <= reports@.len(),
            forall|k: int| 0 <= k && k + 1 < taken ==> !(#[trigger] reports@[k]).done,
            taken < reports@.len() ==> taken > 0 && reports@[taken - 1].done,
            final(self).logs@.len() == old(self).logs@.len() + taken,
            final(self).logs@.take(old(self).logs@.len() as int) == old(self).logs@,
            forall|k: int|
                0 <= k < taken ==> (#[trigger] final(self).logs@[old(self).logs@.len() + k]).message@
                    == reports@[k].message@ && final(self).logs@[old(self).logs@.len() + k].level
                    == reports@[k].level,
            final(self).active == (old(self).active && !(taken > 0 && reports@[taken - 1].done)),
            final(self).label == old(self).label,
            final(self).logs_expanded == old(self).logs_expanded,
    {
        let ghost n0 = self.logs@.len();
        let mut i: usize = 0;
        while i < reports.len()
            invariant
                i <= reports@.len(),
                forall|k: int| 0 <= k < i ==> !(#[trigger] reports@[k]).done,
                self.logs@.len() == n0 + i,
                n0 == old(self).logs@.len(),
                self.logs@.take(n0 as int) == old(self).logs@,
                forall|k: int|
                    0 <= k < i ==> (#[trigger] self.logs@[n0 + k]).message@ == reports@[k].message@
                        && self.logs@[n0 + k].level == reports@[k].level,
                self.active == old(self).active,
                self.label == old(self).label,
                self.logs_expanded == old(self).logs_expanded,
            decreases reports@.len() - i,
        {
            let r = &reports[i];
            let ghost before = self.logs@;
            self.report(r.message.as_str(), r.level, r.done);
            proof {
                assert(self.logs@.take(n0 as int) =~= before.take(n0 as int));
                assert forall|k: int| 0 <= k < i + 1 implies (#[trigger] self.logs@[n0 + k]).message@
                    == reports@[k].message@ && self.logs@[n0 + k].level == reports@[k].level by {
                    if k < i {
                        assert(self.logs@[n0 + k] == before[n0 + k]);
                    }
                }
            }
            i = i + 1;
            if r.done {
                return i;
            }
        }
        i
    }

    /// Stops the operation at the user's request and says so in the log.
    pub fn cancel(&mut self, msg: &str)
        ensures
            !final(self).active,
            final(self).logs@.len() == old(self).logs@.len() + 1,
            final(self).logs@.drop_last() == old(self).logs@,
            final(self).logs@.last().message@ == msg@,
            final(self).logs@.last().level == LogLevel::Warn,
            final(self).label == old(self).label,
            final(self).logs_expanded == old(self).logs_expanded,
    {
        self.active = false;
        self.log(msg, LogLevel::Warn);
    }

    /// Clears the log, which is allowed only while no operation runs; the
    /// result says whether it was cleared (and the details are folded).
    pub fn clear_logs(&mut self) -> (cleared: bool)
        ensures
            cleared == !old(self).active,
            cleared ==> final(self).logs@.len() == 0 && !final(self).logs_expanded
                && final(self).label == old(self).label && !final(self).active,
            !cleared ==> *final(self) == *old(self),
    {
        if self.active {
            return false;
        }
        self.logs.clear();
        self.logs_expanded = false;
        true
    }

    /// Shows or hides the details of the log.
    pub fn toggle_details(&mut self)
        ensures
            final(self).logs_expanded == !old(self).logs_expanded,
            final(self).label == old(self).label,
            final(self).active == old(self).active,
            final(self).logs@ == old(self).logs@,
    {
        self.logs_expanded = !self.logs_expanded;
    }

    /// Starts installing (or updating) Ventoy on `path` unless an operation
    /// runs: the operation starts afresh with the translated label and a first
    /// log entry naming the action and the device. The result says whether it started.
    pub fn start_install(&mut self, i18n: &Translations, path: &str, is_update: bool) -> (started: bool)
        ensures
            started == !old(self).active,
            !started ==> *final(self) == *old(self),
            started ==> {
                &&& final(self).active
                &&& !final(self).logs_expanded
                &&& final(self).label@ == fill(
                    translated(
                        i18n.table(),
                        if is_update {
                            "ventoy_updating"@
                        } else {
                            "ventoy_installing"@
                        },
                    ),
                    seq![path@],
                    1,
                )
                &&& final(self).logs@.len() == 1
                &&& final(self).logs@[0].level == LogLevel::Info
                &&& final(self).logs@[0].message@ == translated(
                    i18n.table(),
                    if is_update {
                        "ventoy_updating_action"@
                    } else {
                        "ventoy_installing_action"@
                    },
                ) + " "@ + (if is_update {
                    "update"@
                } else {
                    "install"@
                }) + " "@ + path@
            },
    {
        if self.active {
            return false;
        }
        let args = [path];
        let label = if is_update {
            i18n.tf("ventoy_updating", args.as_slice())
        } else {
            i18n.tf("ventoy_installing", args.as_slice())
        };
        assert(args@.map_values(|a: &str| a@) =~= seq![path@]);
        let act = if is_update {
            i18n.t("ventoy_updating_action")
        } else {
            i18n.t("ventoy_installing_action")
        };
        let mut msg = act;
        msg.append(" ");
        msg.append(if is_update { "update" } else { "install" });
        msg.append(" ");
        msg.append(path);
        *self = Operation::idle();
        self.active = true;
        self.label = label;
        self.log(msg.as_str(), LogLevel::Info);
        assert(self.logs@.len() == 1);
        true
    }
}

} // verus!
