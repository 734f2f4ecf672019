//! The decisions of a Ventoy installation: the command that runs it, how its
//! exit is read, which lines of its output are shown, and how long the result
//! is waited for.
use vstd::prelude::*;

use crate::oplog::{reports_view, LogLevel, Report};
use crate::text::{
    contains, lemma_contains_middle,
    decimal, decimal_exec, lines, lines_exec, parse_u64, parse_u64_exec, starts_with,
    str_starts_with, trim_start_str, trim_start_str_exec, trim_ws, trim_ws_exec, views,
};

verus! {

/// The option of `Ventoy2Disk.sh`: `-u` updates, `-I` installs.
pub open spec fn install_flag_of(is_update: bool) -> Seq<char> {
    if is_update {
        "-u"@
    } else {
        "-I"@
    }
}

pub fn install_flag(is_update: bool) -> (r: &'static str)
    ensures
        r@ == install_flag_of(is_update),
{
    if is_update {
        "-u"
    } else {
        "-I"
    }
}

/// The shell command run with administrator rights: from the script's
/// directory, with its tools first on `PATH`, it answers `y` to the script's
/// questions, runs the script on the device, and has the kernel read the new
/// partition table.
pub open spec fn install_command_of(dir: Seq<char>, script: Seq<char>, is_update: bool, dev: Seq<char>) -> Seq<char> {
    "cd '"@ + dir + "' && export PATH=\"$PWD/tool/x86_64:$PATH\" && printf 'y\\ny\\ny\\n' | '"@
        + script + "' "@ + install_flag_of(is_update) + " '"@ + dev + "' && partprobe '"@ + dev
        + "' ; partx -u '"@ + dev + "' ; udevadm settle --timeout=10"@
}

/// The command runs the script on the device with `-u` (update, which keeps
/// the drive's files) exactly for an update and with `-I` (a fresh install,
/// which wipes the drive) otherwise, and it asks the kernel to reread that
/// device's partitions; an update and an install never give the same command.
pub proof fn lemma_install_command_flag(dir: Seq<char>, script: Seq<char>, is_update: bool, dev: Seq<char>)
    ensures
        is_update ==> contains(
            install_command_of(dir, script, is_update, dev),
            "'"@ + script + "' -u '"@ + dev + "'"@,
        ),
        !is_update ==> contains(
            install_command_of(dir, script, is_update, dev),
            "'"@ + script + "' -I '"@ + dev + "'"@,
        ),
        contains(install_command_of(dir, script, is_update, dev), "partprobe '"@ + dev + "'"@),
        install_command_of(dir, script, true, dev) != install_command_of(dir, script, false, dev),
{
    reveal_strlit("-u");
    reveal_strlit("-I");
    reveal_strlit("' -u '");
    reveal_strlit("' -I '");
    reveal_strlit("' ");
    reveal_strlit(" '");
    reveal_strlit("'");
    reveal_strlit("partprobe '");
    reveal_strlit("' && partprobe '");
    reveal_strlit("cd '");
    reveal_strlit("' && export PATH=\"$PWD/tool/x86_64:$PATH\" && printf 'y\\ny\\ny\\n' | '");
    reveal_strlit("' ; partx -u '");
    reveal_strlit("' ; udevadm settle --timeout=10");
    let head = "cd '"@ + dir + "' && export PATH=\"$PWD/tool/x86_64:$PATH\" && printf 'y\\ny\\ny\\n' | "@;
    let tail = "' ; partx -u '"@ + dev + "' ; udevadm settle --timeout=10"@;
    let mid = "'"@ + script + "' "@ + install_flag_of(is_update) + " '"@ + dev + "'"@;
    let cmd = install_command_of(dir, script, is_update, dev);
    assert(cmd =~= head + mid + (" && partprobe '"@ + dev + tail)) by {
        reveal_strlit("' && export PATH=\"$PWD/tool/x86_64:$PATH\" && printf 'y\\ny\\ny\\n' | '");
        reveal_strlit("cd '");
        reveal_strlit(" && partprobe '");
        reveal_strlit("' && export PATH=\"$PWD/tool/x86_64:$PATH\" && printf 'y\\ny\\ny\\n' | "); 
    }
    if is_update {
        assert(mid =~= "'"@ + script + "' -u '"@ + dev + "'"@);
    } else {
        assert(mid =~= "'"@ + script + "' -I '"@ + dev + "'"@);
    }
    lemma_contains_middle(head, mid, " && partprobe '"@ + dev + tail);
    let pp = "partprobe '"@ + dev + "'"@;
    assert(cmd =~= (head + mid + " && "@) + pp + (" ; partx -u '"@ + dev + "' ; udevadm settle --timeout=10"@)) by {
        reveal_strlit(" && ");
        reveal_strlit(" && partprobe '");
        reveal_strlit(" ; partx -u '");
        reveal_strlit("' && export PATH=\"$PWD/tool/x86_64:$PATH\" && printf 'y\\ny\\ny\\n' | "); 
    }
    lemma_contains_middle(head + mid + " && "@, pp, " ; partx -u '"@ + dev + "' ; udevadm settle --timeout=10"@);
    lemma_flag_char(dir, script, true, dev);
    lemma_flag_char(dir, script, false, dev);
}

/// Where the option letter stands in the command.
proof fn lemma_flag_char(dir: Seq<char>, script: Seq<char>, is_update: bool, dev: Seq<char>)
    ensures
        install_command_of(dir, script, is_update, dev)[flag_position(dir, script)] == (if is_update {
            'u'
        } else {
            'I'
        }),
{
    reveal_strlit("-u");
    reveal_strlit("-I");
    reveal_strlit("' -u '");
    reveal_strlit("' -I '");
    reveal_strlit("' ");
    reveal_strlit(" '");
    reveal_strlit("'");
    reveal_strlit("' && partprobe '");
    reveal_strlit(" && partprobe '");
    reveal_strlit("cd '");
    reveal_strlit("' && export PATH=\"$PWD/tool/x86_64:$PATH\" && printf 'y\\ny\\ny\\n' | '");
    reveal_strlit("' && export PATH=\"$PWD/tool/x86_64:$PATH\" && printf 'y\\ny\\ny\\n' | ");
    reveal_strlit("' ; partx -u '");
    reveal_strlit("' ; udevadm settle --timeout=10");
    let head = "cd '"@ + dir + "' && export PATH=\"$PWD/tool/x86_64:$PATH\" && printf 'y\\ny\\ny\\n' | "@;
    let tail = "' ; partx -u '"@ + dev + "' ; udevadm settle --timeout=10"@;
    let mid = "'"@ + script + "' "@ + install_flag_of(is_update) + " '"@ + dev + "'"@;
    let cmd = install_command_of(dir, script, is_update, dev);
    assert(cmd =~= head + mid + (" && partprobe '"@ + dev + tail));
    assert(head.len() == flag_position(dir, script) - script.len() - 4);
    let m1 = "'"@ + script + "' "@;
    assert(m1.len() == script.len() + 3);
    assert(mid =~= m1 + (install_flag_of(is_update) + " '"@ + dev + "'"@));
    assert(mid[script.len() + 4int] == install_flag_of(is_update)[1]);
}

/// The position of the option letter: after the leading text, the quoted
/// script and `' -`.
pub open spec fn flag_position(dir: Seq<char>, script: Seq<char>) -> int {
    ("cd '"@ + dir + "' && export PATH=\"$PWD/tool/x86_64:$PATH\" && printf 'y\\ny\\ny\\n' | "@).len() + script.len() + 4int
}

pub fn install_command(dir: &str, script: &str, is_update: bool, dev: &str) -> (r: String)
    ensures
        r@ == install_command_of(dir@, script@, is_update, dev@),
        is_update ==> contains(r@, "'"@ + script@ + "' -u '"@ + dev@ + "'"@),
        !is_update ==> contains(r@, "'"@ + script@ + "' -I '"@ + dev@ + "'"@),
{
    proof {
        lemma_install_command_flag(dir@, script@, is_update, dev@);
    }
    let mut c = String::from_str("cd '");
    c.append(dir);
    c.append("' && export PATH=\"$PWD/tool/x86_64:$PATH\" && printf 'y\\ny\\ny\\n' | '");
    c.append(script);
    c.append("' ");
    c.append(install_flag(is_update));
    c.append(" '");
    c.append(dev);
    c.append("' && partprobe '");
    c.append(dev);
    c.append("' ; partx -u '");
    c.append(dev);
    c.append("' ; udevadm settle --timeout=10");
    c
}

/// The name of a device from its path: every leading `/dev/` removed.
pub fn device_name(path: &str) -> (r: String)
    ensures
        r@ == trim_start_str(path@, "/dev/"@),
{
    trim_start_str_exec(path, "/dev/")
}

/// How the privileged command ended.
#[derive(PartialEq, Eq, Structural, Clone, Copy, Debug)]
pub enum Exit {
    /// No administrator password was given (exit status 126 or 127).
    NoPassword,
    /// The command failed.
    Failed,
    /// The command succeeded.
    Succeeded,
}

pub fn classify_exit(code: Option<i32>, success: bool) -> (r: Exit)
    ensures
        (code == Some(126i32) || code == Some(127i32)) ==> r == Exit::NoPassword,
        !(code == Some(126i32) || code == Some(127i32)) ==> r == (if success {
            Exit::Succeeded
        } else {
            Exit::Failed
        }),
{
    match code {
        Some(126) | Some(127) => Exit::NoPassword,
        _ => if success {
            Exit::Succeeded
        } else {
            Exit::Failed
        },
    }
}

/// The non-empty lines, white space trimmed, among the first `n` lines of a
/// text, which also pass the test `keep`.
pub open spec fn shown_lines(text: Seq<char>, n: nat, skip_stars: bool) -> Seq<Seq<char>> {
    let ls = lines(text);
    let first = ls.take(if ls.len() < n { ls.len() as int } else { n as int });
    first.map_values(|l: Seq<char>| trim_ws(l)).filter(
        |l: Seq<char>| l.len() > 0 && !(skip_stars && starts_with(l, seq!['*'])),
    )
}

/// The lines of the command's output shown in the log: of its first `n`
/// lines, the non-empty ones (trimmed), leaving out those that start with `*`
/// where `skip_stars` is set.
pub fn output_lines(text: &str, n: usize, skip_stars: bool) -> (r: Vec<String>)
    ensures
        views(r@) == shown_lines(text@, n as nat, skip_stars),
{
    let ls = lines_exec(text);
    let ghost lv = lines(text@);
    let m = if ls.len() < n {
        ls.len()
    } else {
        n
    };
    let ghost first = lv.take(m as int);
    let ghost trimmed = first.map_values(|l: Seq<char>| trim_ws(l));
    let ghost pred = |l: Seq<char>| l.len() > 0 && !(skip_stars && starts_with(l, seq!['*']));
    let mut r: Vec<String> = Vec::new();
    let mut i: usize = 0;
    assert(trimmed.take(0).filter(pred) =~= Seq::<Seq<char>>::empty()) by {
        reveal_with_fuel(Seq::<_>::filter, 1);
    }
    while i < m
        invariant
            i <= m,
            m <= ls@.len(),
            views(ls@) == lv,
            first == lv.take(m as int),
            trimmed == first.map_values(|l: Seq<char>| trim_ws(l)),
            pred == (|l: Seq<char>| l.len() > 0 && !(skip_stars && starts_with(l, seq!['*']))),
            views(r@) == trimmed.take(i as int).filter(pred),
        decreases m - i,
    {
        assert(views(ls@)[i as int] == ls@[i as int]@);
        let t = trim_ws_exec(ls[i].as_str());
        assert(trimmed[i as int] == t@);
        let keep = !t.as_str().is_empty() && !(skip_stars && str_starts_with(t.as_str(), "*"));
        proof {
            reveal_strlit("*");
            assert("*"@ =~= seq!['*']);
            reveal_with_fuel(Seq::<_>::filter, 1);
            assert(trimmed.take(i + 1).drop_last() =~= trimmed.take(i as int));
            assert(trimmed.take(i + 1).last() == t@);
            assert(keep == pred(t@));
        }
        if keep {
            assert(views(r@.push(t)) =~= views(r@).push(t@));
            r.push(t);
        }
        i = i + 1;
    }
    assert(trimmed.take(m as int) =~= trimmed);
    r
}

/// The first line of a text, trimmed, where it is not empty (a path printed by
/// `find` or `which`).
pub open spec fn first_line_of(text: Seq<char>) -> Option<Seq<char>> {
    let ls = lines(text);
    if ls.len() > 0 && trim_ws(ls[0]).len() > 0 {
        Some(trim_ws(ls[0]))
    } else {
        None
    }
}

pub fn first_line(text: &str) -> (r: Option<String>)
    ensures
        match r {
            Some(s) => first_line_of(text@) == Some(s@),
            None => first_line_of(text@) is None,
        },
{
    let ls = lines_exec(text);
    if ls.len() == 0 {
        return None;
    }
    assert(views(ls@)[0] == ls@[0]@);
    let t = trim_ws_exec(ls[0].as_str());
    if t.as_str().is_empty() {
        None
    } else {
        Some(t)
    }
}

/// The size in bytes that `lsblk -b -n -o SIZE` prints on its first line.
pub open spec fn size_of_listing(text: Seq<char>) -> Option<u64> {
    let ls = lines(text);
    parse_u64(trim_ws(if ls.len() > 0 { ls[0] } else { Seq::empty() }))
}

pub fn size_from_lsblk(text: &str) -> (r: Option<u64>)
    ensures
        r == size_of_listing(text@),
{
    let ls = lines_exec(text);
    if ls.len() == 0 {
        let t = trim_ws_exec("");
        proof {
            reveal_strlit("");
            assert(""@ =~= Seq::<char>::empty());
        }
        return parse_u64_exec(t.as_str());
    }
    assert(views(ls@)[0] == ls@[0]@);
    let t = trim_ws_exec(ls[0].as_str());
    parse_u64_exec(t.as_str())
}

/// What to do after checking whether the device shows Ventoy.
pub enum Check {
    /// Stop checking.
    Stop,
    /// Report this, wait a second (letting udev settle first where `settle`) and check again.
    Retry(String, bool),
}

/// The checks after installing: an update, or a device that shows Ventoy, ends
/// them; otherwise up to seven more checks follow (the eighth is the last),
/// each reported as `Verificando dispositivo... (k/7)`, and udev is let
/// settle before the fourth.
pub fn next_check(attempt: u64, installed: bool, is_update: bool) -> (r: Check)
    requires
        attempt < 8,
    ensures
        (installed || is_update || attempt == 7) ==> r is Stop,
        !(installed || is_update || attempt == 7) ==> (r matches Check::Retry(msg, settle)
            && msg@ == "Verificando dispositivo... ("@ + decimal((attempt + 1) as nat) + "/7)"@
            && settle == (attempt == 2)),
{
    if installed || is_update || attempt == 7 {
        Check::Stop
    } else {
        let mut msg = String::from_str("Verificando dispositivo... (");
        msg.append(decimal_exec(attempt + 1).as_str());
        msg.append("/7)");
        Check::Retry(msg, attempt == 2)
    }
}

/// What the dashboard offers for a drive: updating Ventoy where the drive
/// already carries it, installing it otherwise (the label key, and whether it
/// is an update).
pub open spec fn ventoy_action_of(has_ventoy: bool) -> (Seq<char>, bool) {
    if has_ventoy {
        ("dash_update_ventoy"@, true)
    } else {
        ("dash_install_ventoy"@, false)
    }
}

pub fn ventoy_action(has_ventoy: bool) -> (r: (&'static str, bool))
    ensures
        (r.0@, r.1) == ventoy_action_of(has_ventoy),
{
    if has_ventoy {
        ("dash_update_ventoy", true)
    } else {
        ("dash_install_ventoy", false)
    }
}

/// Lines reported at one level, none of them final.
pub open spec fn as_reports(ls: Seq<Seq<char>>, level: LogLevel) -> Seq<(Seq<char>, LogLevel, bool)> {
    ls.map_values(|l: Seq<char>| (l, level, false))
}

/// The messages that close an installation, once the privileged command has
/// exited (and, after a success, the device has been checked): without a
/// password it is cancelled; a failure shows the first lines of its error
/// output and then of its output; a success shows the first lines of the
/// output where Ventoy is now visible (or it was an update) and is reported
/// as such, and otherwise ends in warnings.
pub open spec fn closing_of(
    exit: Exit,
    is_update: bool,
    installed: bool,
    stdout: Seq<char>,
    stderr: Seq<char>,
) -> Seq<(Seq<char>, LogLevel, bool)> {
    match exit {
        Exit::NoPassword => seq![
            ("Cancelado: no se proporciono la contrasena de administrador."@, LogLevel::Warn, true),
        ],
        Exit::Failed => (as_reports(shown_lines(stderr, 6, false), LogLevel::Error) + as_reports(
            shown_lines(stdout, 6, false),
            LogLevel::Error,
        )).push(("Instalacion fallida. Revisa los logs."@, LogLevel::Error, true)),
        Exit::Succeeded => if is_update || installed {
            as_reports(shown_lines(stdout, 5, true), LogLevel::Info).push(
                ("Ventoy instalado correctamente!"@, LogLevel::Success, true),
            )
        } else {
            seq![
                ("Ventoy2Disk.sh termino sin errores pero las particiones aun no son visibles."@, LogLevel::Warn, false),
                ("Intenta desconectar y reconectar el USB \u{2014} es posible que Ventoy si quedo instalado."@, LogLevel::Warn, false),
                ("Instalacion posiblemente exitosa \u{2014} reconecta el dispositivo para confirmar."@, LogLevel::Warn, true),
            ]
        },
    }
}

fn push_reports(r: &mut Vec<Report>, lines: Vec<String>, level: LogLevel)
    ensures
        reports_view(final(r)@) == reports_view(old(r)@) + as_reports(views(lines@), level),
{
    let ghost r0 = reports_view(r@);
    let mut i: usize = 0;
    let ghost lv = views(lines@);
    while i < lines.len()
        invariant
            i <= lines.len(),
            lv == views(lines@),
            lv.len() == lines@.len(),
            reports_view(r@) == r0 + as_reports(lv.take(i as int), level),
        decreases lines.len() - i,
    {
        assert(lv[i as int] == lines@[i as int]@);
        let m = lines[i].clone();
        assert(as_reports(lv.take(i + 1), level) =~= as_reports(lv.take(i as int), level).push(
            (lv[i as int], level, false),
        ));
        assert(reports_view(r@.push(Report { message: m, level, done: false })) =~= reports_view(r@).push(
            (lv[i as int], level, false),
        ));
        r.push(Report { message: m, level, done: false });
        i = i + 1;
    }
    assert(lv.take(lines.len() as int) =~= lv);
}

fn push_report(r: &mut Vec<Report>, msg: &str, level: LogLevel, done: bool)
    ensures
        reports_view(final(r)@) == reports_view(old(r)@).push((msg@, level, done)),
{
    let ghost r0 = r@;
    r.push(Report { message: String::from_str(msg), level, done });
    assert(reports_view(r@) =~= reports_view(r0).push((msg@, level, done)));
}

/// The closing messages of an installation (see [`closing_of`]).
pub fn closing_reports(exit: Exit, is_update: bool, installed: bool, stdout: &str, stderr: &str) -> (r: Vec<Report>)
    ensures
        reports_view(r@) == closing_of(exit, is_update, installed, stdout@, stderr@),
{
    let mut r: Vec<Report> = Vec::new();
    assert(reports_view(r@) =~= Seq::<(Seq<char>, LogLevel, bool)>::empty());
    match exit {
        Exit::NoPassword => {
            push_report(&mut r, "Cancelado: no se proporciono la contrasena de administrador.", LogLevel::Warn, true);
            assert(reports_view(r@) =~= closing_of(exit, is_update, installed, stdout@, stderr@));
        },
        Exit::Failed => {
            push_reports(&mut r, output_lines(stderr, 6, false), LogLevel::Error);
            push_reports(&mut r, output_lines(stdout, 6, false), LogLevel::Error);
            push_report(&mut r, "Instalacion fallida. Revisa los logs.", LogLevel::Error, true);
            assert(reports_view(r@) =~= closing_of(exit, is_update, installed, stdout@, stderr@));
        },
        Exit::Succeeded => {
            if is_update || installed {
                push_reports(&mut r, output_lines(stdout, 5, true), LogLevel::Info);
                push_report(&mut r, "Ventoy instalado correctamente!", LogLevel::Success, true);
                assert(reports_view(r@) =~= closing_of(exit, is_update, installed, stdout@, stderr@));
            } else {
                push_report(
                    &mut r,
                    "Ventoy2Disk.sh termino sin errores pero las particiones aun no son visibles.",
                    LogLevel::Warn,
                    false,
                );
                push_report(
                    &mut r,
                    "Intenta desconectar y reconectar el USB \u{2014} es posible que Ventoy si quedo instalado.",
                    LogLevel::Warn,
                    false,
                );
                push_report(
                    &mut r,
                    "Instalacion posiblemente exitosa \u{2014} reconecta el dispositivo para confirmar.",
                    LogLevel::Warn,
                    true,
                );
                assert(reports_view(r@) =~= closing_of(exit, is_update, installed, stdout@, stderr@));
            }
        },
    }
    r
}

/// The closing of an installation has exactly one final message, and it is
/// the last; it reports success exactly when the command succeeded and it was
/// an update or the device now shows Ventoy, and no other message reports
/// success.
pub proof fn lemma_closing_protocol(exit: Exit, is_update: bool, installed: bool, stdout: Seq<char>, stderr: Seq<char>)
    ensures
        ({
            let c = closing_of(exit, is_update, installed, stdout, stderr);
            &&& c.len() > 0
            &&& c.last().2
            &&& forall|i: int| 0 <= i < c.len() - 1 ==> !(#[trigger] c[i]).2
            &&& (c.last().1 == LogLevel::Success) == (exit == Exit::Succeeded && (is_update || installed))
            &&& forall|i: int| 0 <= i < c.len() - 1 ==> (#[trigger] c[i]).1 != LogLevel::Success
        }),
{
    let c = closing_of(exit, is_update, installed, stdout, stderr);
    match exit {
        Exit::Failed => {
            let a = as_reports(shown_lines(stderr, 6, false), LogLevel::Error) + as_reports(
                shown_lines(stdout, 6, false),
                LogLevel::Error,
            );
            assert forall|i: int| 0 <= i < c.len() - 1 implies !(#[trigger] c[i]).2 && c[i].1 != LogLevel::Success by {
                assert(c[i] == a[i]);
            }
        },
        Exit::Succeeded => {
            if is_update || installed {
                let a = as_reports(shown_lines(stdout, 5, true), LogLevel::Info);
                assert forall|i: int| 0 <= i < c.len() - 1 implies !(#[trigger] c[i]).2 && c[i].1 != LogLevel::Success by {
                    assert(c[i] == a[i]);
                }
            }
        },
        Exit::NoPassword => {},
    }
}

// ---------------------------------------------------------------------------
// The steps before the privileged command
// ---------------------------------------------------------------------------

/// The stages of an installation, in order.
#[derive(PartialEq, Eq, Structural, Clone, Copy, Debug)]
pub enum Stage {
    /// Checking the device and reading its size.
    Checking,
    /// Looking for `Ventoy2Disk.sh` on the machine.
    Searching,
    /// Downloading the Ventoy release.
    Fetching,
    /// Unpacking the release and finding the script in it.
    Extracting,
    /// Running the privileged command; the steps end here.
    Running,
}

/// How the work of a stage ended.
pub enum Event {
    /// It succeeded: the device is there, or the script was found, fetched or unpacked.
    Done,
    /// What the stage looks for is not there.
    Missing,
    /// It failed, with this message.
    Failed(String),
}

/// What follows a stage.
pub enum Next {
    /// Go on with this stage.
    Go(Stage),
    /// The installation ends with this final message, at this level.
    Stop(String, LogLevel),
}

/// The position of a stage in the order of the installation.
pub open spec fn rank(s: Stage) -> int {
    match s {
        Stage::Checking => 0,
        Stage::Searching => 1,
        Stage::Fetching => 2,
        Stage::Extracting => 3,
        Stage::Running => 4,
    }
}

/// After a stage: a failure ends the installation with its message; a script
/// that is not on the machine is downloaded; a missing device, download or
/// packaged script ends it with an error; a stage that succeeded leads on,
/// unless the user asked to cancel, which ends it with a warning.
pub open spec fn step_of(stage: Stage, ev: Event, cancel: bool, path: Seq<char>) -> Result<
    Stage,
    (Seq<char>, LogLevel),
> {
    match ev {
        Event::Failed(m) => Err((m@, LogLevel::Error)),
        Event::Missing => match stage {
            Stage::Searching => Ok(Stage::Fetching),
            Stage::Checking => Err(("Dispositivo "@ + path + " no encontrado"@, LogLevel::Error)),
            Stage::Fetching => Err(("Descarga fallida. Instala manualmente: paru -S ventoy"@, LogLevel::Error)),
            _ => Err(("No se encontro Ventoy2Disk.sh en el paquete"@, LogLevel::Error)),
        },
        Event::Done => if cancel {
            Err(("Cancelado"@, LogLevel::Warn))
        } else {
            Ok(
                match stage {
                    Stage::Checking => Stage::Searching,
                    Stage::Fetching => Stage::Extracting,
                    _ => Stage::Running,
                },
            )
        },
    }
}

/// The stage that follows `stage` (which is not `Running`) after `ev`, with
/// `cancel` telling whether the user asked to stop.
pub fn install_step(stage: Stage, ev: Event, cancel: bool, path: &str) -> (r: Next)
    requires
        stage != Stage::Running,
    ensures
        match r {
            Next::Go(s) => step_of(stage, ev, cancel, path@) == Ok::<Stage, (Seq<char>, LogLevel)>(s),
            Next::Stop(m, l) => step_of(stage, ev, cancel, path@) == Err::<Stage, (Seq<char>, LogLevel)>((m@, l)),
        },
{
    match ev {
        Event::Failed(m) => Next::Stop(m, LogLevel::Error),
        Event::Missing => match stage {
            Stage::Searching => Next::Go(Stage::Fetching),
            Stage::Checking => {
                let mut m = String::from_str("Dispositivo ");
                m.append(path);
                m.append(" no encontrado");
                Next::Stop(m, LogLevel::Error)
            },
            Stage::Fetching => Next::Stop(
                String::from_str("Descarga fallida. Instala manualmente: paru -S ventoy"),
                LogLevel::Error,
            ),
            _ => Next::Stop(String::from_str("No se encontro Ventoy2Disk.sh en el paquete"), LogLevel::Error),
        },
        Event::Done => if cancel {
            Next::Stop(String::from_str("Cancelado"), LogLevel::Warn)
        } else {
            Next::Go(
                match stage {
                    Stage::Checking => Stage::Searching,
                    Stage::Fetching => Stage::Extracting,
                    _ => Stage::Running,
                },
            )
        },
    }
}

/// The steps of an installation: each step moves forward (so there are at
/// most four before the privileged command); a stop is never a success; a
/// cancel seen after a stage that succeeded ends the installation with one
/// final warning; and the privileged command is reached only where no cancel
/// was seen.
pub proof fn lemma_install_steps(stage: Stage, ev: Event, cancel: bool, path: Seq<char>)
    requires
        stage != Stage::Running,
    ensures
        step_of(stage, ev, cancel, path) matches Ok(next) ==> rank(next) > rank(stage),
        step_of(stage, ev, cancel, path) matches Err((_, l)) ==> l != LogLevel::Success,
        (cancel && ev is Done) ==> step_of(stage, ev, cancel, path) == Err::<Stage, (Seq<char>, LogLevel)>(
            ("Cancelado"@, LogLevel::Warn),
        ),
        step_of(stage, ev, cancel, path) == Ok::<Stage, (Seq<char>, LogLevel)>(Stage::Running) ==> !cancel,
{
}

} // verus!
