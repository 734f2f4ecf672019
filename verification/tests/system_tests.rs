use isoflash::devices::{
    is_partition_of, mentions_ventoy, sysfs_usb_drive, usb_drives_from_lsblk, SysfsDevice,
};
use isoflash::install::{
    classify_exit, closing_reports, device_name, first_line, install_command, install_flag,
    install_step, next_check, output_lines, size_from_lsblk, ventoy_action, Check, Event, Exit,
    Next, Stage,
};
use isoflash::oplog::{clock, LogLevel, Operation, Outcome, Report};
use isoflash::paths::{is_disk_image, path_suggestions, typed_path_parts};
use isoflash::schedule::Schedule;
use isoflash::settings::Translations;

const LSBLK: &str = r#"{"blockdevices": [
  {"name": "sda", "size": 512110190592, "model": "Samsung SSD", "tran": "sata", "type": "disk"},
  {"name": "sdb", "size": 31004295168, "model": " SanDisk Ultra  ", "tran": "usb", "type": "disk"},
  {"name": "sdc", "size": "16000000000", "model": null, "tran": "usb", "type": "disk"},
  {"name": "sdb1", "size": 100, "tran": "usb", "type": "part"}
]}"#;

#[test]
fn lsblk_usb_disks() {
    let d = usb_drives_from_lsblk(LSBLK).unwrap();
    assert_eq!(d.len(), 2);
    assert_eq!(d[0].name, "sdb");
    assert_eq!(d[0].model, "SanDisk Ultra");
    assert_eq!(d[0].size_bytes, 31004295168);
    assert_eq!(d[0].path, "/dev/sdb");
    assert_eq!(d[1].model, "USB Device");
    assert_eq!(d[1].size_bytes, 16000000000);
    assert!(usb_drives_from_lsblk("{}").is_none());
    assert!(usb_drives_from_lsblk("lsblk: failed").is_none());
}

fn sys(name: &str, removable: Option<&str>, uevent: Option<&str>, size: Option<&str>, model: Option<&str>) -> SysfsDevice {
    SysfsDevice {
        name: name.to_string(),
        removable: removable.map(|s| s.to_string()),
        uevent: uevent.map(|s| s.to_string()),
        size: size.map(|s| s.to_string()),
        model: model.map(|s| s.to_string()),
    }
}

#[test]
fn sysfs_usb_disks() {
    let d = sysfs_usb_drive(&sys("sdb", Some("1\n"), Some("DRIVER=usb-storage"), Some("60566016\n"), Some("Cruzer  \n"))).unwrap();
    assert_eq!(d.size_bytes, 60566016 * 512);
    assert_eq!(d.model, "Cruzer");
    assert_eq!(d.path, "/dev/sdb");
    let d = sysfs_usb_drive(&sys("vda", Some("1"), None, None, None)).unwrap();
    assert_eq!(d.model, "USB Device");
    assert_eq!(d.size_bytes, 0);
    assert!(sysfs_usb_drive(&sys("nvme0n1", Some("1"), None, None, None)).is_none());
    assert!(sysfs_usb_drive(&sys("sda", Some("0"), None, None, None)).is_none());
    assert!(sysfs_usb_drive(&sys("sda", None, None, None, None)).is_none());
    assert!(sysfs_usb_drive(&sys("sda", Some("1"), Some("DRIVER=ahci"), None, None)).is_none());
}

#[test]
fn ventoy_detection() {
    assert!(mentions_ventoy("NAME LABEL\nsdb1 Ventoy\nsdb2 VTOYEFI\n"));
    assert!(!mentions_ventoy("sdb1 DATA\n"));
    assert!(is_partition_of("sdb1", "sdb"));
    assert!(!is_partition_of("sdb", "sdb"));
    assert!(!is_partition_of("sdc1", "sdb"));
}

#[test]
fn install_commands() {
    assert_eq!(install_flag(true), "-u");
    assert_eq!(install_flag(false), "-I");
    assert_eq!(
        install_command("/opt/ventoy", "/opt/ventoy/Ventoy2Disk.sh", false, "/dev/sdb"),
        "cd '/opt/ventoy' && export PATH=\"$PWD/tool/x86_64:$PATH\" && printf 'y\\ny\\ny\\n' | '/opt/ventoy/Ventoy2Disk.sh' -I '/dev/sdb' && partprobe '/dev/sdb' ; partx -u '/dev/sdb' ; udevadm settle --timeout=10"
    );
    assert_eq!(device_name("/dev/sdb"), "sdb");
    assert_eq!(device_name("sdc"), "sdc");
}

#[test]
fn exits() {
    assert_eq!(classify_exit(Some(126), false), Exit::NoPassword);
    assert_eq!(classify_exit(Some(127), true), Exit::NoPassword);
    assert_eq!(classify_exit(Some(1), false), Exit::Failed);
    assert_eq!(classify_exit(None, false), Exit::Failed);
    assert_eq!(classify_exit(Some(0), true), Exit::Succeeded);
}

#[test]
fn shown_output_lines() {
    let err = "  \nline one\n\n  two  \nthree\nfour\nfive\nsix\n";
    assert_eq!(output_lines(err, 6, false), vec!["line one", "two", "three", "four"]);
    let out = "* banner\nInstall Ventoy to /dev/sdb successfully finished.\n\n";
    assert_eq!(output_lines(out, 5, true), vec!["Install Ventoy to /dev/sdb successfully finished."]);
    assert_eq!(first_line("  /opt/ventoy/Ventoy2Disk.sh \n/other\n"), Some("/opt/ventoy/Ventoy2Disk.sh".to_string()));
    assert_eq!(first_line(""), None);
    assert_eq!(first_line("   \nx"), None);
    assert_eq!(size_from_lsblk(" 31004295168\n  1048576\n"), Some(31004295168));
    assert_eq!(size_from_lsblk(""), None);
}

#[test]
fn checks_after_installing() {
    assert!(matches!(next_check(0, true, false), Check::Stop));
    assert!(matches!(next_check(3, false, true), Check::Stop));
    assert!(matches!(next_check(7, false, false), Check::Stop));
    match next_check(2, false, false) {
        Check::Retry(m, settle) => {
            assert_eq!(m, "Verificando dispositivo... (3/7)");
            assert!(settle);
        }
        Check::Stop => panic!("checks go on"),
    }
    match next_check(0, false, false) {
        Check::Retry(m, settle) => {
            assert_eq!(m, "Verificando dispositivo... (1/7)");
            assert!(!settle);
        }
        Check::Stop => panic!("checks go on"),
    }
}

#[test]
fn clock_text() {
    assert_eq!(clock(0), "00:00:00");
    assert_eq!(clock(3661), "01:01:01");
    assert_eq!(clock(86399 + 86400 * 3), "23:59:59");
}

#[test]
fn operation_log() {
    let t = Translations::from_json(
        r#"{"ventoy_installing": "Installing Ventoy on {0}", "ventoy_installing_action": "Starting"}"#,
    );
    let mut op = Operation::idle();
    assert_eq!(op.outcome(), Outcome::Cancelled);
    assert!(op.start_install(&t, "/dev/sdb", false));
    assert!(op.active);
    assert_eq!(op.label, "Installing Ventoy on /dev/sdb");
    assert_eq!(op.logs.len(), 1);
    assert_eq!(op.logs[0].message, "Starting install /dev/sdb");
    assert_eq!(op.logs[0].timestamp.len(), 8);
    assert!(!op.start_install(&t, "/dev/sdc", true));
    assert_eq!(op.label, "Installing Ventoy on /dev/sdb");
    assert!(!op.report("step", LogLevel::Info, false));
    assert!(op.active);
    assert!(op.report("done", LogLevel::Success, true));
    assert!(!op.active);
    assert_eq!(op.outcome(), Outcome::Completed);
    op.log("bad", LogLevel::Error);
    assert_eq!(op.outcome(), Outcome::WithErrors);
    let mut op2 = Operation::idle();
    assert!(op2.start_install(&t, "/dev/sdb", true));
    assert_eq!(op2.label, "ventoy_updating");
    assert_eq!(op2.logs[0].message, "ventoy_updating_action update /dev/sdb");
    op2.cancel("Operacion cancelada por el usuario");
    assert!(!op2.active);
    assert_eq!(op2.outcome(), Outcome::Cancelled);
}

#[test]
fn schedule_of_background_work() {
    let mut s = Schedule::new();
    assert!(s.scan_due(0));
    assert!(!s.scan_due(5000));
    s.scan_done();
    assert!(!s.scan_due(1999));
    assert!(s.scan_due(2000));
    s.scan_done();
    assert!(s.net_check_due(2000));
    assert!(!s.net_check_due(40000));
    s.net_checked(true);
    assert!(s.catalog_due(2000));
    assert!(!s.catalog_due(2001));
    s.catalog_fetched(3000, true);
    assert!(s.notice_shown(7000));
    assert!(!s.notice_shown(7001));
    assert!(!s.catalog_due(303000));
    assert!(s.catalog_due(303001));
    s.installed(10000);
    s.rescan_due(11499);
    assert!(!s.scan_due(3000));
    s.rescan_due(11500);
    assert!(s.scan_due(3000));
}

#[test]
fn disk_images_and_suggestions() {
    assert!(is_disk_image("ubuntu.ISO"));
    assert!(is_disk_image("disk.img"));
    assert!(!is_disk_image(".iso"));
    assert!(!is_disk_image("notes.txt"));
    assert!(!is_disk_image("README"));
    assert!(is_disk_image("a.b.iso"));
    let names: Vec<String> = ["Downloads", "Desktop", "docs", "Music", "dev", "data", "dx", "dy", "dz"]
        .iter()
        .map(|s| s.to_string())
        .collect();
    assert_eq!(
        path_suggestions("/home/u/", "D", &names),
        vec![
            "/home/u/Downloads",
            "/home/u/Desktop",
            "/home/u/docs",
            "/home/u/dev",
            "/home/u/data",
            "/home/u/dx"
        ]
    );
    assert_eq!(path_suggestions("/home/u", "mu", &names), vec!["/home/u/Music"]);
}

fn closing(exit: Exit, is_update: bool, installed: bool, out: &str, err: &str) -> Vec<(String, LogLevel, bool)> {
    closing_reports(exit, is_update, installed, out, err)
        .into_iter()
        .map(|r| (r.message, r.level, r.done))
        .collect()
}

#[test]
fn closing_an_installation() {
    let c = closing(Exit::NoPassword, false, false, "x", "y");
    assert_eq!(
        c,
        vec![(
            "Cancelado: no se proporciono la contrasena de administrador.".to_string(),
            LogLevel::Warn,
            true
        )]
    );
    let c = closing(Exit::Failed, false, false, "out1\n\n out2 ", "err1\n");
    assert_eq!(
        c,
        vec![
            ("err1".to_string(), LogLevel::Error, false),
            ("out1".to_string(), LogLevel::Error, false),
            ("out2".to_string(), LogLevel::Error, false),
            ("Instalacion fallida. Revisa los logs.".to_string(), LogLevel::Error, true),
        ]
    );
    let c = closing(Exit::Succeeded, false, true, "* banner\nInstall done\n", "");
    assert_eq!(
        c,
        vec![
            ("Install done".to_string(), LogLevel::Info, false),
            ("Ventoy instalado correctamente!".to_string(), LogLevel::Success, true),
        ]
    );
    let c = closing(Exit::Succeeded, false, false, "Install done", "");
    assert_eq!(c.len(), 3);
    assert!(c.iter().all(|m| m.1 == LogLevel::Warn));
    assert!(c[2].2 && !c[0].2 && !c[1].2);
    assert_eq!(
        c[2].0,
        "Instalacion posiblemente exitosa \u{2014} reconecta el dispositivo para confirmar."
    );
}

#[test]
fn dashboard_offers_update_where_ventoy_is() {
    assert_eq!(ventoy_action(true), ("dash_update_ventoy", true));
    assert_eq!(ventoy_action(false), ("dash_install_ventoy", false));
}

#[test]
fn clearing_the_log() {
    let t = Translations::from_json(r#"{}"#);
    let mut op = Operation::idle();
    assert!(op.start_install(&t, "/dev/sdb", false));
    op.toggle_details();
    assert!(op.logs_expanded);
    assert!(!op.clear_logs());
    assert_eq!(op.logs.len(), 1);
    op.cancel("stop");
    assert_eq!(op.label, "ventoy_installing");
    assert!(op.logs_expanded);
    assert!(op.clear_logs());
    assert!(op.logs.is_empty() && !op.logs_expanded);
}

fn step(stage: Stage, ev: Event, cancel: bool) -> Result<Stage, (String, LogLevel)> {
    match install_step(stage, ev, cancel, "/dev/sdb") {
        Next::Go(s) => Ok(s),
        Next::Stop(m, l) => Err((m, l)),
    }
}

#[test]
fn steps_before_the_privileged_command() {
    assert_eq!(step(Stage::Checking, Event::Done, false), Ok(Stage::Searching));
    assert_eq!(step(Stage::Searching, Event::Done, false), Ok(Stage::Running));
    assert_eq!(step(Stage::Searching, Event::Missing, true), Ok(Stage::Fetching));
    assert_eq!(step(Stage::Fetching, Event::Done, false), Ok(Stage::Extracting));
    assert_eq!(step(Stage::Extracting, Event::Done, false), Ok(Stage::Running));
    for s in [Stage::Checking, Stage::Searching, Stage::Fetching, Stage::Extracting] {
        assert_eq!(step(s, Event::Done, true), Err(("Cancelado".to_string(), LogLevel::Warn)));
        assert_eq!(
            step(s, Event::Failed("Error: boom".into()), false),
            Err(("Error: boom".to_string(), LogLevel::Error))
        );
    }
    assert_eq!(
        step(Stage::Checking, Event::Missing, false),
        Err(("Dispositivo /dev/sdb no encontrado".to_string(), LogLevel::Error))
    );
    assert_eq!(
        step(Stage::Fetching, Event::Missing, false),
        Err(("Descarga fallida. Instala manualmente: paru -S ventoy".to_string(), LogLevel::Error))
    );
    assert_eq!(
        step(Stage::Extracting, Event::Missing, false),
        Err(("No se encontro Ventoy2Disk.sh en el paquete".to_string(), LogLevel::Error))
    );
}

#[test]
fn typed_paths() {
    assert_eq!(typed_path_parts(""), None);
    assert_eq!(typed_path_parts("/home/u/"), Some(("/home/u/".to_string(), String::new())));
    assert_eq!(typed_path_parts("/home/u/Do"), Some(("/home/u".to_string(), "Do".to_string())));
    assert_eq!(typed_path_parts("/ho"), Some(("/".to_string(), "ho".to_string())));
    assert_eq!(typed_path_parts("Do"), Some((String::new(), "Do".to_string())));
}

#[test]
fn queued_operation_reports() {
    let t = Translations::from_json(r#"{}"#);
    let mut op = Operation::idle();
    assert!(op.start_install(&t, "/dev/sdb", true));
    let r = |m: &str, level: LogLevel, done: bool| Report { message: m.to_string(), level, done };
    let rs = vec![r("a", LogLevel::Info, false), r("ok", LogLevel::Success, true), r("late", LogLevel::Info, false)];
    assert_eq!(op.take_reports(&rs), 2);
    assert!(!op.active);
    assert_eq!(op.logs.len(), 3);
    assert_eq!(op.logs[1].message, "a");
    assert_eq!(op.logs[2].level, LogLevel::Success);
    assert_eq!(op.outcome(), Outcome::Completed);
    let mut op = Operation::idle();
    assert!(op.start_install(&t, "/dev/sdb", false));
    assert_eq!(op.take_reports(&vec![r("x", LogLevel::Info, false)]), 1);
    assert!(op.active);
}
