use isoflash::catalog::load_catalog;
use isoflash::downloads::{
    DlReport,
    button_for, choose_distro, clear_done, content_length, enqueue, is_queued, restore,
    safe_name, saved_positions, saved_queue_from_json, saved_status, validate_download_dir,
    Choice, Download, DownloadButton, DownloadStatus,
};
use isoflash::settings::Translations;

const CATALOG: &str = r#"{"distros": [
  {"id": "mint", "name": "Linux Mint 22 (Cinnamon)", "size_mb": 2800, "url": "https://m/mint.iso"},
  {"id": "w", "name": "Windows 11", "is_windows": true, "url": "https://w"}
]}"#;

fn dl(url: &str, status: DownloadStatus) -> Download<u32> {
    Download {
        name: url.to_string(),
        url: url.to_string(),
        display_size: String::new(),
        dest_path: String::new(),
        status,
        speed: String::new(),
        runtime: 0,
    }
}

#[test]
fn safe_names() {
    assert_eq!(safe_name("Linux Mint 22 (Cinnamon)"), "Linux_Mint_22__Cinnamon_");
    assert_eq!(safe_name("open-SUSE_Leap 15.6"), "open-SUSE_Leap_15_6");
    assert_eq!(safe_name("Ñandú ü"), "Ñandú_ü");
}

#[test]
fn choosing_a_distribution() {
    let c = load_catalog(CATALOG);
    let mut list: Vec<Download<u32>> = Vec::new();
    match choose_distro(&c[0], &list, "/home/u/ISOs", 7) {
        Choice::Queue(x) => {
            assert_eq!(x.name, "Linux Mint 22 (Cinnamon)");
            assert_eq!(x.url, "https://m/mint.iso");
            assert_eq!(x.display_size, "2800 MB");
            assert_eq!(x.dest_path, "/home/u/ISOs/Linux_Mint_22__Cinnamon_.iso");
            assert!(matches!(x.status, DownloadStatus::Queued));
            assert_eq!(x.runtime, 7);
            assert!(enqueue(&mut list, x));
        }
        _ => panic!("a new distribution is queued"),
    }
    assert!(matches!(choose_distro(&c[0], &list, "/x", 0), Choice::AlreadyQueued));
    match choose_distro(&c[1], &list, "/x", 0) {
        Choice::WindowsHelp(n) => assert_eq!(n, "Windows 11"),
        _ => panic!("Windows images get instructions"),
    }
}

#[test]
fn enqueue_keeps_urls_distinct() {
    let mut list = vec![dl("a", DownloadStatus::Queued)];
    assert!(!enqueue(&mut list, dl("a", DownloadStatus::Paused)));
    assert!(enqueue(&mut list, dl("b", DownloadStatus::Paused)));
    assert_eq!(list.len(), 2);
    assert!(is_queued(&list, "b"));
    assert!(!is_queued(&list, "c"));
}

#[test]
fn clearing_finished_downloads() {
    let mut list = vec![
        dl("a", DownloadStatus::Done),
        dl("b", DownloadStatus::Paused),
        dl("c", DownloadStatus::Done),
        dl("d", DownloadStatus::Error("x".to_string())),
    ];
    clear_done(&mut list);
    let urls: Vec<&str> = list.iter().map(|d| d.url.as_str()).collect();
    assert_eq!(urls, vec!["b", "d"]);
}

#[test]
fn life_of_a_download() {
    let mut d = dl("u", DownloadStatus::Queued);
    assert!(d.begin());
    assert!(matches!(d.status, DownloadStatus::Downloading));
    assert_eq!(d.speed, "Conectando...");
    assert!(!d.begin());
    assert!(!d.apply_report(false, None, "1 MB/s".to_string()));
    assert_eq!(d.speed, "1 MB/s");
    assert!(d.apply_report(true, Some("__PAUSED__".to_string()), String::new()));
    assert!(matches!(d.status, DownloadStatus::Paused));
    assert!(d.begin());
    assert!(d.apply_report(false, Some("Descarga fallida".to_string()), String::new()));
    assert!(matches!(&d.status, DownloadStatus::Error(m) if m == "Descarga fallida"));
    assert!(d.begin());
    assert!(d.apply_report(true, None, String::new()));
    assert!(matches!(d.status, DownloadStatus::Done));
}

#[test]
fn buttons() {
    assert_eq!(button_for(&DownloadStatus::Done, false), DownloadButton::Open);
    assert_eq!(button_for(&DownloadStatus::Downloading, false), DownloadButton::Pause);
    assert_eq!(button_for(&DownloadStatus::Paused, true), DownloadButton::Resume);
    assert_eq!(button_for(&DownloadStatus::Queued, true), DownloadButton::Start);
    assert_eq!(button_for(&DownloadStatus::Error(String::new()), false), DownloadButton::Nothing);
}

#[test]
fn saved_queue() {
    let list = vec![
        dl("a", DownloadStatus::Done),
        dl("b", DownloadStatus::Downloading),
        dl("c", DownloadStatus::Error("e".to_string())),
    ];
    assert_eq!(saved_positions(&list), vec![1, 2]);
    assert_eq!(saved_status(&list[1].status), "paused");
    assert_eq!(saved_status(&list[2].status), "error");
    assert_eq!(saved_status(&list[0].status), "done");
    let saved = saved_queue_from_json(
        r#"[{"name": "A", "url": "u", "dest_path": "/p", "progress": 0.25, "status": "paused"},
           {"name": "B", "url": "v"},
           {"name": "C", "url": "w", "dest_path": "/q", "display_size": "3 MB"}]"#,
    );
    assert_eq!(saved.len(), 2);
    assert_eq!(saved[0].name, "A");
    assert_eq!(saved[0].display_size, "");
    assert_eq!(saved[0].progress.as_deref(), Some("0.25"));
    assert_eq!(saved[1].display_size, "3 MB");
    assert_eq!(saved[1].progress, None);
    let d = restore(saved_queue_from_json(r#"[{"name": "A", "url": "u", "dest_path": "/p"}]"#).remove(0), 1u8);
    assert!(matches!(d.status, DownloadStatus::Paused));
    assert_eq!(d.dest_path, "/p");
    assert!(saved_queue_from_json("{}").is_empty());
}

#[test]
fn content_lengths() {
    let h = "HTTP/1.1 302 Found\r\nLocation: x\r\n\r\nHTTP/2 200\r\ncontent-length: 2147483648\r\n";
    assert_eq!(content_length(h), 2147483648);
    assert_eq!(content_length("Content-Length:  42 \n"), 42);
    assert_eq!(content_length("Content-Length: abc\nContent-Length: 5\n"), 0);
    assert_eq!(content_length("Server: x\n"), 0);
}

#[test]
fn download_folder_checks() {
    let t = Translations::from_json(r#"{"cfg_path_empty": "Empty"}"#);
    assert_eq!(validate_download_dir("", false, false, &t), Err("Empty".to_string()));
    assert_eq!(validate_download_dir("/x", false, false, &t), Err("cfg_path_not_exist".to_string()));
    assert_eq!(validate_download_dir("/x", true, false, &t), Err("cfg_path_not_dir".to_string()));
    assert_eq!(validate_download_dir("/x", true, true, &t), Ok(()));
}

#[test]
fn safe_names_keep_no_separator() {
    let n = safe_name("Ubuntu 24.04 / Server\tLTS.iso");
    assert_eq!(n.chars().count(), "Ubuntu 24.04 / Server\tLTS.iso".chars().count());
    assert!(n.chars().all(|c| c.is_ascii_alphanumeric() || c == '-' || c == '_'));
    assert_eq!(safe_name(&n), n);
    assert_eq!(safe_name("Año-ñ_x.y"), "Año-ñ_x_y");
}

fn rep(done: bool, error: Option<&str>, speed: &str) -> DlReport {
    DlReport { done, error: error.map(|e| e.to_string()), speed: speed.to_string() }
}

#[test]
fn queued_download_reports() {
    let mut d = dl("u", DownloadStatus::Downloading);
    let rs = vec![rep(false, None, "1 MB/s"), rep(false, None, "2 MB/s"), rep(true, None, ""), rep(false, None, "9 MB/s")];
    assert_eq!(d.take_reports(&rs), 3);
    assert!(matches!(d.status, DownloadStatus::Done));
    assert_eq!(d.speed, "2 MB/s");
    let mut d = dl("u", DownloadStatus::Downloading);
    assert_eq!(d.take_reports(&vec![rep(false, None, "3 MB/s")]), 1);
    assert!(matches!(d.status, DownloadStatus::Downloading));
    assert_eq!(d.speed, "3 MB/s");
    let mut d = dl("u", DownloadStatus::Downloading);
    assert_eq!(d.take_reports(&vec![rep(false, Some("__PAUSED__"), ""), rep(true, None, "")]), 1);
    assert!(matches!(d.status, DownloadStatus::Paused));
    let mut d = dl("u", DownloadStatus::Downloading);
    assert_eq!(d.take_reports(&vec![rep(false, Some("Descarga fallida"), "")]), 1);
    assert!(matches!(&d.status, DownloadStatus::Error(e) if e == "Descarga fallida"));
    assert_eq!(d.take_reports(&vec![]), 0);
}
