use isoflash::catalog::{
    cat_badge, load_catalog, parse_category, refresh_catalog, remote_catalog_ok,
    visible_distros, windows_download_page, CatalogState, Category, Rgb, Theme,
};
use isoflash::settings::Translations;

const CATALOG: &str = r#"{
  "distros": [
    {"id": "arch", "name": "Arch Linux", "logo": "arch.svg", "description": "Rolling and minimal",
     "category": "rolling", "arch": "x86_64", "size_mb": 1100, "url": "https://a/arch.iso"},
    {"id": "debian", "name": "Debian 12", "category": "lts", "size_mb": 650, "url": "https://d/debian.iso"},
    {"name": "No id"},
    {"id": "win11", "name": "Windows 11", "category": "windows", "is_windows": true, "size_mb": "big"},
    {"id": "old", "name": "Old32", "category": "mystery", "arch": "i386", "description": "LEGACY box"}
  ]
}"#;

#[test]
fn parse_category_names() {
    assert_eq!(parse_category("rolling"), Category::Rolling);
    assert_eq!(parse_category("nosystemd"), Category::NoSystemd);
    assert_eq!(parse_category("windows"), Category::Windows);
    assert_eq!(parse_category("Rolling"), Category::Lts);
    assert_eq!(parse_category(""), Category::Lts);
}

#[test]
fn load_catalog_reads_entries_with_defaults() {
    let c = load_catalog(CATALOG);
    assert_eq!(c.len(), 4);
    assert_eq!(c[0].id, "arch");
    assert_eq!(c[0].logo, "arch.svg");
    assert_eq!(c[0].category, Category::Rolling);
    assert_eq!(c[0].size_mb, 1100);
    assert_eq!(c[1].name, "Debian 12");
    assert_eq!(c[1].logo, "");
    assert_eq!(c[1].description, "");
    assert_eq!(c[1].arch, "x86_64");
    assert!(!c[1].is_windows);
    assert_eq!(c[2].id, "win11");
    assert!(c[2].is_windows);
    assert_eq!(c[2].size_mb, 0);
    assert_eq!(c[2].url, "");
    assert_eq!(c[3].category, Category::Lts);
    assert_eq!(c[3].arch, "i386");
}

#[test]
fn load_catalog_of_bad_text_is_empty() {
    assert!(load_catalog("{").is_empty());
    assert!(load_catalog(r#"{"distros": {}}"#).is_empty());
    assert!(load_catalog("[]").is_empty());
}

#[test]
fn remote_catalog_needs_entries() {
    assert!(remote_catalog_ok(CATALOG));
    assert!(!remote_catalog_ok(r#"{"distros": []}"#));
    assert!(!remote_catalog_ok("<html>"));
}

#[test]
fn filtering_by_category_and_search() {
    let c = load_catalog(CATALOG);
    assert_eq!(visible_distros(&c, Category::All, ""), vec![0, 1, 2, 3]);
    assert_eq!(visible_distros(&c, Category::Lts, ""), vec![1, 3]);
    assert_eq!(visible_distros(&c, Category::All, "DEB"), vec![1]);
    assert_eq!(visible_distros(&c, Category::All, "legacy"), vec![3]);
    assert_eq!(visible_distros(&c, Category::All, "I386"), vec![3]);
    assert_eq!(visible_distros(&c, Category::Rolling, "debian"), Vec::<usize>::new());
}

#[test]
fn badges() {
    let t = Translations::from_json(r#"{"cat_badge_lts": "LTS"}"#);
    let (bg, fg, text) = cat_badge(Category::Lts, Theme::Dark, &t);
    assert_eq!(bg, Rgb { r: 20, g: 60, b: 40 });
    assert_eq!(fg, Rgb { r: 80, g: 200, b: 120 });
    assert_eq!(text, "LTS");
    let (bg, fg, text) = cat_badge(Category::Windows, Theme::Light, &t);
    assert_eq!(bg, Rgb { r: 210, g: 230, b: 255 });
    assert_eq!(fg, Rgb { r: 20, g: 80, b: 190 });
    assert_eq!(text, "cat_badge_windows");
}

fn hash_str(s: &str) -> u64 {
    CatalogState::from_text(s).hash
}

#[test]
fn hash_is_deterministic() {
    assert_eq!(hash_str(CATALOG), hash_str(CATALOG));
    assert_ne!(hash_str("a"), hash_str("b"));
    assert_eq!(CatalogState::from_text(CATALOG).distros.len(), 4);
}

#[test]
fn refresh_replaces_only_new_nonempty_catalogues() {
    let mut st = CatalogState::from_text(CATALOG);
    assert!(!refresh_catalog(&mut st, CATALOG));
    assert_eq!(st.distros.len(), 4);
    assert!(!refresh_catalog(&mut st, r#"{"distros": []}"#));
    assert_eq!(st.hash, hash_str(CATALOG));
    let newer = r#"{"distros": [{"id": "x", "name": "X"}]}"#;
    assert!(refresh_catalog(&mut st, newer));
    assert_eq!(st.distros.len(), 1);
    assert_eq!(st.hash, hash_str(newer));
}

#[test]
fn windows_pages() {
    assert_eq!(windows_download_page("Windows 11"), "https://www.microsoft.com/software-download/windows11");
    assert_eq!(windows_download_page("Windows 10"), "https://www.microsoft.com/software-download/windows10");
}
