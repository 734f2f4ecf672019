use isoflash::resolver::{
    alpine_index_url, alpine_latest, arch, debian_netinst, extract_hrefs, fedora_ver,
    latest_dir, mint_version, parse_ver, resolve_url, resolver_answer, resolver_request,
    ubuntu_flavor, ubuntu_index_url, Step,
};

fn strings(v: &[&str]) -> Vec<String> {
    v.iter().map(|s| s.to_string()).collect()
}

const UBUNTU_INDEX: &str = r#"<html><body>
<a href="?C=N;O=D">Name</a>
<a href="/">Parent</a>
<a href="http://example.com/">ext</a>
<a href="20.04/">20.04/</a>
<a href="22.04.5/">22.04.5/</a>
<a href="24.04/">24.04/</a>
<a href="24.10/">24.10/</a>
<a href="noble/">noble/</a>
<a href="">empty</a>
</body></html>"#;

#[test]
fn extract_hrefs_keeps_relative_links_without_slash() {
    let h = extract_hrefs(UBUNTU_INDEX);
    assert_eq!(h, strings(&["20.04", "22.04.5", "24.04", "24.10", "noble"]));
}

#[test]
fn extract_hrefs_stops_at_unterminated_link() {
    assert_eq!(extract_hrefs(r#"<a href="a/">x</a><a href="b"#), strings(&["a"]));
    assert_eq!(extract_hrefs("no links here"), Vec::<String>::new());
}

#[test]
fn extract_hrefs_strips_every_trailing_slash() {
    assert_eq!(extract_hrefs(r#"href="dir///""#), strings(&["dir"]));
}

#[test]
fn extract_hrefs_drops_https_links() {
    assert_eq!(extract_hrefs(r#"href="https://x" href="httpd/""#), Vec::<String>::new());
}

#[test]
fn parse_ver_reads_two_or_three_numbers() {
    assert_eq!(parse_ver("24.04"), Some((24, 4, 0)));
    assert_eq!(parse_ver("22.04.5"), Some((22, 4, 5)));
    assert_eq!(parse_ver("1.2.x"), Some((1, 2, 0)));
    assert_eq!(parse_ver("1.2.3.4"), Some((1, 2, 3)));
    assert_eq!(parse_ver("+7.8"), Some((7, 8, 0)));
}

#[test]
fn parse_ver_rejects_non_versions() {
    assert_eq!(parse_ver("noble"), None);
    assert_eq!(parse_ver("42"), None);
    assert_eq!(parse_ver("a.1"), None);
    assert_eq!(parse_ver("1.-1"), None);
    assert_eq!(parse_ver(""), None);
    assert_eq!(parse_ver("18446744073709551616.1"), None);
}

#[test]
fn latest_dir_takes_greatest_version() {
    let hs = strings(&["20.04", "24.10", "24.04", "noble", "22.04.5"]);
    assert_eq!(latest_dir(&hs), Some("24.10".to_string()));
}

#[test]
fn latest_dir_breaks_ties_by_name() {
    let hs = strings(&["41", "40.0", "40"]);
    assert_eq!(latest_dir(&strings(&["40.0.x", "40.0"])), Some("40.0.x".to_string()));
    assert_eq!(latest_dir(&hs), Some("40.0".to_string()));
}

#[test]
fn latest_dir_of_no_versions_is_none() {
    assert_eq!(latest_dir(&strings(&["beta", "test"])), None);
    assert_eq!(latest_dir(&Vec::new()), None);
}

#[test]
fn ubuntu_urls() {
    assert_eq!(ubuntu_index_url(""), "https://releases.ubuntu.com/");
    assert_eq!(ubuntu_index_url("kubuntu"), "https://cdimage.ubuntu.com/kubuntu/releases/");
    assert_eq!(
        ubuntu_flavor("", UBUNTU_INDEX),
        Some("https://releases.ubuntu.com/24.10/ubuntu-24.10-desktop-amd64.iso".to_string())
    );
    assert_eq!(
        ubuntu_flavor("xubuntu", UBUNTU_INDEX),
        Some("https://cdimage.ubuntu.com/xubuntu/releases/24.10/release/xubuntu-24.10-desktop-amd64.iso".to_string())
    );
    assert_eq!(ubuntu_flavor("", "<html></html>"), None);
}

#[test]
fn fedora_and_mint_versions() {
    let page = r#"<a href="39/">39/</a><a href="40/">40/</a><a href="41/">41/</a><a href="test/">t</a>"#;
    assert_eq!(fedora_ver(page), None);
    let page = r#"<a href="40.1/">x</a><a href="41.0/">x</a>"#;
    assert_eq!(fedora_ver(page), Some("41.0".to_string()));
    let page = r#"<a href="21.3/">x</a><a href="22/">x</a><a href="22.1/">x</a>"#;
    assert_eq!(mint_version(page), Some("22.1".to_string()));
}

#[test]
fn debian_netinst_url() {
    let page = r#"<a href="debian-12.8.0-amd64-DVD-1.iso">d</a><a href="debian-12.8.0-amd64-netinst.iso">n</a><a href="debian-edu-12.8.0-amd64-netinst.iso">e</a>"#;
    assert_eq!(
        debian_netinst(page),
        Some("https://cdimage.debian.org/debian-cd/current/amd64/iso-cd/debian-12.8.0-amd64-netinst.iso".to_string())
    );
    assert_eq!(debian_netinst("<a href=\"x.iso\">"), None);
}

#[test]
fn alpine_url() {
    assert_eq!(alpine_index_url("3.20"), "https://dl-cdn.alpinelinux.org/alpine/v3.20/releases/x86_64/");
    let page = r#"<a href="alpine-extended-3.20.3-x86_64.iso">e</a><a href="alpine-standard-3.20.3-x86_64.iso">s</a>"#;
    assert_eq!(
        alpine_latest("3.20", page),
        Some("https://dl-cdn.alpinelinux.org/alpine/v3.20/releases/x86_64/alpine-standard-3.20.3-x86_64.iso".to_string())
    );
}

#[test]
fn arch_reads_iso_url() {
    assert_eq!(
        arch(r#"{"iso_url": "https://geo.mirror.pkgbuild.com/iso/2024.12.01/archlinux-2024.12.01-x86_64.iso", "releases": []}"#),
        Some("https://geo.mirror.pkgbuild.com/iso/2024.12.01/archlinux-2024.12.01-x86_64.iso".to_string())
    );
    assert_eq!(arch(r#"{"iso_url": 5}"#), None);
    assert_eq!(arch("not json"), None);
}

#[test]
fn requests_of_resolvers() {
    match resolver_request(0, "Arch Linux", "") {
        Step::Fetch(u) => assert_eq!(u, "https://archlinux.org/releng/releases/json/"),
        Step::Answer(_) => panic!("Arch reads its feed"),
    }
    match resolver_request(20, "Debian 12 (Live)", "") {
        Step::Answer(a) => assert_eq!(a, None),
        Step::Fetch(_) => panic!("only the netinst image is looked up"),
    }
    match resolver_request(21, "Alpine", "https://dl-cdn.alpinelinux.org/alpine/v3.20/releases/x86_64/alpine.iso") {
        Step::Fetch(u) => assert_eq!(u, "https://dl-cdn.alpinelinux.org/alpine/valpine/releases/x86_64/"),
        Step::Answer(_) => panic!("Alpine reads its release index"),
    }
    match resolver_request(21, "Alpine", "https://x/v3.21/y") {
        Step::Fetch(u) => assert_eq!(u, "https://dl-cdn.alpinelinux.org/alpine/v3.21/releases/x86_64/"),
        Step::Answer(_) => panic!("the fourth field names the version"),
    }
    match resolver_request(21, "Alpine", "https:/x") {
        Step::Answer(a) => assert_eq!(a, None),
        Step::Fetch(_) => panic!("no version in the old URL"),
    }
    match resolver_request(24, "Void Linux", "https://repo/live/current/void-live-x86_64-20240314-xfce.iso") {
        Step::Fetch(u) => assert_eq!(u, "https://repo/live/current/"),
        Step::Answer(_) => panic!("Void reads its directory"),
    }
    match resolver_request(29, "openSUSE Leap", "https://download.opensuse.org/distribution/leap/15.6/iso/x.iso") {
        Step::Fetch(u) => assert_eq!(u, "https://download.opensuse.org/distribution/leap/leap/iso/"),
        Step::Answer(_) => panic!("Leap reads its directory"),
    }
    match resolver_request(23, "openSUSE Tumbleweed", "") {
        Step::Answer(a) => assert_eq!(
            a,
            Some("https://download.opensuse.org/tumbleweed/iso/openSUSE-Tumbleweed-DVD-x86_64-Current.iso".to_string())
        ),
        Step::Fetch(_) => panic!("Tumbleweed has a fixed URL"),
    }
}

#[test]
fn answers_of_resolvers() {
    let mint = r#"<a href="21.3/">a</a><a href="22/">b</a><a href="22.1/">c</a>"#;
    assert_eq!(
        resolver_answer(9, "Linux Mint 22 Xfce", "", mint),
        Some("https://mirrors.layeronline.com/linuxmint/stable/22.1/linuxmint-22.1-xfce-64bit.iso".to_string())
    );
    assert_eq!(
        resolver_answer(9, "Linux Mint 22 MATE", "", mint),
        Some("https://mirrors.layeronline.com/linuxmint/stable/22.1/linuxmint-22.1-mate-64bit.iso".to_string())
    );
    assert_eq!(
        resolver_answer(10, "LMDE 6", "", mint),
        Some("https://mirrors.layeronline.com/linuxmint/debian/22.1/lmde-22.1-cinnamon-64bit.iso".to_string())
    );
    let fedora = r#"<a href="40.0/">a</a><a href="41.0/">b</a>"#;
    assert_eq!(
        resolver_answer(19, "Fedora 44 Server", "", fedora),
        Some("https://dl.fedoraproject.org/pub/fedora/linux/releases/41.0/Server/x86_64/iso/Fedora-Server-dvd-x86_64-41.0-1.1.iso".to_string())
    );
    assert_eq!(
        resolver_answer(15, "Fedora 44 MATE-Compiz", "", fedora),
        Some("https://dl.fedoraproject.org/pub/fedora/linux/releases/41.0/Spins/x86_64/iso/Fedora-MATE_Compiz-Live-x86_64-41.0-1.1.iso".to_string())
    );
    let nix = r#"<a href="nixos-24.05/">a</a><a href="nixpkgs-unstable/">b</a><a href="nixos-24.11/">c</a>"#;
    assert_eq!(
        resolver_answer(22, "NixOS", "https://channels.nixos.org/nixos-24.05/latest-nixos-gnome-x86_64-linux.iso", nix),
        Some("https://channels.nixos.org/nixos-24.11/latest-nixos-gnome-x86_64-linux.iso".to_string())
    );
    assert_eq!(
        resolver_answer(22, "NixOS", "https://x/kde.iso", nix),
        Some("https://channels.nixos.org/nixos-24.11/latest-nixos-plasma6-x86_64-linux.iso".to_string())
    );
    assert_eq!(
        resolver_answer(22, "NixOS", "https://x/other.iso", "<p></p>"),
        None
    );
    let neon = r#"<a href="20240101/">a</a><a href="current/">b</a><a href="20241205/">c</a><a href="20240601/">d</a>"#;
    assert_eq!(
        resolver_answer(27, "KDE neon", "", neon),
        Some("https://files.kde.org/neon/images/user/20241205/neon-user-20241205.iso".to_string())
    );
    let void = r#"<a href="void-live-x86_64-20250202-base.iso">a</a><a href="void-live-x86_64-musl-20250202-base.iso">b</a><a href="void-live-x86_64-20250202-xfce.iso">c</a>"#;
    let old = "https://repo/live/current/void-live-x86_64-20240314-xfce.iso";
    assert_eq!(
        resolver_answer(24, "Void Linux", old, void),
        Some("https://repo/live/current/void-live-x86_64-void-live-x86_64-20250202.iso".to_string())
    );
    assert_eq!(
        resolver_answer(25, "Void Linux musl", old, void),
        Some("https://repo/live/current/void-live-x86_64-musl-void-live-x86_64-musl-20250202-base.iso".to_string())
    );
    assert_eq!(
        resolver_answer(26, "Void Linux base", old, void),
        Some("https://repo/live/current/void-live-x86_64-void-live-x86_64-20250202-base.iso".to_string())
    );
    let deepin = r#"<a href="23/">a</a><a href="23.1/">b</a>"#;
    assert_eq!(
        resolver_answer(28, "Deepin", "", deepin),
        Some("https://cdimage.deepin.com/releases/23.1/deepin-desktop-community-23.1-amd64.iso".to_string())
    );
    let leap = r#"<a href="openSUSE-Leap-15.6-NET-x86_64-Media.iso">n</a><a href="openSUSE-Leap-15.6-DVD-x86_64-Media.iso">d</a>"#;
    assert_eq!(
        resolver_answer(29, "openSUSE Leap", "https://download.opensuse.org/distribution/leap/15.6/iso/x.iso", leap),
        Some("https://download.opensuse.org/distribution/leap/leap/iso/openSUSE-Leap-15.6-DVD-x86_64-Media.iso".to_string())
    );
}

#[test]
fn resolve_url_uses_first_matching_resolver() {
    let fetch = |u: &str| -> Option<String> {
        if u == "https://releases.ubuntu.com/" {
            Some(UBUNTU_INDEX.to_string())
        } else {
            None
        }
    };
    assert_eq!(
        resolve_url("Ubuntu Budgie 24.04", "", &fetch),
        Some("https://releases.ubuntu.com/24.10/ubuntu-24.10-desktop-amd64.iso".to_string())
    );
}

#[test]
fn resolve_url_falls_through_failed_resolvers() {
    let calls = std::cell::RefCell::new(Vec::new());
    let fetch = |u: &str| -> Option<String> {
        calls.borrow_mut().push(u.to_string());
        if u == "https://cdimage.ubuntu.com/ubuntu-budgie/releases/" {
            Some(r#"<a href="24.04/">x</a>"#.to_string())
        } else {
            None
        }
    };
    assert_eq!(
        resolve_url("Ubuntu Budgie", "", &fetch),
        Some("https://cdimage.ubuntu.com/ubuntu-budgie/releases/24.04/release/ubuntu-budgie-24.04-desktop-amd64.iso".to_string())
    );
    assert_eq!(
        *calls.borrow(),
        vec![
            "https://releases.ubuntu.com/".to_string(),
            "https://cdimage.ubuntu.com/ubuntu-budgie/releases/".to_string()
        ]
    );
}

#[test]
fn resolve_url_without_network() {
    let fetch = |_: &str| -> Option<String> { None };
    assert_eq!(resolve_url("Fedora 44 KDE", "", &fetch), None);
    assert_eq!(resolve_url("Windows 11", "", &fetch), None);
    assert_eq!(
        resolve_url("openSUSE Tumbleweed", "", &fetch),
        Some("https://download.opensuse.org/tumbleweed/iso/openSUSE-Tumbleweed-DVD-x86_64-Current.iso".to_string())
    );
}

#[test]
fn resolve_url_debian_needs_netinst_name() {
    let page = r#"<a href="debian-12.8.0-amd64-netinst.iso">n</a>"#.to_string();
    let fetch = move |_: &str| -> Option<String> { Some(page.clone()) };
    assert_eq!(resolve_url("Debian 12", "", &fetch), None);
    assert_eq!(
        resolve_url("Debian 12 Netinstall", "", &fetch),
        Some("https://cdimage.debian.org/debian-cd/current/amd64/iso-cd/debian-12.8.0-amd64-netinst.iso".to_string())
    );
}
