use std::io::Write;

use skylark::json::Json;
use skylark::updater::{
    app_release_from_reply, cache_fresh, current_platform_asset, extract_binary_from_tar_gz, extract_binary_from_zip,
    extract_from_zip, extract_wintun, find_app_installer_url, first_lines_of, installer_file_name, is_tar_gz_url,
    parse_app_release, rate_limit_minutes, release_from_body, singbox_binary_name, Arch, ExtractError, Platform,
    ReleaseError,
};

fn to_json(v: &serde_json::Value) -> Json {
    match v {
        serde_json::Value::Null => Json::Null,
        serde_json::Value::Bool(b) => Json::Bool(*b),
        serde_json::Value::Number(n) => match (n.as_u64(), n.as_i64()) {
            (Some(u), _) => Json::UInt(u),
            (None, Some(i)) => Json::NegInt(i),
            _ => Json::Float(n.to_string()),
        },
        serde_json::Value::String(s) => Json::Str(s.clone()),
        serde_json::Value::Array(a) => Json::Arr(a.iter().map(to_json).collect()),
        serde_json::Value::Object(m) => Json::Obj(m.iter().map(|(k, v)| (k.clone(), to_json(v))).collect()),
    }
}

fn parse(s: &str) -> Json {
    to_json(&serde_json::from_str::<serde_json::Value>(s).unwrap())
}

fn assets(names: &[&str]) -> Vec<Json> {
    names
        .iter()
        .map(|n| {
            Json::Obj(vec![
                ("name".to_string(), Json::Str(n.to_string())),
                ("browser_download_url".to_string(), Json::Str(format!("https://dl.example.com/{}", n))),
            ])
        })
        .collect()
}

fn zip_of(entries: &[(&str, &[u8])]) -> Vec<u8> {
    let mut w = zip::ZipWriter::new(std::io::Cursor::new(Vec::new()));
    let opts = zip::write::SimpleFileOptions::default().compression_method(zip::CompressionMethod::Stored);
    for (name, data) in entries {
        w.start_file(name.to_string(), opts).unwrap();
        w.write_all(data).unwrap();
    }
    w.finish().unwrap().into_inner()
}

fn targz_of(entries: &[(&str, &[u8])]) -> Vec<u8> {
    let enc = flate2::write::GzEncoder::new(Vec::new(), flate2::Compression::default());
    let mut b = tar::Builder::new(enc);
    for (name, data) in entries {
        let mut h = tar::Header::new_gnu();
        h.set_size(data.len() as u64);
        h.set_mode(0o755);
        h.set_cksum();
        b.append_data(&mut h, name, *data).unwrap();
    }
    b.into_inner().unwrap().finish().unwrap()
}

#[test]
fn platform_assets() {
    let a = current_platform_asset(Platform::Windows, Arch::Amd64);
    assert_eq!((a.os, a.arch, a.ext), ("windows", "amd64", ".zip"));
    let a = current_platform_asset(Platform::MacOs, Arch::Arm64);
    assert_eq!((a.os, a.arch, a.ext), ("darwin", "arm64", ".tar.gz"));
    let a = current_platform_asset(Platform::Linux, Arch::Amd64);
    assert_eq!((a.os, a.arch, a.ext), ("linux", "amd64", ".tar.gz"));
    assert_eq!(singbox_binary_name(Platform::Windows), "sing-box.exe");
    assert_eq!(singbox_binary_name(Platform::Linux), "sing-box");
}

#[test]
fn cache_and_rate_limit() {
    assert!(cache_fresh(1000, 1000));
    assert!(cache_fresh(1000 + 3599, 1000));
    assert!(!cache_fresh(1000 + 3600, 1000));
    assert!(cache_fresh(10, 5000));
    assert_eq!(rate_limit_minutes(Some(1000 + 600), 1000), Some(10));
    assert_eq!(rate_limit_minutes(Some(1000 + 59), 1000), None);
    assert_eq!(rate_limit_minutes(Some(10), 1000), None);
    assert_eq!(rate_limit_minutes(None, 1000), None);
}

#[test]
fn notes_first_lines() {
    assert_eq!(first_lines_of("a\nb\nc\n", 2), "a\nb");
    assert_eq!(first_lines_of("a\r\nb", 5), "a\nb");
    assert_eq!(first_lines_of("", 3), "");
}

#[test]
fn core_release_reply() {
    let body = parse(
        r#"{"tag_name":"v1.10.1","published_at":"2024-11-01T00:00:00Z","body":"1\n2\n3\n4\n5\n6\n7\n8\n9\n10\n11",
            "assets":[{"name":"sing-box-1.10.1-linux-amd64.tar.gz","browser_download_url":"https://x/linux"},
                      {"name":"sing-box-1.10.1-Windows-AMD64.zip","browser_download_url":"https://x/win"}]}"#,
    );
    let win = current_platform_asset(Platform::Windows, Arch::Amd64);
    let r = release_from_body(&body, &win).unwrap();
    assert_eq!(r.version, "v1.10.1");
    assert_eq!(r.published_at, "2024-11-01T00:00:00Z");
    assert_eq!(r.release_notes, "1\n2\n3\n4\n5\n6\n7\n8\n9\n10");
    assert_eq!(r.download_url, "https://x/win");
    let mac = current_platform_asset(Platform::MacOs, Arch::Arm64);
    assert!(matches!(release_from_body(&body, &mac), Err(ReleaseError::NoPlatformAsset)));
    let limited = parse(r#"{"message":"API rate limit exceeded for 1.2.3.4"}"#);
    assert!(matches!(release_from_body(&limited, &win), Err(ReleaseError::RateLimited)));
    let other = parse(r#"{"message":"Not Found"}"#);
    assert!(matches!(release_from_body(&other, &win), Err(ReleaseError::Api(m)) if m == "Not Found"));
    assert!(matches!(release_from_body(&parse(r#"{"assets":[]}"#), &win), Err(ReleaseError::NoVersion)));
    assert!(matches!(release_from_body(&parse(r#"{"tag_name":"v1"}"#), &win), Err(ReleaseError::NoAssets)));
}

#[test]
fn installers_per_platform() {
    let a = assets(&["App_0.3.0_x64_en-US.msi", "App_0.3.0_x64-setup.exe", "App_0.3.0_aarch64.dmg", "App_0.3.0_x64.dmg", "app_0.3.0_amd64.deb", "app_0.3.0_amd64.AppImage"]);
    assert_eq!(find_app_installer_url(&a, Platform::Windows, Arch::Amd64).as_deref(), Some("https://dl.example.com/App_0.3.0_x64-setup.exe"));
    assert_eq!(find_app_installer_url(&a, Platform::MacOs, Arch::Arm64).as_deref(), Some("https://dl.example.com/App_0.3.0_aarch64.dmg"));
    assert_eq!(find_app_installer_url(&a, Platform::MacOs, Arch::Amd64).as_deref(), Some("https://dl.example.com/App_0.3.0_x64.dmg"));
    assert_eq!(find_app_installer_url(&a, Platform::Linux, Arch::Amd64).as_deref(), Some("https://dl.example.com/app_0.3.0_amd64.deb"));
    let b = assets(&["tool.exe", "Other.DMG"]);
    assert_eq!(find_app_installer_url(&b, Platform::Windows, Arch::Amd64).as_deref(), Some("https://dl.example.com/tool.exe"));
    assert_eq!(find_app_installer_url(&b, Platform::MacOs, Arch::Arm64).as_deref(), Some("https://dl.example.com/Other.DMG"));
    assert_eq!(find_app_installer_url(&b, Platform::Linux, Arch::Amd64), None);
}

#[test]
fn client_release_replies() {
    let rel = r#"{"tag_name":"v0.3.0","published_at":"P","prerelease":true,"body":"x",
                  "assets":[{"name":"a_x64-setup.exe","browser_download_url":"https://u/a.exe"}]}"#;
    let r = parse_app_release(&parse(rel), Platform::Windows, Arch::Amd64).unwrap();
    assert_eq!(r.version, "v0.3.0");
    assert!(r.is_prerelease);
    assert_eq!(r.download_url, "https://u/a.exe");
    assert!(matches!(parse_app_release(&parse(rel), Platform::Linux, Arch::Amd64), Err(ReleaseError::NoPlatformAsset)));
    let list = format!("[{}]", rel);
    let r = app_release_from_reply(&parse(&list), true, Platform::Windows, Arch::Amd64).unwrap();
    assert_eq!(r.version, "v0.3.0");
    assert!(matches!(app_release_from_reply(&parse("[]"), true, Platform::Windows, Arch::Amd64), Err(ReleaseError::NoRelease)));
    assert!(matches!(app_release_from_reply(&parse(rel), true, Platform::Windows, Arch::Amd64), Err(ReleaseError::NotAList)));
    assert!(matches!(
        app_release_from_reply(&parse(r#"{"message":"Not Found"}"#), false, Platform::Windows, Arch::Amd64),
        Err(ReleaseError::Api(m)) if m == "Not Found"
    ));
}

#[test]
fn download_names() {
    assert!(is_tar_gz_url("https://x/sing-box-1.10.0-linux-amd64.TAR.GZ"));
    assert!(!is_tar_gz_url("https://x/sing-box-1.10.0-windows-amd64.zip"));
    assert_eq!(installer_file_name("https://x/y/App_0.3.0_x64-setup.exe"), "App_0.3.0_x64-setup.exe");
    assert_eq!(installer_file_name("plain"), "plain");
    assert_eq!(installer_file_name("https://x/"), "");
}

#[test]
fn zip_extraction() {
    let z = zip_of(&[("sing-box-1.10.0-windows-amd64/README.md", b"readme"), ("sing-box-1.10.0-windows-amd64/SING-BOX.EXE", b"MZbinary")]);
    assert_eq!(extract_binary_from_zip(&z, Platform::Windows), Ok(b"MZbinary".to_vec()));
    let none = zip_of(&[("a.txt", b"a")]);
    assert_eq!(extract_binary_from_zip(&none, Platform::Windows), Err(ExtractError::NotFound));
    assert_eq!(extract_binary_from_zip(b"not a zip", Platform::Windows), Err(ExtractError::BadArchive));
    let w = zip_of(&[("wintun/bin/arm64/wintun.dll", b"arm"), ("wintun/bin/amd64/wintun.dll", b"x64")]);
    assert_eq!(extract_wintun(&w), Ok(b"x64".to_vec()));
    let ts = vec!["readme.md".to_string()];
    assert_eq!(extract_from_zip(&z, &ts), Ok(b"readme".to_vec()));
}

#[test]
fn tar_gz_extraction() {
    let t = targz_of(&[("sing-box-1.10.0-linux-amd64/LICENSE", b"lic"), ("sing-box-1.10.0-linux-amd64/sing-box", b"ELFbin")]);
    assert_eq!(extract_binary_from_tar_gz(&t, Platform::Linux), Ok(b"ELFbin".to_vec()));
    let n = targz_of(&[("dir/other", b"x")]);
    assert_eq!(extract_binary_from_tar_gz(&n, Platform::MacOs), Err(ExtractError::NotFound));
}

fn targz_raw(entries: &[(&[u8], &[u8])]) -> Vec<u8> {
    let enc = flate2::write::GzEncoder::new(Vec::new(), flate2::Compression::default());
    let mut b = tar::Builder::new(enc);
    for (name, data) in entries {
        let mut h = tar::Header::new_old();
        h.as_old_mut().name[..name.len()].copy_from_slice(name);
        h.set_size(data.len() as u64);
        h.set_mode(0o755);
        h.set_cksum();
        b.append(&h, *data).unwrap();
    }
    b.into_inner().unwrap().finish().unwrap()
}

#[test]
fn tar_entry_file_names_per_platform() {
    // trailing separators and `.` components are skipped
    let t = targz_raw(&[(b"pkg/sing-box/.", b"A")]);
    assert_eq!(extract_binary_from_tar_gz(&t, Platform::Linux), Ok(b"A".to_vec()));
    let t = targz_raw(&[(b"pkg/sing-box//", b"B")]);
    assert_eq!(extract_binary_from_tar_gz(&t, Platform::MacOs), Ok(b"B".to_vec()));
    // `..` is no file name
    let t = targz_raw(&[(b"sing-box/..", b"C")]);
    assert_eq!(extract_binary_from_tar_gz(&t, Platform::Linux), Err(ExtractError::NotFound));
    // `\` separates components on Windows only
    let t = targz_raw(&[(b"pkg\\sing-box.exe", b"D")]);
    assert_eq!(extract_binary_from_tar_gz(&t, Platform::Windows), Ok(b"D".to_vec()));
    let t = targz_raw(&[(b"pkg\\sing-box", b"E")]);
    assert_eq!(extract_binary_from_tar_gz(&t, Platform::Linux), Err(ExtractError::NotFound));
    // a path that is not UTF-8: fine elsewhere, refused on Windows
    let t = targz_raw(&[(b"\xff/sing-box", b"F")]);
    assert_eq!(extract_binary_from_tar_gz(&t, Platform::Linux), Ok(b"F".to_vec()));
    let t = targz_raw(&[(b"\xff/sing-box.exe", b"G")]);
    assert_eq!(extract_binary_from_tar_gz(&t, Platform::Windows), Err(ExtractError::BadEntry));
}
