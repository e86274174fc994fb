use skylark::cn_direct::{cn_direct_suffixes, proxy_override_fragment, wechat_processes};
use skylark::system::{
    fresh_config, get_system_proxy_status, join, language_for_locale, network_services, registry_proxy_enabled,
    relaunch_as_admin, rss_bytes, rule_sets_dir, saved_secret, set_system_proxy, shell_execute_succeeded,
    singbox_binary_path, singbox_config_path, subscription_user_agent, subscriptions_dir, wintun_available,
    RelaunchPlan,
};
use skylark::types::ProxyMode;
use skylark::updater::Platform;

const LOCAL: &str = "localhost;127.*;10.*;172.16.*;172.17.*;172.18.*;172.19.*;172.20.*;172.21.*;172.22.*;172.23.*;172.24.*;172.25.*;172.26.*;172.27.*;172.28.*;172.29.*;172.30.*;172.31.*;192.168.*;<local>";

#[test]
fn data_paths() {
    assert_eq!(join("/home/u/.local/share/app", "config.json", false), "/home/u/.local/share/app/config.json");
    assert_eq!(join("/data/", "x", false), "/data/x");
    assert_eq!(join("", "x", false), "x");
    assert_eq!(join("C:\\Data", "x", true), "C:\\Data\\x");
    assert_eq!(join("C:\\Data\\", "x", true), "C:\\Data\\x");
    assert_eq!(singbox_config_path("/d", false), "/d/config.json");
    assert_eq!(subscriptions_dir("/d", false), "/d/subscriptions");
    assert_eq!(rule_sets_dir("C:\\D", true), "C:\\D\\rule-sets");
    assert_eq!(singbox_binary_path("/d", Platform::Linux), "/d/bin/sing-box");
    assert_eq!(singbox_binary_path("C:\\D", Platform::Windows), "C:\\D\\bin\\sing-box.exe");
}

#[test]
fn user_agent_default() {
    assert_eq!(subscription_user_agent(""), "v2rayN/6.45");
    assert_eq!(subscription_user_agent("   "), "v2rayN/6.45");
    assert_eq!(subscription_user_agent("clash-verge/1.0"), "clash-verge/1.0");
}

#[test]
fn windows_proxy_settings() {
    let off = set_system_proxy(false, 7890, false);
    assert_eq!(off.enable, 0);
    assert!(off.server.is_none() && off.bypass.is_none());
    let global = set_system_proxy(true, 7890, true);
    assert_eq!(global.enable, 1);
    assert_eq!(global.server.as_deref(), Some("127.0.0.1:7890"));
    assert_eq!(global.bypass.as_deref(), Some(LOCAL));
    let rule = set_system_proxy(true, 1080, false);
    assert_eq!(rule.server.as_deref(), Some("127.0.0.1:1080"));
    let b = rule.bypass.unwrap();
    assert_eq!(b, format!("{}{}", LOCAL, proxy_override_fragment()));
    assert!(b.contains(";*.qq.com;*.wechat.com;"));
    assert!(b.ends_with(";*.12306.cn"));
    assert!(registry_proxy_enabled(Some(1)));
    assert!(!registry_proxy_enabled(Some(0)));
    assert!(!registry_proxy_enabled(None));
}

#[test]
fn cn_lists() {
    let s = cn_direct_suffixes();
    assert_eq!(s.first().map(|x| x.as_str()), Some("qq.com"));
    assert_eq!(s.last().map(|x| x.as_str()), Some("12306.cn"));
    assert_eq!(wechat_processes(), vec!["WeChat.exe", "WeChatApp.exe", "WeChatWeb.exe"]);
    let f = proxy_override_fragment();
    assert!(f.starts_with(";*.qq.com"));
    assert_eq!(f.matches(";*.").count(), s.len());
}

#[test]
fn mac_network_services() {
    let listing = "An asterisk (*) denotes that a network service is disabled.\nWi-Fi\n*Bluetooth PAN\n  Thunderbolt Bridge  \n\nUSB LAN\n";
    assert_eq!(network_services(listing), vec!["Wi-Fi", "Thunderbolt Bridge", "USB LAN"]);
    assert!(network_services("").is_empty());
    let outs = vec![
        "Enabled: No\nServer: \nPort: 0".to_string(),
        "Enabled: Yes\nServer: 127.0.0.1\nPort: 7890".to_string(),
    ];
    assert!(get_system_proxy_status(&outs));
    assert!(!get_system_proxy_status(&outs[..1].to_vec()));
    assert!(get_system_proxy_status(&vec!["  Enabled: Yes  ".to_string()]));
    assert!(!get_system_proxy_status(&vec![]));
}

#[test]
fn tun_and_elevation() {
    assert!(!wintun_available(Platform::Windows, false));
    assert!(wintun_available(Platform::Windows, true));
    assert!(wintun_available(Platform::Linux, false));
    assert!(matches!(relaunch_as_admin(Platform::Windows, "C:\\a.exe"), RelaunchPlan::RunAs(e) if e == "C:\\a.exe"));
    match relaunch_as_admin(Platform::MacOs, "/Applications/A.app/Contents/MacOS/a") {
        RelaunchPlan::AppleScript(s) => assert_eq!(
            s,
            "do shell script \"'/Applications/A.app/Contents/MacOS/a' > /dev/null 2>&1 &\" with administrator privileges"
        ),
        _ => panic!("expected a script"),
    }
    assert!(matches!(relaunch_as_admin(Platform::Linux, "/a"), RelaunchPlan::Unsupported));
    assert!(shell_execute_succeeded(33));
    assert!(!shell_execute_succeeded(32));
}

#[test]
fn first_launch_settings() {
    assert_eq!(language_for_locale(Some("zh-CN")), "zh-CN");
    assert_eq!(language_for_locale(Some("ZH_TW")), "zh-CN");
    assert_eq!(language_for_locale(Some("en-US")), "en");
    assert_eq!(language_for_locale(None), "en");
    let c = fresh_config("zh-CN".to_string());
    assert_eq!(c.language, "zh-CN");
    assert_eq!(c.proxy_mode, ProxyMode::Rule);
    assert_eq!(c.mixed_port, 7890);
    assert_eq!(c.api_port, 9090);
    assert_eq!(saved_secret("  abc \n"), Some("abc".to_string()));
    assert_eq!(saved_secret("   "), None);
    assert_eq!(rss_bytes(" 2048\n"), Some(2048 * 1024));
    assert_eq!(rss_bytes("n/a"), None);
}
