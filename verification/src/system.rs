//! The client's footprint on the host: its data paths, the system proxy
//! settings it writes and reads, and the platform checks of TUN mode.
use vstd::prelude::*;
use crate::json::strs_view;
use crate::text::{trim, lines, starts_with, chars_of, lines_of, views_of, string_of, trim_chars, push_str, concat};
use crate::updater::{Platform, binary_name, singbox_binary_name};
use crate::cn_direct::{override_fragment, cn_direct_suffix_list, proxy_override_fragment};

verus! {

// ─── Paths ────────────────────────────────────────────────────────────

/// The separator that joins path components on the platform.
pub open spec fn separator(windows: bool) -> char {
    if windows { '\\' } else { '/' }
}

/// A character that ends a path component (`\` counts on Windows too).
pub open spec fn is_separator(c: char, windows: bool) -> bool {
    c == '/' || (windows && c == '\\')
}

/// `PathBuf::join` of a relative name onto a directory: a separator goes in
/// between unless the directory is empty or already ends with one.
pub open spec fn join_path(dir: Seq<char>, name: Seq<char>, windows: bool) -> Seq<char> {
    if dir.len() == 0 || is_separator(dir.last(), windows) {
        dir + name
    } else {
        dir + seq![separator(windows)] + name
    }
}

/// Joins a relative name onto a directory.
pub fn join(dir: &str, name: &str, windows: bool) -> (r: String)
    ensures
        r@ == join_path(dir@, name@, windows),
{
    let cs = chars_of(dir);
    let mut out = dir.to_string();
    if cs.len() > 0 && !(cs[cs.len() - 1] == '/' || (windows && cs[cs.len() - 1] == '\\')) {
        out.push(if windows { '\\' } else { '/' });
    }
    push_str(&mut out, name);
    out
}

/// The sing-box configuration file in the data directory.
pub fn singbox_config_path(data_dir: &str, windows: bool) -> (r: String)
    ensures
        r@ == join_path(data_dir@, "config.json"@, windows),
{
    join(data_dir, "config.json", windows)
}

/// The directory of cached subscription contents.
pub fn subscriptions_dir(data_dir: &str, windows: bool) -> (r: String)
    ensures
        r@ == join_path(data_dir@, "subscriptions"@, windows),
{
    join(data_dir, "subscriptions", windows)
}

/// The directory of the bundled rule-set files.
pub fn rule_sets_dir(data_dir: &str, windows: bool) -> (r: String)
    ensures
        r@ == join_path(data_dir@, "rule-sets"@, windows),
{
    join(data_dir, "rule-sets", windows)
}

/// Where a downloaded sing-box binary lives: `bin/<binary>` in the data directory.
pub fn singbox_binary_path(data_dir: &str, platform: Platform) -> (r: String)
    ensures
        r@ == join_path(join_path(data_dir@, "bin"@, platform == Platform::Windows), binary_name(platform), platform == Platform::Windows),
{
    let windows = match platform {
        Platform::Windows => true,
        _ => false,
    };
    let bin = join(data_dir, "bin", windows);
    join(bin.as_str(), singbox_binary_name(platform), windows)
}

/// The bundled core shipped with the client: `binaries/<binary>` in the
/// resource directory (joined as one relative name).
pub fn bundled_core_path(resource_dir: &str, platform: Platform) -> (r: String)
    ensures
        r@ == join_path(resource_dir@, "binaries/"@ + binary_name(platform), platform == Platform::Windows),
{
    let windows = match platform {
        Platform::Windows => true,
        _ => false,
    };
    let name = concat("binaries/", singbox_binary_name(platform));
    join(resource_dir, name.as_str(), windows)
}

/// The cached answer of the sing-box release check.
pub fn cache_path(data_dir: &str, windows: bool) -> (r: String)
    ensures
        r@ == join_path(data_dir@, "update_cache.json"@, windows),
{
    join(data_dir, "update_cache.json", windows)
}

/// The cached answer of the client release check of a channel.
pub fn app_cache_path(data_dir: &str, channel: &str, windows: bool) -> (r: String)
    ensures
        r@ == join_path(data_dir@, "app_update_cache_"@ + channel@ + ".json"@, windows),
{
    let mut name = concat("app_update_cache_", channel);
    push_str(&mut name, ".json");
    join(data_dir, name.as_str(), windows)
}

/// The built-in subscription User-Agent: a modern client name that
/// protocol-rich providers serve their full node list to.
pub open spec fn default_user_agent() -> Seq<char> {
    "v2rayN/6.45"@
}

/// The User-Agent for subscription fetches: the configured one, or the
/// built-in one when it is blank.
pub fn subscription_user_agent(configured: &str) -> (r: String)
    ensures
        r@ == (if trim(configured@).len() == 0 { default_user_agent() } else { configured@ }),
{
    let t = trim_chars(chars_of(configured).as_slice());
    if t.len() == 0 {
        "v2rayN/6.45".to_string()
    } else {
        configured.to_string()
    }
}

// ─── System proxy ─────────────────────────────────────────────────────

/// The hosts that never go through the system proxy: local and private
/// ranges.
pub open spec fn local_bypass() -> Seq<char> {
    "localhost;127.*;10.*;172.16.*;172.17.*;172.18.*;172.19.*;172.20.*;172.21.*;172.22.*;172.23.*;172.24.*;172.25.*;172.26.*;172.27.*;172.28.*;172.29.*;172.30.*;172.31.*;192.168.*;<local>"@
}

/// The Windows proxy settings to write: `ProxyEnable`, and when turning on,
/// `ProxyServer` and `ProxyOverride`.
pub struct ProxySettings {
    pub enable: u32,
    pub server: Option<String>,
    pub bypass: Option<String>,
}

/// The `ProxyEnable` value written for a setting: 1 for on, 0 for off.
pub open spec fn proxy_enable_value(enabled: bool) -> u32 {
    if enabled { 1 } else { 0 }
}

/// A `ProxyEnable` value reads as on when it is 1 (a missing value as off).
pub open spec fn reads_enabled(value: Option<u32>) -> bool {
    value == Some(1u32)
}

/// What the settings write reads back: the `ProxyEnable` value written for
/// turning the system proxy on or off reads as on exactly when it was
/// turned on.
pub proof fn lemma_proxy_setting_reads_back(enabled: bool)
    ensures
        reads_enabled(Some(proxy_enable_value(enabled))) == enabled,
{
}

/// The settings that turn the system proxy on (pointing at the local mixed
/// port, bypassing local and private ranges, and outside global mode also
/// the CN-core domains) or off.
pub fn set_system_proxy(enabled: bool, port: u16, global: bool) -> (r: ProxySettings)
    ensures
        r.enable == proxy_enable_value(enabled),
        !enabled ==> r.server is None && r.bypass is None,
        enabled ==> (r.server matches Some(s) && s@ == "127.0.0.1:"@ + crate::text::decimal(port as nat)),
        enabled ==> (r.bypass matches Some(b) && b@ == local_bypass() + (if global { Seq::empty() } else { override_fragment(cn_direct_suffix_list()) })),
{
    if !enabled {
        return ProxySettings { enable: 0, server: None, bypass: None };
    }
    let server = concat("127.0.0.1:", crate::text::decimal_string(port as u64).as_str());
    let mut bypass = "localhost;127.*;10.*;172.16.*;172.17.*;172.18.*;172.19.*;172.20.*;172.21.*;172.22.*;172.23.*;172.24.*;172.25.*;172.26.*;172.27.*;172.28.*;172.29.*;172.30.*;172.31.*;192.168.*;<local>".to_string();
    if !global {
        let frag = proxy_override_fragment();
        push_str(&mut bypass, frag.as_str());
    } else {
        proof {
            assert(bypass@ + Seq::<char>::empty() =~= bypass@);
        }
    }
    ProxySettings { enable: 1, server: Some(server), bypass: Some(bypass) }
}

/// The proxy is on when the registry's `ProxyEnable` is 1 (a missing value
/// counts as 0).
pub fn registry_proxy_enabled(value: Option<u32>) -> (r: bool)
    ensures
        r == reads_enabled(value),
{
    match value {
        Some(v) => v == 1,
        None => false,
    }
}

/// The active network services in `networksetup -listallnetworkservices`
/// output: after the header line, every non-blank line not starting with
/// `*` (a disabled service), trimmed.
pub open spec fn services_of(ls: Seq<Seq<char>>) -> Seq<Seq<char>>
    decreases ls.len(),
{
    if ls.len() <= 1 {
        Seq::empty()
    } else {
        let l = ls.last();
        services_of(ls.drop_last()) + if !starts_with(l, "*"@) && trim(l).len() > 0 { seq![trim(l)] } else { Seq::empty() }
    }
}

/// The active network services listed by `networksetup`.
pub fn network_services(listing: &str) -> (r: Vec<String>)
    ensures
        strs_view(r@) == services_of(lines(listing@)),
{
    let ls = lines_of(chars_of(listing).as_slice());
    let ghost lv = views_of(ls@);
    let mut out: Vec<String> = Vec::new();
    if ls.len() == 0 {
        return out;
    }
    let mut i: usize = 1;
    proof {
        assert(services_of(lv.subrange(0, 1)) =~= Seq::<Seq<char>>::empty());
    }
    while i < ls.len()
        invariant
            1 <= i <= ls.len(),
            lv == views_of(ls@),
            lv == lines(listing@),
            strs_view(out@) == services_of(lv.subrange(0, i as int)),
        decreases ls.len() - i,
    {
        proof {
            let t = lv.subrange(0, i + 1);
            assert(t.drop_last() =~= lv.subrange(0, i as int));
            assert(t.last() == ls@[i as int]@);
        }
        let l = &ls[i];
        let starred = l.len() > 0 && l[0] == '*';
        let t = trim_chars(l.as_slice());
        proof {
            reveal_strlit("*");
            if l@.len() > 0 {
                assert(starts_with(l@, "*"@) == (l@[0] == '*')) by {
                    if l@[0] == '*' {
                        assert(l@.subrange(0, 1) =~= "*"@);
                    }
                    if starts_with(l@, "*"@) {
                        assert(l@.subrange(0, 1)[0] == l@[0]);
                    }
                }
            } else {
                assert(!starts_with(l@, "*"@));
            }
        }
        if !starred && t.len() > 0 {
            let x = string_of(t.as_slice());
            proof {
                assert(strs_view(out@.push(x)) =~= strs_view(out@) + seq![x@]);
            }
            out.push(x);
        } else {
            proof {
                assert(strs_view(out@) + Seq::<Seq<char>>::empty() =~= strs_view(out@));
            }
        }
        i += 1;
    }
    proof {
        assert(lv.subrange(0, i as int) =~= lv);
    }
    out
}

/// Some line of some `networksetup -getwebproxy` output reads `Enabled: Yes`
/// (surrounding white space ignored).
pub open spec fn reports_enabled(outputs: Seq<Seq<char>>) -> bool {
    exists|i: int, j: int| 0 <= i < outputs.len() && 0 <= j < lines(outputs[i]).len()
        && #[trigger] trim(lines(outputs[i])[j]) == "Enabled: Yes"@
}

/// Whether the web proxy is on for some network service, from the
/// `networksetup -getwebproxy` output of each.
pub fn get_system_proxy_status(outputs: &Vec<String>) -> (r: bool)
    ensures
        r == reports_enabled(strs_view(outputs@)),
{
    let mut i: usize = 0;
    while i < outputs.len()
        invariant
            0 <= i <= outputs.len(),
            forall|a: int, b: int| 0 <= a < i && 0 <= b < lines(outputs@[a]@).len()
                ==> #[trigger] trim(lines(outputs@[a]@)[b]) != "Enabled: Yes"@,
        decreases outputs.len() - i,
    {
        let ls = lines_of(chars_of(outputs[i].as_str()).as_slice());
        let ghost lv = views_of(ls@);
        let mut j: usize = 0;
        while j < ls.len()
            invariant
                0 <= j <= ls.len(),
                0 <= i < outputs@.len(),
                lv == views_of(ls@),
                lv == lines(outputs@[i as int]@),
                forall|a: int, b: int| 0 <= a < i && 0 <= b < lines(outputs@[a]@).len()
                    ==> #[trigger] trim(lines(outputs@[a]@)[b]) != "Enabled: Yes"@,
                forall|b: int| 0 <= b < j ==> #[trigger] trim(lv[b]) != "Enabled: Yes"@,
            decreases ls.len() - j,
        {
            let t = string_of(trim_chars(ls[j].as_slice()).as_slice());
            if crate::json::str_eq(t.as_str(), "Enabled: Yes") {
                proof {
                    assert(lv[j as int] == ls@[j as int]@);
                    assert(strs_view(outputs@)[i as int] == outputs@[i as int]@);
                    assert(trim(lines(strs_view(outputs@)[i as int])[j as int]) == "Enabled: Yes"@);
                    assert(reports_enabled(strs_view(outputs@)));
                }
                return true;
            }
            proof {
                assert(lv[j as int] == ls@[j as int]@);
            }
            j += 1;
        }
        proof {
            assert forall|a: int, b: int| 0 <= a < i + 1 && 0 <= b < lines(outputs@[a]@).len()
                implies #[trigger] trim(lines(outputs@[a]@)[b]) != "Enabled: Yes"@ by {
                if a == i {
                    assert(trim(lv[b]) != "Enabled: Yes"@);
                }
            }
        }
        i += 1;
    }
    proof {
        if reports_enabled(strs_view(outputs@)) {
            let (a, b) = choose|a: int, b: int| 0 <= a < strs_view(outputs@).len() && 0 <= b < lines(strs_view(outputs@)[a]).len()
                && #[trigger] trim(lines(strs_view(outputs@)[a])[b]) == "Enabled: Yes"@;
            assert(strs_view(outputs@)[a] == outputs@[a]@);
        }
    }
    false
}

// ─── TUN ──────────────────────────────────────────────────────────────

/// Only Windows needs the WinTun driver next to the core; elsewhere the
/// kernel provides TUN devices.
pub fn wintun_available(platform: Platform, dll_present: bool) -> (r: bool)
    ensures
        r == (platform != Platform::Windows || dll_present),
{
    match platform {
        Platform::Windows => dll_present,
        _ => true,
    }
}

/// How to restart the client with administrator rights.
#[derive(Debug)]
pub enum RelaunchPlan {
    /// Ask for elevation (UAC `runas`) to start this executable.
    RunAs(String),
    /// Run this AppleScript, which starts the executable with administrator
    /// privileges.
    AppleScript(String),
    /// The platform has no such prompt.
    Unsupported,
}

/// The AppleScript that starts `exe` (single-quoted) in the background
/// with administrator privileges.
pub open spec fn admin_script(exe: Seq<char>) -> Seq<char> {
    "do shell script \"'"@ + exe + "' > /dev/null 2>&1 &\" with administrator privileges"@
}

/// How to restart the client with administrator rights on the platform.
pub fn relaunch_as_admin(platform: Platform, exe: &str) -> (r: RelaunchPlan)
    ensures
        platform == Platform::Windows ==> (r matches RelaunchPlan::RunAs(e) && e@ == exe@),
        platform == Platform::MacOs ==> (r matches RelaunchPlan::AppleScript(s) && s@ == admin_script(exe@)),
        platform == Platform::Linux ==> r is Unsupported,
{
    match platform {
        Platform::Windows => RelaunchPlan::RunAs(exe.to_string()),
        Platform::MacOs => {
            let mut s = "do shell script \"'".to_string();
            push_str(&mut s, exe);
            push_str(&mut s, "' > /dev/null 2>&1 &\" with administrator privileges");
            RelaunchPlan::AppleScript(s)
        },
        Platform::Linux => RelaunchPlan::Unsupported,
    }
}

/// `ShellExecuteW` succeeded when it returned more than 32.
pub fn shell_execute_succeeded(code: usize) -> (r: bool)
    ensures
        r == (code > 32),
{
    code > 32
}

// ─── Settings at first launch ─────────────────────────────────────────

/// The interface language for a fresh install: `zh-CN` for a Chinese system
/// locale (one that starts with `zh` in lower case), `en` otherwise (also
/// when the locale is unknown).
pub fn language_for_locale(locale: Option<&str>) -> (r: String)
    ensures
        r@ == (if starts_with(crate::external::lowercase(crate::links::or_text(crate::routing::str_opt(locale), Seq::empty())), "zh"@) {
            "zh-CN"@
        } else {
            "en"@
        }),
{
    proof {
        reveal_strlit("");
        assert(""@ =~= Seq::<char>::empty());
    }
    let l = match locale {
        Some(s) => s,
        None => "",
    };
    let low = crate::external::to_lowercase(l);
    if crate::text::str_starts_with(low.as_str(), "zh") {
        "zh-CN".to_string()
    } else {
        "en".to_string()
    }
}

/// The settings of a fresh install: the defaults, in the given language.
pub fn fresh_config(language: String) -> (r: crate::types::AppConfig)
    ensures
        r.language@ == language@,
        r.proxy_mode == crate::types::ProxyMode::Rule,
        r.mixed_port == 7890,
        r.api_port == 9090,
        !r.tun_enabled,
        r.active_nodes@.len() == 0,
        !r.restore_proxy_on_startup,
        !r.last_proxy_running,
{
    let mut c = crate::types::AppConfig::default();
    c.language = language;
    c
}

/// The saved Clash API secret, when the saved text is not blank (trimmed).
pub fn saved_secret(text: &str) -> (r: Option<String>)
    ensures
        trim(text@).len() == 0 ==> r is None,
        trim(text@).len() > 0 ==> (r matches Some(s) && s@ == trim(text@)),
{
    let t = trim_chars(chars_of(text).as_slice());
    if t.len() == 0 {
        None
    } else {
        Some(string_of(t.as_slice()))
    }
}

/// The resident memory of a process in bytes from `ps -o rss=` output (KiB,
/// surrounding white space ignored); `None` when it is not a number.
pub fn rss_bytes(ps_output: &str) -> (r: Option<u64>)
    requires
        crate::text::parse_unsigned(trim(ps_output@), u64::MAX as nat) matches Some(kb) ==> kb * 1024 <= u64::MAX,
    ensures
        r == match crate::text::parse_unsigned(trim(ps_output@), u64::MAX as nat) {
            Some(kb) => Some((kb * 1024) as u64),
            None => None,
        },
{
    let t = trim_chars(chars_of(ps_output).as_slice());
    match crate::text::parse_unsigned_chars(t.as_slice(), u64::MAX) {
        Some(kb) => Some(kb * 1024),
        None => None,
    }
}

} // verus!
