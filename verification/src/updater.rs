//! Releases of the sing-box core and of the client: reading GitHub's
//! release replies, picking the asset for the running platform, caching, and
//! taking the core binary out of its archive.
use vstd::prelude::*;
use crate::json::{Json, JVal, jview_seq, lemma_jview_seq};
use crate::text::{contains, ends_with, lines, str_contains, str_ends_with, chars_of, lines_of, views_of, string_of};
use crate::external::{
    lowercase, to_lowercase, zip_entry_count, zip_entry_name, zip_entry_content, zip_len, zip_name_at,
    zip_content_at, targz_entries, targz_entry_content, targz_paths, targz_content_at, TarItem, tar_items_view,
};
use crate::clash::str_or;

verus! {

/// The operating systems the client runs on.
#[derive(Debug, Clone, Copy, PartialEq, Eq, Structural)]
pub enum Platform {
    Windows,
    MacOs,
    Linux,
}

/// The CPU architectures the client ships for.
#[derive(Debug, Clone, Copy, PartialEq, Eq, Structural)]
pub enum Arch {
    Arm64,
    Amd64,
}

/// The sing-box release asset for a platform: OS and arch keywords of the
/// file name (Go names) and the archive extension.
pub struct PlatformAsset {
    pub os: &'static str,
    pub arch: &'static str,
    pub ext: &'static str,
}

/// `windows`, `darwin` or `linux`; `arm64` or `amd64`; `.zip` on Windows,
/// `.tar.gz` elsewhere.
pub open spec fn asset_words(platform: Platform, arch: Arch) -> (Seq<char>, Seq<char>, Seq<char>) {
    (
        match platform { Platform::Windows => "windows"@, Platform::MacOs => "darwin"@, Platform::Linux => "linux"@ },
        match arch { Arch::Arm64 => "arm64"@, Arch::Amd64 => "amd64"@ },
        match platform { Platform::Windows => ".zip"@, _ => ".tar.gz"@ },
    )
}

/// The sing-box release asset for a platform.
pub fn current_platform_asset(platform: Platform, arch: Arch) -> (r: PlatformAsset)
    ensures
        (r.os@, r.arch@, r.ext@) == asset_words(platform, arch),
{
    let os = match platform {
        Platform::Windows => "windows",
        Platform::MacOs => "darwin",
        Platform::Linux => "linux",
    };
    let a = match arch {
        Arch::Arm64 => "arm64",
        Arch::Amd64 => "amd64",
    };
    let ext = match platform {
        Platform::Windows => ".zip",
        _ => ".tar.gz",
    };
    PlatformAsset { os, arch: a, ext }
}

/// The file name of the sing-box executable.
pub open spec fn binary_name(platform: Platform) -> Seq<char> {
    match platform {
        Platform::Windows => "sing-box.exe"@,
        _ => "sing-box"@,
    }
}

/// The file name of the sing-box executable.
pub fn singbox_binary_name(platform: Platform) -> (r: &'static str)
    ensures
        r@ == binary_name(platform),
{
    match platform {
        Platform::Windows => "sing-box.exe",
        _ => "sing-box",
    }
}

/// How long a cached release answer stays fresh, in seconds.
pub const CACHE_TTL_SECS: u64 = 3600;

/// A cached answer is fresh for an hour (a clock that went back counts as
/// no time passed).
pub fn cache_fresh(now: u64, cached_at: u64) -> (r: bool)
    ensures
        r == ((if now >= cached_at { now - cached_at } else { 0 }) < CACHE_TTL_SECS),
{
    now.saturating_sub(cached_at) < CACHE_TTL_SECS
}

/// Whole minutes until GitHub's rate limit resets (from the
/// `X-RateLimit-Reset` header), when that is at least one.
pub fn rate_limit_minutes(reset: Option<u64>, now: u64) -> (r: Option<u64>)
    ensures
        r == match reset {
            Some(t) => if (if t >= now { t - now } else { 0 }) / 60 > 0 {
                Some(((if t >= now { t - now } else { 0 }) / 60) as u64)
            } else {
                None
            },
            None => None,
        },
{
    match reset {
        Some(t) => {
            let wait = t.saturating_sub(now);
            let mins = wait / 60;
            if mins > 0 { Some(mins) } else { None }
        },
        None => None,
    }
}

// ─── Release notes ────────────────────────────────────────────────────

/// The lines joined with `\n` between them.
pub open spec fn joined(ls: Seq<Seq<char>>) -> Seq<char>
    decreases ls.len(),
{
    if ls.len() == 0 {
        Seq::empty()
    } else if ls.len() == 1 {
        ls[0]
    } else {
        joined(ls.drop_last()) + seq!['\n'] + ls.last()
    }
}

/// The first `n` lines of `text`, joined with `\n`.
pub open spec fn first_lines(text: Seq<char>, n: nat) -> Seq<char> {
    let ls = lines(text);
    joined(if ls.len() <= n { ls } else { ls.subrange(0, n as int) })
}

/// The first `n` lines of `text`, joined with `\n`.
pub fn first_lines_of(text: &str, n: usize) -> (r: String)
    ensures
        r@ == first_lines(text@, n as nat),
{
    let ls = lines_of(chars_of(text).as_slice());
    let ghost lv = views_of(ls@);
    let ghost taken = if lv.len() <= n { lv } else { lv.subrange(0, n as int) };
    let mut out = String::new();
    let mut i: usize = 0;
    let count = if ls.len() <= n { ls.len() } else { n };
    proof {
        assert(taken.len() == count);
    }
    while i < count
        invariant
            0 <= i <= count,
            count <= ls.len(),
            lv == views_of(ls@),
            taken.len() == count,
            forall|k: int| 0 <= k < count ==> #[trigger] taken[k] == lv[k],
            out@ == joined(taken.subrange(0, i as int)),
        decreases count - i,
    {
        let ghost pre = taken.subrange(0, i + 1);
        proof {
            assert(pre.drop_last() =~= taken.subrange(0, i as int));
            assert(pre.last() == ls@[i as int]@);
        }
        if i > 0 {
            out.push('\n');
        }
        let line = string_of(ls[i].as_slice());
        crate::text::push_str(&mut out, line.as_str());
        proof {
            if i == 0 {
                assert(taken.subrange(0, 0) =~= Seq::<Seq<char>>::empty());
                assert(pre =~= seq![pre[0]]);
                assert(out@ =~= pre[0]);
            } else {
                assert(out@ =~= joined(pre.drop_last()) + seq!['\n'] + pre.last());
            }
        }
        i += 1;
    }
    proof {
        assert(taken.subrange(0, i as int) =~= taken);
    }
    out
}

// ─── sing-box releases ────────────────────────────────────────────────

/// A sing-box release.
#[derive(Debug)]
pub struct ReleaseInfo {
    pub version: String,
    pub published_at: String,
    pub release_notes: String,
    pub download_url: String,
}

/// Why a release could not be read.
#[derive(Debug)]
pub enum ReleaseError {
    /// GitHub's rate limit was hit.
    RateLimited,
    /// GitHub answered with this error message.
    Api(String),
    /// The release has no tag.
    NoVersion,
    /// The release lists no assets.
    NoAssets,
    /// No asset fits the running platform.
    NoPlatformAsset,
    /// The release list is not a list.
    NotAList,
    /// The release list is empty.
    NoRelease,
}

/// The model of a [`ReleaseError`].
pub enum ReleaseErrorView {
    RateLimited,
    Api(Seq<char>),
    NoVersion,
    NoAssets,
    NoPlatformAsset,
    NotAList,
    NoRelease,
}

impl ReleaseError {
    pub open spec fn view(&self) -> ReleaseErrorView {
        match self {
            ReleaseError::RateLimited => ReleaseErrorView::RateLimited,
            ReleaseError::Api(m) => ReleaseErrorView::Api(m@),
            ReleaseError::NoVersion => ReleaseErrorView::NoVersion,
            ReleaseError::NoAssets => ReleaseErrorView::NoAssets,
            ReleaseError::NoPlatformAsset => ReleaseErrorView::NoPlatformAsset,
            ReleaseError::NotAList => ReleaseErrorView::NotAList,
            ReleaseError::NoRelease => ReleaseErrorView::NoRelease,
        }
    }
}

/// The lower-cased name of an asset (empty when it has none).
pub open spec fn asset_name(a: JVal) -> Seq<char> {
    lowercase(str_or(a.field("name"@), Seq::empty()))
}

/// The asset is the sing-box archive for the platform.
pub open spec fn is_core_asset(a: JVal, w: (Seq<char>, Seq<char>, Seq<char>)) -> bool {
    let n = asset_name(a);
    contains(n, w.0) && contains(n, w.1) && ends_with(n, w.2)
}

/// Index of the first asset that satisfies `pred`, or the length.
pub open spec fn first_where(assets: Seq<JVal>, pred: spec_fn(JVal) -> bool) -> int
    decreases assets.len(),
{
    if assets.len() == 0 {
        0
    } else if pred(assets[0]) {
        0
    } else {
        1 + first_where(assets.drop_first(), pred)
    }
}

/// What the sing-box release endpoint's reply says: an error message (a
/// rate limit when it mentions one), else the tag, the date, the first ten
/// lines of the notes and the URL of the first platform asset.
pub open spec fn core_release(body: JVal, w: (Seq<char>, Seq<char>, Seq<char>)) -> Result<(Seq<char>, Seq<char>, Seq<char>, Seq<char>), ReleaseErrorView> {
    match body.field("message"@).as_str() {
        Some(msg) => if contains(lowercase(msg), "rate limit"@) {
            Err(ReleaseErrorView::RateLimited)
        } else {
            Err(ReleaseErrorView::Api(msg))
        },
        None => match body.field("tag_name"@).as_str() {
            None => Err(ReleaseErrorView::NoVersion),
            Some(version) => match body.field("assets"@).as_arr() {
                None => Err(ReleaseErrorView::NoAssets),
                Some(assets) => {
                    let k = first_where(assets, |a: JVal| is_core_asset(a, w));
                    if k < assets.len() {
                        match assets[k].field("browser_download_url"@).as_str() {
                            Some(url) => Ok((
                                version,
                                str_or(body.field("published_at"@), Seq::empty()),
                                first_lines(str_or(body.field("body"@), Seq::empty()), 10),
                                url,
                            )),
                            None => Err(ReleaseErrorView::NoPlatformAsset),
                        }
                    } else {
                        Err(ReleaseErrorView::NoPlatformAsset)
                    }
                },
            },
        },
    }
}

/// The first index of `first_where` is a hit, and nothing before it is.
proof fn lemma_first_where(assets: Seq<JVal>, pred: spec_fn(JVal) -> bool)
    ensures
        0 <= first_where(assets, pred) <= assets.len(),
        first_where(assets, pred) < assets.len() ==> pred(assets[first_where(assets, pred)]),
        forall|j: int| 0 <= j < first_where(assets, pred) ==> !pred(#[trigger] assets[j]),
    decreases assets.len(),
{
    if assets.len() > 0 && !pred(assets[0]) {
        let t = assets.drop_first();
        lemma_first_where(t, pred);
        assert forall|j: int| 0 <= j < first_where(assets, pred) implies !pred(#[trigger] assets[j]) by {
            if j > 0 {
                assert(assets[j] == t[j - 1]);
            }
        }
    }
}

/// The download URL of a sing-box release is that of the first asset whose
/// lower-cased name holds the platform's OS word and its CPU architecture
/// word and ends with its archive extension.
pub proof fn lemma_core_release_picks_platform_asset(body: JVal, w: (Seq<char>, Seq<char>, Seq<char>))
    requires
        core_release(body, w) is Ok,
    ensures
        body.field("assets"@).as_arr() is Some,
        exists|k: int|
            #![trigger body.field("assets"@).as_arr()->Some_0[k]]
            0 <= k < body.field("assets"@).as_arr()->Some_0.len()
            && body.field("assets"@).as_arr()->Some_0[k].field("browser_download_url"@) == JVal::Str(
                core_release(body, w)->Ok_0.3,
            )
            && contains(lowercase(str_or(body.field("assets"@).as_arr()->Some_0[k].field("name"@), Seq::empty())), w.0)
            && contains(lowercase(str_or(body.field("assets"@).as_arr()->Some_0[k].field("name"@), Seq::empty())), w.1)
            && ends_with(lowercase(str_or(body.field("assets"@).as_arr()->Some_0[k].field("name"@), Seq::empty())), w.2)
            && forall|j: int|
                #![trigger body.field("assets"@).as_arr()->Some_0[j]]
                0 <= j < k ==> !(contains(
                    lowercase(str_or(body.field("assets"@).as_arr()->Some_0[j].field("name"@), Seq::empty())),
                    w.0,
                ) && contains(lowercase(str_or(body.field("assets"@).as_arr()->Some_0[j].field("name"@), Seq::empty())), w.1)
                    && ends_with(lowercase(str_or(body.field("assets"@).as_arr()->Some_0[j].field("name"@), Seq::empty())), w.2)),
{
    let assets = body.field("assets"@).as_arr()->Some_0;
    let pred = |a: JVal| is_core_asset(a, w);
    lemma_first_where(assets, pred);
    let k = first_where(assets, pred);
    assert(pred(assets[k]));
    assert forall|j: int| 0 <= j < k implies !is_core_asset(#[trigger] assets[j], w) by {
        assert(!pred(assets[j]));
    }
}

/// The lower-cased name of an asset.
fn asset_name_of(a: &Json) -> (r: String)
    ensures
        r@ == asset_name(a@),
{
    proof {
        reveal_strlit("");
        assert(""@ =~= Seq::<char>::empty());
    }
    let n = a.str_at_or("name", "");
    to_lowercase(n.as_str())
}

/// Position of the sing-box archive for the platform among the assets.
fn find_core_asset(assets: &Vec<Json>, w: &PlatformAsset) -> (r: usize)
    ensures
        r == first_where(jview_seq(assets@), |a: JVal| is_core_asset(a, (w.os@, w.arch@, w.ext@))),
        r <= assets@.len(),
{
    let ghost pred = |a: JVal| is_core_asset(a, (w.os@, w.arch@, w.ext@));
    let ghost av = jview_seq(assets@);
    proof {
        lemma_jview_seq(assets@);
        assert(av.subrange(0, av.len() as int) =~= av);
    }
    let mut i: usize = 0;
    while i < assets.len()
        invariant
            0 <= i <= assets.len(),
            av == jview_seq(assets@),
            av.len() == assets@.len(),
            forall|k: int| 0 <= k < assets@.len() ==> #[trigger] av[k] == assets@[k]@,
            first_where(av, pred) == i + first_where(av.subrange(i as int, av.len() as int), pred),
            pred == (|a: JVal| is_core_asset(a, (w.os@, w.arch@, w.ext@))),
        decreases assets.len() - i,
    {
        let n = asset_name_of(&assets[i]);
        let hit = str_contains(n.as_str(), w.os) && str_contains(n.as_str(), w.arch) && str_ends_with(n.as_str(), w.ext);
        let ghost rest = av.subrange(i as int, av.len() as int);
        proof {
            assert(rest[0] == assets@[i as int]@);
            assert(rest.drop_first() =~= av.subrange(i + 1, av.len() as int));
        }
        if hit {
            return i;
        }
        i += 1;
    }
    proof {
        assert(av.subrange(i as int, av.len() as int).len() == 0);
    }
    i
}

/// The model of a release answer.
pub open spec fn release_view(r: Result<ReleaseInfo, ReleaseError>) -> Result<(Seq<char>, Seq<char>, Seq<char>, Seq<char>), ReleaseErrorView> {
    match r {
        Ok(i) => Ok((i.version@, i.published_at@, i.release_notes@, i.download_url@)),
        Err(e) => Err(e.view()),
    }
}

/// Reads the sing-box release endpoint's reply for the platform's asset.
pub fn release_from_body(body: &Json, asset: &PlatformAsset) -> (r: Result<ReleaseInfo, ReleaseError>)
    ensures
        release_view(r) == core_release(body@, (asset.os@, asset.arch@, asset.ext@)),
{
    proof {
        reveal_strlit("");
        assert(""@ =~= Seq::<char>::empty());
    }
    match body.str_at("message") {
        Some(msg) => {
            let low = to_lowercase(msg.as_str());
            if str_contains(low.as_str(), "rate limit") {
                return Err(ReleaseError::RateLimited);
            }
            return Err(ReleaseError::Api(msg));
        },
        None => {},
    }
    let version = match body.str_at("tag_name") {
        Some(v) => v,
        None => {
            return Err(ReleaseError::NoVersion);
        },
    };
    let assets = match body.get("assets") {
        Some(Json::Arr(a)) => a,
        _ => {
            return Err(ReleaseError::NoAssets);
        },
    };
    proof {
        lemma_jview_seq(assets@);
        assert(body@.field("assets"@).as_arr() == Some(jview_seq(assets@)));
    }
    let k = find_core_asset(assets, asset);
    if k >= assets.len() {
        return Err(ReleaseError::NoPlatformAsset);
    }
    let url = match assets[k].str_at("browser_download_url") {
        Some(u) => u,
        None => {
            return Err(ReleaseError::NoPlatformAsset);
        },
    };
    let published_at = body.str_at_or("published_at", "");
    let notes_src = body.str_at_or("body", "");
    let release_notes = first_lines_of(notes_src.as_str(), 10);
    Ok(ReleaseInfo { version, published_at, release_notes, download_url: url })
}

// ─── Client releases ──────────────────────────────────────────────────

/// A release of the client.
#[derive(Debug)]
pub struct AppReleaseInfo {
    pub version: String,
    pub published_at: String,
    pub release_notes: String,
    pub download_url: String,
    pub is_prerelease: bool,
}

/// The asset ends with `ext`.
pub open spec fn asset_ends(a: JVal, ext: Seq<char>) -> bool {
    ends_with(asset_name(a), ext)
}

/// The download URL of the asset at `k`, if there is one.
pub open spec fn url_at(assets: Seq<JVal>, k: int) -> Option<Seq<char>> {
    if 0 <= k < assets.len() { assets[k].field("browser_download_url"@).as_str() } else { None }
}

/// The first of the assets satisfying `preferred`, else the first
/// satisfying `fallback`.
pub open spec fn preferred_or(assets: Seq<JVal>, preferred: spec_fn(JVal) -> bool, fallback: spec_fn(JVal) -> bool) -> int {
    let k = first_where(assets, preferred);
    if k < assets.len() { k } else { first_where(assets, fallback) }
}

/// A Windows installer that looks like the x64 setup.
pub open spec fn is_windows_setup(a: JVal) -> bool {
    let n = asset_name(a);
    ends_with(n, ".exe"@) && (contains(n, "x64"@) || contains(n, "setup"@) || contains(n, "install"@))
}

/// A macOS disk image for the architecture.
pub open spec fn is_mac_image_for(a: JVal, arch: Arch) -> bool {
    let n = asset_name(a);
    ends_with(n, ".dmg"@) && match arch {
        Arch::Arm64 => contains(n, "aarch64"@) || contains(n, "arm64"@),
        Arch::Amd64 => contains(n, "x64"@) || contains(n, "x86_64"@),
    }
}

/// A Linux package that has a download URL.
pub open spec fn is_linux_package(a: JVal) -> bool {
    (asset_ends(a, ".appimage"@) || asset_ends(a, ".deb"@)) && a.field("browser_download_url"@).as_str() is Some
}

/// The installer for the platform among a release's assets: on Windows the
/// x64 setup `.exe`, else any `.exe`; on macOS the `.dmg` for the
/// architecture, else any `.dmg`; on Linux the first `.appimage` or `.deb`
/// with a URL.
pub open spec fn installer_url(assets: Seq<JVal>, platform: Platform, arch: Arch) -> Option<Seq<char>> {
    match platform {
        Platform::Windows => url_at(assets, preferred_or(assets, |a: JVal| is_windows_setup(a), |a: JVal| asset_ends(a, ".exe"@))),
        Platform::MacOs => url_at(assets, preferred_or(assets, |a: JVal| is_mac_image_for(a, arch), |a: JVal| asset_ends(a, ".dmg"@))),
        Platform::Linux => url_at(assets, first_where(assets, |a: JVal| is_linux_package(a))),
    }
}

/// An index that satisfies `pred`, with none before it, is the first one.
proof fn lemma_first_where_is(assets: Seq<JVal>, pred: spec_fn(JVal) -> bool, k: int)
    requires
        0 <= k < assets.len(),
        pred(assets[k]),
        forall|j: int| 0 <= j < k ==> !pred(#[trigger] assets[j]),
    ensures
        first_where(assets, pred) == k,
{
    lemma_first_where(assets, pred);
    let f = first_where(assets, pred);
    if f < k {
        assert(pred(assets[f]));
    }
}

/// On macOS the client installer is the first `.dmg` whose lower-cased name
/// names the CPU architecture (`aarch64` or `arm64`; `x64` or `x86_64`).
pub proof fn lemma_mac_installer_for_arch(assets: Seq<JVal>, arch: Arch, k: int)
    requires
        0 <= k < assets.len(),
        ends_with(lowercase(str_or(assets[k].field("name"@), Seq::empty())), ".dmg"@),
        match arch {
            Arch::Arm64 => contains(lowercase(str_or(assets[k].field("name"@), Seq::empty())), "aarch64"@) || contains(
                lowercase(str_or(assets[k].field("name"@), Seq::empty())),
                "arm64"@,
            ),
            Arch::Amd64 => contains(lowercase(str_or(assets[k].field("name"@), Seq::empty())), "x64"@) || contains(
                lowercase(str_or(assets[k].field("name"@), Seq::empty())),
                "x86_64"@,
            ),
        },
        forall|j: int|
            0 <= j < k ==> !(ends_with(lowercase(str_or((#[trigger] assets[j]).field("name"@), Seq::empty())), ".dmg"@)
                && match arch {
                Arch::Arm64 => contains(lowercase(str_or(assets[j].field("name"@), Seq::empty())), "aarch64"@) || contains(
                    lowercase(str_or(assets[j].field("name"@), Seq::empty())),
                    "arm64"@,
                ),
                Arch::Amd64 => contains(lowercase(str_or(assets[j].field("name"@), Seq::empty())), "x64"@) || contains(
                    lowercase(str_or(assets[j].field("name"@), Seq::empty())),
                    "x86_64"@,
                ),
            }),
    ensures
        installer_url(assets, Platform::MacOs, arch) == assets[k].field("browser_download_url"@).as_str(),
{
    let pred = |a: JVal| is_mac_image_for(a, arch);
    assert forall|j: int| 0 <= j < k implies !pred(#[trigger] assets[j]) by {}
    lemma_first_where_is(assets, pred, k);
}

/// On Windows the client installer is the first `.exe` whose lower-cased
/// name mentions `x64`, `setup` or `install`.
pub proof fn lemma_windows_installer_setup(assets: Seq<JVal>, arch: Arch, k: int)
    requires
        0 <= k < assets.len(),
        ends_with(lowercase(str_or(assets[k].field("name"@), Seq::empty())), ".exe"@),
        contains(lowercase(str_or(assets[k].field("name"@), Seq::empty())), "x64"@) || contains(
            lowercase(str_or(assets[k].field("name"@), Seq::empty())),
            "setup"@,
        ) || contains(lowercase(str_or(assets[k].field("name"@), Seq::empty())), "install"@),
        forall|j: int|
            0 <= j < k ==> !(ends_with(lowercase(str_or((#[trigger] assets[j]).field("name"@), Seq::empty())), ".exe"@)
                && (contains(lowercase(str_or(assets[j].field("name"@), Seq::empty())), "x64"@) || contains(
                lowercase(str_or(assets[j].field("name"@), Seq::empty())),
                "setup"@,
            ) || contains(lowercase(str_or(assets[j].field("name"@), Seq::empty())), "install"@))),
    ensures
        installer_url(assets, Platform::Windows, arch) == assets[k].field("browser_download_url"@).as_str(),
{
    let pred = |a: JVal| is_windows_setup(a);
    assert forall|j: int| 0 <= j < k implies !pred(#[trigger] assets[j]) by {}
    lemma_first_where_is(assets, pred, k);
}

/// Which asset test a search applies.
#[derive(Clone, Copy)]
enum AssetTest {
    WindowsSetup,
    Ends(&'static str),
    MacImage(Arch),
    LinuxPackage,
}

spec fn passes(t: AssetTest, a: JVal) -> bool {
    match t {
        AssetTest::WindowsSetup => is_windows_setup(a),
        AssetTest::Ends(e) => asset_ends(a, e@),
        AssetTest::MacImage(arch) => is_mac_image_for(a, arch),
        AssetTest::LinuxPackage => is_linux_package(a),
    }
}

fn passes_exec(t: AssetTest, a: &Json) -> (r: bool)
    ensures
        r == passes(t, a@),
{
    let n = asset_name_of(a);
    let ns = n.as_str();
    match t {
        AssetTest::WindowsSetup => str_ends_with(ns, ".exe") && (str_contains(ns, "x64") || str_contains(ns, "setup") || str_contains(ns, "install")),
        AssetTest::Ends(e) => str_ends_with(ns, e),
        AssetTest::MacImage(arch) => str_ends_with(ns, ".dmg") && match arch {
            Arch::Arm64 => str_contains(ns, "aarch64") || str_contains(ns, "arm64"),
            Arch::Amd64 => str_contains(ns, "x64") || str_contains(ns, "x86_64"),
        },
        AssetTest::LinuxPackage => (str_ends_with(ns, ".appimage") || str_ends_with(ns, ".deb")) && a.str_at("browser_download_url").is_some(),
    }
}

/// Position of the first asset passing the test.
fn find_asset(assets: &Vec<Json>, t: AssetTest) -> (r: usize)
    ensures
        r == first_where(jview_seq(assets@), |a: JVal| passes(t, a)),
        r <= assets@.len(),
{
    let ghost pred = |a: JVal| passes(t, a);
    let ghost av = jview_seq(assets@);
    proof {
        lemma_jview_seq(assets@);
        assert(av.subrange(0, av.len() as int) =~= av);
    }
    let mut i: usize = 0;
    while i < assets.len()
        invariant
            0 <= i <= assets.len(),
            av == jview_seq(assets@),
            av.len() == assets@.len(),
            forall|k: int| 0 <= k < assets@.len() ==> #[trigger] av[k] == assets@[k]@,
            first_where(av, pred) == i + first_where(av.subrange(i as int, av.len() as int), pred),
            pred == (|a: JVal| passes(t, a)),
        decreases assets.len() - i,
    {
        let hit = passes_exec(t, &assets[i]);
        let ghost rest = av.subrange(i as int, av.len() as int);
        proof {
            assert(rest[0] == assets@[i as int]@);
            assert(rest.drop_first() =~= av.subrange(i + 1, av.len() as int));
        }
        if hit {
            return i;
        }
        i += 1;
    }
    proof {
        assert(av.subrange(i as int, av.len() as int).len() == 0);
    }
    i
}

fn url_of(assets: &Vec<Json>, k: usize) -> (r: Option<String>)
    ensures
        crate::external::opt_view(r) == url_at(jview_seq(assets@), k as int),
{
    proof {
        lemma_jview_seq(assets@);
    }
    if k < assets.len() {
        assets[k].str_at("browser_download_url")
    } else {
        None
    }
}

/// The installer for the platform among a release's assets.
pub fn find_app_installer_url(assets: &Vec<Json>, platform: Platform, arch: Arch) -> (r: Option<String>)
    ensures
        crate::external::opt_view(r) == installer_url(jview_seq(assets@), platform, arch),
{
    proof {
        lemma_jview_seq(assets@);
    }
    let ghost av = jview_seq(assets@);
    match platform {
        Platform::Windows => {
            let k = find_asset(assets, AssetTest::WindowsSetup);
            let k = if k < assets.len() { k } else { find_asset(assets, AssetTest::Ends(".exe")) };
            proof {
                assert((|a: JVal| passes(AssetTest::WindowsSetup, a)) =~= (|a: JVal| is_windows_setup(a)));
                assert((|a: JVal| passes(AssetTest::Ends(".exe"), a)) =~= (|a: JVal| asset_ends(a, ".exe"@)));
            }
            url_of(assets, k)
        },
        Platform::MacOs => {
            let k = find_asset(assets, AssetTest::MacImage(arch));
            let k = if k < assets.len() { k } else { find_asset(assets, AssetTest::Ends(".dmg")) };
            proof {
                assert((|a: JVal| passes(AssetTest::MacImage(arch), a)) =~= (|a: JVal| is_mac_image_for(a, arch)));
                assert((|a: JVal| passes(AssetTest::Ends(".dmg"), a)) =~= (|a: JVal| asset_ends(a, ".dmg"@)));
            }
            url_of(assets, k)
        },
        Platform::Linux => {
            let k = find_asset(assets, AssetTest::LinuxPackage);
            proof {
                assert((|a: JVal| passes(AssetTest::LinuxPackage, a)) =~= (|a: JVal| is_linux_package(a)));
            }
            url_of(assets, k)
        },
    }
}

/// What a client release says: the tag, date, prerelease flag, the first
/// twelve lines of the notes and the platform's installer.
pub open spec fn app_release(body: JVal, platform: Platform, arch: Arch) -> Result<(Seq<char>, Seq<char>, Seq<char>, Seq<char>, bool), ReleaseErrorView> {
    match body.field("tag_name"@).as_str() {
        None => Err(ReleaseErrorView::NoVersion),
        Some(version) => match body.field("assets"@).as_arr() {
            None => Err(ReleaseErrorView::NoAssets),
            Some(assets) => match installer_url(assets, platform, arch) {
                None => Err(ReleaseErrorView::NoPlatformAsset),
                Some(url) => Ok((
                    version,
                    str_or(body.field("published_at"@), Seq::empty()),
                    first_lines(str_or(body.field("body"@), Seq::empty()), 12),
                    url,
                    match body.field("prerelease"@).as_bool() { Some(b) => b, None => false },
                )),
            },
        },
    }
}

/// The model of a client release answer.
pub open spec fn app_release_view(r: Result<AppReleaseInfo, ReleaseError>) -> Result<(Seq<char>, Seq<char>, Seq<char>, Seq<char>, bool), ReleaseErrorView> {
    match r {
        Ok(i) => Ok((i.version@, i.published_at@, i.release_notes@, i.download_url@, i.is_prerelease)),
        Err(e) => Err(e.view()),
    }
}

/// Reads one client release.
pub fn parse_app_release(body: &Json, platform: Platform, arch: Arch) -> (r: Result<AppReleaseInfo, ReleaseError>)
    ensures
        app_release_view(r) == app_release(body@, platform, arch),
{
    proof {
        reveal_strlit("");
        assert(""@ =~= Seq::<char>::empty());
    }
    let version = match body.str_at("tag_name") {
        Some(v) => v,
        None => {
            return Err(ReleaseError::NoVersion);
        },
    };
    let assets = match body.get("assets") {
        Some(Json::Arr(a)) => a,
        _ => {
            return Err(ReleaseError::NoAssets);
        },
    };
    proof {
        lemma_jview_seq(assets@);
        assert(body@.field("assets"@).as_arr() == Some(jview_seq(assets@)));
    }
    let url = match find_app_installer_url(assets, platform, arch) {
        Some(u) => u,
        None => {
            return Err(ReleaseError::NoPlatformAsset);
        },
    };
    let published_at = body.str_at_or("published_at", "");
    let is_prerelease = match body.bool_at("prerelease") {
        Some(b) => b,
        None => false,
    };
    let notes_src = body.str_at_or("body", "");
    let release_notes = first_lines_of(notes_src.as_str(), 12);
    Ok(AppReleaseInfo { version, published_at, release_notes, download_url: url, is_prerelease })
}

/// What the client release endpoint's reply says: for the beta channel a
/// list whose first (newest) release counts; an error message when there
/// is one; otherwise the release.
pub open spec fn app_release_reply(body: JVal, beta: bool, platform: Platform, arch: Arch) -> Result<(Seq<char>, Seq<char>, Seq<char>, Seq<char>, bool), ReleaseErrorView> {
    let rel = if beta {
        match body.as_arr() {
            None => Err(ReleaseErrorView::NotAList),
            Some(list) => if list.len() == 0 { Err(ReleaseErrorView::NoRelease) } else { Ok(list[0]) },
        }
    } else {
        Ok(body)
    };
    match rel {
        Err(e) => Err(e),
        Ok(r) => match r.field("message"@).as_str() {
            Some(msg) => Err(ReleaseErrorView::Api(msg)),
            None => app_release(r, platform, arch),
        },
    }
}

/// Reads the client release endpoint's reply.
pub fn app_release_from_reply(body: &Json, beta: bool, platform: Platform, arch: Arch) -> (r: Result<AppReleaseInfo, ReleaseError>)
    ensures
        app_release_view(r) == app_release_reply(body@, beta, platform, arch),
{
    let rel: &Json = if beta {
        match body {
            Json::Arr(list) => {
                proof {
                    lemma_jview_seq(list@);
                }
                if list.len() == 0 {
                    return Err(ReleaseError::NoRelease);
                }
                &list[0]
            },
            _ => {
                return Err(ReleaseError::NotAList);
            },
        }
    } else {
        body
    };
    match rel.str_at("message") {
        Some(msg) => Err(ReleaseError::Api(msg)),
        None => parse_app_release(rel, platform, arch),
    }
}

// ─── Downloads ────────────────────────────────────────────────────────

/// A download URL that names a `.tar.gz` archive (any case); otherwise the
/// archive is a ZIP.
pub fn is_tar_gz_url(url: &str) -> (r: bool)
    ensures
        r == ends_with(lowercase(url@), ".tar.gz"@),
{
    let low = to_lowercase(url);
    str_ends_with(low.as_str(), ".tar.gz")
}

/// The text after the last `/` of `url` (all of it when there is none).
pub open spec fn last_segment(url: Seq<char>) -> Seq<char>
    decreases url.len(),
{
    if url.len() == 0 {
        url
    } else if url.last() == '/' {
        Seq::empty()
    } else {
        last_segment(url.drop_last()).push(url.last())
    }
}

/// The installer's file name: the last `/`-separated segment of its URL.
pub fn installer_file_name(url: &str) -> (r: String)
    ensures
        r@ == last_segment(url@),
{
    let cs = chars_of(url);
    let mut start: usize = cs.len();
    proof {
        assert(url@.subrange(0, start as int) =~= url@);
        assert(cs@.subrange(start as int, cs@.len() as int) =~= Seq::<char>::empty());
        assert(last_segment(url@) =~= last_segment(url@.subrange(0, start as int)) + cs@.subrange(start as int, cs@.len() as int));
    }
    while start > 0 && cs[start - 1] != '/'
        invariant
            0 <= start <= cs.len(),
            cs@ == url@,
            last_segment(url@) == last_segment(url@.subrange(0, start as int)) + url@.subrange(start as int, url@.len() as int),
        decreases start,
    {
        proof {
            let p = url@.subrange(0, start as int);
            assert(p.drop_last() =~= url@.subrange(0, start - 1));
            assert(p.last() == url@[start - 1]);
            assert(last_segment(p) == last_segment(p.drop_last()).push(url@[start - 1]));
            assert(last_segment(p.drop_last()).push(url@[start - 1]) + url@.subrange(start as int, url@.len() as int)
                =~= last_segment(p.drop_last()) + url@.subrange(start - 1, url@.len() as int));
        }
        start -= 1;
    }
    proof {
        let p = url@.subrange(0, start as int);
        if start > 0 {
            assert(p.last() == url@[start - 1]);
        }
        assert(last_segment(p) =~= Seq::<char>::empty());
        assert(Seq::<char>::empty() + url@.subrange(start as int, url@.len() as int) =~= url@.subrange(start as int, url@.len() as int));
    }
    string_of(crate::text::slice_range(cs.as_slice(), start, cs.len()).as_slice())
}

/// Why the core binary could not be taken out of its archive.
#[derive(Debug, Clone, Copy, PartialEq, Eq, Structural)]
pub enum ExtractError {
    /// The archive cannot be opened.
    BadArchive,
    /// An entry cannot be read.
    BadEntry,
    /// No entry is the binary.
    NotFound,
}

/// The text ends with one of `targets`.
pub open spec fn ends_with_any(n: Seq<char>, targets: Seq<Seq<char>>) -> bool {
    exists|i: int| 0 <= i < targets.len() && ends_with(n, #[trigger] targets[i])
}

/// Index of the first ZIP entry whose lower-cased name ends with one of
/// `targets`, stopping at the first entry that cannot be read: `Ok(k)` with
/// `k` the count when none matches, `Err(k)` for an unreadable entry `k`.
pub open spec fn zip_match(data: Seq<u8>, count: nat, targets: Seq<Seq<char>>, from: nat) -> Result<nat, nat>
    decreases count - from,
{
    if from >= count {
        Ok(count)
    } else {
        match zip_entry_name(data, from) {
            None => Err(from),
            Some(n) => if ends_with_any(lowercase(n), targets) {
                Ok(from)
            } else {
                zip_match(data, count, targets, from + 1)
            },
        }
    }
}

/// The content of the first entry of a ZIP archive whose lower-cased name
/// ends with one of `targets` (each already lower case).
pub open spec fn zip_extract(data: Seq<u8>, targets: Seq<Seq<char>>) -> Result<Seq<u8>, ExtractError> {
    match zip_entry_count(data) {
        None => Err(ExtractError::BadArchive),
        Some(count) => match zip_match(data, count, targets, 0) {
            Err(_) => Err(ExtractError::BadEntry),
            Ok(k) => if k >= count {
                Err(ExtractError::NotFound)
            } else {
                match zip_entry_content(data, k) {
                    Some(c) => Ok(c),
                    None => Err(ExtractError::BadEntry),
                }
            },
        },
    }
}

/// The model of an extraction.
pub open spec fn extract_view(r: Result<Vec<u8>, ExtractError>) -> Result<Seq<u8>, ExtractError> {
    match r {
        Ok(v) => Ok(v@),
        Err(e) => Err(e),
    }
}

fn ends_with_any_of(n: &str, targets: &Vec<String>) -> (r: bool)
    ensures
        r == ends_with_any(n@, crate::json::strs_view(targets@)),
{
    let mut i: usize = 0;
    while i < targets.len()
        invariant
            0 <= i <= targets.len(),
            forall|k: int| 0 <= k < i ==> !ends_with(n@, #[trigger] crate::json::strs_view(targets@)[k]),
        decreases targets.len() - i,
    {
        if str_ends_with(n, targets[i].as_str()) {
            proof {
                assert(ends_with(n@, crate::json::strs_view(targets@)[i as int]));
            }
            return true;
        }
        i += 1;
    }
    false
}

/// The content of the first entry of a ZIP archive whose lower-cased name
/// ends with one of `targets`.
pub fn extract_from_zip(data: &[u8], targets: &Vec<String>) -> (r: Result<Vec<u8>, ExtractError>)
    ensures
        extract_view(r) == zip_extract(data@, crate::json::strs_view(targets@)),
{
    let ghost ts = crate::json::strs_view(targets@);
    let count = match zip_len(data) {
        Some(n) => n,
        None => {
            return Err(ExtractError::BadArchive);
        },
    };
    let mut i: usize = 0;
    while i < count
        invariant
            0 <= i <= count,
            ts == crate::json::strs_view(targets@),
            zip_entry_count(data@) == Some(count as nat),
            zip_match(data@, count as nat, ts, 0) == zip_match(data@, count as nat, ts, i as nat),
        decreases count - i,
    {
        let name = match zip_name_at(data, i) {
            Some(n) => n,
            None => {
                return Err(ExtractError::BadEntry);
            },
        };
        let low = to_lowercase(name.as_str());
        if ends_with_any_of(low.as_str(), targets) {
            return match zip_content_at(data, i) {
                Some(c) => Ok(c),
                None => Err(ExtractError::BadEntry),
            };
        }
        i += 1;
    }
    Err(ExtractError::NotFound)
}

/// The sing-box executable inside a Windows `.zip` release: the first entry
/// whose lower-cased name ends with the lower-cased binary name.
pub fn extract_binary_from_zip(data: &[u8], platform: Platform) -> (r: Result<Vec<u8>, ExtractError>)
    ensures
        extract_view(r) == zip_extract(data@, seq![lowercase(binary_name(platform))]),
{
    let target = to_lowercase(singbox_binary_name(platform));
    let ts: Vec<String> = vec![target];
    proof {
        assert(crate::json::strs_view(ts@) =~= seq![lowercase(binary_name(platform))]);
    }
    extract_from_zip(data, &ts)
}

/// The entry names that hold the 64-bit WinTun driver.
pub open spec fn wintun_targets() -> Seq<Seq<char>> {
    seq!["amd64/wintun.dll"@, "amd64\\wintun.dll"@]
}

/// The 64-bit WinTun driver inside the WinTun `.zip`.
pub fn extract_wintun(data: &[u8]) -> (r: Result<Vec<u8>, ExtractError>)
    ensures
        extract_view(r) == zip_extract(data@, wintun_targets()),
{
    let ts: Vec<String> = vec!["amd64/wintun.dll".to_string(), "amd64\\wintun.dll".to_string()];
    proof {
        assert(crate::json::strs_view(ts@) =~= wintun_targets());
    }
    extract_from_zip(data, &ts)
}

// ─── File names of tar entries ───────────────────────────────────────

/// A byte that separates path components: `/`, and on Windows also `\`.
pub open spec fn is_path_sep(b: u8, windows: bool) -> bool {
    b == 47u8 || (windows && b == 92u8)
}

/// The bytes after the last separator of a path.
pub open spec fn tail_segment(p: Seq<u8>, windows: bool) -> Seq<u8>
    decreases p.len(),
{
    if p.len() == 0 {
        Seq::empty()
    } else if is_path_sep(p.last(), windows) {
        Seq::empty()
    } else {
        tail_segment(p.drop_last(), windows).push(p.last())
    }
}

/// The bytes of the last component of a path, skipping empty components
/// (repeated or trailing separators) and `.` components, as the components
/// of a path skip them; empty when there is none. No drive or UNC prefix is
/// told apart on Windows: such prefixes count as ordinary components.
pub open spec fn final_segment(p: Seq<u8>, windows: bool) -> Seq<u8>
    decreases p.len(),
{
    let t = tail_segment(p, windows);
    if t.len() > 0 && t != seq![46u8] {
        t
    } else if t.len() >= p.len() {
        Seq::empty()
    } else {
        final_segment(p.subrange(0, p.len() - t.len() - 1), windows)
    }
}

/// The file name of a tar entry's path as the client reads it on a
/// platform: `Err` for a path that is not UTF-8 on Windows (tar refuses such
/// paths there); otherwise the last component as text, `None` when there is
/// none, when it is `..`, or when it is not UTF-8.
pub open spec fn entry_file_name(p: Seq<u8>, windows: bool) -> Result<Option<Seq<char>>, ()> {
    if windows && !vstd::utf8::valid_utf8(p) {
        Err(())
    } else {
        let f = final_segment(p, windows);
        if f.len() == 0 || f == seq![46u8, 46u8] || !vstd::utf8::valid_utf8(f) {
            Ok(None)
        } else {
            Ok(Some(vstd::utf8::decode_utf8(f)))
        }
    }
}

proof fn lemma_tail_step(p: Seq<u8>, s: int, windows: bool)
    requires
        0 < s <= p.len(),
        !is_path_sep(p[s - 1], windows),
    ensures
        tail_segment(p.subrange(0, s), windows) == tail_segment(p.subrange(0, s - 1), windows).push(p[s - 1]),
{
    let q = p.subrange(0, s);
    assert(q.drop_last() =~= p.subrange(0, s - 1));
    assert(q.last() == p[s - 1]);
}

fn sep_byte(b: u8, windows: bool) -> (r: bool)
    ensures
        r == is_path_sep(b, windows),
{
    b == 47 || (windows && b == 92)
}

/// The bytes of the last component of a path.
pub fn final_segment_of(p: &[u8], windows: bool) -> (r: Vec<u8>)
    ensures
        r@ == final_segment(p@, windows),
{
    let mut e: usize = p.len();
    proof {
        assert(p@.subrange(0, e as int) =~= p@);
    }
    loop
        invariant
            e <= p.len(),
            final_segment(p@, windows) == final_segment(p@.subrange(0, e as int), windows),
        decreases e,
    {
        let ghost q = p@.subrange(0, e as int);
        let mut s: usize = e;
        proof {
            assert(p@.subrange(s as int, e as int) =~= Seq::<u8>::empty());
            assert(p@.subrange(0, s as int) =~= q);
            assert(tail_segment(q, windows) =~= tail_segment(p@.subrange(0, s as int), windows) + p@.subrange(s as int, e as int));
        }
        while s > 0 && !sep_byte(p[s - 1], windows)
            invariant
                s <= e <= p.len(),
                q == p@.subrange(0, e as int),
                tail_segment(q, windows) == tail_segment(p@.subrange(0, s as int), windows) + p@.subrange(s as int, e as int),
            decreases s,
        {
            proof {
                lemma_tail_step(p@, s as int, windows);
                assert(p@.subrange(s - 1, e as int) =~= seq![p@[s - 1]] + p@.subrange(s as int, e as int));
                assert(tail_segment(p@.subrange(0, s - 1), windows).push(p@[s - 1]) + p@.subrange(s as int, e as int)
                    =~= tail_segment(p@.subrange(0, s - 1), windows) + p@.subrange(s - 1, e as int));
            }
            s -= 1;
        }
        proof {
            let r = p@.subrange(0, s as int);
            if s == 0 {
                assert(r.len() == 0);
            } else {
                assert(r.last() == p@[s - 1]);
            }
            assert(tail_segment(r, windows) =~= Seq::<u8>::empty());
            assert(tail_segment(q, windows) =~= p@.subrange(s as int, e as int));
        }
        let t = vstd::slice::slice_to_vec(vstd::slice::slice_subrange(p, s, e));
        let dot = t.len() == 1 && t[0] == 46;
        proof {
            if t@.len() == 1 {
                assert(dot == (t@ =~= seq![46u8]));
            } else {
                assert(t@ != seq![46u8]);
            }
        }
        if t.len() > 0 && !dot {
            return t;
        }
        if s == 0 {
            return Vec::new();
        }
        proof {
            assert(q.subrange(0, q.len() - t@.len() - 1) =~= p@.subrange(0, s - 1));
        }
        e = s - 1;
    }
}

/// The file name of a tar entry's path on a platform.
fn entry_file_name_of(p: &[u8], windows: bool) -> (r: Result<Option<String>, ()>)
    ensures
        match r {
            Ok(n) => entry_file_name(p@, windows) == Ok::<Option<Seq<char>>, ()>(crate::external::opt_view(n)),
            Err(_) => entry_file_name(p@, windows) is Err,
        },
{
    if windows {
        match crate::external::utf8_decode(vstd::slice::slice_to_vec(p)) {
            None => {
                return Err(());
            },
            Some(_) => {},
        }
    }
    let f = final_segment_of(p, windows);
    let dots = f.len() == 2 && f[0] == 46 && f[1] == 46;
    proof {
        if f@.len() == 2 {
            assert(dots == (f@ =~= seq![46u8, 46u8]));
        } else {
            assert(f@ != seq![46u8, 46u8]);
        }
    }
    if f.len() == 0 || dots {
        return Ok(None);
    }
    match crate::external::utf8_decode(f) {
        None => Ok(None),
        Some(s) => Ok(Some(s)),
    }
}

/// Index of the first tar entry whose file name (read on the platform) is
/// `target`, stopping at the first entry or path that fails.
pub open spec fn tar_match(items: Seq<Option<Seq<u8>>>, target: Seq<char>, windows: bool, from: nat) -> Result<nat, nat>
    decreases items.len() - from,
{
    if from >= items.len() {
        Ok(items.len())
    } else {
        match items[from as int] {
            None => Err(from),
            Some(p) => match entry_file_name(p, windows) {
                Err(_) => Err(from),
                Ok(n) => if n == Some(target) { Ok(from) } else { tar_match(items, target, windows, from + 1) },
            },
        }
    }
}

/// The entry of a tar.gz archive whose file name is `target`.
pub open spec fn targz_extract(data: Seq<u8>, target: Seq<char>, windows: bool) -> Result<Seq<u8>, ExtractError> {
    let items = targz_entries(data);
    match tar_match(items, target, windows, 0) {
        Err(_) => Err(ExtractError::BadEntry),
        Ok(k) => if k >= items.len() {
            Err(ExtractError::NotFound)
        } else {
            match targz_entry_content(data, k) {
                Some(c) => Ok(c),
                None => Err(ExtractError::BadEntry),
            }
        },
    }
}

/// The sing-box executable inside a macOS/Linux `.tar.gz` release: the
/// first entry whose file name is the binary's, as read on the platform.
pub fn extract_binary_from_tar_gz(data: &[u8], platform: Platform) -> (r: Result<Vec<u8>, ExtractError>)
    ensures
        extract_view(r) == targz_extract(data@, binary_name(platform), platform == Platform::Windows),
{
    let windows = match platform {
        Platform::Windows => true,
        _ => false,
    };
    let target = singbox_binary_name(platform);
    let items = targz_paths(data);
    let ghost iv = tar_items_view(items@);
    let mut i: usize = 0;
    while i < items.len()
        invariant
            0 <= i <= items.len(),
            iv == tar_items_view(items@),
            iv == targz_entries(data@),
            iv.len() == items@.len(),
            target@ == binary_name(platform),
            windows == (platform == Platform::Windows),
            tar_match(iv, target@, windows, 0) == tar_match(iv, target@, windows, i as nat),
        decreases items.len() - i,
    {
        proof {
            assert(iv[i as int] == items@[i as int].view());
        }
        match &items[i] {
            TarItem::Failed => {
                return Err(ExtractError::BadEntry);
            },
            TarItem::Path(p) => {
                let hit = match entry_file_name_of(p.as_slice(), windows) {
                    Err(_) => {
                        return Err(ExtractError::BadEntry);
                    },
                    Ok(Some(name)) => crate::json::str_eq(name.as_str(), target),
                    Ok(None) => false,
                };
                if hit {
                    return match targz_content_at(data, i) {
                        Some(c) => Ok(c),
                        None => Err(ExtractError::BadEntry),
                    };
                }
            },
        }
        i += 1;
    }
    Err(ExtractError::NotFound)
}

} // verus!
