//! The calls this library makes into outside crates and into parts of std that
//! vstd does not specify. Verus believes the contracts below; each doc comment
//! says what is claimed of the outside function.
use vstd::prelude::*;
use base64::Engine;
use std::io::Read;

verus! {

/// What `base64::engine::general_purpose::STANDARD.decode` returns for an input
/// (`None` for an error): standard alphabet, canonical `=` padding required.
pub uninterp spec fn standard_base64_decoded(input: Seq<u8>) -> Option<Seq<u8>>;

/// What `base64::engine::general_purpose::URL_SAFE.decode` returns for an input
/// (`None` for an error): URL-safe alphabet, canonical `=` padding required.
pub uninterp spec fn url_safe_base64_decoded(input: Seq<u8>) -> Option<Seq<u8>>;

/// Calls `general_purpose::STANDARD.decode`; its result is a function of the
/// input alone, named `standard_base64_decoded`.
#[verifier::external_body]
pub(crate) fn base64_standard_decode(input: &[u8]) -> (r: Option<Vec<u8>>)
    ensures
        match r {
            Some(v) => standard_base64_decoded(input@) == Some(v@),
            None => standard_base64_decoded(input@) is None,
        },
{
    base64::engine::general_purpose::STANDARD.decode(input).ok()
}

/// Calls `general_purpose::URL_SAFE.decode`; its result is a function of the
/// input alone, named `url_safe_base64_decoded`.
#[verifier::external_body]
pub(crate) fn base64_url_safe_decode(input: &[u8]) -> (r: Option<Vec<u8>>)
    ensures
        match r {
            Some(v) => url_safe_base64_decoded(input@) == Some(v@),
            None => url_safe_base64_decoded(input@) is None,
        },
{
    base64::engine::general_purpose::URL_SAFE.decode(input).ok()
}

/// Calls `String::from_utf8`, which succeeds exactly on valid UTF-8 and then
/// holds the decoded characters.
#[verifier::external_body]
pub(crate) fn utf8_decode(bytes: Vec<u8>) -> (r: Option<String>)
    ensures
        r is Some <==> vstd::utf8::valid_utf8(bytes@),
        r matches Some(s) ==> s@ == vstd::utf8::decode_utf8(bytes@),
{
    String::from_utf8(bytes).ok()
}

/// The components of a URL as `url::Url::parse` reads them, `None` when the
/// parse fails: username, password, host, port and fragment as the parsed URL
/// returns them (still percent-encoded), and the query pairs in order, which
/// `query_pairs` percent-decodes.
pub uninterp spec fn url_components(link: Seq<char>) -> Option<
    (Seq<char>, Option<Seq<char>>, Option<Seq<char>>, Option<u16>, Option<Seq<char>>, Seq<(Seq<char>, Seq<char>)>),
>;

/// The parts of a parsed URL that the link parsers read.
pub struct UrlParts {
    pub username: String,
    pub password: Option<String>,
    pub host: Option<String>,
    pub port: Option<u16>,
    pub fragment: Option<String>,
    pub query: Vec<(String, String)>,
}

/// The text of an optional string.
pub open spec fn opt_view(o: Option<String>) -> Option<Seq<char>> {
    match o {
        Some(s) => Some(s@),
        None => None,
    }
}

/// The texts of a list of string pairs.
pub open spec fn pairs_view(v: Seq<(String, String)>) -> Seq<(Seq<char>, Seq<char>)> {
    v.map_values(|p: (String, String)| (p.0@, p.1@))
}

impl UrlParts {
    pub open spec fn view(&self) -> (Seq<char>, Option<Seq<char>>, Option<Seq<char>>, Option<u16>, Option<Seq<char>>, Seq<(Seq<char>, Seq<char>)>) {
        (self.username@, opt_view(self.password), opt_view(self.host), self.port, opt_view(self.fragment), pairs_view(self.query@))
    }
}

/// Calls `url::Url::parse` and reads `username`, `password`, `host_str`,
/// `port`, `fragment` and `query_pairs` of the result; all of it is a function
/// of the link alone, named `url_components`.
#[verifier::external_body]
pub(crate) fn parse_url(link: &str) -> (r: Option<UrlParts>)
    ensures
        match r {
            Some(p) => url_components(link@) == Some(p.view()),
            None => url_components(link@) is None,
        },
{
    let u = url::Url::parse(link).ok()?;
    Some(UrlParts {
        username: u.username().to_string(),
        password: u.password().map(|s| s.to_string()),
        host: u.host_str().map(|s| s.to_string()),
        port: u.port(),
        fragment: u.fragment().map(|s| s.to_string()),
        query: u.query_pairs().map(|(k, v)| (k.to_string(), v.to_string())).collect(),
    })
}

/// Calls `uuid::Uuid::new_v4().to_string()`: a random UUID in its hyphenated
/// form, which always has 36 characters. Nothing else is claimed of it.
#[verifier::external_body]
pub(crate) fn new_uuid() -> (r: String)
    ensures
        r@.len() == 36,
{
    uuid::Uuid::new_v4().to_string()
}

/// A lower-case hexadecimal digit.
pub open spec fn is_lower_hex(c: char) -> bool {
    ('0' <= c && c <= '9') || ('a' <= c && c <= 'f')
}

/// Calls `uuid::Uuid::new_v4().simple().to_string()`: a random UUID as 32
/// lower-case hexadecimal digits (`Display` of `Simple` writes `LowerHex`).
/// Nothing else is claimed of it.
#[verifier::external_body]
pub(crate) fn new_uuid_simple() -> (r: String)
    ensures
        r@.len() == 32,
        forall|i: int| 0 <= i < r@.len() ==> is_lower_hex(#[trigger] r@[i]),
{
    uuid::Uuid::new_v4().simple().to_string()
}

/// `str::to_lowercase` of a text (full Unicode lower-case mapping).
pub uninterp spec fn lowercase(s: Seq<char>) -> Seq<char>;

/// Calls `str::to_lowercase`; named `lowercase`.
#[verifier::external_body]
pub(crate) fn to_lowercase(s: &str) -> (r: String)
    ensures
        r@ == lowercase(s@),
{
    s.to_lowercase()
}

/// The number of entries of a ZIP archive as `zip::ZipArchive::new` then `len`
/// report it, `None` when the archive cannot be opened.
pub uninterp spec fn zip_entry_count(data: Seq<u8>) -> Option<nat>;

/// Calls `zip::ZipArchive::new` on the bytes and `len`; named `zip_entry_count`.
#[verifier::external_body]
pub(crate) fn zip_len(data: &[u8]) -> (r: Option<usize>)
    ensures
        match r {
            Some(n) => zip_entry_count(data@) == Some(n as nat),
            None => zip_entry_count(data@) is None,
        },
{
    zip::ZipArchive::new(std::io::Cursor::new(data)).ok().map(|a| a.len())
}

/// The name of entry `i` of a ZIP archive (`by_index` then `name`), `None` when
/// the archive or the entry cannot be read.
pub uninterp spec fn zip_entry_name(data: Seq<u8>, i: nat) -> Option<Seq<char>>;

/// Calls `ZipArchive::new`, `by_index(i)` and `name`; named `zip_entry_name`.
#[verifier::external_body]
pub(crate) fn zip_name_at(data: &[u8], i: usize) -> (r: Option<String>)
    ensures
        match r {
            Some(s) => zip_entry_name(data@, i as nat) == Some(s@),
            None => zip_entry_name(data@, i as nat) is None,
        },
{
    let mut a = zip::ZipArchive::new(std::io::Cursor::new(data)).ok()?;
    let f = a.by_index(i).ok()?;
    Some(f.name().to_string())
}

/// The decompressed content of entry `i` of a ZIP archive (`by_index` then
/// `read_to_end`), `None` when it cannot be read.
pub uninterp spec fn zip_entry_content(data: Seq<u8>, i: nat) -> Option<Seq<u8>>;

/// Calls `ZipArchive::new`, `by_index(i)` and `read_to_end`; named
/// `zip_entry_content`.
#[verifier::external_body]
pub(crate) fn zip_content_at(data: &[u8], i: usize) -> (r: Option<Vec<u8>>)
    ensures
        match r {
            Some(v) => zip_entry_content(data@, i as nat) == Some(v@),
            None => zip_entry_content(data@, i as nat) is None,
        },
{
    let mut a = zip::ZipArchive::new(std::io::Cursor::new(data)).ok()?;
    let mut f = a.by_index(i).ok()?;
    let mut buf = Vec::new();
    f.read_to_end(&mut buf).ok()?;
    Some(buf)
}

/// The entries of a gzip-compressed tar archive in order, as
/// `tar::Archive::new(flate2::read::GzDecoder::new(..)).entries()` yields them:
/// `Some(path)` with the raw path bytes (`Entry::path_bytes`, which takes GNU
/// long names and pax `path` records into account) of an entry that was read,
/// `None` for an entry that failed. The iterator ends after its first failure.
/// None of this depends on the platform.
pub uninterp spec fn targz_entries(data: Seq<u8>) -> Seq<Option<Seq<u8>>>;

/// One entry of a tar.gz archive as read by [`targz_paths`].
pub enum TarItem {
    Path(Vec<u8>),
    Failed,
}

impl TarItem {
    pub open spec fn view(&self) -> Option<Seq<u8>> {
        match self {
            TarItem::Path(p) => Some(p@),
            TarItem::Failed => None,
        }
    }
}

/// The models of the items that [`targz_paths`] hands back.
pub open spec fn tar_items_view(v: Seq<TarItem>) -> Seq<Option<Seq<u8>>> {
    v.map_values(|t: TarItem| t.view())
}

/// Iterates `entries()` of the tar.gz archive and takes each entry's raw
/// `path_bytes`; named `targz_entries`.
#[verifier::external_body]
pub(crate) fn targz_paths(data: &[u8]) -> (r: Vec<TarItem>)
    ensures
        tar_items_view(r@) == targz_entries(data@),
{
    let mut ar = tar::Archive::new(flate2::read::GzDecoder::new(std::io::Cursor::new(data)));
    match ar.entries() {
        Err(_) => vec![TarItem::Failed],
        Ok(es) => es.map(|e| match e {
            Ok(e) => TarItem::Path(e.path_bytes().into_owned()),
            Err(_) => TarItem::Failed,
        }).collect(),
    }
}

/// The content of entry `i` of a tar.gz archive, `None` when it cannot be read.
pub uninterp spec fn targz_entry_content(data: Seq<u8>, i: nat) -> Option<Seq<u8>>;

/// Calls `entries()`, `nth(i)` and `read_to_end` on the tar.gz archive; named
/// `targz_entry_content`.
#[verifier::external_body]
pub(crate) fn targz_content_at(data: &[u8], i: usize) -> (r: Option<Vec<u8>>)
    ensures
        match r {
            Some(v) => targz_entry_content(data@, i as nat) == Some(v@),
            None => targz_entry_content(data@, i as nat) is None,
        },
{
    let mut ar = tar::Archive::new(flate2::read::GzDecoder::new(std::io::Cursor::new(data)));
    let mut e = ar.entries().ok()?.nth(i)?.ok()?;
    let mut buf = Vec::new();
    e.read_to_end(&mut buf).ok()?;
    Some(buf)
}

} // verus!
