//! Decisions of the embedded HTTP server that serves the UI.

use vstd::prelude::*;
use vstd::slice::slice_subrange;
use vstd::string::{StrSliceExecFns, StringSliceAdditionalSpecFns};

verus! {

/// Whether `s` ends with `suffix`.
pub open spec fn has_suffix(s: Seq<u8>, suffix: Seq<u8>) -> bool {
    suffix.len() <= s.len() && s.subrange(s.len() - suffix.len(), s.len() as int) == suffix
}

/// Whether the bytes `s` end with the bytes `suffix`.
pub fn ends_with(s: &[u8], suffix: &[u8]) -> (r: bool)
    ensures
        r == has_suffix(s@, suffix@),
{
    let n = s.len();
    let m = suffix.len();
    if m > n {
        return false;
    }
    let mut k: usize = 0;
    while k < m
        invariant
            k <= m,
            m <= n,
            n == s@.len(),
            m == suffix@.len(),
            forall|j: int| 0 <= j < k ==> #[trigger] suffix@[j] == s@[n - m + j],
        decreases m - k,
    {
        if s[n - m + k] != suffix[k] {
            assert(s@.subrange(n - m, n as int)[k as int] != suffix@[k as int]);
            return false;
        }
        k = k + 1;
    }
    assert(s@.subrange(n - m, n as int) =~= suffix@);
    true
}

/// The content type served for a file path, by its extension.
pub open spec fn spec_mime(path: Seq<u8>) -> Seq<char> {
    if has_suffix(path, ".html".spec_bytes()) {
        "text/html; charset=utf-8"@
    } else if has_suffix(path, ".css".spec_bytes()) {
        "text/css; charset=utf-8"@
    } else if has_suffix(path, ".js".spec_bytes()) {
        "text/javascript; charset=utf-8"@
    } else if has_suffix(path, ".png".spec_bytes()) {
        "image/png"@
    } else if has_suffix(path, ".jpg".spec_bytes()) || has_suffix(path, ".jpeg".spec_bytes()) {
        "image/jpeg"@
    } else if has_suffix(path, ".woff2".spec_bytes()) {
        "font/woff2"@
    } else if has_suffix(path, ".svg".spec_bytes()) {
        "image/svg+xml"@
    } else {
        "application/octet-stream"@
    }
}

/// The content type served for `path`.
pub fn mime(path: &str) -> (m: &'static str)
    ensures
        m@ == spec_mime(path.spec_bytes()),
{
    let p = path.as_bytes();
    if ends_with(p, ".html".as_bytes()) {
        "text/html; charset=utf-8"
    } else if ends_with(p, ".css".as_bytes()) {
        "text/css; charset=utf-8"
    } else if ends_with(p, ".js".as_bytes()) {
        "text/javascript; charset=utf-8"
    } else if ends_with(p, ".png".as_bytes()) {
        "image/png"
    } else if ends_with(p, ".jpg".as_bytes()) || ends_with(p, ".jpeg".as_bytes()) {
        "image/jpeg"
    } else if ends_with(p, ".woff2".as_bytes()) {
        "font/woff2"
    } else if ends_with(p, ".svg".as_bytes()) {
        "image/svg+xml"
    } else {
        "application/octet-stream"
    }
}


/// Whether the bytes `a` and `b` are equal.
pub fn bytes_eq(a: &[u8], b: &[u8]) -> (r: bool)
    ensures
        r == (a@ == b@),
{
    if a.len() != b.len() {
        return false;
    }
    let n = a.len();
    let mut k: usize = 0;
    while k < n
        invariant
            k <= n,
            n == a@.len(),
            n == b@.len(),
            forall|j: int| 0 <= j < k ==> #[trigger] a@[j] == b@[j],
        decreases n - k,
    {
        if a[k] != b[k] {
            return false;
        }
        k = k + 1;
    }
    assert(a@ =~= b@);
    true
}

/// The API endpoints of the server.
#[derive(Debug, Clone, Copy, PartialEq, Eq)]
pub enum ApiRoute {
    /// `GET /api/permissions`
    Permissions,
    /// `POST /api/permissions/request`
    RequestPermissions,
    /// `POST /api/emu`: switch the emulator on or off
    Emu,
    /// `POST /api/emu/press`: simulate a button press
    EmuPress,
    /// `GET /api/info`: firmware version and settings
    Info,
    /// `GET /api/raw`: the raw config blob
    Raw,
    /// `POST /api/apply`: write settings
    Apply,
    /// `POST /api/reset`: factory reset
    Reset,
    /// `POST /api/log`: append a UI log line
    Log,
    /// anything else
    Unknown,
}

/// The endpoint for a request `method` on `path`.
pub open spec fn spec_route(method: Seq<u8>, path: Seq<u8>) -> ApiRoute {
    let get = method == "GET".spec_bytes();
    let post = method == "POST".spec_bytes();
    if get && path == "/api/permissions".spec_bytes() {
        ApiRoute::Permissions
    } else if post && path == "/api/permissions/request".spec_bytes() {
        ApiRoute::RequestPermissions
    } else if post && path == "/api/emu".spec_bytes() {
        ApiRoute::Emu
    } else if post && path == "/api/emu/press".spec_bytes() {
        ApiRoute::EmuPress
    } else if get && path == "/api/info".spec_bytes() {
        ApiRoute::Info
    } else if get && path == "/api/raw".spec_bytes() {
        ApiRoute::Raw
    } else if post && path == "/api/apply".spec_bytes() {
        ApiRoute::Apply
    } else if post && path == "/api/reset".spec_bytes() {
        ApiRoute::Reset
    } else if post && path == "/api/log".spec_bytes() {
        ApiRoute::Log
    } else {
        ApiRoute::Unknown
    }
}

/// Dispatches a request to its endpoint.
pub fn route(method: &str, path: &str) -> (r: ApiRoute)
    ensures
        r == spec_route(method.spec_bytes(), path.spec_bytes()),
{
    let m = method.as_bytes();
    let p = path.as_bytes();
    let get = bytes_eq(m, "GET".as_bytes());
    let post = bytes_eq(m, "POST".as_bytes());
    if get && bytes_eq(p, "/api/permissions".as_bytes()) {
        ApiRoute::Permissions
    } else if post && bytes_eq(p, "/api/permissions/request".as_bytes()) {
        ApiRoute::RequestPermissions
    } else if post && bytes_eq(p, "/api/emu".as_bytes()) {
        ApiRoute::Emu
    } else if post && bytes_eq(p, "/api/emu/press".as_bytes()) {
        ApiRoute::EmuPress
    } else if get && bytes_eq(p, "/api/info".as_bytes()) {
        ApiRoute::Info
    } else if get && bytes_eq(p, "/api/raw".as_bytes()) {
        ApiRoute::Raw
    } else if post && bytes_eq(p, "/api/apply".as_bytes()) {
        ApiRoute::Apply
    } else if post && bytes_eq(p, "/api/reset".as_bytes()) {
        ApiRoute::Reset
    } else if post && bytes_eq(p, "/api/log".as_bytes()) {
        ApiRoute::Log
    } else {
        ApiRoute::Unknown
    }
}

/// Whether `needle` occurs in `s` at some position.
pub open spec fn contains_bytes(s: Seq<u8>, needle: Seq<u8>) -> bool {
    exists|i: int| 0 <= i && i + needle.len() <= s.len() && #[trigger] s.subrange(i, i + needle.len()) == needle
}

/// Whether the bytes `needle` occur in `s`.
pub fn find_bytes(s: &[u8], needle: &[u8]) -> (r: bool)
    ensures
        r == contains_bytes(s@, needle@),
{
    let n = s.len();
    let m = needle.len();
    if m > n {
        return false;
    }
    let mut i: usize = 0;
    while i <= n - m
        invariant
            m <= n,
            n == s@.len(),
            m == needle@.len(),
            i <= n - m + 1,
            forall|j: int| 0 <= j < i ==> #[trigger] s@.subrange(j, j + m) != needle@,
        decreases n - m + 1 - i,
    {
        let mut k: usize = 0;
        let mut same = true;
        while k < m
            invariant
                k <= m,
                i + m <= n,
                n == s@.len(),
                m == needle@.len(),
                same == (forall|j: int| 0 <= j < k ==> #[trigger] needle@[j] == s@[i + j]),
            decreases m - k,
        {
            if s[i + k] != needle[k] {
                same = false;
            }
            k = k + 1;
        }
        if same {
            assert(s@.subrange(i as int, i + m) =~= needle@);
            return true;
        }
        assert(s@.subrange(i as int, i + m) != needle@) by {
            let j = choose|j: int| 0 <= j < m && needle@[j] != s@[i + j];
            assert(s@.subrange(i as int, i + m)[j] != needle@[j]);
        }
        i = i + 1;
    }
    false
}

/// The HTTP status for an API reply: 500 if it reports an error, else 200.
pub fn status_code(body: &str) -> (code: u16)
    ensures
        code == (if contains_bytes(body.spec_bytes(), "\"error\"".spec_bytes()) { 500u16 } else { 200u16 }),
{
    if find_bytes(body.as_bytes(), "\"error\"".as_bytes()) {
        500
    } else {
        200
    }
}


/// `u` without its leading slashes.
pub open spec fn trim_slashes(u: Seq<char>) -> Seq<char>
    decreases u.len(),
{
    if u.len() > 0 && u[0] == '/' {
        trim_slashes(u.drop_first())
    } else {
        u
    }
}

/// `u` up to its first `?` (all of `u` if it has none).
pub open spec fn before_query(u: Seq<char>) -> Seq<char>
    decreases u.len(),
{
    if u.len() == 0 {
        u
    } else if u[0] == '?' {
        Seq::empty()
    } else {
        seq![u[0]] + before_query(u.drop_first())
    }
}

/// The file served for a request URL: `index.html` for `/`, else the URL
/// without its leading slashes and its query. The path is not normalised
/// (`..` segments are kept).
pub open spec fn spec_static_file(url: Seq<char>) -> Seq<char> {
    if url == seq!['/'] {
        "index.html"@
    } else {
        before_query(trim_slashes(url))
    }
}

/// The file, relative to the UI directory, served for a request URL.
pub fn static_file(url: &str) -> (file: &str)
    ensures
        file@ == spec_static_file(url@),
{
    let n = url.unicode_len();
    if n == 1 && url.get_char(0) == '/' {
        assert(url@ =~= seq!['/']);
        return "index.html";
    }
    assert(url@ != seq!['/']) by {
        if n == 1 {
            assert(url@[0] != seq!['/'][0]);
        }
    }
    let mut i: usize = 0;
    assert(url@.skip(0) =~= url@);
    while i < n && url.get_char(i) == '/'
        invariant
            i <= n,
            n == url@.len(),
            trim_slashes(url@) == trim_slashes(url@.skip(i as int)),
        decreases n - i,
    {
        assert(url@.skip(i as int).drop_first() =~= url@.skip(i + 1));
        i = i + 1;
    }
    assert(trim_slashes(url@) == url@.skip(i as int));
    let mut j: usize = i;
    assert(url@.subrange(i as int, j as int) + url@.skip(j as int) =~= url@.skip(i as int));
    while j < n && url.get_char(j) != '?'
        invariant
            i <= j <= n,
            n == url@.len(),
            before_query(url@.skip(i as int)) == url@.subrange(i as int, j as int) + before_query(
                url@.skip(j as int),
            ),
        decreases n - j,
    {
        let ghost rest = url@.skip(j as int);
        assert(rest.drop_first() =~= url@.skip(j + 1));
        assert(url@.subrange(i as int, j as int) + seq![rest[0]] =~= url@.subrange(i as int, j + 1));
        assert(url@.subrange(i as int, j + 1) + before_query(url@.skip(j + 1)) =~= url@.subrange(
            i as int,
            j as int,
        ) + (seq![rest[0]] + before_query(rest.drop_first())));
        j = j + 1;
    }
    assert(before_query(url@.skip(j as int)) =~= Seq::<char>::empty());
    assert(url@.subrange(i as int, j as int) + Seq::<char>::empty() =~= url@.subrange(i as int, j as int));
    url.substring_char(i, j)
}


/// Whether `s` starts with `prefix`.
pub open spec fn has_prefix(s: Seq<u8>, prefix: Seq<u8>) -> bool {
    prefix.len() <= s.len() && s.subrange(0, prefix.len() as int) == prefix
}

/// Whether a request URL is an API call (it starts with `/api/`); every other
/// URL is a static file.
pub fn is_api_path(url: &str) -> (api: bool)
    ensures
        api == has_prefix(url.spec_bytes(), "/api/".spec_bytes()),
{
    let u = url.as_bytes();
    let prefix = "/api/".as_bytes();
    if prefix.len() > u.len() {
        return false;
    }
    bytes_eq(slice_subrange(u, 0, prefix.len()), prefix)
}

} // verus!
