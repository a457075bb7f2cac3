//! What all requests to the upstream service have in common.

use crate::encoding::{base64_char, base64_encode, base64_text};
use crate::error::{server_error, upstream_error, ApiError, ApiErrorKind};
use crate::headers::{
    distinct_keys, entries_of, header_entries, header_key, insert_header, inserted, is_header_name,
    is_header_value, lemma_inserted_distinct, lower_ascii, new_headers,
};
use crate::ident::{is_uuid, new_uuid};
use crate::mime::DEFAULT_MIME;
use crate::number::{decimal, decimal_text};
use crate::path::{file_name, file_name_of, join, lemma_join_name, name_end, name_start};
use crate::text::{
    before_char, has_prefix, is_space, join2, join3, join4, law_before_char, law_parts_of_text,
    law_split_once, lemma_position, split_at_char, split_once, starts_with, text_before,
    text_option, trim, trimmed, without_prefix,
};
use reqwest::header::HeaderMap;
use vstd::prelude::*;
use vstd::utf8::encode_utf8;

verus! {

/// What all requests to the upstream service have in common: the proxy that they
/// go through, none where it is empty, and the seconds that they may take.
#[derive(Clone, Debug)]
pub struct BaseService {
    pub proxy: String,
    pub timeout: u64,
}

/// The proxy for assets, or the general one where that is empty.
pub open spec fn asset_proxy_of(asset_proxy: Seq<char>, base_proxy: Seq<char>) -> Seq<char> {
    if asset_proxy.len() == 0 {
        base_proxy
    } else {
        asset_proxy
    }
}

/// Whether a text is an address on the web.
pub open spec fn is_web_address(s: Seq<char>) -> bool {
    starts_with(s, "http://"@) || starts_with(s, "https://"@)
}

/// A token without the name of the cookie that it may start with.
pub open spec fn bare_token(token: Seq<char>) -> Seq<char> {
    if starts_with(token, "sso="@) {
        token.skip(4)
    } else {
        token
    }
}

/// The cookie that carries a token and, where there is one, a clearance.
pub open spec fn cookie_text(token: Seq<char>, clearance: Seq<char>) -> Seq<char> {
    if clearance.len() == 0 {
        "sso="@ + bare_token(token)
    } else {
        "sso="@ + bare_token(token) + ";cf_clearance="@ + clearance
    }
}

/// The headers of a request to the programming interface.
pub open spec fn api_headers(
    token: Seq<char>,
    referer: Seq<char>,
    statsig: Seq<char>,
    request_id: Seq<char>,
    clearance: Seq<char>,
) -> Seq<(Seq<char>, Seq<char>)> {
    seq![
        ("Accept"@, "*/*"@),
        ("Accept-Encoding"@, "gzip, deflate, br, zstd"@),
        ("Accept-Language"@, "zh-CN,zh;q=0.9"@),
        ("Baggage"@, "sentry-environment=production,sentry-release=d6add6fb0460641fd482d767a335ef72b9b6abb8,sentry-public_key=b311e0f2690c81f25e2c4cf6d4f7ce1c"@),
        ("Cache-Control"@, "no-cache"@),
        ("Content-Type"@, "application/json"@),
        ("Origin"@, "https://grok.com"@),
        ("Pragma"@, "no-cache"@),
        ("Priority"@, "u=1, i"@),
        ("Referer"@, referer),
        ("Sec-Ch-Ua"@, "\"Google Chrome\";v=\"136\", \"Chromium\";v=\"136\", \"Not(A:Brand\";v=\"24\""@),
        ("Sec-Ch-Ua-Arch"@, "arm"@),
        ("Sec-Ch-Ua-Bitness"@, "64"@),
        ("Sec-Ch-Ua-Mobile"@, "?0"@),
        ("Sec-Ch-Ua-Model"@, ""@),
        ("Sec-Ch-Ua-Platform"@, "\"macOS\""@),
        ("Sec-Fetch-Dest"@, "empty"@),
        ("Sec-Fetch-Mode"@, "cors"@),
        ("Sec-Fetch-Site"@, "same-origin"@),
        ("User-Agent"@, "Mozilla/5.0 (Macintosh; Intel Mac OS X 10_15_7) AppleWebKit/537.36 (KHTML, like Gecko) Chrome/136.0.0.0 Safari/537.36"@),
        ("x-statsig-id"@, statsig),
        ("x-xai-request-id"@, request_id),
        ("Cookie"@, cookie_text(token, clearance)),
    ]
}

/// The headers of a request for a file.
pub open spec fn download_headers(token: Seq<char>, clearance: Seq<char>) -> Seq<
    (Seq<char>, Seq<char>),
> {
    seq![
        ("Accept"@, "text/html,application/xhtml+xml,application/xml;q=0.9,image/avif,image/webp,*/*;q=0.8"@),
        ("Sec-Fetch-Dest"@, "document"@),
        ("Sec-Fetch-Mode"@, "navigate"@),
        ("Sec-Fetch-Site"@, "same-site"@),
        ("Sec-Fetch-User"@, "?1"@),
        ("Upgrade-Insecure-Requests"@, "1"@),
        ("User-Agent"@, "Mozilla/5.0 (Macintosh; Intel Mac OS X 10_15_7) AppleWebKit/537.36 (KHTML, like Gecko) Chrome/136.0.0.0 Safari/537.36"@),
        ("Cookie"@, cookie_text(token, clearance)),
        ("Referer"@, "https://grok.com/"@),
    ]
}

/// The name under which content without a name goes.
pub open spec fn numbered_name(id: Seq<char>) -> Seq<char> {
    "file-"@ + id + ".bin"@
}

/// The name, the Base64 content and the media type of a file that was handed in
/// as a data URL or as bare Base64.
pub open spec fn inline_file(input: Seq<char>, id: Seq<char>) -> (
    Seq<char>,
    Seq<char>,
    Seq<char>,
) {
    if starts_with(input, "data:"@) {
        match split_once(input.skip(5), ',') {
            Some(p) => (numbered_name(id), trim(p.1), before_char(p.0, ';')),
            None => (numbered_name(id), trim(input), DEFAULT_MIME@),
        }
    } else {
        (numbered_name(id), trim(input), DEFAULT_MIME@)
    }
}

/// The media type that a `Content-Type` header names.
pub open spec fn mime_of_header(content_type: Option<Seq<char>>) -> Seq<char> {
    match content_type {
        Some(s) => before_char(s, ';'),
        None => DEFAULT_MIME@,
    }
}

/// The name, the Base64 content and the media type of a file from the web.
pub open spec fn web_file(
    url: Seq<char>,
    content_type: Option<Seq<char>>,
    bytes: Seq<u8>,
    id: Seq<char>,
) -> (Seq<char>, Seq<char>, Seq<char>) {
    let name = match file_name(url) {
        Some(name) => name,
        None => numbered_name(id),
    };
    (name, base64_text(bytes), mime_of_header(content_type))
}

/// A file as a data URL.
pub open spec fn data_url_text(bytes: Seq<u8>, mime: Seq<char>) -> Seq<char> {
    "data:"@ + mime + ";base64,"@ + base64_text(bytes)
}

/// Texts that can stand in a header can do so together.
proof fn lemma_header_value_concat(a: Seq<char>, b: Seq<char>)
    requires
        is_header_value(a),
        is_header_value(b),
    ensures
        is_header_value(a + b),
{
    assert forall|i: int| 0 <= i < (a + b).len() implies {
        let c = #[trigger] (a + b)[i] as u32;
        c == 9 || (c >= 32 && c != 127)
    } by {
        if i < a.len() {
            assert((a + b)[i] == a[i]);
        } else {
            assert((a + b)[i] == b[i - a.len()]);
        }
    }
}

proof fn lemma_cookie_value(token: Seq<char>, clearance: Seq<char>)
    requires
        is_header_value(token),
        is_header_value(clearance),
    ensures
        is_header_value(cookie_text(token, clearance)),
{
    reveal_strlit("sso=");
    reveal_strlit(";cf_clearance=");
    let bare = bare_token(token);
    assert forall|i: int| 0 <= i < bare.len() implies {
        let c = #[trigger] bare[i] as u32;
        c == 9 || (c >= 32 && c != 127)
    } by {
        if starts_with(token, "sso="@) {
            assert(bare[i] == token[i + 4]);
        }
    }
    assert(is_header_value("sso="@));
    assert(is_header_value(";cf_clearance="@));
    lemma_header_value_concat("sso="@, bare);
    lemma_header_value_concat("sso="@ + bare, ";cf_clearance="@);
    lemma_header_value_concat("sso="@ + bare + ";cf_clearance="@, clearance);
}

/// Names that are kept in the same form differ at most in case.
proof fn lemma_same_key(a: Seq<char>, b: Seq<char>)
    requires
        header_key(a) == header_key(b),
    ensures
        a.len() == b.len(),
        forall|i: int| 0 <= i < a.len() ==> lower_ascii(#[trigger] a[i]) == lower_ascii(b[i]),
{
    assert(a.len() == header_key(a).len() && b.len() == header_key(b).len());
    assert forall|i: int| 0 <= i < a.len() implies lower_ascii(#[trigger] a[i]) == lower_ascii(
        b[i],
    ) by {
        assert(header_key(a)[i] == lower_ascii(a[i]));
        assert(header_key(b)[i] == lower_ascii(b[i]));
    }
}

/// Names and values that can all be headers, no two names alike.
spec fn are_headers(pairs: Seq<(Seq<char>, Seq<char>)>) -> bool {
    &&& pairs.len() < 100
    &&& distinct_keys(pairs)
    &&& forall|i: int|
        0 <= i < pairs.len() ==> is_header_name((#[trigger] pairs[i]).0) && is_header_value(
            pairs[i].1,
        )
}

proof fn lemma_api_header_keys(
    token: Seq<char>,
    referer: Seq<char>,
    statsig: Seq<char>,
    request_id: Seq<char>,
    clearance: Seq<char>,
)
    ensures
        distinct_keys(api_headers(token, referer, statsig, request_id, clearance)),
        forall|i: int|
            0 <= i < 23 ==> is_header_name(
                (#[trigger] api_headers(token, referer, statsig, request_id, clearance)[i]).0,
            ),
{
    reveal_strlit("Accept");
    reveal_strlit("Accept-Encoding");
    reveal_strlit("Accept-Language");
    reveal_strlit("Baggage");
    reveal_strlit("Cache-Control");
    reveal_strlit("Content-Type");
    reveal_strlit("Origin");
    reveal_strlit("Pragma");
    reveal_strlit("Priority");
    reveal_strlit("Referer");
    reveal_strlit("Sec-Ch-Ua");
    reveal_strlit("Sec-Ch-Ua-Arch");
    reveal_strlit("Sec-Ch-Ua-Bitness");
    reveal_strlit("Sec-Ch-Ua-Mobile");
    reveal_strlit("Sec-Ch-Ua-Model");
    reveal_strlit("Sec-Ch-Ua-Platform");
    reveal_strlit("Sec-Fetch-Dest");
    reveal_strlit("Sec-Fetch-Mode");
    reveal_strlit("Sec-Fetch-Site");
    reveal_strlit("User-Agent");
    reveal_strlit("x-statsig-id");
    reveal_strlit("x-xai-request-id");
    reveal_strlit("Cookie");
    let pairs = api_headers(token, referer, statsig, request_id, clearance);
    assert forall|i: int, j: int| 0 <= i < j < pairs.len() implies header_key(
        (#[trigger] pairs[i]).0,
    ) != header_key((#[trigger] pairs[j]).0) by {
        let a = pairs[i].0;
        let b = pairs[j].0;
        assert(a.len() != b.len() || lower_ascii(a[0]) != lower_ascii(b[0]) || (a.len() > 7
            && lower_ascii(a[7]) != lower_ascii(b[7])) || (a.len() > 10 && lower_ascii(a[10])
            != lower_ascii(b[10])));
        assert(a.len() > 0);
        if header_key(a) == header_key(b) {
            lemma_same_key(a, b);
        }
    }
}

proof fn lemma_api_headers(
    token: Seq<char>,
    referer: Seq<char>,
    statsig: Seq<char>,
    request_id: Seq<char>,
    clearance: Seq<char>,
)
    requires
        is_header_value(token),
        is_header_value(referer),
        is_header_value(statsig),
        is_header_value(request_id),
        is_header_value(clearance),
    ensures
        are_headers(api_headers(token, referer, statsig, request_id, clearance)),
{
    lemma_api_header_keys(token, referer, statsig, request_id, clearance);
    lemma_cookie_value(token, clearance);
    reveal_strlit("*/*");
    reveal_strlit("gzip, deflate, br, zstd");
    reveal_strlit("zh-CN,zh;q=0.9");
    reveal_strlit("sentry-environment=production,sentry-release=d6add6fb0460641fd482d767a335ef72b9b6abb8,sentry-public_key=b311e0f2690c81f25e2c4cf6d4f7ce1c");
    reveal_strlit("no-cache");
    reveal_strlit("application/json");
    reveal_strlit("https://grok.com");
    reveal_strlit("u=1, i");
    reveal_strlit("\"Google Chrome\";v=\"136\", \"Chromium\";v=\"136\", \"Not(A:Brand\";v=\"24\"");
    reveal_strlit("arm");
    reveal_strlit("64");
    reveal_strlit("?0");
    reveal_strlit("");
    reveal_strlit("\"macOS\"");
    reveal_strlit("empty");
    reveal_strlit("cors");
    reveal_strlit("same-origin");
    reveal_strlit("Mozilla/5.0 (Macintosh; Intel Mac OS X 10_15_7) AppleWebKit/537.36 (KHTML, like Gecko) Chrome/136.0.0.0 Safari/537.36");
}

proof fn lemma_download_headers(token: Seq<char>, clearance: Seq<char>)
    requires
        is_header_value(token),
        is_header_value(clearance),
    ensures
        are_headers(download_headers(token, clearance)),
{
    lemma_cookie_value(token, clearance);
    reveal_strlit("Accept");
    reveal_strlit("Sec-Fetch-Dest");
    reveal_strlit("Sec-Fetch-Mode");
    reveal_strlit("Sec-Fetch-Site");
    reveal_strlit("Sec-Fetch-User");
    reveal_strlit("Upgrade-Insecure-Requests");
    reveal_strlit("User-Agent");
    reveal_strlit("Cookie");
    reveal_strlit("Referer");
    reveal_strlit("text/html,application/xhtml+xml,application/xml;q=0.9,image/avif,image/webp,*/*;q=0.8");
    reveal_strlit("document");
    reveal_strlit("navigate");
    reveal_strlit("same-site");
    reveal_strlit("?1");
    reveal_strlit("1");
    reveal_strlit("Mozilla/5.0 (Macintosh; Intel Mac OS X 10_15_7) AppleWebKit/537.36 (KHTML, like Gecko) Chrome/136.0.0.0 Safari/537.36");
    reveal_strlit("https://grok.com/");
    let pairs = download_headers(token, clearance);
    assert forall|i: int, j: int| 0 <= i < j < pairs.len() implies header_key(
        (#[trigger] pairs[i]).0,
    ) != header_key((#[trigger] pairs[j]).0) by {
        let a = pairs[i].0;
        let b = pairs[j].0;
        assert(a.len() != b.len() || lower_ascii(a[0]) != lower_ascii(b[0]) || (a.len() > 10
            && lower_ascii(a[10]) != lower_ascii(b[10])));
        assert(a.len() > 0);
        if header_key(a) == header_key(b) {
            lemma_same_key(a, b);
        }
    }
}

/// Inserts the pair at index `k` of `pairs`, after those before it.
fn put(
    headers: &mut HeaderMap,
    name: &'static str,
    value: &str,
    Ghost(pairs): Ghost<Seq<(Seq<char>, Seq<char>)>>,
    Ghost(k): Ghost<int>,
)
    requires
        are_headers(pairs),
        0 <= k < pairs.len(),
        pairs[k] == (name@, value@),
        header_entries(*old(headers)) == inserted(pairs.take(k)),
    ensures
        header_entries(*final(headers)) == inserted(pairs.take(k + 1)),
{
    proof {
        let front = pairs.take(k);
        assert forall|i: int, j: int| 0 <= i < j < front.len() implies header_key(
            (#[trigger] front[i]).0,
        ) != header_key((#[trigger] front[j]).0) by {
            assert(front[i] == pairs[i] && front[j] == pairs[j]);
        }
        lemma_inserted_distinct(front);
        assert(pairs.take(k + 1).drop_last() == front);
        assert(pairs.take(k + 1).last() == pairs[k]);
    }
    insert_header(headers, name, value);
}

/// The proxy for assets, or the general one where that is empty.
pub fn select_proxy(asset_proxy: String, base_proxy: String) -> (r: String)
    ensures
        r@ == asset_proxy_of(asset_proxy@, base_proxy@),
{
    if asset_proxy.as_str().is_empty() {
        base_proxy
    } else {
        asset_proxy
    }
}

/// The cookie that carries a token and, where there is one, a clearance.
fn cookie(token: &str, clearance: &str) -> (r: String)
    ensures
        r@ == cookie_text(token@, clearance@),
{
    proof {
        reveal_strlit("sso=");
    }
    let raw = match without_prefix(token, "sso=") {
        Some(rest) => rest,
        None => token.to_string(),
    };
    if clearance.is_empty() {
        join2("sso=", raw.as_str())
    } else {
        join4("sso=", raw.as_str(), ";cf_clearance=", clearance)
    }
}

impl BaseService {
    /// The service that goes through `proxy`, if any, with `timeout` seconds for
    /// each request.
    pub fn new(proxy: Option<String>, timeout: u64) -> (r: BaseService)
        ensures
            r.proxy@ == (match proxy {
                Some(p) => p@,
                None => Seq::empty(),
            }),
            r.timeout == timeout,
    {
        let proxy = match proxy {
            Some(p) => p,
            None => String::new(),
        };
        BaseService { proxy, timeout }
    }

    /// Whether `input` is an address on the web.
    pub fn is_url(input: &str) -> (r: bool)
        ensures
            r == is_web_address(input@),
    {
        has_prefix(input, "http://") || has_prefix(input, "https://")
    }

    /// The headers of a request to the programming interface, under the given
    /// identifier.
    pub fn headers_with(
        &self,
        token: &str,
        referer: &str,
        statsig: &str,
        request_id: &str,
        clearance: &str,
    ) -> (r: HeaderMap)
        requires
            is_header_value(token@),
            is_header_value(referer@),
            is_header_value(statsig@),
            is_header_value(request_id@),
            is_header_value(clearance@),
        ensures
            header_entries(r) == entries_of(
                api_headers(token@, referer@, statsig@, request_id@, clearance@),
            ),
    {
        let ghost pairs = api_headers(token@, referer@, statsig@, request_id@, clearance@);
        proof {
            lemma_api_headers(token@, referer@, statsig@, request_id@, clearance@);
            assert(pairs.take(0) == Seq::<(Seq<char>, Seq<char>)>::empty());
            assert(pairs.take(pairs.len() as int) == pairs);
            lemma_inserted_distinct(pairs);
        }
        let cookie = cookie(token, clearance);
        let mut headers = new_headers();
        put(&mut headers, "Accept", "*/*", Ghost(pairs), Ghost(0));
        put(&mut headers, "Accept-Encoding", "gzip, deflate, br, zstd", Ghost(pairs), Ghost(1));
        put(&mut headers, "Accept-Language", "zh-CN,zh;q=0.9", Ghost(pairs), Ghost(2));
        put(&mut headers, "Baggage", "sentry-environment=production,sentry-release=d6add6fb0460641fd482d767a335ef72b9b6abb8,sentry-public_key=b311e0f2690c81f25e2c4cf6d4f7ce1c", Ghost(pairs), Ghost(3));
        put(&mut headers, "Cache-Control", "no-cache", Ghost(pairs), Ghost(4));
        put(&mut headers, "Content-Type", "application/json", Ghost(pairs), Ghost(5));
        put(&mut headers, "Origin", "https://grok.com", Ghost(pairs), Ghost(6));
        put(&mut headers, "Pragma", "no-cache", Ghost(pairs), Ghost(7));
        put(&mut headers, "Priority", "u=1, i", Ghost(pairs), Ghost(8));
        put(&mut headers, "Referer", referer, Ghost(pairs), Ghost(9));
        put(&mut headers, "Sec-Ch-Ua", "\"Google Chrome\";v=\"136\", \"Chromium\";v=\"136\", \"Not(A:Brand\";v=\"24\"", Ghost(pairs), Ghost(10));
        put(&mut headers, "Sec-Ch-Ua-Arch", "arm", Ghost(pairs), Ghost(11));
        put(&mut headers, "Sec-Ch-Ua-Bitness", "64", Ghost(pairs), Ghost(12));
        put(&mut headers, "Sec-Ch-Ua-Mobile", "?0", Ghost(pairs), Ghost(13));
        put(&mut headers, "Sec-Ch-Ua-Model", "", Ghost(pairs), Ghost(14));
        put(&mut headers, "Sec-Ch-Ua-Platform", "\"macOS\"", Ghost(pairs), Ghost(15));
        put(&mut headers, "Sec-Fetch-Dest", "empty", Ghost(pairs), Ghost(16));
        put(&mut headers, "Sec-Fetch-Mode", "cors", Ghost(pairs), Ghost(17));
        put(&mut headers, "Sec-Fetch-Site", "same-origin", Ghost(pairs), Ghost(18));
        put(&mut headers, "User-Agent", "Mozilla/5.0 (Macintosh; Intel Mac OS X 10_15_7) AppleWebKit/537.36 (KHTML, like Gecko) Chrome/136.0.0.0 Safari/537.36", Ghost(pairs), Ghost(19));
        put(&mut headers, "x-statsig-id", statsig, Ghost(pairs), Ghost(20));
        put(&mut headers, "x-xai-request-id", request_id, Ghost(pairs), Ghost(21));
        put(&mut headers, "Cookie", cookie.as_str(), Ghost(pairs), Ghost(22));
        headers
    }

    /// The headers of a request to the programming interface, under a new
    /// identifier.
    pub fn headers(&self, token: &str, referer: &str, statsig: &str, clearance: &str) -> (r:
        HeaderMap)
        requires
            is_header_value(token@),
            is_header_value(referer@),
            is_header_value(statsig@),
            is_header_value(clearance@),
        ensures
            exists|request_id: Seq<char>|
                is_uuid(request_id) && header_entries(r) == entries_of(
                    #[trigger] api_headers(token@, referer@, statsig@, request_id, clearance@),
                ),
    {
        let request_id = new_uuid();
        proof {
            lemma_uuid_header_value(request_id@);
        }
        self.headers_with(token, referer, statsig, request_id.as_str(), clearance)
    }

    /// The headers of a request for a file.
    pub fn dl_headers(&self, token: &str, clearance: &str) -> (r: HeaderMap)
        requires
            is_header_value(token@),
            is_header_value(clearance@),
        ensures
            header_entries(r) == entries_of(download_headers(token@, clearance@)),
    {
        let ghost pairs = download_headers(token@, clearance@);
        proof {
            lemma_download_headers(token@, clearance@);
            assert(pairs.take(0) == Seq::<(Seq<char>, Seq<char>)>::empty());
            assert(pairs.take(pairs.len() as int) == pairs);
            lemma_inserted_distinct(pairs);
        }
        let cookie = cookie(token, clearance);
        let mut headers = new_headers();
        put(&mut headers, "Accept", "text/html,application/xhtml+xml,application/xml;q=0.9,image/avif,image/webp,*/*;q=0.8", Ghost(pairs), Ghost(0));
        put(&mut headers, "Sec-Fetch-Dest", "document", Ghost(pairs), Ghost(1));
        put(&mut headers, "Sec-Fetch-Mode", "navigate", Ghost(pairs), Ghost(2));
        put(&mut headers, "Sec-Fetch-Site", "same-site", Ghost(pairs), Ghost(3));
        put(&mut headers, "Sec-Fetch-User", "?1", Ghost(pairs), Ghost(4));
        put(&mut headers, "Upgrade-Insecure-Requests", "1", Ghost(pairs), Ghost(5));
        put(&mut headers, "User-Agent", "Mozilla/5.0 (Macintosh; Intel Mac OS X 10_15_7) AppleWebKit/537.36 (KHTML, like Gecko) Chrome/136.0.0.0 Safari/537.36", Ghost(pairs), Ghost(6));
        put(&mut headers, "Cookie", cookie.as_str(), Ghost(pairs), Ghost(7));
        put(&mut headers, "Referer", "https://grok.com/", Ghost(pairs), Ghost(8));
        headers
    }
}

impl BaseService {
    /// The name, the Base64 content and the media type of a file that was handed
    /// in as a data URL or as bare Base64. The name comes from `id`.
    pub fn parse_b64_with(&self, input: &str, id: &str) -> (r: (String, String, String))
        ensures
            (r.0@, r.1@, r.2@) == inline_file(input@, id@),
    {
        proof {
            reveal_strlit("data:");
        }
        let filename = join3("file-", id, ".bin");
        if let Some(rest) = without_prefix(input, "data:") {
            if let Some(p) = split_at_char(rest.as_str(), ',') {
                let mime = text_before(p.0.as_str(), ';');
                let b64 = trimmed(p.1.as_str());
                return (filename, b64, mime);
            }
        }
        (filename, trimmed(input), DEFAULT_MIME.to_string())
    }

    /// The name, the Base64 content and the media type of a file that was handed
    /// in as a data URL or as bare Base64, under a new name.
    pub fn parse_b64(&self, input: &str) -> (r: (String, String, String))
        ensures
            exists|id: Seq<char>|
                is_uuid(id) && (r.0@, r.1@, r.2@) == #[trigger] inline_file(input@, id),
    {
        let id = new_uuid();
        self.parse_b64_with(input, id.as_str())
    }

    /// The name, the Base64 content and the media type of a file that was fetched
    /// from `url`. A file without a name gets one from `id`.
    pub fn fetched_file_with(
        &self,
        url: &str,
        content_type: Option<String>,
        bytes: &[u8],
        id: &str,
    ) -> (r: (String, String, String))
        ensures
            (r.0@, r.1@, r.2@) == web_file(url@, text_option(content_type), bytes@, id@),
    {
        let mime = match content_type {
            Some(s) => text_before(s.as_str(), ';'),
            None => DEFAULT_MIME.to_string(),
        };
        let filename = match file_name_of(url) {
            Some(name) => name,
            None => join3("file-", id, ".bin"),
        };
        (filename, base64_encode(bytes), mime)
    }

    /// The name, the Base64 content and the media type of a file that was fetched
    /// from `url`, or the error for an answer that is no success.
    pub fn fetched_file(
        &self,
        url: &str,
        status: u16,
        content_type: Option<String>,
        bytes: &[u8],
    ) -> (r: Result<(String, String, String), ApiError>)
        ensures
            match r {
                Ok(f) => 200 <= status < 300 && exists|id: Seq<char>|
                    is_uuid(id) && (f.0@, f.1@, f.2@) == #[trigger] web_file(
                        url@,
                        text_option(content_type),
                        bytes@,
                        id,
                    ),
                Err(e) => !(200 <= status < 300) && e@ == upstream_error(
                    "Fetch failed: "@ + decimal(status as nat),
                ),
            },
    {
        if status < 200 || status >= 300 {
            return Err(
                ApiError::upstream(
                    join2("Fetch failed: ", decimal_text(status as u64).as_str()),
                ),
            );
        }
        let id = new_uuid();
        Ok(self.fetched_file_with(url, content_type, bytes, id.as_str()))
    }

    /// A file as a data URL.
    pub fn data_url(&self, bytes: &[u8], mime: &str) -> (r: String)
        ensures
            r@ == data_url_text(bytes@, mime@),
    {
        let b64 = base64_encode(bytes);
        join4("data:", mime, ";base64,", b64.as_str())
    }

    /// A file as a data URL, or the error for one that could not be read.
    pub fn to_b64(&self, read: Result<Vec<u8>, String>, mime: &str) -> (r: Result<
        String,
        ApiError,
    >)
        ensures
            match (read, r) {
                (Ok(bytes), Ok(s)) => s@ == data_url_text(bytes@, mime@),
                (Err(cause), Err(e)) => e@ == server_error("read file failed: "@ + cause@),
                _ => false,
            },
    {
        match read {
            Ok(bytes) => Ok(self.data_url(bytes.as_slice(), mime)),
            Err(cause) => Err(ApiError::server(join2("read file failed: ", cause.as_str()))),
        }
    }
}

/// The error for a fetch that was not answered.
pub fn fetch_error(cause: &str) -> (r: ApiError)
    ensures
        r@ == upstream_error("Fetch failed: "@ + cause@),
{
    ApiError::upstream(join2("Fetch failed: ", cause))
}

/// The error for a fetch whose answer could not be read.
pub fn fetch_read_error(cause: &str) -> (r: ApiError)
    ensures
        r@ == upstream_error("Fetch read failed: "@ + cause@),
{
    ApiError::upstream(join2("Fetch read failed: ", cause))
}

proof fn lemma_uuid_header_value(s: Seq<char>)
    requires
        is_uuid(s),
    ensures
        is_header_value(s),
{
    assert forall|i: int| 0 <= i < s.len() implies {
        let c = #[trigger] s[i] as u32;
        c == 9 || (c >= 32 && c != 127)
    } by {
        assert(s[i] == '-' || crate::ident::is_lower_hex(s[i]));
    }
}

/// Base64 text holds no whitespace.
proof fn lemma_base64_no_space(bytes: Seq<u8>)
    ensures
        forall|i: int|
            0 <= i < base64_text(bytes).len() ==> !is_space(#[trigger] base64_text(bytes)[i]),
    decreases bytes.len(),
{
    assert forall|n: int| 0 <= n < 64 implies !is_space(#[trigger] base64_char(n)) by {}
    let all = base64_text(bytes);
    if bytes.len() > 2 {
        let rest = base64_text(bytes.skip(3));
        lemma_base64_no_space(bytes.skip(3));
        assert forall|i: int| 0 <= i < all.len() implies !is_space(#[trigger] all[i]) by {
            if i >= 4 {
                assert(all[i] == rest[i - 4]);
            }
        }
    }
}

/// Text without whitespace has none to trim.
proof fn lemma_trim_no_space(s: Seq<char>)
    requires
        forall|i: int| 0 <= i < s.len() ==> !is_space(#[trigger] s[i]),
    ensures
        trim(s) == s,
{
    if s.len() > 0 {
        assert(!is_space(s[0]));
        assert(!is_space(s[s.len() - 1]));
    }
}

/// A token gives the same cookie with and without the name of the cookie before
/// it, unless it starts with that name itself.
pub proof fn law_cookie_ignores_name(token: Seq<char>, clearance: Seq<char>)
    requires
        !starts_with(token, "sso="@),
    ensures
        cookie_text("sso="@ + token, clearance) == cookie_text(token, clearance),
{
    reveal_strlit("sso=");
    let named = "sso="@ + token;
    assert(named.take(4) == "sso="@);
    assert(named.skip(4) == token);
}

/// A data URL is read back as its Base64 content and its media type, as long as
/// neither a semicolon nor a comma stands in the media type.
pub proof fn law_data_url_round_trip(bytes: Seq<u8>, mime: Seq<char>, id: Seq<char>)
    requires
        !mime.contains(';'),
        !mime.contains(','),
    ensures
        inline_file(data_url_text(bytes, mime), id) == (
            numbered_name(id),
            base64_text(bytes),
            mime,
        ),
{
    reveal_strlit("data:");
    reveal_strlit(";base64,");
    let b64 = base64_text(bytes);
    let url = data_url_text(bytes, mime);
    let rest = url.skip(5);
    let meta = mime + ";base64"@;
    reveal_strlit(";base64");
    assert(url.take(5) == "data:"@);
    assert(rest == mime + ";base64,"@ + b64);
    let n = mime.len() as int + 7;
    assert forall|j: int| 0 <= j < n implies rest[j] != ',' by {
        if j < mime.len() {
            assert(rest[j] == mime[j]);
            assert(mime.contains(mime[j]));
        } else {
            assert(rest[j] == ";base64,"@[j - mime.len()]);
        }
    }
    assert(rest[n] == ";base64,"@[7]);
    lemma_position(rest, ',', n);
    assert(rest.take(n) == meta);
    assert(rest.skip(n + 1) == b64);
    assert forall|j: int| 0 <= j < mime.len() implies meta[j] != ';' by {
        assert(meta[j] == mime[j]);
        assert(mime.contains(mime[j]));
    }
    assert(meta[mime.len() as int] == ";base64"@[0]);
    lemma_position(meta, ';', mime.len() as int);
    assert(meta.take(mime.len() as int) == mime);
    lemma_base64_no_space(bytes);
    lemma_trim_no_space(b64);
}

/// A proxy for assets takes the place of the general one.
pub proof fn law_select_proxy(asset_proxy: String, base_proxy: String, r: String)
    requires
        call_ensures(select_proxy, (asset_proxy, base_proxy), r),
    ensures
        asset_proxy@.len() == 0 ==> r@ == base_proxy@,
        asset_proxy@.len() > 0 ==> r@ == asset_proxy@,
{
}

/// A service goes through the proxy and keeps to the time that it is made with.
pub proof fn law_new_service(proxy: Option<String>, timeout: u64, r: BaseService)
    requires
        call_ensures(BaseService::new, (proxy, timeout), r),
    ensures
        proxy is Some ==> r.proxy@ == proxy->0@,
        proxy is None ==> r.proxy@.len() == 0,
        r.timeout == timeout,
{
}

/// An address on the web is a text that starts with `http://` or `https://`.
pub proof fn law_is_url(input: &str, rest: Seq<char>, r: bool)
    requires
        call_ensures(BaseService::is_url, (input,), r),
    ensures
        input@ == "http://"@ + rest ==> r,
        input@ == "https://"@ + rest ==> r,
        r ==> exists|t: Seq<char>|
            input@ == "http://"@ + t || input@ == #[trigger] ("https://"@ + t),
{
    law_parts_of_text(input@, "http://"@, rest);
    law_parts_of_text(input@, "https://"@, rest);
    if r {
        if starts_with(input@, "https://"@) {
            assert(input@ == "https://"@ + input@.skip("https://"@.len() as int));
        } else {
            let t = input@.skip("http://"@.len() as int);
            assert(input@ == "http://"@ + t);
            assert("https://"@ + t == "https://"@ + t);
        }
    }
}

/// Whether a request sends a header with a value.
pub open spec fn sends_header(r: HeaderMap, name: Seq<char>, value: Seq<char>) -> bool {
    header_entries(r).contains((header_key(name), encode_utf8(value)))
}

/// A request to the programming interface carries what it was made for: where it
/// comes from, its two identifiers, and the token and the clearance in its cookie.
/// The name of the cookie stands before the token once, whether the token came with
/// it or not.
pub proof fn law_api_headers(
    service: &BaseService,
    token: &str,
    referer: &str,
    statsig: &str,
    request_id: &str,
    clearance: &str,
    bare: Seq<char>,
    r: HeaderMap,
)
    requires
        call_ensures(
            BaseService::headers_with,
            (service, token, referer, statsig, request_id, clearance),
            r,
        ),
        token@ == "sso="@ + bare || (token@ == bare && !starts_with(bare, "sso="@)),
    ensures
        header_entries(r).len() == 23,
        sends_header(r, "Referer"@, referer@),
        sends_header(r, "x-statsig-id"@, statsig@),
        sends_header(r, "x-xai-request-id"@, request_id@),
        clearance@.len() == 0 ==> sends_header(r, "Cookie"@, "sso="@ + bare),
        clearance@.len() > 0 ==> sends_header(
            r,
            "Cookie"@,
            "sso="@ + bare + ";cf_clearance="@ + clearance@,
        ),
{
    reveal_strlit("sso=");
    law_parts_of_text(token@, "sso="@, bare);
    assert(("sso="@ + bare).skip(4) =~= bare);
    let e = header_entries(r);
    assert(e[9] == (header_key("Referer"@), encode_utf8(referer@)));
    assert(e[20] == (header_key("x-statsig-id"@), encode_utf8(statsig@)));
    assert(e[21] == (header_key("x-xai-request-id"@), encode_utf8(request_id@)));
    assert(e[22] == (header_key("Cookie"@), encode_utf8(cookie_text(token@, clearance@))));
}

/// A request to the programming interface looks like one of the browser.
pub proof fn law_api_headers_of_browser(
    service: &BaseService,
    token: &str,
    referer: &str,
    statsig: &str,
    request_id: &str,
    clearance: &str,
    r: HeaderMap,
)
    requires
        call_ensures(
            BaseService::headers_with,
            (service, token, referer, statsig, request_id, clearance),
            r,
        ),
    ensures
        sends_header(r, "Accept"@, "*/*"@),
        sends_header(r, "Accept-Encoding"@, "gzip, deflate, br, zstd"@),
        sends_header(r, "Accept-Language"@, "zh-CN,zh;q=0.9"@),
        sends_header(r, "Baggage"@, "sentry-environment=production,sentry-release=d6add6fb0460641fd482d767a335ef72b9b6abb8,sentry-public_key=b311e0f2690c81f25e2c4cf6d4f7ce1c"@),
        sends_header(r, "Cache-Control"@, "no-cache"@),
        sends_header(r, "Content-Type"@, "application/json"@),
        sends_header(r, "Origin"@, "https://grok.com"@),
        sends_header(r, "Pragma"@, "no-cache"@),
        sends_header(r, "Priority"@, "u=1, i"@),
        sends_header(r, "Sec-Ch-Ua"@, "\"Google Chrome\";v=\"136\", \"Chromium\";v=\"136\", \"Not(A:Brand\";v=\"24\""@),
        sends_header(r, "Sec-Ch-Ua-Arch"@, "arm"@),
        sends_header(r, "Sec-Ch-Ua-Bitness"@, "64"@),
        sends_header(r, "Sec-Ch-Ua-Mobile"@, "?0"@),
        sends_header(r, "Sec-Ch-Ua-Model"@, ""@),
        sends_header(r, "Sec-Ch-Ua-Platform"@, "\"macOS\""@),
        sends_header(r, "Sec-Fetch-Dest"@, "empty"@),
        sends_header(r, "Sec-Fetch-Mode"@, "cors"@),
        sends_header(r, "Sec-Fetch-Site"@, "same-origin"@),
        sends_header(r, "User-Agent"@, "Mozilla/5.0 (Macintosh; Intel Mac OS X 10_15_7) AppleWebKit/537.36 (KHTML, like Gecko) Chrome/136.0.0.0 Safari/537.36"@),
{
    let e = header_entries(r);
    assert(e[0] == (header_key("Accept"@), encode_utf8("*/*"@)));
    assert(e[1] == (header_key("Accept-Encoding"@), encode_utf8("gzip, deflate, br, zstd"@)));
    assert(e[2] == (header_key("Accept-Language"@), encode_utf8("zh-CN,zh;q=0.9"@)));
    assert(e[3] == (header_key("Baggage"@), encode_utf8("sentry-environment=production,sentry-release=d6add6fb0460641fd482d767a335ef72b9b6abb8,sentry-public_key=b311e0f2690c81f25e2c4cf6d4f7ce1c"@)));
    assert(e[4] == (header_key("Cache-Control"@), encode_utf8("no-cache"@)));
    assert(e[5] == (header_key("Content-Type"@), encode_utf8("application/json"@)));
    assert(e[6] == (header_key("Origin"@), encode_utf8("https://grok.com"@)));
    assert(e[7] == (header_key("Pragma"@), encode_utf8("no-cache"@)));
    assert(e[8] == (header_key("Priority"@), encode_utf8("u=1, i"@)));
    assert(e[10] == (header_key("Sec-Ch-Ua"@), encode_utf8("\"Google Chrome\";v=\"136\", \"Chromium\";v=\"136\", \"Not(A:Brand\";v=\"24\""@)));
    assert(e[11] == (header_key("Sec-Ch-Ua-Arch"@), encode_utf8("arm"@)));
    assert(e[12] == (header_key("Sec-Ch-Ua-Bitness"@), encode_utf8("64"@)));
    assert(e[13] == (header_key("Sec-Ch-Ua-Mobile"@), encode_utf8("?0"@)));
    assert(e[14] == (header_key("Sec-Ch-Ua-Model"@), encode_utf8(""@)));
    assert(e[15] == (header_key("Sec-Ch-Ua-Platform"@), encode_utf8("\"macOS\""@)));
    assert(e[16] == (header_key("Sec-Fetch-Dest"@), encode_utf8("empty"@)));
    assert(e[17] == (header_key("Sec-Fetch-Mode"@), encode_utf8("cors"@)));
    assert(e[18] == (header_key("Sec-Fetch-Site"@), encode_utf8("same-origin"@)));
    assert(e[19] == (header_key("User-Agent"@), encode_utf8("Mozilla/5.0 (Macintosh; Intel Mac OS X 10_15_7) AppleWebKit/537.36 (KHTML, like Gecko) Chrome/136.0.0.0 Safari/537.36"@)));
}

/// A request for a file carries the token and the clearance in its cookie, and
/// looks like one of the browser.
pub proof fn law_download_headers(
    service: &BaseService,
    token: &str,
    clearance: &str,
    bare: Seq<char>,
    r: HeaderMap,
)
    requires
        call_ensures(BaseService::dl_headers, (service, token, clearance), r),
        token@ == "sso="@ + bare || (token@ == bare && !starts_with(bare, "sso="@)),
    ensures
        header_entries(r).len() == 9,
        clearance@.len() == 0 ==> sends_header(r, "Cookie"@, "sso="@ + bare),
        clearance@.len() > 0 ==> sends_header(
            r,
            "Cookie"@,
            "sso="@ + bare + ";cf_clearance="@ + clearance@,
        ),
        sends_header(r, "Accept"@, "text/html,application/xhtml+xml,application/xml;q=0.9,image/avif,image/webp,*/*;q=0.8"@),
        sends_header(r, "Sec-Fetch-Dest"@, "document"@),
        sends_header(r, "Sec-Fetch-Mode"@, "navigate"@),
        sends_header(r, "Sec-Fetch-Site"@, "same-site"@),
        sends_header(r, "Sec-Fetch-User"@, "?1"@),
        sends_header(r, "Upgrade-Insecure-Requests"@, "1"@),
        sends_header(r, "User-Agent"@, "Mozilla/5.0 (Macintosh; Intel Mac OS X 10_15_7) AppleWebKit/537.36 (KHTML, like Gecko) Chrome/136.0.0.0 Safari/537.36"@),
        sends_header(r, "Referer"@, "https://grok.com/"@),
{
    reveal_strlit("sso=");
    law_parts_of_text(token@, "sso="@, bare);
    assert(("sso="@ + bare).skip(4) =~= bare);
    let e = header_entries(r);
    assert(e[7] == (header_key("Cookie"@), encode_utf8(cookie_text(token@, clearance@))));
    assert(e[0] == (header_key("Accept"@), encode_utf8("text/html,application/xhtml+xml,application/xml;q=0.9,image/avif,image/webp,*/*;q=0.8"@)));
    assert(e[1] == (header_key("Sec-Fetch-Dest"@), encode_utf8("document"@)));
    assert(e[2] == (header_key("Sec-Fetch-Mode"@), encode_utf8("navigate"@)));
    assert(e[3] == (header_key("Sec-Fetch-Site"@), encode_utf8("same-site"@)));
    assert(e[4] == (header_key("Sec-Fetch-User"@), encode_utf8("?1"@)));
    assert(e[5] == (header_key("Upgrade-Insecure-Requests"@), encode_utf8("1"@)));
    assert(e[6] == (header_key("User-Agent"@), encode_utf8("Mozilla/5.0 (Macintosh; Intel Mac OS X 10_15_7) AppleWebKit/537.36 (KHTML, like Gecko) Chrome/136.0.0.0 Safari/537.36"@)));
    assert(e[8] == (header_key("Referer"@), encode_utf8("https://grok.com/"@)));
}

/// The headers under a new identifier differ from those under a given one in the
/// identifier alone, which is a UUID.
pub proof fn law_new_request_id(
    service: &BaseService,
    token: &str,
    referer: &str,
    statsig: &str,
    request_id: &str,
    clearance: &str,
    given: HeaderMap,
    r: HeaderMap,
)
    requires
        call_ensures(
            BaseService::headers_with,
            (service, token, referer, statsig, request_id, clearance),
            given,
        ),
        call_ensures(BaseService::headers, (service, token, referer, statsig, clearance), r),
    ensures
        header_entries(r).len() == header_entries(given).len(),
        forall|i: int|
            0 <= i < header_entries(r).len() && i != 21 ==> #[trigger] header_entries(r)[i]
                == header_entries(given)[i],
        exists|id: Seq<char>| is_uuid(id) && #[trigger] sends_header(r, "x-xai-request-id"@, id),
{
    let id = choose|id: Seq<char>|
        is_uuid(id) && header_entries(r) == entries_of(
            #[trigger] api_headers(token@, referer@, statsig@, id, clearance@),
        );
    assert(header_entries(r)[21] == (header_key("x-xai-request-id"@), encode_utf8(id)));
    assert(sends_header(r, "x-xai-request-id"@, id));
}

/// A data URL holds the media type before the first semicolon or comma and the
/// content behind the first comma. Blanks around the content do not count.
pub proof fn law_data_url_is_read(
    service: &BaseService,
    input: &str,
    id: &str,
    mime: Seq<char>,
    params: Seq<char>,
    content: Seq<char>,
    r: (String, String, String),
)
    requires
        call_ensures(BaseService::parse_b64_with, (service, input, id), r),
        !mime.contains(';'),
        !mime.contains(','),
        !params.contains(','),
        input@ == "data:"@ + (mime + seq![','] + content) || input@ == "data:"@ + (mime + seq![';']
            + params + seq![','] + content),
    ensures
        r.0@ == "file-"@ + id@ + ".bin"@,
        r.1@ == trim(content),
        r.2@ == mime,
{
    reveal_strlit("data:");
    let rest = input@.skip(5);
    if input@ == "data:"@ + (mime + seq![','] + content) {
        assert(input@.take(5) == "data:"@);
        assert(rest =~= mime + seq![','] + content);
        law_split_once(mime, ',', content);
        law_before_char(mime, ';', content);
    } else {
        let meta = mime + seq![';'] + params;
        assert(input@.take(5) == "data:"@);
        assert(rest =~= meta + seq![','] + content);
        assert forall|i: int| 0 <= i < meta.len() implies meta[i] != ',' by {
            if i < mime.len() {
                assert(meta[i] == mime[i] && mime.contains(mime[i]));
            } else if i > mime.len() {
                assert(meta[i] == params[i - mime.len() - 1]);
                assert(params.contains(params[i - mime.len() - 1]));
            }
        }
        law_split_once(meta, ',', content);
        law_before_char(mime, ';', params);
    }
}

/// What is no data URL is Base64 content of which nothing else is known.
pub proof fn law_bare_content_is_read(
    service: &BaseService,
    input: &str,
    id: &str,
    r: (String, String, String),
)
    requires
        call_ensures(BaseService::parse_b64_with, (service, input, id), r),
        !input@.contains(',') || (forall|rest: Seq<char>| input@ != #[trigger] ("data:"@ + rest)),
    ensures
        r.0@ == "file-"@ + id@ + ".bin"@,
        r.1@ == trim(input@),
        r.2@ == "application/octet-stream"@,
{
    reveal_strlit("data:");
    law_parts_of_text(input@, "data:"@, input@);
    if starts_with(input@, "data:"@) {
        let rest = input@.skip(5);
        assert(input@ == "data:"@ + rest);
        assert(!rest.contains(',')) by {
            if rest.contains(',') {
                let k = choose|k: int| 0 <= k < rest.len() && rest[k] == ',';
                assert(input@[k + 5] == ',');
            }
        }
        law_split_once(rest, ',', rest);
    }
}

/// Content under a new name is what it is under a given one, but for the name.
pub proof fn law_inline_file_with_new_name(
    service: &BaseService,
    input: &str,
    id: &str,
    given: (String, String, String),
    r: (String, String, String),
)
    requires
        call_ensures(BaseService::parse_b64_with, (service, input, id), given),
        call_ensures(BaseService::parse_b64, (service, input), r),
    ensures
        r.1@ == given.1@,
        r.2@ == given.2@,
        exists|new: Seq<char>| is_uuid(new) && r.0@ == #[trigger] ("file-"@ + new) + ".bin"@,
{
    let new = choose|new: Seq<char>|
        is_uuid(new) && (r.0@, r.1@, r.2@) == #[trigger] inline_file(input@, new);
    assert(r.0@ == "file-"@ + new + ".bin"@);
}

/// The media type that a header names stands before its first semicolon, whatever
/// it is. Only where there is no header it is that of unknown content.
pub proof fn law_mime_of_header(t: Seq<char>, rest: Seq<char>)
    requires
        !t.contains(';'),
    ensures
        mime_of_header(Some(t)) == t,
        mime_of_header(Some(t + seq![';'] + rest)) == t,
        mime_of_header(None) == "application/octet-stream"@,
{
    law_before_char(t, ';', rest);
}

/// A file from the web has the media type of its header, whatever that is, the
/// content that was fetched, and the last part of its address as its name.
pub proof fn law_fetched_file(
    service: &BaseService,
    url: &str,
    content_type: Option<String>,
    bytes: &[u8],
    id: &str,
    t: Seq<char>,
    rest: Seq<char>,
    dir: Seq<char>,
    name: Seq<char>,
    r: (String, String, String),
)
    requires
        call_ensures(BaseService::fetched_file_with, (service, url, content_type, bytes, id), r),
        !t.contains(';'),
        content_type is Some ==> content_type->0@ == t || content_type->0@ == t + seq![';'] + rest,
        url@ == dir + seq!['/'] + name,
        name.len() > 0,
        name != seq!['.'],
        !name.contains('/'),
    ensures
        content_type is Some ==> r.2@ == t,
        content_type is None ==> r.2@ == "application/octet-stream"@,
        r.1@ == base64_text(bytes@),
        name != seq!['.', '.'] ==> r.0@ == name,
        name == seq!['.', '.'] ==> r.0@ == "file-"@ + id@ + ".bin"@,
{
    law_before_char(t, ';', rest);
    let base = dir.push('/');
    assert(name[0] != '/') by {
        assert(name.contains(name[0]));
    }
    assert(join(base, name) =~= url@);
    if name != seq!['.', '.'] {
        lemma_join_name(base, name);
    } else {
        let path = url@;
        assert(path.last() == '.' && path[path.len() - 2] == '.');
        assert(name_end(path) == path.len());
        assert(path.take(path.len() as int) == path);
        let one = path.drop_last();
        assert(one.last() == '.');
        assert(one.drop_last().last() == '/');
        assert(name_start(one.drop_last()) == one.drop_last().len());
        assert(name_start(one) == one.drop_last().len());
        assert(name_start(path) == path.len() - 2);
        assert(path.skip(path.len() - 2) =~= name);
    }
}

/// A fetch that succeeded gives the file, whatever it holds, and any other one the
/// error with its status.
pub proof fn law_fetch_outcome(
    service: &BaseService,
    url: &str,
    status: u16,
    content_type: Option<String>,
    bytes: &[u8],
    id: &str,
    given: (String, String, String),
    r: Result<(String, String, String), ApiError>,
)
    requires
        call_ensures(
            BaseService::fetched_file_with,
            (service, url, content_type, bytes, id),
            given,
        ),
        call_ensures(BaseService::fetched_file, (service, url, status, content_type, bytes), r),
    ensures
        r is Ok <==> 200 <= status <= 299,
        r is Ok ==> r->Ok_0.1@ == given.1@ && r->Ok_0.2@ == given.2@,
        r is Ok && file_name(url@) is Some ==> r->Ok_0.0@ == given.0@,
        r is Err ==> r->Err_0.kind == ApiErrorKind::Upstream && r->Err_0.message@
            == "Fetch failed: "@ + decimal(status as nat),
{
}

/// A file that could be read is written as a data URL with its media type.
pub proof fn law_file_as_data_url(
    service: &BaseService,
    read: Result<Vec<u8>, String>,
    mime: &str,
    r: Result<String, ApiError>,
)
    requires
        call_ensures(BaseService::to_b64, (service, read, mime), r),
    ensures
        read is Ok ==> r is Ok && r->Ok_0@ == "data:"@ + mime@ + ";base64,"@ + base64_text(
            read->Ok_0@,
        ),
        read is Err ==> r is Err && r->Err_0.kind == ApiErrorKind::Server && r->Err_0.message@
            == "read file failed: "@ + read->Err_0@,
{
}

/// A fetch that fails is a failure upstream, with its cause.
pub proof fn law_fetch_errors(cause: &str, r: ApiError)
    ensures
        call_ensures(fetch_error, (cause,), r) ==> r.kind == ApiErrorKind::Upstream && r.message@
            == "Fetch failed: "@ + cause@,
        call_ensures(fetch_read_error, (cause,), r) ==> r.kind == ApiErrorKind::Upstream
            && r.message@ == "Fetch read failed: "@ + cause@,
{
}

} // verus!
