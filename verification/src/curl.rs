//! Requests through the `curl-impersonate` program: its command line, and what
//! it prints.

use crate::encoding::{
    ascii_lowercase, ascii_text, lowercase, to_lowercase, utf8_lossy, utf8_text, utf8_text_lossy,
};
use crate::error::{upstream_error, ApiError, ApiErrorKind, ApiErrorView};
use crate::headers::{header_entries, header_list, plain_entries};
use crate::number::{
    decimal, decimal_text, law_decimal_round_trip, lemma_decimal, parse_u16, parse_u16_spec,
};
use crate::text::{
    has_prefix, is_space, join2, join3, law_lines, law_split_once, lines, lines_of, same_text,
    split_at_char, split_once, starts_with, text_option, text_pairs, texts, trim, trimmed,
};
use reqwest::header::HeaderMap;
use vstd::prelude::*;
use vstd::slice::{slice_subrange, slice_to_vec};
use vstd::utf8::{
    decode_utf8, encode_utf8, encode_utf8_decode_utf8, encode_utf8_valid_utf8, is_ascii_chars,
    is_ascii_chars_encode_utf8, valid_utf8,
};

verus! {

/// How the gateway is set up to run curl.
#[derive(Clone, Debug)]
pub struct CurlSettings {
    pub use_curl: bool,
    pub curl_path: String,
    pub impersonate: String,
}

/// A request that curl is to make.
pub struct CurlRequest<'a> {
    pub proxy: &'a str,
    pub timeout: u64,
    pub method: &'a str,
    pub url: &'a str,
    pub headers: &'a HeaderMap,
    pub has_body: bool,
    pub capture_headers: bool,
}

/// A program with its arguments.
#[derive(Clone, Debug)]
pub struct CurlCommand {
    pub program: String,
    pub args: Vec<String>,
}

/// A response that curl has received.
#[derive(Clone, Debug)]
pub struct CurlResponse {
    pub status: u16,
    pub headers: Vec<(String, String)>,
    pub body: Vec<u8>,
}

/// The plain form of a [`CurlResponse`].
pub struct CurlResponseView {
    pub status: int,
    pub headers: Seq<(Seq<char>, Seq<char>)>,
    pub body: Seq<u8>,
}

impl View for CurlResponse {
    type V = CurlResponseView;

    open spec fn view(&self) -> CurlResponseView {
        CurlResponseView {
            status: self.status as int,
            headers: text_pairs(self.headers@),
            body: self.body@,
        }
    }
}

/// What can go wrong with the program itself.
#[derive(Clone, Copy, Debug, PartialEq, Eq, Structural)]
pub enum CurlStage {
    /// It did not start.
    Spawn,
    /// It did not take its input.
    Stdin,
    /// Its end could not be waited for.
    Wait,
}

/// Whether a byte is a printable ASCII character or a tab.
pub open spec fn is_visible(b: u8) -> bool {
    (32 <= b < 127) || b == 9
}

/// The text of a header value: nothing where it is not all printable ASCII.
pub open spec fn header_text(value: Seq<u8>) -> Seq<char> {
    if forall|i: int| 0 <= i < value.len() ==> is_visible(#[trigger] value[i]) {
        ascii_text(value)
    } else {
        Seq::empty()
    }
}

/// The arguments that hand the header entries to curl.
pub open spec fn header_args(entries: Seq<(Seq<char>, Seq<u8>)>) -> Seq<Seq<char>>
    decreases entries.len(),
{
    if entries.len() == 0 {
        Seq::empty()
    } else {
        let last = entries.last();
        header_args(entries.drop_last()) + seq!["-H"@, last.0 + ": "@ + header_text(last.1)]
    }
}

/// The pair of arguments, where `value` is more than whitespace.
pub open spec fn option_args(flag: Seq<char>, value: Seq<char>) -> Seq<Seq<char>> {
    if trim(value).len() > 0 {
        seq![flag, trim(value)]
    } else {
        Seq::empty()
    }
}

/// The arguments of curl for a request.
pub open spec fn curl_args_view(request: CurlRequest, impersonate: Seq<char>) -> Seq<Seq<char>> {
    seq![
        "-sS"@,
        "--compressed"@,
        "--http2"@,
        "-X"@,
        request.method@,
        request.url@,
        "--max-time"@,
        decimal(request.timeout as nat),
        "-w"@,
        "\\n%{http_code}"@,
    ] + (if request.capture_headers {
        seq!["-i"@]
    } else {
        Seq::empty()
    }) + option_args("-x"@, request.proxy@) + option_args("--impersonate"@, impersonate)
        + header_args(header_entries(*request.headers)) + (if request.has_body {
        seq!["--data-binary"@, "@-"@]
    } else {
        Seq::empty()
    })
}

/// The program that is run for a configured path.
pub open spec fn curl_program_view(path: Seq<char>) -> Seq<char> {
    if trim(path).len() == 0 {
        "curl-impersonate"@
    } else {
        path
    }
}

/// The index of the last line feed, or -1.
pub open spec fn last_newline(data: Seq<u8>) -> int
    decreases data.len(),
{
    if data.len() == 0 {
        -1
    } else if data.last() == 10 {
        data.len() - 1
    } else {
        last_newline(data.drop_last())
    }
}

/// The status code that some bytes write, or zero.
pub open spec fn status_code(code: Seq<u8>) -> int {
    let text = if valid_utf8(code) {
        decode_utf8(code)
    } else {
        Seq::empty()
    };
    match parse_u16_spec(trim(text)) {
        Some(n) => n as int,
        None => 0,
    }
}

/// The four bytes that end a block of headers: two carriage returns, each with
/// a line feed.
pub open spec fn blank_line() -> Seq<u8> {
    seq![13u8, 10u8, 13u8, 10u8]
}

/// The index of the last blank line, or -1.
pub open spec fn last_blank_line(data: Seq<u8>) -> int
    decreases data.len(),
{
    if data.len() < 4 {
        -1
    } else if data.skip(data.len() - 4) == blank_line() {
        data.len() - 4
    } else {
        last_blank_line(data.drop_last())
    }
}

/// The header that a line writes: none for a status line and for a line without
/// a colon.
pub open spec fn header_of_line(line: Seq<char>) -> Option<(Seq<char>, Seq<char>)> {
    if starts_with(line, "HTTP/"@) {
        None
    } else {
        match split_once(line, ':') {
            Some(p) => Some((trim(p.0), trim(p.1))),
            None => None,
        }
    }
}

/// The headers that some lines write.
pub open spec fn headers_of_lines(lines: Seq<Seq<char>>) -> Seq<(Seq<char>, Seq<char>)>
    decreases lines.len(),
{
    if lines.len() == 0 {
        Seq::empty()
    } else {
        match header_of_line(lines.last()) {
            Some(h) => headers_of_lines(lines.drop_last()).push(h),
            None => headers_of_lines(lines.drop_last()),
        }
    }
}

/// The headers that a block of bytes writes.
pub open spec fn headers_of_block(block: Seq<u8>) -> Seq<(Seq<char>, Seq<char>)> {
    headers_of_lines(lines(utf8_lossy(block)))
}

/// The headers and the body of a response, parted at the last blank line. Without
/// one all of it is body.
pub open spec fn headers_and_body(data: Seq<u8>) -> (Seq<(Seq<char>, Seq<char>)>, Seq<u8>) {
    let i = last_blank_line(data);
    if i >= 0 {
        (headers_of_block(data.take(i)), data.skip(i + 4))
    } else {
        (Seq::empty(), data)
    }
}

/// The bytes that hold the headers of a response: none without a blank line.
pub open spec fn header_block(data: Seq<u8>) -> Seq<u8> {
    if last_blank_line(data) >= 0 {
        data.take(last_blank_line(data))
    } else {
        Seq::empty()
    }
}

/// The headers that a response writes in UTF-8.
pub open spec fn utf8_headers(data: Seq<u8>) -> Seq<(Seq<char>, Seq<char>)> {
    if last_blank_line(data) >= 0 {
        headers_of_lines(lines(decode_utf8(header_block(data))))
    } else {
        Seq::empty()
    }
}

/// What curl has printed before the last line feed, or all of it without one.
pub open spec fn printed_response(stdout: Seq<u8>) -> Seq<u8> {
    if last_newline(stdout) >= 0 {
        stdout.take(last_newline(stdout))
    } else {
        stdout
    }
}

/// What curl has printed: the response, then a line feed and the status code.
pub open spec fn curl_output(stdout: Seq<u8>, capture_headers: bool) -> CurlResponseView {
    let i = last_newline(stdout);
    let data = printed_response(stdout);
    let code = if i >= 0 {
        stdout.skip(i + 1)
    } else {
        Seq::empty()
    };
    let parts = if capture_headers {
        headers_and_body(data)
    } else {
        (Seq::empty(), data)
    };
    CurlResponseView { status: status_code(code), headers: parts.0, body: parts.1 }
}

/// What a run of curl leads to.
pub open spec fn curl_result(
    success: bool,
    stdout: Seq<u8>,
    stderr: Seq<u8>,
    capture_headers: bool,
) -> Result<CurlResponseView, ApiErrorView> {
    if success {
        Ok(curl_output(stdout, capture_headers))
    } else {
        Err(upstream_error("Curl failed: "@ + utf8_lossy(stderr)))
    }
}

/// The value of the first header whose lower-case name is `key`.
pub open spec fn first_value(
    lowered: Seq<Seq<char>>,
    headers: Seq<(Seq<char>, Seq<char>)>,
    key: Seq<char>,
) -> Option<Seq<char>>
    decreases headers.len(),
{
    if headers.len() == 0 || lowered.len() == 0 {
        None
    } else if lowered[0] == key {
        Some(headers[0].1)
    } else {
        first_value(lowered.drop_first(), headers.drop_first(), key)
    }
}

/// The lower-case names of some headers.
pub open spec fn lowered_names(headers: Seq<(Seq<char>, Seq<char>)>) -> Seq<Seq<char>> {
    headers.map_values(|h: (Seq<char>, Seq<char>)| lowercase(h.0))
}

/// The value of the first header with the name `name`, in any case.
pub open spec fn value_of_header(
    headers: Seq<(Seq<char>, Seq<char>)>,
    name: Seq<char>,
) -> Option<Seq<char>> {
    first_value(lowered_names(headers), headers, lowercase(name))
}

/// The text of a header value.
fn text_of_value(value: &Vec<u8>) -> (r: String)
    ensures
        r@ == header_text(value@),
{
    let mut out = String::new();
    let mut i: usize = 0;
    while i < value.len()
        invariant
            i <= value@.len(),
            out@ == ascii_text(value@).take(i as int),
            forall|j: int| 0 <= j < i ==> is_visible(#[trigger] value@[j]),
        decreases value@.len() - i,
    {
        let b = value[i];
        if !((32 <= b && b < 127) || b == 9) {
            assert(!is_visible(value@[i as int]));
            return String::new();
        }
        out.push(b as char);
        i = i + 1;
        assert(ascii_text(value@).take(i as int) == ascii_text(value@).take(i - 1).push(
            value@[i - 1] as char,
        ));
    }
    assert(ascii_text(value@).take(i as int) == ascii_text(value@));
    out
}

/// Adds the pair of arguments, where `value` is more than whitespace.
fn push_option(args: &mut Vec<String>, flag: &str, value: &str)
    ensures
        texts(final(args)@) == texts(old(args)@) + option_args(flag@, value@),
{
    let ghost before = args@;
    let text = trimmed(value);
    if !text.as_str().is_empty() {
        args.push(flag.to_string());
        args.push(text);
        assert(texts(args@) == texts(before) + seq![flag@, text@]);
    }
    assert(texts(args@) == texts(before) + option_args(flag@, value@));
}

/// The arguments of curl for a request.
pub fn curl_args(request: &CurlRequest, impersonate: &str) -> (r: Vec<String>)
    ensures
        texts(r@) == curl_args_view(*request, impersonate@),
{
    let mut args: Vec<String> = Vec::new();
    args.push("-sS".to_string());
    args.push("--compressed".to_string());
    args.push("--http2".to_string());
    args.push("-X".to_string());
    args.push(request.method.to_string());
    args.push(request.url.to_string());
    args.push("--max-time".to_string());
    args.push(decimal_text(request.timeout));
    args.push("-w".to_string());
    args.push("\\n%{http_code}".to_string());
    let ghost fixed = seq![
        "-sS"@,
        "--compressed"@,
        "--http2"@,
        "-X"@,
        request.method@,
        request.url@,
        "--max-time"@,
        decimal(request.timeout as nat),
        "-w"@,
        "\\n%{http_code}"@,
    ];
    assert(texts(args@) == fixed);
    if request.capture_headers {
        args.push("-i".to_string());
        assert(texts(args@) == fixed + seq!["-i"@]);
    } else {
        assert(fixed == fixed + Seq::empty());
    }
    push_option(&mut args, "-x", request.proxy);
    push_option(&mut args, "--impersonate", impersonate);
    let list = header_list(request.headers);
    let ghost entries = header_entries(*request.headers);
    let ghost before = texts(args@);
    let mut i: usize = 0;
    while i < list.len()
        invariant
            i <= list@.len(),
            plain_entries(list@) == entries,
            texts(args@) == before + header_args(entries.take(i as int)),
        decreases list@.len() - i,
    {
        let ghost done = args@;
        let value = text_of_value(&list[i].1);
        let line = join3(list[i].0.as_str(), ": ", value.as_str());
        assert(entries[i as int] == (list@[i as int].0@, list@[i as int].1@));
        args.push("-H".to_string());
        args.push(line);
        i = i + 1;
        assert(entries.take(i as int).drop_last() == entries.take(i - 1));
        assert(texts(args@) == texts(done) + seq!["-H"@, line@]);
    }
    assert(entries.take(i as int) == entries);
    let ghost most = texts(args@);
    if request.has_body {
        args.push("--data-binary".to_string());
        args.push("@-".to_string());
        assert(texts(args@) == most + seq!["--data-binary"@, "@-"@]);
    } else {
        assert(most == most + Seq::empty());
    }
    args
}

/// The command that makes a request. Without curl there are no requests.
pub fn curl_command(settings: &CurlSettings, request: &CurlRequest) -> (r: Result<
    CurlCommand,
    ApiError,
>)
    ensures
        match r {
            Ok(c) => settings.use_curl && c.program@ == curl_program_view(settings.curl_path@)
                && texts(c.args@) == curl_args_view(*request, settings.impersonate@),
            Err(e) => !settings.use_curl && e@ == upstream_error(
                "curl-impersonate is required for Grok requests"@,
            ),
        },
{
    if !settings.use_curl {
        return Err(
            ApiError::upstream("curl-impersonate is required for Grok requests".to_string()),
        );
    }
    let program = if trimmed(settings.curl_path.as_str()).as_str().is_empty() {
        "curl-impersonate".to_string()
    } else {
        settings.curl_path.clone()
    };
    let args = curl_args(request, settings.impersonate.as_str());
    Ok(CurlCommand { program, args })
}

/// The error for a program that does not run.
pub fn curl_error(stage: CurlStage, cause: &str) -> (r: ApiError)
    ensures
        r@ == upstream_error(
            (match stage {
                CurlStage::Spawn => "Curl error: "@,
                CurlStage::Stdin => "Curl stdin error: "@,
                CurlStage::Wait => "Curl wait error: "@,
            }) + cause@,
        ),
{
    let prefix = match stage {
        CurlStage::Spawn => "Curl error: ",
        CurlStage::Stdin => "Curl stdin error: ",
        CurlStage::Wait => "Curl wait error: ",
    };
    ApiError::upstream(join2(prefix, cause))
}

/// The headers that some text writes.
pub fn parse_header_text(text: &str) -> (r: Vec<(String, String)>)
    ensures
        text_pairs(r@) == headers_of_lines(lines(text@)),
{
    let all = lines_of(text);
    let ghost ls = lines(text@);
    let mut headers: Vec<(String, String)> = Vec::new();
    assert(text_pairs(headers@) == headers_of_lines(ls.take(0)));
    let mut i: usize = 0;
    while i < all.len()
        invariant
            i <= all@.len(),
            texts(all@) == ls,
            text_pairs(headers@) == headers_of_lines(ls.take(i as int)),
        decreases all@.len() - i,
    {
        let line = all[i].as_str();
        let ghost done = headers@;
        assert(ls[i as int] == line@);
        i = i + 1;
        assert(ls.take(i as int).drop_last() == ls.take(i - 1));
        if !has_prefix(line, "HTTP/") {
            if let Some(p) = split_at_char(line, ':') {
                let k = trimmed(p.0.as_str());
                let v = trimmed(p.1.as_str());
                headers.push((k, v));
                assert(text_pairs(headers@) == text_pairs(done).push((k@, v@)));
            }
        }
    }
    assert(ls.take(i as int) == ls);
    headers
}

/// The headers that a block of bytes writes.
pub fn parse_header_block(block: &[u8]) -> (r: Vec<(String, String)>)
    ensures
        text_pairs(r@) == headers_of_block(block@),
        valid_utf8(block@) ==> text_pairs(r@) == headers_of_lines(lines(decode_utf8(block@))),
{
    let text = utf8_text_lossy(block);
    parse_header_text(text.as_str())
}

/// The headers and the body of a response, parted at the last blank line.
pub fn split_headers_body(data: &[u8]) -> (r: (Vec<(String, String)>, Vec<u8>))
    ensures
        (text_pairs(r.0@), r.1@) == headers_and_body(data@),
        valid_utf8(header_block(data@)) ==> text_pairs(r.0@) == utf8_headers(data@),
{
    let mut end: usize = data.len();
    assert(data@.take(data@.len() as int) == data@);
    while end >= 4
        invariant
            end <= data@.len(),
            last_blank_line(data@) == last_blank_line(data@.take(end as int)),
        decreases end,
    {
        let ghost head = data@.take(end as int);
        if data[end - 4] == 13 && data[end - 3] == 10 && data[end - 2] == 13 && data[end - 1]
            == 10 {
            assert(head.skip(end - 4) == blank_line());
            let headers = parse_header_block(slice_subrange(data, 0, end - 4));
            let body = slice_to_vec(slice_subrange(data, end, data.len()));
            assert(data@.subrange(0, end - 4) == data@.take(end - 4));
            assert(data@.subrange(end as int, data@.len() as int) == data@.skip(end as int));
            return (headers, body);
        }
        proof {
            if head.skip(end - 4) == blank_line() {
                assert(head.skip(end - 4)[0] == 13 && head.skip(end - 4)[1] == 10);
                assert(head.skip(end - 4)[2] == 13 && head.skip(end - 4)[3] == 10);
            }
            assert(head.drop_last() == data@.take(end - 1));
        }
        end = end - 1;
    }
    let headers: Vec<(String, String)> = Vec::new();
    assert(text_pairs(headers@) == Seq::<(Seq<char>, Seq<char>)>::empty());
    (headers, slice_to_vec(data))
}

/// The status code that some bytes write, or zero.
fn parse_status(code: &[u8]) -> (r: u16)
    ensures
        r == status_code(code@),
{
    let text = match utf8_text(code) {
        Some(s) => s,
        None => String::new(),
    };
    match parse_u16(trimmed(text.as_str()).as_str()) {
        Some(n) => n,
        None => 0,
    }
}

/// Takes apart what curl has printed.
pub fn parse_curl_output(stdout: &[u8], capture_headers: bool) -> (r: CurlResponse)
    ensures
        r@ == curl_output(stdout@, capture_headers),
        capture_headers && valid_utf8(header_block(printed_response(stdout@))) ==> r@.headers
            == utf8_headers(printed_response(stdout@)),
{
    let mut end: usize = stdout.len();
    assert(stdout@.take(stdout@.len() as int) == stdout@);
    while end > 0 && stdout[end - 1] != 10
        invariant
            end <= stdout@.len(),
            last_newline(stdout@) == last_newline(stdout@.take(end as int)),
        decreases end,
    {
        assert(stdout@.take(end as int).drop_last() == stdout@.take(end - 1));
        end = end - 1;
    }
    let found = end > 0;
    let stop = if found {
        end - 1
    } else {
        stdout.len()
    };
    let data = slice_subrange(stdout, 0, stop);
    let code = if found {
        slice_subrange(stdout, end, stdout.len())
    } else {
        slice_subrange(stdout, 0, 0)
    };
    assert(data@ == stdout@.take(stop as int));
    assert(found ==> code@ == stdout@.skip(end as int));
    let status = parse_status(code);
    if capture_headers {
        let parts = split_headers_body(data);
        CurlResponse { status, headers: parts.0, body: parts.1 }
    } else {
        let headers: Vec<(String, String)> = Vec::new();
        assert(text_pairs(headers@) == Seq::<(Seq<char>, Seq<char>)>::empty());
        CurlResponse { status, headers, body: slice_to_vec(data) }
    }
}

/// What a run of curl leads to.
pub fn curl_outcome(success: bool, stdout: &[u8], stderr: &[u8], capture_headers: bool) -> (r:
    Result<CurlResponse, ApiError>)
    ensures
        match r {
            Ok(c) => curl_result(success, stdout@, stderr@, capture_headers) == Ok::<
                CurlResponseView,
                ApiErrorView,
            >(c@) && (capture_headers && valid_utf8(header_block(printed_response(stdout@)))
                ==> c@.headers == utf8_headers(printed_response(stdout@))),
            Err(e) => curl_result(success, stdout@, stderr@, capture_headers) == Err::<
                CurlResponseView,
                ApiErrorView,
            >(e@) && (valid_utf8(stderr@) ==> e@ == upstream_error(
                "Curl failed: "@ + decode_utf8(stderr@),
            )),
        },
{
    if !success {
        let text = utf8_text_lossy(stderr);
        return Err(ApiError::upstream(join2("Curl failed: ", text.as_str())));
    }
    Ok(parse_curl_output(stdout, capture_headers))
}

/// The value of the first header whose lower-case name is `key`.
pub fn find_header(lowered: &Vec<String>, headers: &[(String, String)], key: &str) -> (r: Option<
    String,
>)
    requires
        lowered@.len() == headers@.len(),
    ensures
        text_option(r) == first_value(texts(lowered@), text_pairs(headers@), key@),
{
    let ghost names = texts(lowered@);
    let ghost pairs = text_pairs(headers@);
    assert(names.skip(0) == names && pairs.skip(0) == pairs);
    let mut i: usize = 0;
    while i < headers.len()
        invariant
            i <= headers@.len(),
            lowered@.len() == headers@.len(),
            names == texts(lowered@),
            pairs == text_pairs(headers@),
            first_value(names, pairs, key@) == first_value(
                names.skip(i as int),
                pairs.skip(i as int),
                key@,
            ),
        decreases headers@.len() - i,
    {
        if same_text(lowered[i].as_str(), key) {
            return Some(headers[i].1.clone());
        }
        assert(names.skip(i as int).drop_first() == names.skip(i + 1));
        assert(pairs.skip(i as int).drop_first() == pairs.skip(i + 1));
        i = i + 1;
    }
    None
}

/// The names of some headers with their ASCII letters in lower case.
pub open spec fn ascii_lowered_names(headers: Seq<(Seq<char>, Seq<char>)>) -> Seq<Seq<char>> {
    headers.map_values(|h: (Seq<char>, Seq<char>)| ascii_lowercase(h.0))
}

/// Whether the names of some headers are all ASCII.
pub open spec fn have_ascii_names(headers: Seq<(Seq<char>, Seq<char>)>) -> bool {
    forall|i: int| 0 <= i < headers.len() ==> is_ascii_chars((#[trigger] headers[i]).0)
}

/// The value of the first header with the name `name`, in any case. Of names that
/// are all ASCII the letters `A` to `Z` have two cases, and nothing else.
pub fn header_value(headers: &[(String, String)], name: &str) -> (r: Option<String>)
    ensures
        text_option(r) == value_of_header(text_pairs(headers@), name@),
        is_ascii_chars(name@) && have_ascii_names(text_pairs(headers@)) ==> text_option(r)
            == first_value(
            ascii_lowered_names(text_pairs(headers@)),
            text_pairs(headers@),
            ascii_lowercase(name@),
        ),
{
    let key = to_lowercase(name);
    let mut lowered: Vec<String> = Vec::new();
    let ghost names = lowered_names(text_pairs(headers@));
    let ghost ascii_names = ascii_lowered_names(text_pairs(headers@));
    let mut i: usize = 0;
    while i < headers.len()
        invariant
            i <= headers@.len(),
            names == lowered_names(text_pairs(headers@)),
            ascii_names == ascii_lowered_names(text_pairs(headers@)),
            texts(lowered@) == names.take(i as int),
            have_ascii_names(text_pairs(headers@)) ==> texts(lowered@) == ascii_names.take(
                i as int,
            ),
        decreases headers@.len() - i,
    {
        let ghost done = lowered@;
        let low = to_lowercase(headers[i].0.as_str());
        lowered.push(low);
        assert(texts(lowered@) == texts(done).push(low@));
        assert(text_pairs(headers@)[i as int].0 == headers@[i as int].0@);
        i = i + 1;
        assert(ascii_names.take(i as int) == ascii_names.take(i - 1).push(ascii_names[i - 1]));
        assert(names.take(i as int) == names.take(i - 1).push(names[i - 1]));
    }
    assert(names.take(i as int) == names);
    assert(ascii_names.take(i as int) == ascii_names);
    assert(lowered@.len() == texts(lowered@).len());
    find_header(&lowered, headers, key.as_str())
}

/// The last line feed stands before a tail that has none.
proof fn lemma_last_newline(head: Seq<u8>, tail: Seq<u8>)
    requires
        forall|i: int| 0 <= i < tail.len() ==> tail[i] != 10,
    ensures
        last_newline(head + seq![10u8] + tail) == head.len(),
    decreases tail.len(),
{
    let all = head + seq![10u8] + tail;
    if tail.len() == 0 {
        assert(all.last() == 10);
    } else {
        lemma_last_newline(head, tail.drop_last());
        assert(all.last() == tail.last());
        assert(all.drop_last() == head + seq![10u8] + tail.drop_last());
    }
}

/// Digits have no whitespace to trim.
proof fn lemma_trim_digits(s: Seq<char>)
    requires
        s.len() > 0,
        forall|i: int| 0 <= i < s.len() ==> '0' <= #[trigger] s[i] <= '9',
    ensures
        trim(s) == s,
{
    assert(!is_space(s[0]));
    assert(!is_space(s[s.len() - 1]));
}

/// What curl prints for a response without captured headers, which is its body,
/// a line feed and the status code, is taken apart into the status and the body.
pub proof fn law_curl_output_round_trip(body: Seq<u8>, status: u16)
    ensures
        curl_output(body + seq![10u8] + encode_utf8(decimal(status as nat)), false) == (
        CurlResponseView { status: status as int, headers: Seq::empty(), body }),
{
    let digits = decimal(status as nat);
    let code = encode_utf8(digits);
    let stdout = body + seq![10u8] + code;
    lemma_decimal(status as nat);
    law_decimal_round_trip(status);
    lemma_trim_digits(digits);
    assert(is_ascii_chars(digits));
    is_ascii_chars_encode_utf8(digits);
    encode_utf8_valid_utf8(digits);
    encode_utf8_decode_utf8(digits);
    assert forall|i: int| 0 <= i < code.len() implies code[i] != 10 by {
        assert(digits[i] as u8 == code[i]);
        assert('0' <= digits[i] <= '9');
    }
    lemma_last_newline(body, code);
    assert(stdout.take(body.len() as int) == body);
    assert(stdout.skip(body.len() as int + 1) == code);
}

/// The last blank line is the one before a body, where none ends further back.
proof fn lemma_last_blank_line(head: Seq<u8>, body: Seq<u8>)
    requires
        forall|i: int|
            0 < i <= body.len() ==> #[trigger] (blank_line() + body).subrange(i, i + 4)
                != blank_line(),
    ensures
        last_blank_line(head + blank_line() + body) == head.len(),
    decreases body.len(),
{
    let all = head + blank_line() + body;
    let n = body.len() as int;
    if n == 0 {
        assert(all.skip(all.len() - 4) == blank_line());
    } else {
        let tail = blank_line() + body;
        assert(all.skip(all.len() - 4) == tail.subrange(n, n + 4));
        let shorter = body.drop_last();
        assert forall|i: int| 0 < i <= shorter.len() implies #[trigger] (blank_line()
            + shorter).subrange(i, i + 4) != blank_line() by {
            assert((blank_line() + shorter).subrange(i, i + 4) == tail.subrange(i, i + 4));
        }
        lemma_last_blank_line(head, shorter);
        assert(all.drop_last() == head + blank_line() + shorter);
    }
}

/// A block of headers, a blank line and a body are parted into the headers and
/// the body, as long as no further blank line ends inside the body.
pub proof fn law_header_body_round_trip(head: Seq<u8>, body: Seq<u8>)
    requires
        forall|i: int|
            0 < i <= body.len() ==> #[trigger] (blank_line() + body).subrange(i, i + 4)
                != blank_line(),
    ensures
        headers_and_body(head + blank_line() + body) == (headers_of_block(head), body),
{
    let all = head + blank_line() + body;
    lemma_last_blank_line(head, body);
    assert(all.take(head.len() as int) == head);
    assert(all.skip(head.len() as int + 4) == body);
}

/// The headers that a header list names are found under their names: a lookup
/// that finds a value finds it under a header with that name in lower case.
pub proof fn law_header_value_is_listed(headers: Seq<(Seq<char>, Seq<char>)>, name: Seq<char>)
    ensures
        match value_of_header(headers, name) {
            Some(v) => exists|i: int|
                0 <= i < headers.len() && lowercase((#[trigger] headers[i]).0) == lowercase(name)
                    && headers[i].1 == v,
            None => forall|i: int|
                0 <= i < headers.len() ==> lowercase((#[trigger] headers[i]).0) != lowercase(name),
        },
    decreases headers.len(),
{
    if headers.len() > 0 {
        let rest = headers.drop_first();
        assert(lowered_names(headers).drop_first() == lowered_names(rest));
        law_header_value_is_listed(rest, name);
        assert forall|i: int| 0 < i < headers.len() implies headers[i] == rest[i - 1] by {}
        if lowercase(headers[0].0) != lowercase(name) {
            match value_of_header(rest, name) {
                Some(v) => {
                    let k = choose|k: int|
                        0 <= k < rest.len() && lowercase((#[trigger] rest[k]).0) == lowercase(name)
                            && rest[k].1 == v;
                    assert(headers[k + 1] == rest[k]);
                },
                None => {
                    assert forall|i: int| 0 <= i < headers.len() implies lowercase(
                        (#[trigger] headers[i]).0,
                    ) != lowercase(name) by {
                        if i > 0 {
                            assert(headers[i] == rest[i - 1]);
                        }
                    }
                },
            }
        } else {
            assert(headers[0].1 == value_of_header(headers, name).unwrap());
        }
    }
}

/// The text of a header value is that of its bytes, one for one, where they are all
/// printable, and else it is empty.
pub proof fn law_header_text(value: Seq<u8>, i: int)
    ensures
        header_text(value).len() == value.len() || header_text(value).len() == 0,
        (forall|k: int| 0 <= k < value.len() ==> #[trigger] value[k] == 9 || 32 <= value[k] <= 126)
            ==> header_text(value).len() == value.len() && forall|k: int|
            0 <= k < value.len() ==> #[trigger] header_text(value)[k] == value[k] as char,
        0 <= i < value.len() && value[i] != 9 && !(32 <= value[i] <= 126) ==> header_text(
            value,
        ).len() == 0,
{
    if forall|k: int| 0 <= k < value.len() ==> #[trigger] value[k] == 9 || 32 <= value[k] <= 126 {
        assert forall|k: int| 0 <= k < value.len() implies is_visible(#[trigger] value[k]) by {}
    }
    if 0 <= i < value.len() && value[i] != 9 && !(32 <= value[i] <= 126) {
        assert(!is_visible(value[i]));
    }
}

/// The arguments that hand headers on: two for each, the second with its name and
/// its value.
pub open spec fn flags_for_headers(entries: Seq<(Seq<char>, Seq<u8>)>) -> Seq<Seq<char>> {
    Seq::new(
        2 * entries.len(),
        |i: int|
            if i % 2 == 0 {
                "-H"@
            } else {
                entries[i / 2].0 + ": "@ + header_text(entries[i / 2].1)
            },
    )
}

proof fn lemma_header_args(entries: Seq<(Seq<char>, Seq<u8>)>)
    ensures
        header_args(entries) == flags_for_headers(entries),
    decreases entries.len(),
{
    if entries.len() > 0 {
        let rest = entries.drop_last();
        let n = 2 * rest.len() as int;
        lemma_header_args(rest);
        let last = entries.last();
        let all = flags_for_headers(rest) + seq!["-H"@, last.0 + ": "@ + header_text(last.1)];
        assert forall|i: int| 0 <= i < all.len() implies all[i] == flags_for_headers(entries)[i] by {
            if i < n {
                assert(all[i] == flags_for_headers(rest)[i]);
                assert(0 <= i / 2 < rest.len());
                assert(rest[i / 2] == entries[i / 2]);
            } else if i == n {
                assert(all[i] == "-H"@);
            } else {
                assert(i / 2 == rest.len());
                assert(entries[i / 2] == last);
            }
        }
        assert(all =~= flags_for_headers(entries));
    } else {
        assert(header_args(entries) =~= flags_for_headers(entries));
    }
}

/// Curl is told the method, the address and the time of a request, to print the
/// status behind the response, to print the headers where they are asked for, to go
/// through the proxy and to pose as a browser where those are set, to send every
/// header, and to read a body where there is one.
pub proof fn law_curl_args(request: &CurlRequest, impersonate: &str, r: Vec<String>)
    requires
        call_ensures(curl_args, (request, impersonate), r),
    ensures
        ({
            let none = Seq::<Seq<char>>::empty();
            let captured = if request.capture_headers {
                seq!["-i"@]
            } else {
                none
            };
            let proxied = if trim(request.proxy@).len() > 0 {
                seq!["-x"@, trim(request.proxy@)]
            } else {
                none
            };
            let posed = if trim(impersonate@).len() > 0 {
                seq!["--impersonate"@, trim(impersonate@)]
            } else {
                none
            };
            let sent = if request.has_body {
                seq!["--data-binary"@, "@-"@]
            } else {
                none
            };
            texts(r@) == seq![
                "-sS"@,
                "--compressed"@,
                "--http2"@,
                "-X"@,
                request.method@,
                request.url@,
                "--max-time"@,
                decimal(request.timeout as nat),
                "-w"@,
                "\\n%{http_code}"@,
            ] + captured + proxied + posed + flags_for_headers(header_entries(*request.headers))
                + sent
        }),
{
    lemma_header_args(header_entries(*request.headers));
}

/// The command runs the configured program with the arguments for the request, and
/// there is one exactly where curl is in use.
pub proof fn law_curl_command(
    settings: &CurlSettings,
    request: &CurlRequest,
    impersonate: &str,
    args: Vec<String>,
    r: Result<CurlCommand, ApiError>,
)
    requires
        call_ensures(curl_command, (settings, request), r),
        call_ensures(curl_args, (request, impersonate), args),
        impersonate@ == settings.impersonate@,
    ensures
        r is Ok <==> settings.use_curl,
        r is Ok ==> texts(r->Ok_0.args@) == texts(args@),
        r is Ok && trim(settings.curl_path@).len() == 0 ==> r->Ok_0.program@
            == "curl-impersonate"@,
        r is Ok && trim(settings.curl_path@).len() > 0 ==> r->Ok_0.program@ == settings.curl_path@,
        r is Err ==> r->Err_0.kind == ApiErrorKind::Upstream && r->Err_0.message@
            == "curl-impersonate is required for Grok requests"@,
{
}

/// A program that does not run is a failure upstream, with its cause.
pub proof fn law_curl_error(stage: CurlStage, cause: &str, r: ApiError)
    requires
        call_ensures(curl_error, (stage, cause), r),
    ensures
        r.kind == ApiErrorKind::Upstream,
        stage == CurlStage::Spawn ==> r.message@ == "Curl error: "@ + cause@,
        stage == CurlStage::Stdin ==> r.message@ == "Curl stdin error: "@ + cause@,
        stage == CurlStage::Wait ==> r.message@ == "Curl wait error: "@ + cause@,
{
}

proof fn lemma_headers_of_lines_first(line: Seq<char>, rest: Seq<Seq<char>>)
    ensures
        headers_of_lines(seq![line] + rest) == (match header_of_line(line) {
            Some(h) => seq![h],
            None => Seq::empty(),
        }) + headers_of_lines(rest),
    decreases rest.len(),
{
    let all = seq![line] + rest;
    let first = match header_of_line(line) {
        Some(h) => seq![h],
        None => Seq::empty(),
    };
    if rest.len() == 0 {
        assert(all.last() == line);
        assert(all.drop_last() =~= rest);
        assert(headers_of_lines(all.drop_last()) =~= Seq::empty());
        assert(headers_of_lines(all) =~= first + headers_of_lines(rest));
    } else {
        lemma_headers_of_lines_first(line, rest.drop_last());
        assert(all.last() == rest.last());
        assert(all.drop_last() =~= seq![line] + rest.drop_last());
        assert(headers_of_lines(all) =~= first + headers_of_lines(rest));
    }
}

/// Every line with a colon is a header, with its name before the first colon and
/// its value behind it, blanks around them aside. The headers come in the order of
/// the lines. Status lines and lines without a colon are no headers.
pub proof fn law_header_lines(
    name: Seq<char>,
    value: Seq<char>,
    rest: &str,
    text: &str,
    others: Vec<(String, String)>,
    r: Vec<(String, String)>,
)
    requires
        !name.contains(':'),
        !name.contains('\n'),
        !value.contains('\n'),
        call_ensures(parse_header_text, (rest,), others),
        call_ensures(parse_header_text, (text,), r),
    ensures
        text@ == name + seq![':'] + value + seq!['\r', '\n'] + rest@ && !starts_with(
            name + seq![':'] + value,
            "HTTP/"@,
        ) ==> text_pairs(r@) == seq![(trim(name), trim(value))] + text_pairs(others@),
        text@ == "HTTP/"@ + value + seq!['\r', '\n'] + rest@ ==> text_pairs(r@) == text_pairs(
            others@,
        ),
        text@ == name + seq!['\r', '\n'] + rest@ ==> text_pairs(r@) == text_pairs(others@),
        text@.len() == 0 ==> r@.len() == 0,
{
    if text@ == name + seq![':'] + value + seq!['\r', '\n'] + rest@ {
        let line = name + seq![':'] + value;
        assert forall|i: int| 0 <= i < line.len() implies line[i] != '\n' by {
            if i < name.len() {
                assert(line[i] == name[i] && name.contains(name[i]));
            } else if i > name.len() {
                assert(line[i] == value[i - name.len() - 1]);
                assert(value.contains(value[i - name.len() - 1]));
            }
        }
        law_lines(line, rest@);
        law_split_once(name, ':', value);
        lemma_headers_of_lines_first(line, lines(rest@));
    }
    if text@ == "HTTP/"@ + value + seq!['\r', '\n'] + rest@ {
        let line = "HTTP/"@ + value;
        reveal_strlit("HTTP/");
        assert forall|i: int| 0 <= i < line.len() implies line[i] != '\n' by {
            if i >= 5 {
                assert(line[i] == value[i - 5] && value.contains(value[i - 5]));
            }
        }
        assert(line.take(5) =~= "HTTP/"@);
        law_lines(line, rest@);
        lemma_headers_of_lines_first(line, lines(rest@));
        assert(Seq::<(Seq<char>, Seq<char>)>::empty() + text_pairs(others@) =~= text_pairs(
            others@,
        ));
    }
    if text@ == name + seq!['\r', '\n'] + rest@ {
        law_lines(name, rest@);
        law_split_once(name, ':', value);
        lemma_headers_of_lines_first(name, lines(rest@));
        assert(Seq::<(Seq<char>, Seq<char>)>::empty() + text_pairs(others@) =~= text_pairs(
            others@,
        ));
    }
    if text@.len() == 0 {
        assert(text_pairs(r@).len() == r@.len());
    }
}

/// The headers in some bytes are those in the text of the bytes.
pub proof fn law_header_block(
    block: &[u8],
    text: &str,
    given: Vec<(String, String)>,
    r: Vec<(String, String)>,
)
    requires
        call_ensures(parse_header_block, (block,), r),
        call_ensures(parse_header_text, (text,), given),
        valid_utf8(block@),
        text@ == decode_utf8(block@),
    ensures
        text_pairs(r@) == text_pairs(given@),
{
}

/// A response is parted at its last blank line into its headers and its body. All
/// of it is body where there is no blank line.
pub proof fn law_split_headers_body(
    data: &[u8],
    head: &[u8],
    mark: Seq<u8>,
    body: Seq<u8>,
    given: Vec<(String, String)>,
    r: (Vec<(String, String)>, Vec<u8>),
)
    requires
        call_ensures(split_headers_body, (data,), r),
        call_ensures(parse_header_block, (head,), given),
        mark == seq![13u8, 10u8, 13u8, 10u8],
    ensures
        data@ == head@ + mark + body && (forall|i: int|
            0 < i <= body.len() ==> #[trigger] (mark + body).subrange(i, i + 4) != mark)
            ==> text_pairs(r.0@) == text_pairs(given@) && r.1@ == body,
        (forall|i: int|
            0 <= i && i + 4 <= data@.len() ==> #[trigger] data@.subrange(i, i + 4) != mark)
            ==> r.0@.len() == 0 && r.1@ == data@,
{
    if data@ == head@ + mark + body && (forall|i: int|
        0 < i <= body.len() ==> #[trigger] (mark + body).subrange(i, i + 4) != mark) {
        lemma_last_blank_line(head@, body);
        assert(data@.take(head@.len() as int) =~= head@);
        assert(data@.skip(head@.len() as int + 4) =~= body);
    }
    if forall|i: int|
        0 <= i && i + 4 <= data@.len() ==> #[trigger] data@.subrange(i, i + 4) != mark {
        lemma_no_blank_line(data@);
        assert(text_pairs(r.0@).len() == r.0@.len());
    }
}

proof fn lemma_no_blank_line(data: Seq<u8>)
    requires
        forall|i: int|
            0 <= i && i + 4 <= data.len() ==> #[trigger] data.subrange(i, i + 4) != blank_line(),
    ensures
        last_blank_line(data) == -1,
    decreases data.len(),
{
    if data.len() >= 4 {
        let n = data.len() - 4;
        assert(data.skip(n) =~= data.subrange(n, n + 4));
        let less = data.drop_last();
        assert forall|i: int| 0 <= i && i + 4 <= less.len() implies #[trigger] less.subrange(
            i,
            i + 4,
        ) != blank_line() by {
            assert(less.subrange(i, i + 4) =~= data.subrange(i, i + 4));
        }
        lemma_no_blank_line(less);
    }
}

/// What curl prints is the response and, on the last line, its status. The response
/// has headers where they are captured, and is all body where they are not.
pub proof fn law_curl_output(
    stdout: &[u8],
    data: &[u8],
    status: u16,
    capture: bool,
    parts: (Vec<(String, String)>, Vec<u8>),
    r: CurlResponse,
)
    requires
        call_ensures(parse_curl_output, (stdout, capture), r),
        call_ensures(split_headers_body, (data,), parts),
        stdout@ == data@ + seq![10u8] + encode_utf8(decimal(status as nat)),
    ensures
        r.status == status,
        capture ==> text_pairs(r.headers@) == text_pairs(parts.0@) && r.body@ == parts.1@,
        !capture ==> r.headers@.len() == 0 && r.body@ == data@,
{
    law_curl_output_round_trip(data@, status);
    let digits = decimal(status as nat);
    let code = encode_utf8(digits);
    lemma_decimal(status as nat);
    assert(is_ascii_chars(digits));
    is_ascii_chars_encode_utf8(digits);
    assert forall|i: int| 0 <= i < code.len() implies code[i] != 10 by {
        assert(code[i] == digits[i] as u8);
        assert('0' <= digits[i] <= '9');
    }
    lemma_last_newline(data@, code);
    assert(stdout@.take(data@.len() as int) =~= data@);
    assert(text_pairs(r.headers@).len() == r.headers@.len());
}

/// Without a line feed there is no status, which counts as zero.
pub proof fn law_curl_output_without_status(stdout: &[u8], r: CurlResponse)
    requires
        call_ensures(parse_curl_output, (stdout, false), r),
        !stdout@.contains(10u8),
    ensures
        r.status == 0,
        r.body@ == stdout@,
        r.headers@.len() == 0,
{
    lemma_no_newline(stdout@);
    let none = Seq::<u8>::empty();
    let empty = Seq::<char>::empty();
    assert(status_code(none) == 0) by {
        let text = if valid_utf8(none) {
            decode_utf8(none)
        } else {
            empty
        };
        assert(encode_utf8(empty) =~= none) by {
            assert(is_ascii_chars(empty));
            is_ascii_chars_encode_utf8(empty);
        }
        encode_utf8_decode_utf8(empty);
        assert(text == empty);
        assert(trim(empty) == empty);
        assert(parse_u16_spec(empty) is None);
    }
    assert(text_pairs(r.headers@).len() == r.headers@.len());
}

proof fn lemma_no_newline(data: Seq<u8>)
    requires
        !data.contains(10u8),
    ensures
        last_newline(data) == -1,
    decreases data.len(),
{
    if data.len() > 0 {
        assert(data.contains(data.last()));
        let less = data.drop_last();
        assert forall|i: int| 0 <= i < less.len() implies less[i] != 10 by {
            assert(data.contains(data[i]));
        }
        lemma_no_newline(less);
    }
}

/// A run of curl that succeeds gives what it printed, and any other one a failure
/// upstream with what it complained of.
pub proof fn law_curl_outcome(
    success: bool,
    stdout: &[u8],
    stderr: &[u8],
    capture: bool,
    printed: CurlResponse,
    r: Result<CurlResponse, ApiError>,
)
    requires
        call_ensures(curl_outcome, (success, stdout, stderr, capture), r),
        call_ensures(parse_curl_output, (stdout, capture), printed),
    ensures
        r is Ok <==> success,
        r is Ok ==> r->Ok_0@ == printed@,
        r is Err ==> r->Err_0.kind == ApiErrorKind::Upstream,
        r is Err && valid_utf8(stderr@) ==> r->Err_0.message@ == "Curl failed: "@ + decode_utf8(
            stderr@,
        ),
        r is Err ==> r->Err_0.message@ == "Curl failed: "@ + utf8_lossy(stderr@),
{
}

/// The value of a header is that of the first one with its name, in any case. There
/// is none where no header has that name.
pub proof fn law_header_value(headers: &[(String, String)], name: &str, i: int, r: Option<String>)
    requires
        call_ensures(header_value, (headers, name), r),
    ensures
        0 <= i < headers@.len() && lowercase(headers@[i].0@) == lowercase(name@) && (forall|j: int|
            0 <= j < i ==> lowercase((#[trigger] headers@[j]).0@) != lowercase(name@)) ==> r is Some
            && r->0@ == headers@[i].1@,
        (forall|j: int|
            0 <= j < headers@.len() ==> lowercase((#[trigger] headers@[j]).0@) != lowercase(name@))
            ==> r is None,
{
    let pairs = text_pairs(headers@);
    let names = lowered_names(pairs);
    assert forall|j: int| 0 <= j < pairs.len() implies #[trigger] names[j] == lowercase(
        headers@[j].0@,
    ) && pairs[j].1 == headers@[j].1@ by {
        assert(pairs[j] == (headers@[j].0@, headers@[j].1@));
    }
    if 0 <= i < headers@.len() && lowercase(headers@[i].0@) == lowercase(name@) && (forall|j: int|
        0 <= j < i ==> lowercase((#[trigger] headers@[j]).0@) != lowercase(name@)) {
        assert forall|j: int| 0 <= j < i implies names[j] != lowercase(name@) by {
            assert(lowercase(headers@[j].0@) != lowercase(name@));
        }
        lemma_first_value(names, pairs, lowercase(name@), i);
    }
    if forall|j: int|
        0 <= j < headers@.len() ==> lowercase((#[trigger] headers@[j]).0@) != lowercase(name@) {
        assert forall|j: int| 0 <= j < names.len() implies names[j] != lowercase(name@) by {
            assert(lowercase(headers@[j].0@) != lowercase(name@));
        }
        lemma_first_value(names, pairs, lowercase(name@), pairs.len() as int);
    }
}

/// The first header under a key is the one before which none is.
pub proof fn lemma_first_value(
    lowered: Seq<Seq<char>>,
    headers: Seq<(Seq<char>, Seq<char>)>,
    key: Seq<char>,
    i: int,
)
    requires
        lowered.len() == headers.len(),
        0 <= i <= headers.len(),
        i < headers.len() ==> lowered[i] == key,
        forall|j: int| 0 <= j < i ==> lowered[j] != key,
    ensures
        i < headers.len() ==> first_value(lowered, headers, key) == Some(headers[i].1),
        i == headers.len() ==> first_value(lowered, headers, key) is None,
    decreases i,
{
    if i > 0 {
        assert(lowered[0] != key);
        assert forall|j: int| 0 <= j < i - 1 implies lowered.drop_first()[j] != key by {
            assert(lowered[j + 1] != key);
        }
        lemma_first_value(lowered.drop_first(), headers.drop_first(), key, i - 1);
    }
}

/// Of headers with ASCII names the first one counts whose name is the same but for
/// the case of its letters.
pub proof fn law_header_value_ascii(
    headers: &[(String, String)],
    name: &str,
    i: int,
    r: Option<String>,
)
    requires
        call_ensures(header_value, (headers, name), r),
        is_ascii_chars(name@),
        have_ascii_names(text_pairs(headers@)),
    ensures
        0 <= i < headers@.len() && ascii_lowercase(headers@[i].0@) == ascii_lowercase(name@) && (
        forall|j: int|
            0 <= j < i ==> ascii_lowercase((#[trigger] headers@[j]).0@) != ascii_lowercase(name@))
            ==> r is Some && r->0@ == headers@[i].1@,
        (forall|j: int|
            0 <= j < headers@.len() ==> ascii_lowercase((#[trigger] headers@[j]).0@)
                != ascii_lowercase(name@)) ==> r is None,
{
    let pairs = text_pairs(headers@);
    let names = ascii_lowered_names(pairs);
    let key = ascii_lowercase(name@);
    assert forall|j: int| 0 <= j < pairs.len() implies #[trigger] names[j] == ascii_lowercase(
        headers@[j].0@,
    ) && pairs[j].1 == headers@[j].1@ by {
        assert(pairs[j] == (headers@[j].0@, headers@[j].1@));
    }
    if 0 <= i < headers@.len() && ascii_lowercase(headers@[i].0@) == key && (forall|j: int|
        0 <= j < i ==> ascii_lowercase((#[trigger] headers@[j]).0@) != key) {
        assert forall|j: int| 0 <= j < i implies names[j] != key by {
            assert(ascii_lowercase(headers@[j].0@) != key);
        }
        lemma_first_value(names, pairs, key, i);
    }
    if forall|j: int| 0 <= j < headers@.len() ==> ascii_lowercase((#[trigger] headers@[j]).0@)
        != key {
        assert forall|j: int| 0 <= j < names.len() implies names[j] != key by {
            assert(ascii_lowercase(headers@[j].0@) != key);
        }
        lemma_first_value(names, pairs, key, pairs.len() as int);
    }
}

} // verus!
