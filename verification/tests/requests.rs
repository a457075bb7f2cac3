use grok2api::base_service::{fetch_error, fetch_read_error, select_proxy, BaseService};
use grok2api::curl::{
    curl_command, curl_error, curl_outcome, header_value, parse_curl_output, parse_header_block,
    split_headers_body, CurlRequest, CurlSettings, CurlStage,
};
use grok2api::error::ApiErrorKind;
use reqwest::header::{HeaderMap, HeaderValue};

fn settings() -> CurlSettings {
    CurlSettings {
        use_curl: true,
        curl_path: "curl-impersonate".to_string(),
        impersonate: "chrome136".to_string(),
    }
}

fn service() -> BaseService {
    BaseService::new(None, 30)
}

fn pair(a: &str, b: &str) -> (String, String) {
    (a.to_string(), b.to_string())
}

#[test]
fn curl_gets_its_arguments() {
    let mut headers = HeaderMap::new();
    headers.insert("Accept", HeaderValue::from_static("*/*"));
    let request = CurlRequest {
        proxy: " http://p:1 ",
        timeout: 120,
        method: "POST",
        url: "https://grok.com/x",
        headers: &headers,
        has_body: true,
        capture_headers: true,
    };
    let command = curl_command(&settings(), &request).unwrap();
    assert_eq!(command.program, "curl-impersonate");
    assert_eq!(
        command.args,
        vec![
            "-sS", "--compressed", "--http2", "-X", "POST", "https://grok.com/x", "--max-time", "120",
            "-w", "\\n%{http_code}", "-i", "-x", "http://p:1", "--impersonate", "chrome136", "-H",
            "accept: */*", "--data-binary", "@-",
        ]
    );
}

#[test]
fn curl_goes_without_what_is_not_set() {
    let mut headers = HeaderMap::new();
    headers.insert("x-a", HeaderValue::from_bytes(b"caf\xe9").unwrap());
    let request = CurlRequest {
        proxy: "  ",
        timeout: 1,
        method: "GET",
        url: "u",
        headers: &headers,
        has_body: false,
        capture_headers: false,
    };
    let blank = CurlSettings {
        use_curl: true,
        curl_path: " ".to_string(),
        impersonate: "".to_string(),
    };
    let command = curl_command(&blank, &request).unwrap();
    assert_eq!(command.program, "curl-impersonate");
    assert_eq!(
        command.args,
        vec![
            "-sS", "--compressed", "--http2", "-X", "GET", "u", "--max-time", "1", "-w",
            "\\n%{http_code}", "-H", "x-a: ",
        ]
    );
}

#[test]
fn there_are_no_requests_without_curl() {
    let headers = HeaderMap::new();
    let request = CurlRequest {
        proxy: "",
        timeout: 1,
        method: "GET",
        url: "u",
        headers: &headers,
        has_body: false,
        capture_headers: false,
    };
    let off = CurlSettings { use_curl: false, ..settings() };
    let e = curl_command(&off, &request).unwrap_err();
    assert_eq!(e.kind, ApiErrorKind::Upstream);
    assert_eq!(e.message, "curl-impersonate is required for Grok requests");
}

#[test]
fn curl_failures_have_words() {
    assert_eq!(curl_error(CurlStage::Spawn, "x").message, "Curl error: x");
    assert_eq!(curl_error(CurlStage::Stdin, "x").message, "Curl stdin error: x");
    assert_eq!(curl_error(CurlStage::Wait, "x").message, "Curl wait error: x");
    let e = curl_outcome(false, b"", b"could not \xff resolve", false).unwrap_err();
    assert_eq!(e.kind, ApiErrorKind::Upstream);
    assert_eq!(e.message, "Curl failed: could not \u{fffd} resolve");
}

#[test]
fn output_ends_with_the_status() {
    let r = parse_curl_output(b"line one\nline two\n200", false);
    assert_eq!(r.status, 200);
    assert_eq!(r.body, b"line one\nline two");
    assert!(r.headers.is_empty());
    let r = parse_curl_output(b"\n404", false);
    assert_eq!((r.status, r.body.len()), (404, 0));
    let r = parse_curl_output(b"no newline", false);
    assert_eq!((r.status, r.body.as_slice()), (0, b"no newline".as_slice()));
    let r = parse_curl_output(b"x\n2x0", false);
    assert_eq!(r.status, 0);
    let r = parse_curl_output(b"x\n 301 ", false);
    assert_eq!(r.status, 301);
    let r = parse_curl_output(b"x\n\xff", false);
    assert_eq!(r.status, 0);
    let ok = curl_outcome(true, b"body\n200", b"warning", false).unwrap();
    assert_eq!((ok.status, ok.body.as_slice()), (200, b"body".as_slice()));
}

#[test]
fn headers_are_parted_from_the_body() {
    let data = b"HTTP/2 200\r\nContent-Type: image/png\r\nX:  y : z \r\nnonsense\r\n\r\nBODY\n200";
    let r = parse_curl_output(data, true);
    assert_eq!(r.status, 200);
    assert_eq!(r.headers, vec![pair("Content-Type", "image/png"), pair("X", "y : z")]);
    assert_eq!(r.body, b"BODY");
}

#[test]
fn the_last_blank_line_counts() {
    let (headers, body) = split_headers_body(b"A: 1\r\n\r\nB: 2\r\n\r\nrest");
    assert_eq!(headers, vec![pair("A", "1"), pair("B", "2")]);
    assert_eq!(body, b"rest");
    let (headers, body) = split_headers_body(b"A: 1\r\nrest");
    assert!(headers.is_empty());
    assert_eq!(body, b"A: 1\r\nrest");
    let (headers, body) = split_headers_body(b"abc");
    assert!(headers.is_empty());
    assert_eq!(body, b"abc");
}

#[test]
fn broken_text_in_headers_is_replaced() {
    assert_eq!(
        parse_header_block(b"HTTP/1.1 200 OK\r\nName: \xffvalue\r\n"),
        vec![pair("Name", "\u{fffd}value")]
    );
}

#[test]
fn header_names_have_no_case() {
    let headers = vec![pair("Content-Type", "a"), pair("CONTENT-TYPE", "b"), pair("\u{c4}", "c")];
    assert_eq!(header_value(&headers, "content-type").as_deref(), Some("a"));
    assert_eq!(header_value(&headers, "\u{e4}").as_deref(), Some("c"));
    assert_eq!(header_value(&headers, "etag"), None);
}

#[test]
fn the_asset_proxy_comes_first() {
    assert_eq!(select_proxy("a".to_string(), "b".to_string()), "a");
    assert_eq!(select_proxy("".to_string(), "b".to_string()), "b");
    assert_eq!(BaseService::new(None, 7).proxy, "");
    assert_eq!(BaseService::new(Some("p".to_string()), 7).timeout, 7);
}

#[test]
fn addresses_on_the_web_are_told_apart() {
    assert!(BaseService::is_url("http://x"));
    assert!(BaseService::is_url("https://x"));
    assert!(!BaseService::is_url("ftp://x"));
    assert!(!BaseService::is_url("HTTP://x"));
    assert!(!BaseService::is_url("data:image/png;base64,AA=="));
}

#[test]
fn api_headers_carry_the_token() {
    let h = service().headers_with("sso=tok", "https://grok.com/files", "stat", "rid", "");
    let get = |n: &str| h.get(n).unwrap().to_str().unwrap().to_string();
    assert_eq!(h.len(), 23);
    assert_eq!(get("cookie"), "sso=tok");
    assert_eq!(get("referer"), "https://grok.com/files");
    assert_eq!(get("x-statsig-id"), "stat");
    assert_eq!(get("x-xai-request-id"), "rid");
    assert_eq!(get("content-type"), "application/json");
    assert_eq!(get("sec-ch-ua-model"), "");
    assert_eq!(get("sec-ch-ua-platform"), "\"macOS\"");
    let h = service().headers_with("tok", "r", "s", "i", "clear");
    assert_eq!(h.get("cookie").unwrap(), "sso=tok;cf_clearance=clear");
}

#[test]
fn api_headers_have_a_new_identifier() {
    let one = service().headers("t", "r", "s", "");
    let two = service().headers("t", "r", "s", "");
    let id = one.get("x-xai-request-id").unwrap().to_str().unwrap().to_string();
    assert_eq!(id.len(), 36);
    assert_eq!(&id[14..15], "4");
    assert_ne!(one.get("x-xai-request-id"), two.get("x-xai-request-id"));
}

#[test]
fn download_headers_carry_the_token() {
    let h = service().dl_headers("sso=tok", "c");
    assert_eq!(h.len(), 9);
    assert_eq!(h.get("cookie").unwrap(), "sso=tok;cf_clearance=c");
    assert_eq!(h.get("referer").unwrap(), "https://grok.com/");
    assert_eq!(h.get("sec-fetch-mode").unwrap(), "navigate");
    assert!(h.get("x-statsig-id").is_none());
}

#[test]
fn inline_files_are_taken_apart() {
    let s = service();
    let f = s.parse_b64_with("data:image/png;base64, QUJD ", "7");
    assert_eq!(f, ("file-7.bin".to_string(), "QUJD".to_string(), "image/png".to_string()));
    let f = s.parse_b64_with(" QUJD\n", "7");
    assert_eq!((f.1.as_str(), f.2.as_str()), ("QUJD", "application/octet-stream"));
    let f = s.parse_b64_with("data:no comma", "7");
    assert_eq!((f.1.as_str(), f.2.as_str()), ("data:no comma", "application/octet-stream"));
    let f = s.parse_b64_with("data:,x", "7");
    assert_eq!((f.1.as_str(), f.2.as_str()), ("x", ""));
    let f = s.parse_b64("QUJD");
    assert!(f.0.starts_with("file-") && f.0.ends_with(".bin") && f.0.len() == 45);
}

#[test]
fn fetched_files_are_encoded() {
    let s = service();
    let f = s.fetched_file_with("https://h/a/b.png", Some("image/png; q=1".to_string()), b"ABC", "7");
    assert_eq!(f, ("b.png".to_string(), "QUJD".to_string(), "image/png".to_string()));
    let f = s.fetched_file_with("..", None, b"", "7");
    assert_eq!(f, ("file-7.bin".to_string(), "".to_string(), "application/octet-stream".to_string()));
    assert_eq!(s.fetched_file("https://h/b", 200, None, b"A").unwrap().1, "QQ==");
    assert_eq!(s.fetched_file("https://h/b", 299, None, b"AB").unwrap().1, "QUI=");
    let e = s.fetched_file("https://h/b", 404, None, b"").unwrap_err();
    assert_eq!((e.kind, e.message.as_str()), (ApiErrorKind::Upstream, "Fetch failed: 404"));
    assert!(s.fetched_file("https://h/b", 300, None, b"").is_err());
    assert_eq!(fetch_error("dns").message, "Fetch failed: dns");
    assert_eq!(fetch_read_error("eof").message, "Fetch read failed: eof");
}

#[test]
fn data_urls_are_read_back() {
    let s = service();
    let bytes: Vec<u8> = (0..=255).collect();
    let url = s.data_url(&bytes, "image/webp");
    assert!(url.starts_with("data:image/webp;base64,AAEC"));
    let f = s.parse_b64_with(&url, "1");
    assert_eq!(f.2, "image/webp");
    assert_eq!(s.data_url(&bytes, "image/webp"), format!("data:image/webp;base64,{}", f.1));
    assert_eq!(s.to_b64(Ok(vec![65]), "a/b").unwrap(), "data:a/b;base64,QQ==");
    let e = s.to_b64(Err("gone".to_string()), "a/b").unwrap_err();
    assert_eq!((e.kind, e.message.as_str()), (ApiErrorKind::Server, "read file failed: gone"));
}
