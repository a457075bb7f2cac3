use grok2api::assets::{DeleteService, ListService, UploadService, UploadStep};
use grok2api::error::{ApiError, ApiErrorKind};
use serde_json::Value;

fn parse(text: &str) -> Value {
    serde_json::from_str(text).unwrap()
}

fn uploads() -> UploadService {
    UploadService::new("".to_string(), "http://p".to_string(), 60)
}

fn lists() -> ListService {
    ListService::new("http://a".to_string(), "http://p".to_string(), 60)
}

fn deletes() -> DeleteService {
    DeleteService::new("".to_string(), "".to_string(), 60)
}

#[test]
fn services_choose_their_proxy() {
    assert_eq!(uploads().base.proxy, "http://p");
    assert_eq!(lists().base.proxy, "http://a");
    assert_eq!(deletes().base.proxy, "");
    assert_eq!(deletes().base.timeout, 60);
}

#[test]
fn uploads_start_with_a_fetch_for_addresses() {
    match uploads().upload("https://h/x.png") {
        UploadStep::Fetch(url) => assert_eq!(url, "https://h/x.png"),
        UploadStep::Post(_) => panic!("no fetch"),
    }
}

#[test]
fn uploads_post_what_is_inline() {
    match uploads().upload("data:image/png;base64,QUJD") {
        UploadStep::Fetch(_) => panic!("no post"),
        UploadStep::Post(request) => {
            assert_eq!(request.method, "POST");
            assert_eq!(request.url, "https://grok.com/rest/app-chat/upload-file");
            assert_eq!(request.referer, "https://grok.com/");
            let body = parse(&request.body.unwrap());
            assert_eq!(body["content"], "QUJD");
            assert_eq!(body["fileMimeType"], "image/png");
            assert_eq!(body["fileName"].as_str().unwrap().len(), 45);
        }
    }
}

#[test]
fn uploads_post_what_was_fetched() {
    let s = uploads();
    let request = s
        .upload_fetched("https://h/x.png", 200, Some("image/png".to_string()), b"ABC")
        .unwrap();
    assert_eq!(
        request.body.as_deref(),
        Some(r#"{"content":"QUJD","fileMimeType":"image/png","fileName":"x.png"}"#)
    );
    let e = s.upload_fetched("https://h/x.png", 500, None, b"").unwrap_err();
    assert_eq!(e.message, "Fetch failed: 500");
}

#[test]
fn uploads_are_answered_with_a_name() {
    let s = uploads();
    let body = br#"{"fileMetadataId":"id1","fileUri":"/u/1"}"#;
    assert_eq!(s.uploaded(200, body).unwrap(), ("id1".to_string(), "/u/1".to_string()));
    assert_eq!(s.uploaded(200, b"[]").unwrap(), ("".to_string(), "".to_string()));
    assert_eq!(
        s.uploaded(200, br#"{"fileMetadataId":7}"#).unwrap(),
        ("".to_string(), "".to_string())
    );
    let e = s.uploaded(403, body).unwrap_err();
    assert_eq!((e.kind, e.message.as_str()), (ApiErrorKind::Upstream, "Upload failed: 403"));
    let e = s.uploaded(200, b"<html>").unwrap_err();
    assert!(e.message.starts_with("Upload parse error: expected value"));
    let e = UploadService::uploaded_with(200, Err("why".to_string())).unwrap_err();
    assert_eq!(e.message, "Upload parse error: why");
}

#[test]
fn requests_go_through_the_service() {
    let s = lists();
    let mut pager = s.list();
    let request = pager.next_request().unwrap().unwrap();
    let headers = s.base.headers_with("t", &request.referer, "s", "i", "");
    let c = request.through(&s.base, &headers);
    assert_eq!((c.proxy, c.timeout, c.method), ("http://a", 60, "GET"));
    assert!(!c.has_body && !c.capture_headers);
    assert_eq!(c.url, request.url);
    let post = uploads().upload_file(&("n".to_string(), "c".to_string(), "m".to_string()));
    assert!(post.through(&s.base, &headers).has_body);
}

#[test]
fn pages_are_asked_for_one_by_one() {
    let s = lists();
    let mut pager = s.list();
    let base = "https://grok.com/rest/assets?pageSize=50&orderBy=ORDER_BY_LAST_USE_TIME&source=SOURCE_ANY&isLatest=true";
    let first = pager.next_request().unwrap().unwrap();
    assert_eq!(first.url, base);
    assert_eq!(first.method, "GET");
    assert_eq!(first.referer, "https://grok.com/files");
    assert!(first.body.is_none());
    let page = br#"{"assets":[{"assetId":"a"},{"assetId":"b"}],"nextPageToken":"t&1 2"}"#;
    assert!(pager.take_page(200, page).unwrap());
    assert_eq!(s.count(&pager), 2);
    let second = pager.next_request().unwrap().unwrap();
    assert_eq!(second.url, format!("{}&pageToken=t%261+2", base));
    assert!(!pager.take_page(200, br#"{"assets":[5]}"#).unwrap());
    assert_eq!(s.count(&pager), 3);
    let assets = pager.into_assets();
    assert_eq!(assets, vec![parse(r#"{"assetId":"a"}"#), parse(r#"{"assetId":"b"}"#), parse("5")]);
}

#[test]
fn no_page_is_asked_for_twice() {
    let mut pager = lists().list();
    assert!(pager.next_request().unwrap().is_some());
    assert!(pager.take_page(200, br#"{"nextPageToken":"t"}"#).unwrap());
    assert!(pager.next_request().unwrap().is_some());
    assert!(pager.take_page(200, br#"{"nextPageToken":"u"}"#).unwrap());
    assert!(pager.next_request().unwrap().is_some());
    assert!(pager.take_page(200, br#"{"nextPageToken":"t","assets":{}}"#).unwrap());
    assert!(pager.next_request().unwrap().is_none());
    assert_eq!(pager.into_assets().len(), 0);
}

#[test]
fn failed_pages_end_the_listing() {
    let mut pager = lists().list();
    let e = pager.take_page(500, b"{}").unwrap_err();
    assert_eq!((e.kind, e.message.as_str()), (ApiErrorKind::Upstream, "List failed: 500"));
    let e = pager.take_page(200, b"").unwrap_err();
    assert!(e.message.starts_with("List parse error: EOF"));
    let e = pager.answer(200, Err("why".to_string())).unwrap_err();
    assert_eq!(e.message, "List parse error: why");
}

#[test]
fn assets_are_deleted_by_name() {
    let s = deletes();
    let r = s.delete("abc");
    assert_eq!((r.method.as_str(), r.url.as_str()), ("DELETE", "https://grok.com/rest/assets-metadata/abc"));
    assert_eq!(r.referer, "https://grok.com/files");
    assert!(s.deleted(200).unwrap());
    assert_eq!(s.deleted(404).unwrap_err().message, "Delete failed: 404");
}

#[test]
fn every_asset_with_a_name_is_deleted() {
    let assets = vec![parse(r#"{"x":1}"#), parse(r#"{"assetId":"a"}"#), parse(r#"{"assetId":3}"#), parse(r#"{"assetId":"b"}"#)];
    let mut run = deletes().delete_all(Ok(assets));
    assert_eq!(run.next_id().as_deref(), Some("a"));
    run.record(true);
    assert_eq!(run.next_id().as_deref(), Some("b"));
    run.record(false);
    assert_eq!(run.next_id(), None);
    assert_eq!(run.report(), parse(r#"{"total":4,"success":1,"failed":1}"#));
}

#[test]
fn nothing_to_delete_is_skipped() {
    let skipped = parse(r#"{"total":0,"success":0,"failed":0,"skipped":true}"#);
    let mut run = deletes().delete_all(Ok(vec![]));
    assert_eq!(run.next_id(), None);
    assert_eq!(run.report(), skipped);
    let mut run = deletes().delete_all(Err(ApiError::upstream("List failed: 500".to_string())));
    assert_eq!(run.next_id(), None);
    assert_eq!(run.report(), skipped);
}
