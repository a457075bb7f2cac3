use grok2api::curl::CurlResponse;
use grok2api::download::{
    DownloadAction, DownloadService, DownloadTask, PublishAction, PublishTask,
};
use grok2api::error::{ApiError, ApiErrorKind};
use grok2api::media_storage::StorageError;

fn service() -> DownloadService {
    DownloadService::new("/srv", "".to_string(), "http://p".to_string(), 60)
}

fn response(status: u16, headers: &[(&str, &str)], body: &[u8]) -> CurlResponse {
    CurlResponse {
        status,
        headers: headers.iter().map(|h| (h.0.to_string(), h.1.to_string())).collect(),
        body: body.to_vec(),
    }
}

fn finished(action: DownloadAction) -> (Result<(String, String), ApiError>, bool) {
    match action {
        DownloadAction::Finish(result, grown) => (result, grown),
        _ => panic!("not finished"),
    }
}

fn requesting(task: &mut DownloadTask) -> String {
    assert!(matches!(task.looked_up(false), DownloadAction::Lock(_, 10)));
    assert!(matches!(task.locked(Ok(())), DownloadAction::LookUp(_)));
    match task.looked_up(false) {
        DownloadAction::Request(url) => url,
        _ => panic!("no request"),
    }
}

#[test]
fn files_are_kept_by_sort() {
    let s = service();
    assert_eq!(s.image_dir, "/srv/data/tmp/image");
    assert_eq!(s.video_dir, "/srv/data/tmp/video");
    assert_eq!(s.base.proxy, "http://p");
    assert_eq!(s.cache_path("//users/a/b.jpg", "image"), "/srv/data/tmp/image/users-a-b.jpg");
    assert_eq!(s.cache_path("users/a.mp4", "video"), "/srv/data/tmp/video/users-a.mp4");
    assert_eq!(s.cache_path("a", "other"), "/srv/data/tmp/video/a");
}

#[test]
fn cached_files_are_returned() {
    let mut task = service().download("/a/b.jpg", "image");
    match task.first_look() {
        DownloadAction::LookUp(path) => assert_eq!(path, "/srv/data/tmp/image/a-b.jpg"),
        _ => panic!("no look"),
    }
    let (result, grown) = finished(task.looked_up(true));
    assert_eq!(
        result.unwrap(),
        ("/srv/data/tmp/image/a-b.jpg".to_string(), "image/jpeg".to_string())
    );
    assert!(!grown);
}

#[test]
fn files_of_no_known_type_are_octets() {
    for name in ["a", "a.", ".jpg", "a.zzzz"] {
        let mut task = service().download(name, "image");
        assert_eq!(finished(task.looked_up(true)).0.unwrap().1, "application/octet-stream");
    }
    let mut task = service().download("v.MP4", "video");
    assert_eq!(finished(task.looked_up(true)).0.unwrap().1, "video/mp4");
}

#[test]
fn downloads_take_a_lock_of_their_own() {
    let mut task = service().download("/users/a/image.jpg", "image");
    match task.looked_up(false) {
        DownloadAction::Lock(name, timeout) => {
            assert_eq!(name, "download_image_793808d20fff89c0f4dcbecd7fdfabd9ad8091f6");
            assert_eq!(timeout, 10);
        }
        _ => panic!("no lock"),
    }
    let e = ApiError::server("lock timeout: x".to_string());
    let (result, grown) = finished(task.locked(Err(e)));
    assert_eq!(result.unwrap_err().message, "lock timeout: x");
    assert!(!grown);
}

#[test]
fn files_that_came_meanwhile_are_not_requested() {
    let mut task = service().download("a.png", "image");
    task.looked_up(false);
    task.locked(Ok(()));
    let (result, _) = finished(task.looked_up(true));
    assert_eq!(result.unwrap().1, "image/png");
}

#[test]
fn missing_files_are_downloaded() {
    let mut task = service().download("a/b.jpg", "image");
    assert_eq!(requesting(&mut task), "https://assets.grok.com/a/b.jpg");
    let answer = response(200, &[("CONTENT-TYPE", "image/png; x=1")], b"data");
    match task.answered(Ok(answer)) {
        DownloadAction::Write(path, body) => {
            assert_eq!(path, "/srv/data/tmp/image/a-b.jpgtmp");
            assert_eq!(body, b"data");
        }
        _ => panic!("no write"),
    }
    match task.written(Ok(())) {
        DownloadAction::Rename(from, to) => {
            assert_eq!(from, "/srv/data/tmp/image/a-b.jpgtmp");
            assert_eq!(to, "/srv/data/tmp/image/a-b.jpg");
        }
        _ => panic!("no rename"),
    }
    let (result, grown) = finished(task.renamed(Ok(())));
    assert_eq!(
        result.unwrap(),
        ("/srv/data/tmp/image/a-b.jpg".to_string(), "image/png".to_string())
    );
    assert!(grown);
}

#[test]
fn files_without_extension_get_one_while_written() {
    let mut task = service().download("/x", "image");
    assert_eq!(requesting(&mut task), "https://assets.grok.com/x");
    match task.answered(Ok(response(200, &[], b""))) {
        DownloadAction::Write(path, _) => assert_eq!(path, "/srv/data/tmp/image/x.tmp"),
        _ => panic!("no write"),
    }
    task.written(Ok(()));
    let (result, _) = finished(task.renamed(Ok(())));
    assert_eq!(result.unwrap().1, "application/octet-stream");
}

#[test]
fn failed_downloads_have_words() {
    let mut task = service().download("a", "image");
    requesting(&mut task);
    let e = finished(task.answered(Ok(response(404, &[], b"")))).0.unwrap_err();
    assert_eq!((e.kind, e.message.as_str()), (ApiErrorKind::Upstream, "Download failed: 404"));

    let mut task = service().download("a", "image");
    requesting(&mut task);
    let e = ApiError::upstream("Curl failed: x".to_string());
    assert_eq!(finished(task.answered(Err(e))).0.unwrap_err().message, "Curl failed: x");

    let mut task = service().download("a", "image");
    requesting(&mut task);
    task.answered(Ok(response(200, &[], b"")));
    let e = finished(task.written(Err("full".to_string()))).0.unwrap_err();
    assert_eq!((e.kind, e.message.as_str()), (ApiErrorKind::Server, "Write tmp file failed: full"));

    let mut task = service().download("a", "image");
    requesting(&mut task);
    task.answered(Ok(response(200, &[], b"")));
    task.written(Ok(()));
    let (result, grown) = finished(task.renamed(Err("busy".to_string())));
    assert_eq!(result.unwrap_err().message, "Rename tmp file failed: busy");
    assert!(!grown);
}

#[test]
fn requests_for_files_capture_headers() {
    let s = service();
    let headers = s.base.dl_headers("t", "");
    let r = s.request("https://assets.grok.com/x", &headers);
    assert_eq!((r.method, r.url, r.proxy), ("GET", "https://assets.grok.com/x", "http://p"));
    assert!(r.capture_headers && !r.has_body);
}

#[test]
fn downloads_become_data_urls() {
    let s = service();
    assert_eq!(s.to_base64(Ok(b"AB".to_vec()), "image/png").unwrap(), "data:image/png;base64,QUI=");
    assert_eq!(
        s.to_base64(Err("gone".to_string()), "image/png").unwrap_err().message,
        "read file failed: gone"
    );
}

fn address(action: PublishAction) -> Result<String, ApiError> {
    match action {
        PublishAction::Finish(result) => result,
        _ => panic!("not finished"),
    }
}

fn publication(has_storage: bool, app_url: Option<&str>) -> (PublishTask, PublishAction) {
    let app_url = app_url.map(|u| u.to_string());
    service().download_and_upload("/a.png", "image", "image/png".to_string(), has_storage, app_url)
}

fn addressing() -> PublishTask {
    let (mut task, first) = publication(true, None);
    assert!(matches!(first, PublishAction::Read));
    match task.read(Ok(b"data".to_vec())) {
        PublishAction::Upload(path, data, mime) => {
            assert_eq!((path.as_str(), mime.as_str()), ("/a.png", "image/png"));
            assert_eq!(data, b"data");
        }
        _ => panic!("no upload"),
    }
    match task.uploaded(Ok("id".to_string())) {
        PublishAction::GetUrl(id, direct) => {
            assert_eq!(id, "id");
            assert!(!direct);
        }
        _ => panic!("no address"),
    }
    task
}

#[test]
fn downloads_get_the_address_of_their_upload() {
    let url = address(addressing().addressed(Ok("https://cdn/a.png".to_string())));
    assert_eq!(url.unwrap(), "https://cdn/a.png");
}

#[test]
fn downloads_get_an_address_without_a_storage() {
    let (_, action) = publication(false, Some("http://h//"));
    assert_eq!(address(action).unwrap(), "http://h/v1/files/image/a.png");
    let (_, action) = publication(false, None);
    assert_eq!(address(action).unwrap(), "http://127.0.0.1:8000/v1/files/image/a.png");
}

#[test]
fn failed_publications_have_words() {
    let (mut task, _) = publication(true, None);
    let e = address(task.read(Err("gone".to_string()))).unwrap_err();
    assert_eq!((e.kind, e.message.as_str()), (ApiErrorKind::Server, "Read file failed: gone"));
    let (mut task, _) = publication(true, None);
    task.read(Ok(vec![]));
    let e = address(task.uploaded(Err(StorageError::UploadTimeout))).unwrap_err();
    assert_eq!((e.kind, e.message.as_str()), (ApiErrorKind::InvalidRequest, "Upload timeout"));
    let e = address(addressing().addressed(Err(StorageError::NotFound))).unwrap_err();
    assert_eq!((e.kind, e.message.as_str()), (ApiErrorKind::NotFound, "File not found in storage"));
}

#[test]
fn files_have_public_addresses() {
    let s = service();
    assert_eq!(s.get_public_url("", "a/b"), "https://assets.grok.com/a/b");
    assert_eq!(s.get_public_url("", "/a/b"), "https://assets.grok.com/a/b");
    assert_eq!(s.get_public_url("http://h/", "image/b"), "http://h/v1/files/image/b");
    assert_eq!(s.get_public_url("/", "/b"), "/v1/files/b");
}
