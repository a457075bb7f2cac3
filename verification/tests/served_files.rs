use grok2api::download::DownloadService;
use grok2api::files::{
    get_image, get_image_alias, get_media, get_s3_file, get_video, serve_file, FileAnswer,
    ServeStep,
};
use grok2api::storage::LocalMediaStorage;

fn path(step: ServeStep) -> String {
    match step {
        ServeStep::ReadFile(path) => path,
        _ => panic!("no file"),
    }
}

fn headers(step: ServeStep) -> Vec<(String, String)> {
    match step {
        ServeStep::Answer(FileAnswer::File(headers)) => headers,
        _ => panic!("no answer"),
    }
}

fn words(step: ServeStep) -> String {
    match step {
        ServeStep::Answer(FileAnswer::NotFound(words)) => words,
        _ => panic!("no answer"),
    }
}

fn immutable(mime: &str) -> Vec<(String, String)> {
    vec![
        ("Cache-Control".to_string(), "public, max-age=31536000, immutable".to_string()),
        ("Content-Type".to_string(), mime.to_string()),
    ]
}

#[test]
fn nothing_is_served_while_switched_off() {
    for answer in [
        get_image(false, "a", "/srv"),
        get_image_alias(false, "a", "/srv"),
        get_video(false, "a", "/srv"),
        get_media(false, "a", "/srv"),
        get_s3_file(false, "a", "/srv"),
    ] {
        match answer {
            Err(FileAnswer::NotFound(words)) => assert_eq!(words, "Not Found"),
            _ => panic!("served"),
        }
    }
}

#[test]
fn the_storage_is_asked_first() {
    let task = serve_file("//a/b.png", "image", "/srv");
    match task.first(true) {
        ServeStep::AskStorage(path) => assert_eq!(path, "/a/b.png"),
        _ => panic!("not asked"),
    }
    assert_eq!(headers(task.stored(Some("image/webp".to_string()))), immutable("image/webp"));
}

#[test]
fn images_come_from_the_cache_otherwise() {
    let mut task = get_image(true, "a/b.png", "/srv").ok().unwrap();
    assert_eq!(path(task.stored(None)), "/srv/data/tmp/image/a-b.png");
    assert_eq!(headers(task.read(true)), immutable("image/png"));
    let mut task = get_image_alias(true, "x", "/srv").ok().unwrap();
    assert_eq!(path(task.first(false)), "/srv/data/tmp/image/x");
    assert_eq!(words(task.read(false)), "File not found");
}

#[test]
fn videos_are_mp4() {
    let mut task = get_video(true, "a.webm", "/srv").ok().unwrap();
    assert_eq!(path(task.first(false)), "/srv/data/tmp/video/a.webm");
    assert_eq!(headers(task.read(true)), immutable("video/mp4"));
}

#[test]
fn stored_files_are_looked_for_twice() {
    let mut task = get_s3_file(true, "%2Fa%2Fb.png", "/srv").ok().unwrap();
    match task.first(true) {
        ServeStep::AskStorage(path) => assert_eq!(path, "/a/b.png"),
        _ => panic!("not asked"),
    }
    assert_eq!(path(task.stored(None)), "/srv/data/tmp/image/a-b.png");
    assert_eq!(path(task.read(false)), "/srv/data/tmp/video/a-b.png");
    assert_eq!(headers(task.read(true)), immutable("image/png"));
    let mut task = get_s3_file(true, "a", "/srv").ok().unwrap();
    task.read(false);
    assert_eq!(words(task.read(false)), "File not found");
}

#[test]
fn paths_that_cannot_be_decoded_stay() {
    let task = get_s3_file(true, "a%ff", "/srv").ok().unwrap();
    match task.first(true) {
        ServeStep::AskStorage(path) => assert_eq!(path, "a%ff"),
        _ => panic!("not asked"),
    }
    let task = get_s3_file(true, "100%25%2", "/srv").ok().unwrap();
    match task.first(true) {
        ServeStep::AskStorage(path) => assert_eq!(path, "100%%2"),
        _ => panic!("not asked"),
    }
}

#[test]
fn downloads_are_served_from_where_they_are() {
    let s = DownloadService::new("/srv", "".to_string(), "".to_string(), 1);
    let kept = s.cache_path("/users/1/a.jpg", "image");
    let task = get_image(true, "users/1/a.jpg", "/srv").ok().unwrap();
    assert_eq!(path(task.first(false)), kept);
    let task = get_image(true, "users-1-a.jpg", "/srv").ok().unwrap();
    assert_eq!(path(task.first(false)), kept);
    assert_eq!(s.delete_file("image", "users-1-a.jpg"), kept);
}

#[test]
fn addresses_of_uploads_lead_to_them() {
    let m = LocalMediaStorage::new("data/tmp".to_string(), "/srv");
    for (file, mime) in [("/media/x/y.jpg", "image/jpeg"), ("v.mp4", "video/mp4"), ("//t.txt", "text/plain")] {
        let id = m.uploaded(file, Ok(())).unwrap();
        let url = m.get_url(&id, false, "").unwrap();
        let (route, encoded) = url["/v1/files/".len()..].split_once('/').unwrap();
        let decoded = urlencoding::decode(encoded).unwrap();
        let task = match route {
            "image" => get_image(true, &decoded, "/srv"),
            "video" => get_video(true, &decoded, "/srv"),
            _ => get_media(true, &decoded, "/srv"),
        };
        match task.ok().unwrap().first(true) {
            ServeStep::AskStorage(path) => {
                assert!(m.places(&path).contains(&m.upload(file, mime).path));
            }
            _ => panic!("not asked"),
        }
    }
}

#[test]
fn uploads_are_in_the_cache() {
    let m = LocalMediaStorage::new("data/tmp".to_string(), "/srv");
    let kept = m.upload("/a/b.png", "image/png").path;
    let task = get_s3_file(true, "%2Fa%2Fb.png", "/srv").ok().unwrap();
    assert_eq!(path(task.first(false)), kept);
    let kept = m.upload("a/b.mp4", "video/mp4").path;
    let mut task = get_media(true, "a/b.mp4", "/srv").ok().unwrap();
    assert_eq!(path(task.read(false)), kept);
}
