use grok2api::error::{ApiError, ApiErrorKind};
use grok2api::media_storage::{
    create_storage, default_path_prefix, default_upload_timeout, init_media_storage,
    DownloadOutcome, FallbackStep, FallbackStorage, MediaSettings, S3Storage, StorageBackend,
    StorageConfig, StorageError, StorageOperation, StorageSide, UploadOutcome,
};
use grok2api::storage::LocalMediaStorage;

fn s3(endpoint: &str, domain: Option<&str>) -> S3Storage {
    S3Storage::new(
        endpoint.to_string(),
        "eu".to_string(),
        "key".to_string(),
        "SECRET".to_string(),
        "bucket".to_string(),
        domain.map(|d| d.to_string()),
        "grok/".to_string(),
        300,
        false,
    )
}

fn settings() -> MediaSettings {
    MediaSettings {
        storage_type: None,
        enable_fallback: None,
        base_dir: None,
        endpoint: None,
        region: None,
        access_key: None,
        secret_key: None,
        bucket: None,
        custom_domain: None,
        path_prefix: None,
        upload_timeout: None,
        use_direct_url: None,
    }
}

#[test]
fn storage_errors_are_answered() {
    let e = ApiError::from(StorageError::NotFound);
    assert_eq!((e.kind, e.message.as_str()), (ApiErrorKind::NotFound, "File not found in storage"));
    let e = ApiError::from(StorageError::UploadTimeout);
    assert_eq!((e.kind, e.message.as_str()), (ApiErrorKind::InvalidRequest, "Upload timeout"));
    let e = ApiError::from(StorageError::ConfigError("bad".to_string()));
    assert_eq!((e.kind, e.message.as_str()), (ApiErrorKind::InvalidRequest, "bad"));
    let e = ApiError::from(StorageError::IoError("full".to_string()));
    assert_eq!((e.kind, e.message.as_str()), (ApiErrorKind::Server, "Storage IO error: full"));
    let e = ApiError::from(StorageError::S3Error("503".to_string()));
    assert_eq!((e.kind, e.message.as_str()), (ApiErrorKind::Server, "S3 error: 503"));
}

#[test]
fn media_are_local_by_default() {
    match StorageConfig::default() {
        StorageConfig::Local { base_dir } => assert_eq!(base_dir, "data/tmp"),
        StorageConfig::S3 { .. } => panic!("not local"),
    }
    assert_eq!(default_path_prefix(), "grok/");
    assert_eq!(default_upload_timeout(), 300);
}

#[test]
fn only_own_endpoints_are_set() {
    assert_eq!(s3("http://minio:9000", None).connection.endpoint.as_deref(), Some("http://minio:9000"));
    assert_eq!(s3("", None).connection.endpoint, None);
    assert_eq!(s3("https://s3.amazonaws.com", None).connection.endpoint, None);
    let c = s3("", None).connection;
    assert_eq!((c.region.as_str(), c.access_key.as_str(), c.secret_key.as_str()), ("eu", "key", "SECRET"));
}

#[test]
fn objects_have_addresses() {
    let own = s3("http://minio:9000/", None);
    assert_eq!(own.get_url("/a/b.png", true).unwrap(), "http://minio:9000/bucket/grok/a/b.png");
    let aws = s3("https://s3.eu.amazonaws.com", None);
    assert_eq!(aws.get_url("a.png", false).unwrap(), "https://bucket.s3.amazonaws.com/grok/a.png");
    let domain = s3("https://s3.eu.amazonaws.com", Some("https://cdn.x//"));
    assert_eq!(domain.get_url("//a.png", false).unwrap(), "https://cdn.x/grok/a.png");
    assert_eq!(domain.get_public_url("k/a.png"), "https://cdn.x/k/a.png");
    assert_eq!(domain.build_direct_url("k"), "https://cdn.x/k");
}

#[test]
fn a_file_has_one_key() {
    let s = s3("http://m", None);
    let upload = s.upload("/a/b.png", "image/png");
    assert_eq!(upload.object.bucket, "bucket");
    assert_eq!(upload.object.key, "grok/a/b.png");
    assert_eq!((upload.content_type.as_str(), upload.timeout), ("image/png", 300));
    assert_eq!(s.download("a/b.png").key, "grok/a/b.png");
    assert_eq!(s.delete("//a/b.png").key, "grok/a/b.png");
    assert_eq!(s.get_public_url(&s.build_key("/a/b.png")), s.get_url("/a/b.png", false).unwrap());
    assert_eq!(s.storage_type(), "s3");
}

#[test]
fn identifiers_lead_to_their_upload() {
    let s = s3("http://m", Some("https://cdn.test"));
    for path in ["/a.jpg", "a.jpg", "grok/a.jpg", "//x/y"] {
        let id = s.uploaded(path, UploadOutcome::Done).unwrap();
        let key = s.upload(path, "image/jpeg").object.key;
        assert_eq!(s.download(&id).key, key);
        assert_eq!(s.delete(&id).key, key);
        assert_eq!(s.get_url(&id, true).unwrap(), format!("https://cdn.test/{}", key));
    }
    let id = s.uploaded("/a.jpg", UploadOutcome::Done).unwrap();
    assert_eq!(s.get_url(&id, false).unwrap(), "https://cdn.test/grok/a.jpg");
}

#[test]
fn failed_uploads_are_told_apart() {
    let s = s3("http://m", None);
    assert!(matches!(s.uploaded("a", UploadOutcome::TimedOut), Err(StorageError::UploadTimeout)));
    match s.uploaded("a", UploadOutcome::Failed("x".to_string())) {
        Err(StorageError::S3Error(cause)) => assert_eq!(cause, "x"),
        _ => panic!("no error"),
    }
}

#[test]
fn downloads_are_told_apart() {
    let s = s3("http://m", None);
    let f = s.downloaded(DownloadOutcome::Done(Some("a/b".to_string()), vec![1])).unwrap();
    assert_eq!(f, (vec![1], "a/b".to_string()));
    let f = s.downloaded(DownloadOutcome::Done(None, vec![])).unwrap();
    assert_eq!(f.1, "application/octet-stream");
    let missing = DownloadOutcome::Failed("service error: NoSuchKey: gone".to_string());
    assert!(matches!(s.downloaded(missing), Err(StorageError::NotFound)));
    match s.downloaded(DownloadOutcome::Failed("denied".to_string())) {
        Err(StorageError::S3Error(cause)) => assert_eq!(cause, "denied"),
        _ => panic!("no error"),
    }
    match s.downloaded(DownloadOutcome::Unread("NoSuchKey".to_string())) {
        Err(StorageError::S3Error(cause)) => assert_eq!(cause, "NoSuchKey"),
        _ => panic!("no error"),
    }
}

#[test]
fn checks_and_deletions_are_reported() {
    let s = s3("http://m", None);
    assert!(s.deleted(Ok(())).is_ok());
    assert!(matches!(s.deleted(Err("x".to_string())), Err(StorageError::S3Error(_))));
    assert!(s.health_check(Ok(())).is_ok());
    match s.health_check(Err("x".to_string())) {
        Err(StorageError::S3Error(cause)) => assert_eq!(cause, "Health check failed: x"),
        _ => panic!("no error"),
    }
}

#[test]
fn only_reads_fall_back() {
    let (first, second) = (StorageSide::Primary, StorageSide::Fallback);
    let after = FallbackStorage::after;
    assert_eq!(after(StorageOperation::Upload, first, false), FallbackStep::Return);
    assert_eq!(after(StorageOperation::HealthCheck, first, false), FallbackStep::Return);
    assert_eq!(after(StorageOperation::Download, first, true), FallbackStep::Return);
    assert_eq!(after(StorageOperation::Download, first, false), FallbackStep::Ask(second));
    assert_eq!(after(StorageOperation::Download, second, false), FallbackStep::Return);
    assert_eq!(after(StorageOperation::GetUrl, first, false), FallbackStep::Ask(second));
    assert_eq!(after(StorageOperation::Delete, first, true), FallbackStep::Ask(second));
    assert_eq!(after(StorageOperation::Delete, second, false), FallbackStep::Succeed);
}

#[test]
fn any_two_storages_make_one() {
    let bucket = || StorageBackend::S3(s3("http://m", None));
    let dir = || StorageBackend::Local(LocalMediaStorage::new("data/tmp".to_string(), "/srv"));
    let s = FallbackStorage::new(bucket(), dir());
    assert_eq!(s.storage_type(), "fallback");
    assert_eq!(s.get_url("/a", false, "http://h").unwrap(), "http://m/bucket/grok/a");
    assert_eq!(s.get_public_url("k").unwrap(), "http://m/bucket/k");
    let s = FallbackStorage::new(dir(), bucket());
    assert_eq!(s.get_url("a.png", false, "http://h").unwrap(), "http://h/v1/files/image/a.png");
    assert_eq!(s.get_public_url("k"), None);
    let inner = StorageBackend::Fallback(Box::new(FallbackStorage::new(bucket(), bucket())));
    assert_eq!(inner.storage_type(), "fallback");
    let s = StorageBackend::Fallback(Box::new(FallbackStorage::new(inner, dir())));
    assert_eq!(s.get_url("/a", false, "http://h").unwrap(), "http://m/bucket/grok/a");
    assert_eq!(s.get_public_url("k").unwrap(), "http://m/bucket/k");
    assert_eq!((bucket().storage_type(), dir().storage_type()), ("s3", "local"));
}

#[test]
fn keys_of_uploads_have_the_address_of_the_file() {
    let s = s3("http://m", Some("https://cdn/"));
    let key = s.download("/a/b.png").key;
    let backend = StorageBackend::S3(s);
    assert_eq!(backend.get_public_url(&key).unwrap(), "https://cdn/grok/a/b.png");
    assert_eq!(backend.get_url("/a/b.png", true, "").unwrap(), "https://cdn/grok/a/b.png");
}

#[test]
fn storages_are_created_as_configured() {
    match create_storage(StorageConfig::default(), "/srv") {
        StorageBackend::Local(s) => assert_eq!(s.base_dir, "/srv/data/tmp"),
        _ => panic!("not local"),
    }
    let config = StorageConfig::S3 {
        endpoint: "http://m".to_string(),
        region: "r".to_string(),
        access_key: "a".to_string(),
        secret_key: "s".to_string(),
        bucket: "b".to_string(),
        custom_domain: None,
        path_prefix: "p/".to_string(),
        upload_timeout: 5,
        use_direct_url: true,
    };
    match create_storage(config, "/srv") {
        StorageBackend::S3(s) => {
            assert_eq!(s.get_url("/x", true).unwrap(), "http://m/b/p/x");
            assert_eq!((s.upload_timeout, s.use_direct_url), (5, true));
            assert_eq!(s.connection.region, "r");
        }
        _ => panic!("not S3"),
    }
}

#[test]
fn settings_have_defaults() {
    match init_media_storage(settings(), "/srv") {
        StorageBackend::Local(s) => assert_eq!(s.base_dir, "/srv/data/tmp"),
        _ => panic!("not local"),
    }
    let on = MediaSettings { storage_type: Some("s3".to_string()), ..settings() };
    match init_media_storage(on.clone(), "/srv") {
        StorageBackend::Fallback(s) => match (s.primary, s.fallback) {
            (StorageBackend::S3(primary), StorageBackend::Local(fallback)) => {
                assert_eq!(fallback.base_dir, "/srv/data/tmp");
                assert_eq!(primary.bucket, "grok-media");
                assert_eq!(primary.path_prefix, "grok/");
                assert_eq!(primary.connection.region, "us-east-1");
                assert_eq!(primary.connection.endpoint, None);
                assert_eq!((primary.upload_timeout, primary.use_direct_url), (300, false));
            }
            _ => panic!("other storages"),
        },
        _ => panic!("no fallback"),
    }
    let alone = MediaSettings { enable_fallback: Some(false), bucket: Some("b".to_string()), ..on };
    match init_media_storage(alone, "/srv") {
        StorageBackend::S3(s) => assert_eq!(s.bucket, "b"),
        _ => panic!("not alone"),
    }
    let odd = MediaSettings {
        storage_type: Some("S3".to_string()),
        base_dir: Some("/var/media".to_string()),
        ..settings()
    };
    match init_media_storage(odd, "/srv") {
        StorageBackend::Local(s) => assert_eq!(s.base_dir, "/var/media"),
        _ => panic!("not local"),
    }
}
