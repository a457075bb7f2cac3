//! Where media files are stored: in a directory, or in an S3 bucket with that
//! directory to fall back on.

use crate::error::{
    invalid_request_error, not_found_error, server_error, ApiError, ApiErrorKind, ApiErrorView,
};
use crate::mime::DEFAULT_MIME;
use crate::storage::LocalMediaStorage;
use crate::text::{
    contains_text, has_text, join2, join3, law_trim_char, lemma_trim_start_char, same_text,
    text_option, trim_end_char, trim_start_char, trimmed_end_char, trimmed_start_char,
};
use vstd::prelude::*;

verus! {

/// What can go wrong with stored media.
#[derive(Clone, Debug)]
pub enum StorageError {
    IoError(String),
    S3Error(String),
    ConfigError(String),
    UploadTimeout,
    NotFound,
}

/// The plain form of a [`StorageError`].
pub enum StorageErrorView {
    IoError(Seq<char>),
    S3Error(Seq<char>),
    ConfigError(Seq<char>),
    UploadTimeout,
    NotFound,
}

impl View for StorageError {
    type V = StorageErrorView;

    open spec fn view(&self) -> StorageErrorView {
        match *self {
            StorageError::IoError(cause) => StorageErrorView::IoError(cause@),
            StorageError::S3Error(cause) => StorageErrorView::S3Error(cause@),
            StorageError::ConfigError(cause) => StorageErrorView::ConfigError(cause@),
            StorageError::UploadTimeout => StorageErrorView::UploadTimeout,
            StorageError::NotFound => StorageErrorView::NotFound,
        }
    }
}

/// The error that the gateway answers a storage error with.
pub open spec fn api_error_for(e: StorageErrorView) -> ApiErrorView {
    match e {
        StorageErrorView::NotFound => not_found_error("File not found in storage"@),
        StorageErrorView::UploadTimeout => invalid_request_error("Upload timeout"@),
        StorageErrorView::ConfigError(message) => invalid_request_error(message),
        StorageErrorView::IoError(cause) => server_error("Storage IO error: "@ + cause),
        StorageErrorView::S3Error(cause) => server_error("S3 error: "@ + cause),
    }
}

impl ApiError {
    /// The error that the gateway answers a storage error with.
    pub fn from(e: StorageError) -> (r: ApiError)
        ensures
            r@ == api_error_for(e@),
    {
        match e {
            StorageError::NotFound => ApiError::not_found("File not found in storage".to_string()),
            StorageError::UploadTimeout => ApiError::invalid_request("Upload timeout".to_string()),
            StorageError::ConfigError(message) => ApiError::invalid_request(message),
            StorageError::IoError(cause) => ApiError::server(
                join2("Storage IO error: ", cause.as_str()),
            ),
            StorageError::S3Error(cause) => ApiError::server(join2("S3 error: ", cause.as_str())),
        }
    }
}

/// How media are stored.
#[derive(Clone, Debug)]
pub enum StorageConfig {
    Local { base_dir: String },
    S3 {
        endpoint: String,
        region: String,
        access_key: String,
        secret_key: String,
        bucket: String,
        custom_domain: Option<String>,
        path_prefix: String,
        upload_timeout: u64,
        use_direct_url: bool,
    },
}

/// What keys in a bucket start with, where nothing else is configured.
pub fn default_path_prefix() -> (r: String)
    ensures
        r@ == "grok/"@,
{
    "grok/".to_string()
}

/// The seconds that an upload may take, where nothing else is configured.
pub fn default_upload_timeout() -> (r: u64)
    ensures
        r == 300,
{
    300
}

impl Default for StorageConfig {
    fn default() -> (r: StorageConfig)
        ensures
            match r {
                StorageConfig::Local { base_dir } => base_dir@ == "data/tmp"@,
                _ => false,
            },
    {
        StorageConfig::Local { base_dir: "data/tmp".to_string() }
    }
}

/// How to reach an S3 service. An endpoint of its own goes with addresses that
/// have the bucket in their path.
#[derive(Clone, Debug)]
pub struct S3Connection {
    pub region: String,
    pub access_key: String,
    pub secret_key: String,
    pub endpoint: Option<String>,
}

/// Stores media in a bucket of an S3 service.
#[derive(Clone, Debug)]
pub struct S3Storage {
    pub connection: S3Connection,
    pub bucket: String,
    pub custom_domain: Option<String>,
    pub path_prefix: String,
    pub upload_timeout: u64,
    pub use_direct_url: bool,
    pub endpoint: String,
}

/// An object in a bucket.
#[derive(Clone, Debug)]
pub struct S3Object {
    pub bucket: String,
    pub key: String,
}

/// An upload into a bucket.
#[derive(Clone, Debug)]
pub struct S3Upload {
    pub object: S3Object,
    pub content_type: String,
    pub timeout: u64,
}

/// What came of an upload.
#[derive(Clone, Debug)]
pub enum UploadOutcome {
    TimedOut,
    Failed(String),
    Done,
}

/// What came of a download: an error, or the content type and the contents.
#[derive(Clone, Debug)]
pub enum DownloadOutcome {
    Failed(String),
    Unread(String),
    Done(Option<String>, Vec<u8>),
}

/// The endpoint that is set for a configured one: none where it is empty or
/// belongs to AWS.
pub open spec fn own_endpoint(endpoint: Seq<char>) -> Option<Seq<char>> {
    if endpoint.len() > 0 && !contains_text(endpoint, "amazonaws.com"@) {
        Some(endpoint)
    } else {
        None
    }
}

/// The key of a file in a bucket.
pub open spec fn object_key(prefix: Seq<char>, file_path: Seq<char>) -> Seq<char> {
    prefix + trim_start_char(file_path, '/')
}

/// The address of an object: under the domain of its own where there is one,
/// else at AWS or at the endpoint.
pub open spec fn object_url(
    custom_domain: Option<Seq<char>>,
    endpoint: Seq<char>,
    bucket: Seq<char>,
    key: Seq<char>,
) -> Seq<char> {
    match custom_domain {
        Some(domain) => trim_end_char(domain, '/') + "/"@ + key,
        None => if contains_text(endpoint, "amazonaws.com"@) {
            "https://"@ + bucket + ".s3.amazonaws.com/"@ + key
        } else {
            trim_end_char(endpoint, '/') + "/"@ + bucket + "/"@ + key
        },
    }
}

/// The error for a download that failed.
pub open spec fn s3_download_error(cause: Seq<char>) -> StorageErrorView {
    if contains_text(cause, "NoSuchKey"@) {
        StorageErrorView::NotFound
    } else {
        StorageErrorView::S3Error(cause)
    }
}

impl S3Storage {
    /// The key of a file.
    pub open spec fn key_of(&self, file_path: Seq<char>) -> Seq<char> {
        object_key(self.path_prefix@, file_path)
    }

    /// The identifier of a stored file: its path, which the prefix is put before
    /// once, in its key.
    pub open spec fn identifier_of(&self, file_path: Seq<char>) -> Seq<char> {
        file_path
    }

    /// The address of an object.
    pub open spec fn url_of(&self, key: Seq<char>) -> Seq<char> {
        object_url(text_option(self.custom_domain), self.endpoint@, self.bucket@, key)
    }

    /// The storage in a bucket.
    pub fn new(
        endpoint: String,
        region: String,
        access_key: String,
        secret_key: String,
        bucket: String,
        custom_domain: Option<String>,
        path_prefix: String,
        upload_timeout: u64,
        use_direct_url: bool,
    ) -> (r: S3Storage)
        ensures
            r.connection.region == region,
            r.connection.access_key == access_key,
            r.connection.secret_key == secret_key,
            text_option(r.connection.endpoint) == own_endpoint(endpoint@),
            r.bucket == bucket,
            r.custom_domain == custom_domain,
            r.path_prefix == path_prefix,
            r.upload_timeout == upload_timeout,
            r.use_direct_url == use_direct_url,
            r.endpoint == endpoint,
    {
        let own = if !endpoint.as_str().is_empty() && !has_text(
            endpoint.as_str(),
            "amazonaws.com",
        ) {
            Some(endpoint.clone())
        } else {
            None
        };
        S3Storage {
            connection: S3Connection { region, access_key, secret_key, endpoint: own },
            bucket,
            custom_domain,
            path_prefix,
            upload_timeout,
            use_direct_url,
            endpoint,
        }
    }

    /// The key of a file.
    pub fn build_key(&self, file_path: &str) -> (r: String)
        ensures
            r@ == self.key_of(file_path@),
    {
        join2(self.path_prefix.as_str(), trimmed_start_char(file_path, '/').as_str())
    }

    /// The address of an object.
    pub fn build_direct_url(&self, key: &str) -> (r: String)
        ensures
            r@ == self.url_of(key@),
    {
        if let Some(domain) = &self.custom_domain {
            join3(trimmed_end_char(domain.as_str(), '/').as_str(), "/", key)
        } else if has_text(self.endpoint.as_str(), "amazonaws.com") {
            let host = join3("https://", self.bucket.as_str(), ".s3.amazonaws.com/");
            join2(host.as_str(), key)
        } else {
            let endpoint = trimmed_end_char(self.endpoint.as_str(), '/');
            let base = join3(endpoint.as_str(), "/", self.bucket.as_str());
            join3(base.as_str(), "/", key)
        }
    }

    fn object(&self, file_path: &str) -> (r: S3Object)
        ensures
            r.bucket@ == self.bucket@,
            r.key@ == self.key_of(file_path@),
    {
        S3Object { bucket: self.bucket.clone(), key: self.build_key(file_path) }
    }

    /// The upload that stores a file.
    pub fn upload(&self, file_path: &str, mime_type: &str) -> (r: S3Upload)
        ensures
            r.object.bucket@ == self.bucket@,
            r.object.key@ == self.key_of(file_path@),
            r.content_type@ == mime_type@,
            r.timeout == self.upload_timeout,
    {
        S3Upload {
            object: self.object(file_path),
            content_type: mime_type.to_string(),
            timeout: self.upload_timeout,
        }
    }

    /// What an upload leads to: the identifier of the file, by which it is
    /// addressed, downloaded and deleted.
    pub fn uploaded(&self, file_path: &str, outcome: UploadOutcome) -> (r: Result<
        String,
        StorageError,
    >)
        ensures
            match (outcome, r) {
                (UploadOutcome::Done, Ok(id)) => id@ == self.identifier_of(file_path@),
                (UploadOutcome::TimedOut, Err(e)) => e@ == StorageErrorView::UploadTimeout,
                (UploadOutcome::Failed(cause), Err(e)) => e@ == StorageErrorView::S3Error(cause@),
                _ => false,
            },
    {
        match outcome {
            UploadOutcome::Done => Ok(file_path.to_string()),
            UploadOutcome::TimedOut => Err(StorageError::UploadTimeout),
            UploadOutcome::Failed(cause) => Err(StorageError::S3Error(cause)),
        }
    }

    /// The address of a file, which is a direct one in any case.
    pub fn get_url(&self, file_path: &str, _direct: bool) -> (r: Result<String, StorageError>)
        ensures
            match r {
                Ok(url) => url@ == self.url_of(self.key_of(file_path@)),
                Err(_) => false,
            },
    {
        let key = self.build_key(file_path);
        Ok(self.build_direct_url(key.as_str()))
    }

    /// The object to download for a file.
    pub fn download(&self, file_path: &str) -> (r: S3Object)
        ensures
            r.bucket@ == self.bucket@,
            r.key@ == self.key_of(file_path@),
    {
        self.object(file_path)
    }

    /// What a download leads to: the contents and the media type.
    pub fn downloaded(&self, outcome: DownloadOutcome) -> (r: Result<
        (Vec<u8>, String),
        StorageError,
    >)
        ensures
            match (outcome, r) {
                (DownloadOutcome::Done(content_type, data), Ok(f)) => f.0 == data && f.1@ == (
                match content_type {
                    Some(s) => s@,
                    None => DEFAULT_MIME@,
                }),
                (DownloadOutcome::Failed(cause), Err(e)) => e@ == s3_download_error(cause@),
                (DownloadOutcome::Unread(cause), Err(e)) => e@ == StorageErrorView::S3Error(cause@),
                _ => false,
            },
    {
        match outcome {
            DownloadOutcome::Done(content_type, data) => {
                let mime = match content_type {
                    Some(s) => s,
                    None => DEFAULT_MIME.to_string(),
                };
                Ok((data, mime))
            },
            DownloadOutcome::Failed(cause) => {
                if has_text(cause.as_str(), "NoSuchKey") {
                    Err(StorageError::NotFound)
                } else {
                    Err(StorageError::S3Error(cause))
                }
            },
            DownloadOutcome::Unread(cause) => Err(StorageError::S3Error(cause)),
        }
    }

    /// The object to delete for a file.
    pub fn delete(&self, file_path: &str) -> (r: S3Object)
        ensures
            r.bucket@ == self.bucket@,
            r.key@ == self.key_of(file_path@),
    {
        self.object(file_path)
    }

    /// What a deletion leads to.
    pub fn deleted(&self, outcome: Result<(), String>) -> (r: Result<(), StorageError>)
        ensures
            match (outcome, r) {
                (Ok(_), Ok(_)) => true,
                (Err(cause), Err(e)) => e@ == StorageErrorView::S3Error(cause@),
                _ => false,
            },
    {
        match outcome {
            Ok(_) => Ok(()),
            Err(cause) => Err(StorageError::S3Error(cause)),
        }
    }

    /// What a look at the bucket says of the storage.
    pub fn health_check(&self, outcome: Result<(), String>) -> (r: Result<(), StorageError>)
        ensures
            match (outcome, r) {
                (Ok(_), Ok(_)) => true,
                (Err(cause), Err(e)) => e@ == StorageErrorView::S3Error(
                    "Health check failed: "@ + cause@,
                ),
                _ => false,
            },
    {
        match outcome {
            Ok(_) => Ok(()),
            Err(cause) => Err(
                StorageError::S3Error(join2("Health check failed: ", cause.as_str())),
            ),
        }
    }

    /// The name of this sort of storage.
    pub fn storage_type(&self) -> (r: &'static str)
        ensures
            r@ == "s3"@,
    {
        "s3"
    }

    /// The address of an object with a full key.
    pub fn get_public_url(&self, key: &str) -> (r: String)
        ensures
            r@ == self.url_of(key@),
    {
        self.build_direct_url(key)
    }
}

/// A storage of some sort.
#[derive(Debug)]
pub enum StorageBackend {
    Local(LocalMediaStorage),
    S3(S3Storage),
    Fallback(Box<FallbackStorage>),
}

/// A storage that falls back on another one.
#[derive(Debug)]
pub struct FallbackStorage {
    pub primary: StorageBackend,
    pub fallback: StorageBackend,
}

/// What a storage can be asked to do.
#[derive(Clone, Copy, Debug, PartialEq, Eq, Structural)]
pub enum StorageOperation {
    Upload,
    GetUrl,
    Download,
    Delete,
    HealthCheck,
}

/// One of the two storages.
#[derive(Clone, Copy, Debug, PartialEq, Eq, Structural)]
pub enum StorageSide {
    Primary,
    Fallback,
}

/// What to do after one of the two storages was asked.
#[derive(Clone, Copy, Debug, PartialEq, Eq, Structural)]
pub enum FallbackStep {
    /// To ask this one next.
    Ask(StorageSide),
    /// To return what it answered.
    Return,
    /// To return success.
    Succeed,
}

/// What to do after one of the two storages was asked. Only reads fall back: an
/// upload that fails has failed. A deletion goes to both and succeeds.
pub open spec fn fallback_step(
    operation: StorageOperation,
    side: StorageSide,
    ok: bool,
) -> FallbackStep {
    match operation {
        StorageOperation::Delete => if side == StorageSide::Primary {
            FallbackStep::Ask(StorageSide::Fallback)
        } else {
            FallbackStep::Succeed
        },
        StorageOperation::GetUrl | StorageOperation::Download => if side == StorageSide::Primary
            && !ok {
            FallbackStep::Ask(StorageSide::Fallback)
        } else {
            FallbackStep::Return
        },
        _ => FallbackStep::Return,
    }
}

impl StorageBackend {
    /// The key of the object that a file is uploaded as. A file in a directory has
    /// none.
    pub open spec fn key_of(&self, file_path: Seq<char>) -> Option<Seq<char>>
        decreases self,
    {
        match self {
            StorageBackend::Local(_) => None,
            StorageBackend::S3(s) => Some(s.key_of(file_path)),
            StorageBackend::Fallback(s) => s.primary.key_of(file_path),
        }
    }

    /// The address of a file.
    pub open spec fn url_of(&self, file_path: Seq<char>, app_url: Seq<char>) -> Seq<char>
        decreases self,
    {
        match self {
            StorageBackend::Local(s) => s.url_of(file_path, app_url),
            StorageBackend::S3(s) => s.url_of(s.key_of(file_path)),
            StorageBackend::Fallback(s) => s.primary.url_of(file_path, app_url),
        }
    }

    /// The address of an object with a full key. There are no objects in a
    /// directory.
    pub open spec fn public_url_of(&self, key: Seq<char>) -> Option<Seq<char>>
        decreases self,
    {
        match self {
            StorageBackend::Local(_) => None,
            StorageBackend::S3(s) => Some(s.url_of(key)),
            StorageBackend::Fallback(s) => s.primary.public_url_of(key),
        }
    }

    /// The address of a file.
    pub fn get_url(&self, file_path: &str, direct: bool, app_url: &str) -> (r: Result<
        String,
        StorageError,
    >)
        ensures
            match r {
                Ok(url) => url@ == self.url_of(file_path@, app_url@),
                Err(_) => false,
            },
        decreases self,
    {
        match self {
            StorageBackend::Local(s) => s.get_url(file_path, direct, app_url),
            StorageBackend::S3(s) => s.get_url(file_path, direct),
            StorageBackend::Fallback(s) => s.get_url(file_path, direct, app_url),
        }
    }

    /// The address of an object with a full key. There are no objects in a
    /// directory.
    pub fn get_public_url(&self, key: &str) -> (r: Option<String>)
        ensures
            text_option(r) == self.public_url_of(key@),
        decreases self,
    {
        match self {
            StorageBackend::Local(_) => None,
            StorageBackend::S3(s) => Some(s.get_public_url(key)),
            StorageBackend::Fallback(s) => s.get_public_url(key),
        }
    }

    /// The name of this sort of storage.
    pub fn storage_type(&self) -> (r: &'static str)
        ensures
            r@ == match self {
                StorageBackend::Local(_) => "local"@,
                StorageBackend::S3(_) => "s3"@,
                StorageBackend::Fallback(_) => "fallback"@,
            },
    {
        match self {
            StorageBackend::Local(s) => s.storage_type(),
            StorageBackend::S3(s) => s.storage_type(),
            StorageBackend::Fallback(s) => s.storage_type(),
        }
    }
}

impl FallbackStorage {
    /// The storage `primary` with `fallback` to fall back on.
    pub fn new(primary: StorageBackend, fallback: StorageBackend) -> (r: FallbackStorage)
        ensures
            r.primary == primary,
            r.fallback == fallback,
    {
        FallbackStorage { primary, fallback }
    }

    /// What to do after one of the two storages was asked. The primary one is
    /// asked first.
    pub fn after(operation: StorageOperation, side: StorageSide, ok: bool) -> (r: FallbackStep)
        ensures
            r == fallback_step(operation, side, ok),
    {
        match operation {
            StorageOperation::Delete => match side {
                StorageSide::Primary => FallbackStep::Ask(StorageSide::Fallback),
                StorageSide::Fallback => FallbackStep::Succeed,
            },
            StorageOperation::GetUrl | StorageOperation::Download => match side {
                StorageSide::Primary => if ok {
                    FallbackStep::Return
                } else {
                    FallbackStep::Ask(StorageSide::Fallback)
                },
                StorageSide::Fallback => FallbackStep::Return,
            },
            _ => FallbackStep::Return,
        }
    }

    /// The address of a file.
    pub fn get_url(&self, file_path: &str, direct: bool, app_url: &str) -> (r: Result<
        String,
        StorageError,
    >)
        ensures
            match r {
                Ok(url) => url@ == self.primary.url_of(file_path@, app_url@),
                Err(_) => false,
            },
        decreases self,
    {
        match self.primary.get_url(file_path, direct, app_url) {
            Ok(url) => Ok(url),
            Err(_) => self.fallback.get_url(file_path, direct, app_url),
        }
    }

    /// The name of this sort of storage.
    pub fn storage_type(&self) -> (r: &'static str)
        ensures
            r@ == "fallback"@,
    {
        "fallback"
    }

    /// The address of an object with a full key.
    pub fn get_public_url(&self, key: &str) -> (r: Option<String>)
        ensures
            text_option(r) == self.primary.public_url_of(key@),
        decreases self,
    {
        self.primary.get_public_url(key)
    }
}

/// Whether an S3 storage is the one that is configured.
pub open spec fn s3_as_configured(s: S3Storage, config: StorageConfig) -> bool {
    match config {
        StorageConfig::S3 {
            endpoint,
            region,
            access_key,
            secret_key,
            bucket,
            custom_domain,
            path_prefix,
            upload_timeout,
            use_direct_url,
        } => {
            &&& s.connection.region@ == region@
            &&& s.connection.access_key@ == access_key@
            &&& s.connection.secret_key@ == secret_key@
            &&& text_option(s.connection.endpoint) == own_endpoint(endpoint@)
            &&& s.bucket@ == bucket@
            &&& text_option(s.custom_domain) == text_option(custom_domain)
            &&& s.path_prefix@ == path_prefix@
            &&& s.upload_timeout == upload_timeout
            &&& s.use_direct_url == use_direct_url
            &&& s.endpoint@ == endpoint@
        },
        StorageConfig::Local { .. } => false,
    }
}

/// The storage that is configured, for a project's root.
pub fn create_storage(config: StorageConfig, root: &str) -> (r: StorageBackend)
    ensures
        match r {
            StorageBackend::Local(s) => match config {
                StorageConfig::Local { base_dir } => s.base_dir@
                    == crate::storage::base_dir_of(root@, base_dir@),
                StorageConfig::S3 { .. } => false,
            },
            StorageBackend::S3(s) => s3_as_configured(s, config),
            StorageBackend::Fallback(_) => false,
        },
{
    match config {
        StorageConfig::Local { base_dir } => StorageBackend::Local(
            LocalMediaStorage::new(base_dir, root),
        ),
        StorageConfig::S3 {
            endpoint,
            region,
            access_key,
            secret_key,
            bucket,
            custom_domain,
            path_prefix,
            upload_timeout,
            use_direct_url,
        } => StorageBackend::S3(
            S3Storage::new(
                endpoint,
                region,
                access_key,
                secret_key,
                bucket,
                custom_domain,
                path_prefix,
                upload_timeout,
                use_direct_url,
            ),
        ),
    }
}

/// The settings for media storage, as far as they are made.
#[derive(Clone, Debug)]
pub struct MediaSettings {
    pub storage_type: Option<String>,
    pub enable_fallback: Option<bool>,
    pub base_dir: Option<String>,
    pub endpoint: Option<String>,
    pub region: Option<String>,
    pub access_key: Option<String>,
    pub secret_key: Option<String>,
    pub bucket: Option<String>,
    pub custom_domain: Option<String>,
    pub path_prefix: Option<String>,
    pub upload_timeout: Option<u64>,
    pub use_direct_url: Option<bool>,
}

/// A setting, or what stands for it where it is not made.
pub open spec fn setting_or(setting: Option<String>, default: Seq<char>) -> Seq<char> {
    match setting {
        Some(s) => s@,
        None => default,
    }
}

/// A setting, or what stands for it where it is not made.
fn setting(value: Option<String>, default: &str) -> (r: String)
    ensures
        r@ == setting_or(value, default@),
{
    match value {
        Some(s) => s,
        None => default.to_string(),
    }
}

impl MediaSettings {
    /// Whether media go to an S3 service.
    pub open spec fn wants_s3(&self) -> bool {
        setting_or(self.storage_type, "local"@) == "s3"@
    }

    /// Whether there is a storage to fall back on.
    pub open spec fn wants_fallback(&self) -> bool {
        match self.enable_fallback {
            Some(b) => b,
            None => true,
        }
    }

    /// The directory for media.
    pub open spec fn dir(&self, root: Seq<char>) -> Seq<char> {
        crate::storage::base_dir_of(root, setting_or(self.base_dir, "data/tmp"@))
    }

    /// Whether an S3 storage is the one that is set.
    pub open spec fn sets(&self, s: S3Storage) -> bool {
        &&& s.connection.region@ == setting_or(self.region, "us-east-1"@)
        &&& s.connection.access_key@ == setting_or(self.access_key, Seq::empty())
        &&& s.connection.secret_key@ == setting_or(self.secret_key, Seq::empty())
        &&& text_option(s.connection.endpoint) == own_endpoint(
            setting_or(self.endpoint, Seq::empty()),
        )
        &&& s.bucket@ == setting_or(self.bucket, "grok-media"@)
        &&& text_option(s.custom_domain) == text_option(self.custom_domain)
        &&& s.path_prefix@ == setting_or(self.path_prefix, "grok/"@)
        &&& s.upload_timeout == (match self.upload_timeout {
            Some(n) => n,
            None => 300,
        })
        &&& s.use_direct_url == (match self.use_direct_url {
            Some(b) => b,
            None => false,
        })
        &&& s.endpoint@ == setting_or(self.endpoint, Seq::empty())
    }
}

/// The storage that the settings ask for: an S3 service, with the directory to
/// fall back on unless that is switched off, or the directory alone.
pub fn init_media_storage(settings: MediaSettings, root: &str) -> (r: StorageBackend)
    ensures
        match r {
            StorageBackend::Fallback(s) => settings.wants_s3() && settings.wants_fallback() && (
            match (s.primary, s.fallback) {
                (StorageBackend::S3(primary), StorageBackend::Local(fallback)) => settings.sets(
                    primary,
                ) && fallback.base_dir@ == settings.dir(root@),
                _ => false,
            }),
            StorageBackend::S3(s) => settings.wants_s3() && !settings.wants_fallback()
                && settings.sets(s),
            StorageBackend::Local(s) => !settings.wants_s3() && s.base_dir@ == settings.dir(root@),
        },
{
    proof {
        reveal_strlit("");
        assert(""@ == Seq::<char>::empty());
    }
    let storage_type = setting(settings.storage_type, "local");
    let base_dir = setting(settings.base_dir, "data/tmp");
    if !same_text(storage_type.as_str(), "s3") {
        return create_storage(StorageConfig::Local { base_dir }, root);
    }
    let s3 = S3Storage::new(
        setting(settings.endpoint, ""),
        setting(settings.region, "us-east-1"),
        setting(settings.access_key, ""),
        setting(settings.secret_key, ""),
        setting(settings.bucket, "grok-media"),
        settings.custom_domain,
        setting(settings.path_prefix, "grok/"),
        match settings.upload_timeout {
            Some(n) => n,
            None => 300,
        },
        match settings.use_direct_url {
            Some(b) => b,
            None => false,
        },
    );
    let fallback = match settings.enable_fallback {
        Some(b) => b,
        None => true,
    };
    if fallback {
        let local = LocalMediaStorage::new(base_dir, root);
        StorageBackend::Fallback(
            Box::new(FallbackStorage::new(StorageBackend::S3(s3), StorageBackend::Local(local))),
        )
    } else {
        StorageBackend::S3(s3)
    }
}

/// Slashes at the start of a path make no difference: a file that was uploaded
/// under a path is found, addressed and deleted under the same path with a slash
/// before it.
pub proof fn law_key_ignores_leading_slashes(prefix: Seq<char>, file_path: Seq<char>)
    ensures
        object_key(prefix, "/"@ + file_path) == object_key(prefix, file_path),
        object_key(prefix, "/"@ + trim_start_char(file_path, '/')) == object_key(prefix, file_path),
{
    reveal_strlit("/");
    let rest = trim_start_char(file_path, '/');
    assert(("/"@ + file_path).drop_first() == file_path);
    assert(("/"@ + rest).drop_first() == rest);
    lemma_trim_start_char(file_path, '/');
    assert(trim_start_char(rest, '/') == rest);
}

/// The identifier that an upload returned leads to the object that it wrote: its
/// address, its download and its deletion go by the key of the upload.
pub proof fn law_identifier_leads_to_upload(storage: S3Storage, file_path: Seq<char>)
    ensures
        storage.key_of(storage.identifier_of(file_path)) == storage.key_of(file_path),
        storage.url_of(storage.key_of(storage.identifier_of(file_path))) == storage.url_of(
            storage.key_of(file_path),
        ),
{
}

/// The address that `get_url` gives for the identifier of an upload is the prefix,
/// once, and the path, behind the domain, the AWS host or the endpoint with the
/// bucket.
pub proof fn law_address_of_upload(storage: S3Storage, file_path: Seq<char>)
    ensures
        ({
            let url = storage.url_of(storage.key_of(storage.identifier_of(file_path)));
            let key = storage.path_prefix@ + trim_start_char(file_path, '/');
            match text_option(storage.custom_domain) {
                Some(domain) => url == trim_end_char(domain, '/') + "/"@ + key,
                None => if contains_text(storage.endpoint@, "amazonaws.com"@) {
                    url == "https://"@ + storage.bucket@ + ".s3.amazonaws.com/"@ + key
                } else {
                    url == trim_end_char(storage.endpoint@, '/') + "/"@ + storage.bucket@ + "/"@
                        + key
                },
            }
        }),
{
}

/// The public address of the key that a file is uploaded under is the address of
/// that file. A storage without keys has no public addresses.
pub proof fn law_public_url_of_upload(
    storage: StorageBackend,
    file_path: Seq<char>,
    app_url: Seq<char>,
)
    ensures
        match storage.key_of(file_path) {
            Some(key) => storage.public_url_of(key) == Some(storage.url_of(file_path, app_url)),
            None => forall|key: Seq<char>| #[trigger] storage.public_url_of(key) is None,
        },
    decreases storage,
{
    match storage {
        StorageBackend::Fallback(s) => {
            law_public_url_of_upload(s.primary, file_path, app_url);
            assert(storage.key_of(file_path) == s.primary.key_of(file_path));
            assert(forall|key: Seq<char>| #[trigger]
                storage.public_url_of(key) == s.primary.public_url_of(key));
        },
        _ => {},
    }
}

/// Different files below the same prefix have different keys, slashes at the
/// start aside.
pub proof fn law_keys_differ(prefix: Seq<char>, a: Seq<char>, b: Seq<char>)
    ensures
        object_key(prefix, a) == object_key(prefix, b) <==> trim_start_char(a, '/')
            == trim_start_char(b, '/'),
{
    let x = trim_start_char(a, '/');
    let y = trim_start_char(b, '/');
    if prefix + x == prefix + y {
        assert(x == (prefix + x).skip(prefix.len() as int));
        assert(y == (prefix + y).skip(prefix.len() as int));
    }
}

/// An upload and a check are up to the primary storage alone. A read goes to the
/// other one exactly when the primary one fails. A deletion goes to both, and
/// succeeds whatever they answer.
pub proof fn law_fallback(operation: StorageOperation, primary_ok: bool, fallback_ok: bool)
    ensures
        ({
            let first = fallback_step(operation, StorageSide::Primary, primary_ok);
            let second = fallback_step(operation, StorageSide::Fallback, fallback_ok);
            match operation {
                StorageOperation::Upload | StorageOperation::HealthCheck => first
                    == FallbackStep::Return,
                StorageOperation::GetUrl | StorageOperation::Download => (first == FallbackStep::Ask(
                    StorageSide::Fallback,
                ) <==> !primary_ok) && (first == FallbackStep::Return <==> primary_ok) && second
                    == FallbackStep::Return,
                StorageOperation::Delete => first == FallbackStep::Ask(StorageSide::Fallback)
                    && second == FallbackStep::Succeed,
            }
        }),
{
}

/// A storage error is answered by its sort: a file that is not there, a request that
/// cannot be met, or a failure of the gateway with its cause.
pub proof fn law_storage_error(e: StorageError, r: ApiError)
    requires
        call_ensures(ApiError::from, (e,), r),
    ensures
        e is NotFound ==> r.kind == ApiErrorKind::NotFound && r.message@
            == "File not found in storage"@,
        e is UploadTimeout ==> r.kind == ApiErrorKind::InvalidRequest && r.message@
            == "Upload timeout"@,
        e is ConfigError ==> r.kind == ApiErrorKind::InvalidRequest && r.message@
            == e->ConfigError_0@,
        e is IoError ==> r.kind == ApiErrorKind::Server && r.message@ == "Storage IO error: "@
            + e->IoError_0@,
        e is S3Error ==> r.kind == ApiErrorKind::Server && r.message@ == "S3 error: "@
            + e->S3Error_0@,
        r.param is None,
        r.code is None,
        r@ == api_error_for(e@),
{
}

/// Where nothing is configured, media are stored in the usual directory, keys start
/// with `grok/`, and an upload may take five minutes.
pub proof fn law_storage_defaults(prefix: String, timeout: u64, config: StorageConfig)
    requires
        call_ensures(default_path_prefix, (), prefix),
        call_ensures(default_upload_timeout, (), timeout),
        call_ensures(StorageConfig::default, (), config),
    ensures
        prefix@ == "grok/"@,
        timeout == 5 * 60,
        config is Local,
        config->base_dir@ == "data/tmp"@,
{
}

/// A storage in a bucket is the one that it is made with. Its endpoint is set for the
/// connection unless it is empty or belongs to AWS.
pub proof fn law_new_s3_storage(
    endpoint: String,
    region: String,
    access_key: String,
    secret_key: String,
    bucket: String,
    custom_domain: Option<String>,
    path_prefix: String,
    upload_timeout: u64,
    use_direct_url: bool,
    r: S3Storage,
)
    requires
        call_ensures(
            S3Storage::new,
            (
                endpoint,
                region,
                access_key,
                secret_key,
                bucket,
                custom_domain,
                path_prefix,
                upload_timeout,
                use_direct_url,
            ),
            r,
        ),
    ensures
        r.connection.region@ == region@,
        r.connection.access_key@ == access_key@,
        r.connection.secret_key@ == secret_key@,
        r.bucket@ == bucket@,
        text_option(r.custom_domain) == text_option(custom_domain),
        r.path_prefix@ == path_prefix@,
        r.upload_timeout == upload_timeout,
        r.use_direct_url == use_direct_url,
        r.endpoint@ == endpoint@,
        r.connection.endpoint is Some <==> endpoint@.len() > 0 && !contains_text(
            endpoint@,
            "amazonaws.com"@,
        ),
        r.connection.endpoint is Some ==> r.connection.endpoint->0@ == endpoint@,
{
}

/// The key of a file is the prefix and its path, without the slashes at its start.
pub proof fn law_build_key(
    storage: &S3Storage,
    file_path: &str,
    n: nat,
    path: Seq<char>,
    r: String,
)
    requires
        call_ensures(S3Storage::build_key, (storage, file_path), r),
        file_path@ == Seq::new(n, |i: int| '/') + path,
        path.len() == 0 || path[0] != '/',
    ensures
        r@ == storage.path_prefix@ + path,
{
    law_trim_char(n, '/', path);
}

/// The address of an object is its key behind the domain of the storage, and without
/// one behind its bucket at AWS or at the endpoint.
pub proof fn law_direct_url(
    storage: &S3Storage,
    key: &str,
    n: nat,
    domain: Seq<char>,
    m: nat,
    endpoint: Seq<char>,
    r: String,
)
    requires
        call_ensures(S3Storage::build_direct_url, (storage, key), r),
        domain.len() == 0 || domain.last() != '/',
        endpoint.len() == 0 || endpoint.last() != '/',
        storage.custom_domain is Some ==> storage.custom_domain->0@ == domain + Seq::new(
            n,
            |i: int| '/',
        ),
        storage.endpoint@ == endpoint + Seq::new(m, |i: int| '/'),
    ensures
        storage.custom_domain is Some ==> r@ == domain + "/"@ + key@,
        storage.custom_domain is None && contains_text(storage.endpoint@, "amazonaws.com"@) ==> r@
            == "https://"@ + storage.bucket@ + ".s3.amazonaws.com/"@ + key@,
        storage.custom_domain is None && !contains_text(storage.endpoint@, "amazonaws.com"@) ==> r@
            == endpoint + "/"@ + storage.bucket@ + "/"@ + key@,
{
    law_trim_char(n, '/', domain);
    law_trim_char(m, '/', endpoint);
}

/// A file is uploaded, downloaded, deleted and addressed under the same key of the
/// bucket. It is uploaded with its media type, within the time of the storage.
pub proof fn law_s3_objects(
    storage: &S3Storage,
    file_path: &str,
    mime_type: &str,
    direct: bool,
    key: String,
    full_key: &str,
    url: String,
    public: String,
    upload: S3Upload,
    download: S3Object,
    delete: S3Object,
    r: Result<String, StorageError>,
)
    requires
        call_ensures(S3Storage::build_key, (storage, file_path), key),
        full_key@ == key@,
        call_ensures(S3Storage::build_direct_url, (storage, full_key), url),
        call_ensures(S3Storage::get_public_url, (storage, full_key), public),
        call_ensures(S3Storage::upload, (storage, file_path, mime_type), upload),
        call_ensures(S3Storage::download, (storage, file_path), download),
        call_ensures(S3Storage::delete, (storage, file_path), delete),
        call_ensures(S3Storage::get_url, (storage, file_path, direct), r),
    ensures
        upload.object.key@ == key@,
        download.key@ == key@,
        delete.key@ == key@,
        upload.object.bucket@ == storage.bucket@,
        download.bucket@ == storage.bucket@,
        delete.bucket@ == storage.bucket@,
        upload.content_type@ == mime_type@,
        upload.timeout == storage.upload_timeout,
        r is Ok,
        r->Ok_0@ == url@,
        public@ == url@,
{
}

/// An upload that succeeds returns the path of the file. One that takes too long or
/// fails is an error of its own.
pub proof fn law_s3_uploaded(
    storage: &S3Storage,
    file_path: &str,
    outcome: UploadOutcome,
    r: Result<String, StorageError>,
)
    requires
        call_ensures(S3Storage::uploaded, (storage, file_path, outcome), r),
    ensures
        outcome is Done ==> r is Ok && r->Ok_0@ == file_path@,
        outcome is TimedOut ==> r is Err && r->Err_0 is UploadTimeout,
        outcome is Failed ==> r is Err && r->Err_0@ == StorageErrorView::S3Error(
            outcome->Failed_0@,
        ),
{
}

/// A download hands out the contents with their content type, or that of unknown
/// content. A key that there is not is not found, and anything else an error.
pub proof fn law_s3_downloaded(
    storage: &S3Storage,
    outcome: DownloadOutcome,
    r: Result<(Vec<u8>, String), StorageError>,
)
    requires
        call_ensures(S3Storage::downloaded, (storage, outcome), r),
    ensures
        outcome is Done ==> r is Ok && r->Ok_0.0@ == outcome->Done_1@,
        outcome is Done && outcome->Done_0 is Some ==> r->Ok_0.1@ == outcome->Done_0->0@,
        outcome is Done && outcome->Done_0 is None ==> r->Ok_0.1@ == "application/octet-stream"@,
        outcome is Unread ==> r is Err && r->Err_0@ == StorageErrorView::S3Error(
            outcome->Unread_0@,
        ),
        outcome is Failed && contains_text(outcome->Failed_0@, "NoSuchKey"@) ==> r is Err
            && r->Err_0 is NotFound,
        outcome is Failed && !contains_text(outcome->Failed_0@, "NoSuchKey"@) ==> r is Err
            && r->Err_0@ == StorageErrorView::S3Error(outcome->Failed_0@),
{
}

/// A deletion and a check succeed exactly where the service says so, and else are
/// errors with its cause.
pub proof fn law_s3_outcomes(
    storage: &S3Storage,
    outcome: Result<(), String>,
    deleted: Result<(), StorageError>,
    checked: Result<(), StorageError>,
    sort: &'static str,
)
    requires
        call_ensures(S3Storage::deleted, (storage, outcome), deleted),
        call_ensures(S3Storage::health_check, (storage, outcome), checked),
        call_ensures(S3Storage::storage_type, (storage,), sort),
    ensures
        outcome is Ok ==> deleted is Ok && checked is Ok,
        outcome is Err ==> deleted is Err && deleted->Err_0@ == StorageErrorView::S3Error(
            outcome->Err_0@,
        ),
        outcome is Err ==> checked is Err && checked->Err_0@ == StorageErrorView::S3Error(
            "Health check failed: "@ + outcome->Err_0@,
        ),
        sort@ == "s3"@,
{
}

/// A storage gives the addresses that the storage of its sort gives, and has the name
/// of its sort. One that falls back on another gives those of the first.
pub proof fn law_storage_by_sort(
    storage: &StorageBackend,
    file_path: &str,
    direct: bool,
    app_url: &str,
    key: &str,
    url: Result<String, StorageError>,
    inner: Result<String, StorageError>,
    public: Option<String>,
    sort: &'static str,
)
    requires
        call_ensures(StorageBackend::get_url, (storage, file_path, direct, app_url), url),
        call_ensures(StorageBackend::get_public_url, (storage, key), public),
        call_ensures(StorageBackend::storage_type, (storage,), sort),
        match storage {
            StorageBackend::Local(s) => call_ensures(
                LocalMediaStorage::get_url,
                (s, file_path, direct, app_url),
                inner,
            ),
            StorageBackend::S3(s) => call_ensures(S3Storage::get_url, (s, file_path, direct), inner),
            StorageBackend::Fallback(s) => call_ensures(
                StorageBackend::get_url,
                (&s.primary, file_path, direct, app_url),
                inner,
            ),
        },
    ensures
        url is Ok,
        inner is Ok,
        url->Ok_0@ == inner->Ok_0@,
        storage is Local ==> public is None && sort@ == "local"@,
        storage is S3 ==> public is Some && sort@ == "s3"@,
        storage is Fallback ==> sort@ == "fallback"@,
{
}

/// The public address of a key in a bucket is its direct one.
pub proof fn law_public_url_by_sort(
    storage: &StorageBackend,
    key: &str,
    inner: String,
    first: Option<String>,
    r: Option<String>,
)
    requires
        call_ensures(StorageBackend::get_public_url, (storage, key), r),
        storage is S3 ==> call_ensures(
            S3Storage::get_public_url,
            (&storage->S3_0, key),
            inner,
        ),
        storage is Fallback ==> call_ensures(
            StorageBackend::get_public_url,
            (&storage->Fallback_0.primary, key),
            first,
        ),
    ensures
        storage is Local ==> r is None,
        storage is S3 ==> r is Some && r->0@ == inner@,
        storage is Fallback ==> text_option(r) == text_option(first),
{
}

/// A storage that falls back on another one gives the addresses of the first one.
pub proof fn law_fallback_storage(
    primary: StorageBackend,
    fallback: StorageBackend,
    storage: FallbackStorage,
    file_path: &str,
    direct: bool,
    app_url: &str,
    key: &str,
    first: Result<String, StorageError>,
    first_public: Option<String>,
    url: Result<String, StorageError>,
    public: Option<String>,
    sort: &'static str,
)
    requires
        call_ensures(FallbackStorage::new, (primary, fallback), storage),
        call_ensures(StorageBackend::get_url, (&primary, file_path, direct, app_url), first),
        call_ensures(StorageBackend::get_public_url, (&primary, key), first_public),
        call_ensures(FallbackStorage::get_url, (&storage, file_path, direct, app_url), url),
        call_ensures(FallbackStorage::get_public_url, (&storage, key), public),
        call_ensures(FallbackStorage::storage_type, (&storage,), sort),
    ensures
        storage.primary == primary,
        storage.fallback == fallback,
        url is Ok,
        first is Ok,
        url->Ok_0@ == first->Ok_0@,
        text_option(public) == text_option(first_public),
        sort@ == "fallback"@,
{
}

/// Only reads fall back, and only where the first storage fails. A deletion goes to
/// both storages and succeeds.
pub proof fn law_fallback_after(
    operation: StorageOperation,
    side: StorageSide,
    ok: bool,
    r: FallbackStep,
)
    requires
        call_ensures(FallbackStorage::after, (operation, side, ok), r),
    ensures
        operation == StorageOperation::Upload || operation == StorageOperation::HealthCheck ==> r
            == FallbackStep::Return,
        (operation == StorageOperation::GetUrl || operation == StorageOperation::Download) && side
            == StorageSide::Primary && !ok ==> r == FallbackStep::Ask(StorageSide::Fallback),
        (operation == StorageOperation::GetUrl || operation == StorageOperation::Download) && (side
            == StorageSide::Fallback || ok) ==> r == FallbackStep::Return,
        operation == StorageOperation::Delete && side == StorageSide::Primary ==> r
            == FallbackStep::Ask(StorageSide::Fallback),
        operation == StorageOperation::Delete && side == StorageSide::Fallback ==> r
            == FallbackStep::Succeed,
{
}

/// A storage is created as it is configured: a directory, or a bucket with all that
/// is set for it.
pub proof fn law_create_storage(
    config: StorageConfig,
    root: &str,
    local: LocalMediaStorage,
    s3: S3Storage,
    r: StorageBackend,
)
    requires
        call_ensures(create_storage, (config, root), r),
        match config {
            StorageConfig::Local { base_dir } => call_ensures(
                LocalMediaStorage::new,
                (base_dir, root),
                local,
            ),
            StorageConfig::S3 {
                endpoint,
                region,
                access_key,
                secret_key,
                bucket,
                custom_domain,
                path_prefix,
                upload_timeout,
                use_direct_url,
            } => call_ensures(
                S3Storage::new,
                (
                    endpoint,
                    region,
                    access_key,
                    secret_key,
                    bucket,
                    custom_domain,
                    path_prefix,
                    upload_timeout,
                    use_direct_url,
                ),
                s3,
            ),
        },
    ensures
        config is Local ==> r is Local && r->Local_0.base_dir@ == local.base_dir@,
        config is S3 ==> r is S3 && same_s3(r->S3_0, s3),
{
}

/// Whether two storages are in the same bucket of the same service, and are used in
/// the same way.
pub open spec fn same_s3(a: S3Storage, b: S3Storage) -> bool {
    &&& a.connection.region@ == b.connection.region@
    &&& a.connection.access_key@ == b.connection.access_key@
    &&& a.connection.secret_key@ == b.connection.secret_key@
    &&& text_option(a.connection.endpoint) == text_option(b.connection.endpoint)
    &&& a.bucket@ == b.bucket@
    &&& text_option(a.custom_domain) == text_option(b.custom_domain)
    &&& a.path_prefix@ == b.path_prefix@
    &&& a.upload_timeout == b.upload_timeout
    &&& a.use_direct_url == b.use_direct_url
    &&& a.endpoint@ == b.endpoint@
}

/// Media go to a bucket where the settings ask for one, with the directory to fall
/// back on unless that is switched off, and else to the directory alone.
pub proof fn law_storage_of_settings(settings: MediaSettings, root: &str, r: StorageBackend)
    requires
        call_ensures(init_media_storage, (settings, root), r),
    ensures
        ({
            let wants_s3 = settings.storage_type is Some && settings.storage_type->0@ == "s3"@;
            let alone = settings.enable_fallback == Some(false);
            &&& r is Local <==> !wants_s3
            &&& r is S3 <==> wants_s3 && alone
            &&& r is Fallback <==> wants_s3 && !alone
            &&& r is Fallback ==> r->Fallback_0.primary is S3 && r->Fallback_0.fallback is Local
        }),
{
    reveal_strlit("s3");
    reveal_strlit("local");
    assert("s3"@.len() == 2 && "local"@.len() == 5);
}

/// The directory of the storage is the one that is set, below the root unless it is an
/// absolute one, and `data/tmp` where none is.
pub proof fn law_directory_of_settings(
    settings: MediaSettings,
    root: &str,
    base_dir: String,
    local: LocalMediaStorage,
    r: StorageBackend,
)
    requires
        call_ensures(init_media_storage, (settings, root), r),
        call_ensures(LocalMediaStorage::new, (base_dir, root), local),
        settings.base_dir is Some ==> settings.base_dir->0@ == base_dir@,
        settings.base_dir is None ==> base_dir@ == "data/tmp"@,
    ensures
        r is Local ==> r->Local_0.base_dir@ == local.base_dir@,
        r is Fallback ==> r->Fallback_0.fallback is Local
            && r->Fallback_0.fallback->Local_0.base_dir@ == local.base_dir@,
{
}

/// The bucket of the storage is used as it is set, and as usual where nothing is.
pub proof fn law_bucket_of_settings(
    settings: MediaSettings,
    root: &str,
    s: S3Storage,
    r: StorageBackend,
)
    requires
        call_ensures(init_media_storage, (settings, root), r),
        r is S3 || r is Fallback,
        r is S3 ==> s == r->S3_0,
        r is Fallback ==> s == r->Fallback_0.primary->S3_0,
    ensures
        settings.endpoint is Some ==> s.endpoint@ == settings.endpoint->0@,
        settings.endpoint is None ==> s.endpoint@.len() == 0,
        s.connection.endpoint is Some <==> s.endpoint@.len() > 0 && !contains_text(
            s.endpoint@,
            "amazonaws.com"@,
        ),
        s.connection.endpoint is Some ==> s.connection.endpoint->0@ == s.endpoint@,
        settings.region is Some ==> s.connection.region@ == settings.region->0@,
        settings.region is None ==> s.connection.region@ == "us-east-1"@,
        settings.access_key is Some ==> s.connection.access_key@ == settings.access_key->0@,
        settings.access_key is None ==> s.connection.access_key@.len() == 0,
        settings.secret_key is Some ==> s.connection.secret_key@ == settings.secret_key->0@,
        settings.secret_key is None ==> s.connection.secret_key@.len() == 0,
        settings.bucket is Some ==> s.bucket@ == settings.bucket->0@,
        settings.bucket is None ==> s.bucket@ == "grok-media"@,
        text_option(s.custom_domain) == text_option(settings.custom_domain),
        settings.path_prefix is Some ==> s.path_prefix@ == settings.path_prefix->0@,
        settings.path_prefix is None ==> s.path_prefix@ == "grok/"@,
        settings.upload_timeout is Some ==> s.upload_timeout == settings.upload_timeout->0,
        settings.upload_timeout is None ==> s.upload_timeout == 300,
        settings.use_direct_url is Some ==> s.use_direct_url == settings.use_direct_url->0,
        settings.use_direct_url is None ==> !s.use_direct_url,
{
}

} // verus!
