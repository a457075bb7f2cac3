//! Files of the upstream service, kept in a cache on disk.

use crate::base_service::{
    asset_proxy_of, law_mime_of_header, mime_of_header, select_proxy, BaseService,
};
use crate::curl::{
    ascii_lowered_names, first_value, have_ascii_names, header_value, lemma_first_value,
    lowered_names, value_of_header, CurlRequest, CurlResponse, CurlResponseView,
};
use crate::encoding::{ascii_lowercase, base64_text, lowercase, sha1_digest, sha1_hex};
use crate::error::{server_error, upstream_error, ApiError, ApiErrorKind, ApiErrorView};
use crate::media_storage::{api_error_for, StorageError, StorageErrorView};
use crate::mime::{guess_mime, mime_for_path, DEFAULT_MIME};
use crate::number::{decimal, decimal_text};
use crate::path::{
    extension, extension_of, file_name, join, join_path, law_extension, law_no_extension,
    lemma_join_name, lemma_last_dot_bounds,
    lemma_name_end_bounds, lemma_name_start_bounds, name_end, name_start, replace_extension,
    stem_of_name, with_extension,
};
use crate::text::{
    has_prefix, join2, join4, law_trim_char, replace_char, replaced_char, same_text, text_before,
    text_option, trim_end_char, trim_start_char, trimmed_end_char, trimmed_start_char,
};
use reqwest::header::HeaderMap;
use vstd::prelude::*;
use vstd::utf8::{encode_utf8, is_ascii_chars};

verus! {

pub const DOWNLOAD_API: &'static str = "https://assets.grok.com";

/// The seconds that a download waits for another one of the same file.
pub const DOWNLOAD_LOCK_TIMEOUT: u64 = 10;

/// The directory for files of a sort below a project's root.
pub open spec fn media_dir(root: Seq<char>, sort: Seq<char>) -> Seq<char> {
    join(join(join(root, "data"@), "tmp"@), sort)
}

/// The name in the cache for a file upstream: without the slashes at the start,
/// and with hyphens for the others.
pub open spec fn cached_name(file_path: Seq<char>) -> Seq<char> {
    replace_char(trim_start_char(file_path, '/'), '/', '-')
}

/// A path that starts with a slash: `path`, or a slash and `path`.
pub open spec fn rooted(path: Seq<char>) -> Seq<char> {
    if path.len() > 0 && path[0] == '/' {
        path
    } else {
        "/"@ + path
    }
}

/// The name of the lock for a download.
pub open spec fn download_lock(file_path: Seq<char>, media_type: Seq<char>) -> Seq<char> {
    "download_"@ + media_type + "_"@ + sha1_hex(encode_utf8(file_path))
}

/// Where a file is written before it gets its name in the cache.
pub open spec fn partial_path(path: Seq<char>) -> Seq<char> {
    let ext = match extension(path) {
        Some(ext) => ext,
        None => Seq::empty(),
    };
    with_extension(path, ext + "tmp"@)
}

/// The public address of a file: through the gateway where its address is known.
pub open spec fn public_url(app_url: Seq<char>, file_path: Seq<char>) -> Seq<char> {
    if app_url.len() == 0 {
        DOWNLOAD_API@ + rooted(file_path)
    } else {
        trim_end_char(app_url, '/') + "/v1/files"@ + rooted(file_path)
    }
}

/// The address of a file through the gateway where no storage is set up.
pub open spec fn gateway_url(
    app_url: Seq<char>,
    media_type: Seq<char>,
    file_path: Seq<char>,
) -> Seq<char> {
    trim_end_char(app_url, '/') + "/v1/files/"@ + media_type + file_path
}

/// A path that starts with a slash.
fn rooted_path(path: &str) -> (r: String)
    ensures
        r@ == rooted(path@),
{
    proof {
        reveal_strlit("/");
        if path@.len() > 0 {
            assert(path@.take(1) == "/"@ <==> path@[0] == '/') by {
                assert(path@.take(1)[0] == path@[0]);
                assert("/"@[0] == '/');
                if path@[0] == '/' {
                    assert(path@.take(1) =~= "/"@);
                }
            }
        }
    }
    if has_prefix(path, "/") {
        path.to_string()
    } else {
        join2("/", path)
    }
}

/// Keeps files of the upstream service in two directories: one for images, and
/// one for everything else.
#[derive(Clone, Debug)]
pub struct DownloadService {
    pub base: BaseService,
    pub image_dir: String,
    pub video_dir: String,
}

/// How far a download has come.
#[derive(Clone, Copy, Debug, PartialEq, Eq, Structural)]
pub enum DownloadStage {
    /// The cache is looked up.
    FirstLook,
    /// The lock for the file is taken.
    Locking,
    /// The cache is looked up again, under the lock.
    SecondLook,
    /// The file is requested.
    Requesting,
    /// The file is written beside its name.
    Writing,
    /// The file gets its name.
    Renaming,
    /// Nothing is left to do.
    Done,
}

/// The plain form of a [`DownloadTask`].
pub struct DownloadTaskView {
    pub path: Seq<char>,
    pub lock_name: Seq<char>,
    pub url: Seq<char>,
    pub mime: Seq<char>,
    pub stage: DownloadStage,
}

/// A download: what to do next is decided here, and done elsewhere.
pub struct DownloadTask {
    path: String,
    lock_name: String,
    url: String,
    mime: String,
    stage: DownloadStage,
}

impl View for DownloadTask {
    type V = DownloadTaskView;

    closed spec fn view(&self) -> DownloadTaskView {
        DownloadTaskView {
            path: self.path@,
            lock_name: self.lock_name@,
            url: self.url@,
            mime: self.mime@,
            stage: self.stage,
        }
    }
}

/// What to do next for a download.
pub enum DownloadAction {
    /// To see whether there is a file at a path.
    LookUp(String),
    /// To take a lock, within some seconds.
    Lock(String, u64),
    /// To request the file at an address, with its headers.
    Request(String),
    /// To write a file.
    Write(String, Vec<u8>),
    /// To rename a file.
    Rename(String, String),
    /// To return: the path and the media type of the file, and whether the cache
    /// has grown.
    Finish(Result<(String, String), ApiError>, bool),
}

/// The plain form of a [`DownloadAction`].
pub enum DownloadActionView {
    LookUp(Seq<char>),
    Lock(Seq<char>, int),
    Request(Seq<char>),
    Write(Seq<char>, Seq<u8>),
    Rename(Seq<char>, Seq<char>),
    Finish(Result<(Seq<char>, Seq<char>), ApiErrorView>, bool),
}

impl View for DownloadAction {
    type V = DownloadActionView;

    open spec fn view(&self) -> DownloadActionView {
        match *self {
            DownloadAction::LookUp(path) => DownloadActionView::LookUp(path@),
            DownloadAction::Lock(name, timeout) => DownloadActionView::Lock(name@, timeout as int),
            DownloadAction::Request(url) => DownloadActionView::Request(url@),
            DownloadAction::Write(path, body) => DownloadActionView::Write(path@, body@),
            DownloadAction::Rename(from, to) => DownloadActionView::Rename(from@, to@),
            DownloadAction::Finish(Ok(f), grown) => DownloadActionView::Finish(
                Ok((f.0@, f.1@)),
                grown,
            ),
            DownloadAction::Finish(Err(e), grown) => DownloadActionView::Finish(Err(e@), grown),
        }
    }
}

/// The download of a file into the directory `dir`, before the first look.
pub open spec fn new_download(
    dir: Seq<char>,
    file_path: Seq<char>,
    media_type: Seq<char>,
) -> DownloadTaskView {
    DownloadTaskView {
        path: join(dir, cached_name(file_path)),
        lock_name: download_lock(file_path, media_type),
        url: DOWNLOAD_API@ + rooted(file_path),
        mime: Seq::empty(),
        stage: DownloadStage::FirstLook,
    }
}

/// A download after a look at the cache. `mime` is the media type by the name of
/// the file.
pub open spec fn after_look(task: DownloadTaskView, exists: bool, mime: Seq<char>) -> (
    DownloadTaskView,
    DownloadActionView,
) {
    if exists {
        (
            DownloadTaskView { stage: DownloadStage::Done, ..task },
            DownloadActionView::Finish(Ok((task.path, mime)), false),
        )
    } else if task.stage == DownloadStage::FirstLook {
        (
            DownloadTaskView { stage: DownloadStage::Locking, ..task },
            DownloadActionView::Lock(task.lock_name, DOWNLOAD_LOCK_TIMEOUT as int),
        )
    } else {
        (
            DownloadTaskView { stage: DownloadStage::Requesting, ..task },
            DownloadActionView::Request(task.url),
        )
    }
}

/// A download that ends with an error.
pub open spec fn failed_download(task: DownloadTaskView, error: ApiErrorView) -> (
    DownloadTaskView,
    DownloadActionView,
) {
    (
        DownloadTaskView { stage: DownloadStage::Done, ..task },
        DownloadActionView::Finish(Err(error), false),
    )
}

/// A download after an attempt to take the lock.
pub open spec fn after_lock(task: DownloadTaskView, locked: Result<(), ApiErrorView>) -> (
    DownloadTaskView,
    DownloadActionView,
) {
    match locked {
        Ok(_) => (
            DownloadTaskView { stage: DownloadStage::SecondLook, ..task },
            DownloadActionView::LookUp(task.path),
        ),
        Err(error) => failed_download(task, error),
    }
}

/// A download after the answer to its request. `content_type` is the value of
/// that header in the answer.
pub open spec fn after_answer(
    task: DownloadTaskView,
    answer: Result<CurlResponseView, ApiErrorView>,
    content_type: Option<Seq<char>>,
) -> (DownloadTaskView, DownloadActionView) {
    match answer {
        Ok(response) => if response.status != 200 {
            failed_download(
                task,
                upstream_error("Download failed: "@ + decimal(response.status as nat)),
            )
        } else {
            (
                DownloadTaskView {
                    stage: DownloadStage::Writing,
                    mime: mime_of_header(content_type),
                    ..task
                },
                DownloadActionView::Write(partial_path(task.path), response.body),
            )
        },
        Err(error) => failed_download(task, error),
    }
}

/// A download after its file was written.
pub open spec fn after_write(task: DownloadTaskView, written: Result<(), Seq<char>>) -> (
    DownloadTaskView,
    DownloadActionView,
) {
    match written {
        Ok(_) => (
            DownloadTaskView { stage: DownloadStage::Renaming, ..task },
            DownloadActionView::Rename(partial_path(task.path), task.path),
        ),
        Err(cause) => failed_download(task, server_error("Write tmp file failed: "@ + cause)),
    }
}

/// A download after its file got its name.
pub open spec fn after_rename(task: DownloadTaskView, renamed: Result<(), Seq<char>>) -> (
    DownloadTaskView,
    DownloadActionView,
) {
    match renamed {
        Ok(_) => (
            DownloadTaskView { stage: DownloadStage::Done, ..task },
            DownloadActionView::Finish(Ok((task.path, task.mime)), true),
        ),
        Err(cause) => failed_download(task, server_error("Rename tmp file failed: "@ + cause)),
    }
}

/// The plain form of the answer to a request.
pub open spec fn answer_view(answer: Result<CurlResponse, ApiError>) -> Result<
    CurlResponseView,
    ApiErrorView,
> {
    match answer {
        Ok(response) => Ok(response@),
        Err(e) => Err(e@),
    }
}

/// The plain form of what came of a step.
pub open spec fn done_view(done: Result<(), String>) -> Result<(), Seq<char>> {
    match done {
        Ok(_) => Ok(()),
        Err(cause) => Err(cause@),
    }
}

/// The plain form of what came of taking a lock.
pub open spec fn locked_view(locked: Result<(), ApiError>) -> Result<(), ApiErrorView> {
    match locked {
        Ok(_) => Ok(()),
        Err(e) => Err(e@),
    }
}

/// The value of the content type in an answer.
pub open spec fn content_type_of(answer: Result<CurlResponseView, ApiErrorView>) -> Option<
    Seq<char>,
> {
    match answer {
        Ok(response) => value_of_header(response.headers, "content-type"@),
        Err(_) => None,
    }
}

impl DownloadTask {
    /// The first look at the cache.
    pub fn first_look(&self) -> (r: DownloadAction)
        ensures
            r@ == DownloadActionView::LookUp(self@.path),
    {
        DownloadAction::LookUp(self.path.clone())
    }

    fn fail(&mut self, error: ApiError) -> (r: DownloadAction)
        ensures
            (final(self)@, r@) == failed_download(old(self)@, error@),
    {
        self.stage = DownloadStage::Done;
        DownloadAction::Finish(Err(error), false)
    }

    /// Takes in whether the file is in the cache, and its media type by its name.
    pub fn looked_up_as(&mut self, exists: bool, mime: String) -> (r: DownloadAction)
        requires
            old(self)@.stage == DownloadStage::FirstLook || old(self)@.stage
                == DownloadStage::SecondLook,
        ensures
            (final(self)@, r@) == after_look(old(self)@, exists, mime@),
    {
        if exists {
            self.stage = DownloadStage::Done;
            return DownloadAction::Finish(Ok((self.path.clone(), mime)), false);
        }
        match self.stage {
            DownloadStage::FirstLook => {
                self.stage = DownloadStage::Locking;
                DownloadAction::Lock(self.lock_name.clone(), DOWNLOAD_LOCK_TIMEOUT)
            },
            _ => {
                self.stage = DownloadStage::Requesting;
                DownloadAction::Request(self.url.clone())
            },
        }
    }

    /// Takes in whether the file is in the cache.
    pub fn looked_up(&mut self, exists: bool) -> (r: DownloadAction)
        requires
            old(self)@.stage == DownloadStage::FirstLook || old(self)@.stage
                == DownloadStage::SecondLook,
        ensures
            (final(self)@, r@) == after_look(old(self)@, exists, mime_for_path(old(self)@.path)),
    {
        let mime = guess_mime(self.path.as_str());
        self.looked_up_as(exists, mime)
    }

    /// Takes in what came of taking the lock.
    pub fn locked(&mut self, locked: Result<(), ApiError>) -> (r: DownloadAction)
        requires
            old(self)@.stage == DownloadStage::Locking,
        ensures
            (final(self)@, r@) == after_lock(old(self)@, locked_view(locked)),
    {
        match locked {
            Ok(_) => {
                self.stage = DownloadStage::SecondLook;
                DownloadAction::LookUp(self.path.clone())
            },
            Err(e) => self.fail(e),
        }
    }

    /// Takes in the answer to the request, and its content type.
    pub fn answered_as(
        &mut self,
        answer: Result<CurlResponse, ApiError>,
        content_type: Option<String>,
    ) -> (r: DownloadAction)
        requires
            old(self)@.stage == DownloadStage::Requesting,
        ensures
            (final(self)@, r@) == after_answer(
                old(self)@,
                answer_view(answer),
                text_option(content_type),
            ),
    {
        match answer {
            Ok(response) => {
                if response.status != 200 {
                    let status = decimal_text(response.status as u64);
                    return self.fail(
                        ApiError::upstream(join2("Download failed: ", status.as_str())),
                    );
                }
                self.mime = match content_type {
                    Some(s) => text_before(s.as_str(), ';'),
                    None => DEFAULT_MIME.to_string(),
                };
                self.stage = DownloadStage::Writing;
                DownloadAction::Write(self.partial(), response.body)
            },
            Err(e) => self.fail(e),
        }
    }

    /// Takes in the answer to the request.
    pub fn answered(&mut self, answer: Result<CurlResponse, ApiError>) -> (r: DownloadAction)
        requires
            old(self)@.stage == DownloadStage::Requesting,
        ensures
            (final(self)@, r@) == after_answer(
                old(self)@,
                answer_view(answer),
                content_type_of(answer_view(answer)),
            ),
            match answer {
                Ok(response) => have_ascii_names(response@.headers) ==> (final(self)@, r@)
                    == after_answer(
                    old(self)@,
                    Ok(response@),
                    first_value(
                        ascii_lowered_names(response@.headers),
                        response@.headers,
                        "content-type"@,
                    ),
                ),
                Err(_) => true,
            },
    {
        proof {
            reveal_strlit("content-type");
            assert(is_ascii_chars("content-type"@));
            assert(ascii_lowercase("content-type"@) == "content-type"@);
        }
        let content_type = match &answer {
            Ok(response) => header_value(&response.headers, "content-type"),
            Err(_) => None,
        };
        self.answered_as(answer, content_type)
    }

    fn partial(&self) -> (r: String)
        ensures
            r@ == partial_path(self@.path),
    {
        let ext = match extension_of(self.path.as_str()) {
            Some(ext) => ext,
            None => String::new(),
        };
        replace_extension(self.path.as_str(), join2(ext.as_str(), "tmp").as_str())
    }

    /// Takes in what came of writing the file.
    pub fn written(&mut self, written: Result<(), String>) -> (r: DownloadAction)
        requires
            old(self)@.stage == DownloadStage::Writing,
        ensures
            (final(self)@, r@) == after_write(old(self)@, done_view(written)),
    {
        match written {
            Ok(_) => {
                self.stage = DownloadStage::Renaming;
                DownloadAction::Rename(self.partial(), self.path.clone())
            },
            Err(cause) => self.fail(
                ApiError::server(join2("Write tmp file failed: ", cause.as_str())),
            ),
        }
    }

    /// Takes in what came of renaming the file.
    pub fn renamed(&mut self, renamed: Result<(), String>) -> (r: DownloadAction)
        requires
            old(self)@.stage == DownloadStage::Renaming,
        ensures
            (final(self)@, r@) == after_rename(old(self)@, done_view(renamed)),
    {
        match renamed {
            Ok(_) => {
                self.stage = DownloadStage::Done;
                DownloadAction::Finish(Ok((self.path.clone(), self.mime.clone())), true)
            },
            Err(cause) => self.fail(
                ApiError::server(join2("Rename tmp file failed: ", cause.as_str())),
            ),
        }
    }
}

/// How far the publication of a downloaded file has come.
#[derive(Clone, Copy, Debug, PartialEq, Eq, Structural)]
pub enum PublishStage {
    /// The file is read.
    Reading,
    /// The file is uploaded to the storage.
    Uploading,
    /// The storage is asked for the address of the file.
    Addressing,
    /// Nothing is left to do.
    Done,
}

/// What to do next to publish a downloaded file.
pub enum PublishAction {
    /// To read the file.
    Read,
    /// To upload the file to the storage: its path, its contents and its media type.
    Upload(String, Vec<u8>, String),
    /// To ask the storage for the address of an identifier, and whether it is to be a
    /// direct one.
    GetUrl(String, bool),
    /// To return the address.
    Finish(Result<String, ApiError>),
}

/// The plain form of a [`PublishAction`].
pub enum PublishActionView {
    Read,
    Upload(Seq<char>, Seq<u8>, Seq<char>),
    GetUrl(Seq<char>, bool),
    Finish(Result<Seq<char>, ApiErrorView>),
}

impl View for PublishAction {
    type V = PublishActionView;

    open spec fn view(&self) -> PublishActionView {
        match *self {
            PublishAction::Read => PublishActionView::Read,
            PublishAction::Upload(path, data, mime) => PublishActionView::Upload(
                path@,
                data@,
                mime@,
            ),
            PublishAction::GetUrl(id, direct) => PublishActionView::GetUrl(id@, direct),
            PublishAction::Finish(Ok(url)) => PublishActionView::Finish(Ok(url@)),
            PublishAction::Finish(Err(e)) => PublishActionView::Finish(Err(e@)),
        }
    }
}

/// The plain form of a [`PublishTask`].
pub struct PublishTaskView {
    pub file_path: Seq<char>,
    pub mime: Seq<char>,
    pub stage: PublishStage,
}

/// The publication of a downloaded file: what to do next is decided here, and done
/// elsewhere.
pub struct PublishTask {
    file_path: String,
    mime: String,
    stage: PublishStage,
}

impl View for PublishTask {
    type V = PublishTaskView;

    closed spec fn view(&self) -> PublishTaskView {
        PublishTaskView { file_path: self.file_path@, mime: self.mime@, stage: self.stage }
    }
}

/// The address of the gateway, or the usual one.
pub open spec fn app_address(app_url: Option<Seq<char>>) -> Seq<char> {
    match app_url {
        Some(url) => url,
        None => "http://127.0.0.1:8000"@,
    }
}

/// The publication of a file at its start: it is read where there is a storage, and
/// has an address through the gateway otherwise.
pub open spec fn publish_first(
    file_path: Seq<char>,
    media_type: Seq<char>,
    mime: Seq<char>,
    has_storage: bool,
    app_url: Option<Seq<char>>,
) -> (PublishTaskView, PublishActionView) {
    if has_storage {
        (
            PublishTaskView { file_path, mime, stage: PublishStage::Reading },
            PublishActionView::Read,
        )
    } else {
        (
            PublishTaskView { file_path, mime, stage: PublishStage::Done },
            PublishActionView::Finish(Ok(gateway_url(app_address(app_url), media_type, file_path))),
        )
    }
}

/// A publication that ends.
pub open spec fn publish_ends(
    task: PublishTaskView,
    result: Result<Seq<char>, ApiErrorView>,
) -> (PublishTaskView, PublishActionView) {
    (
        PublishTaskView { stage: PublishStage::Done, ..task },
        PublishActionView::Finish(result),
    )
}

/// A publication after its file was read.
pub open spec fn publish_read(task: PublishTaskView, read: Result<Seq<u8>, Seq<char>>) -> (
    PublishTaskView,
    PublishActionView,
) {
    match read {
        Ok(data) => (
            PublishTaskView { stage: PublishStage::Uploading, ..task },
            PublishActionView::Upload(task.file_path, data, task.mime),
        ),
        Err(cause) => publish_ends(task, Err(server_error("Read file failed: "@ + cause))),
    }
}

/// A publication after its file was uploaded, under an identifier.
pub open spec fn publish_uploaded(
    task: PublishTaskView,
    uploaded: Result<Seq<char>, StorageErrorView>,
) -> (PublishTaskView, PublishActionView) {
    match uploaded {
        Ok(id) => (
            PublishTaskView { stage: PublishStage::Addressing, ..task },
            PublishActionView::GetUrl(id, false),
        ),
        Err(e) => publish_ends(task, Err(api_error_for(e))),
    }
}

/// A publication after the storage was asked for the address.
pub open spec fn publish_addressed(
    task: PublishTaskView,
    address: Result<Seq<char>, StorageErrorView>,
) -> (PublishTaskView, PublishActionView) {
    match address {
        Ok(url) => publish_ends(task, Ok(url)),
        Err(e) => publish_ends(task, Err(api_error_for(e))),
    }
}

/// The plain form of what the storage answered.
pub open spec fn stored_view(answer: Result<String, StorageError>) -> Result<
    Seq<char>,
    StorageErrorView,
> {
    match answer {
        Ok(s) => Ok(s@),
        Err(e) => Err(e@),
    }
}

/// The plain form of what was read.
pub open spec fn read_view(read: Result<Vec<u8>, String>) -> Result<Seq<u8>, Seq<char>> {
    match read {
        Ok(data) => Ok(data@),
        Err(cause) => Err(cause@),
    }
}

impl PublishTask {
    fn end(&mut self, result: Result<String, ApiError>) -> (r: PublishAction)
        ensures
            (final(self)@, r@) == publish_ends(
                old(self)@,
                match result {
                    Ok(url) => Ok(url@),
                    Err(e) => Err(e@),
                },
            ),
    {
        self.stage = PublishStage::Done;
        PublishAction::Finish(result)
    }

    /// Takes in what came of reading the file.
    pub fn read(&mut self, read: Result<Vec<u8>, String>) -> (r: PublishAction)
        requires
            old(self)@.stage == PublishStage::Reading,
        ensures
            (final(self)@, r@) == publish_read(old(self)@, read_view(read)),
    {
        match read {
            Ok(data) => {
                self.stage = PublishStage::Uploading;
                PublishAction::Upload(self.file_path.clone(), data, self.mime.clone())
            },
            Err(cause) => self.end(
                Err(ApiError::server(join2("Read file failed: ", cause.as_str()))),
            ),
        }
    }

    /// Takes in what came of the upload: an identifier.
    pub fn uploaded(&mut self, uploaded: Result<String, StorageError>) -> (r: PublishAction)
        requires
            old(self)@.stage == PublishStage::Uploading,
        ensures
            (final(self)@, r@) == publish_uploaded(old(self)@, stored_view(uploaded)),
    {
        match uploaded {
            Ok(id) => {
                self.stage = PublishStage::Addressing;
                PublishAction::GetUrl(id, false)
            },
            Err(e) => self.end(Err(ApiError::from(e))),
        }
    }

    /// Takes in what address the storage gave.
    pub fn addressed(&mut self, address: Result<String, StorageError>) -> (r: PublishAction)
        requires
            old(self)@.stage == PublishStage::Addressing,
        ensures
            (final(self)@, r@) == publish_addressed(old(self)@, stored_view(address)),
    {
        match address {
            Ok(url) => self.end(Ok(url)),
            Err(e) => self.end(Err(ApiError::from(e))),
        }
    }
}

impl DownloadService {
    /// The service for a project's root, with the configured proxies and time
    /// limit.
    pub fn new(root: &str, asset_proxy: String, base_proxy: String, timeout: u64) -> (r:
        DownloadService)
        ensures
            r.base.proxy@ == asset_proxy_of(asset_proxy@, base_proxy@),
            r.base.timeout == timeout,
            r.image_dir@ == media_dir(root@, "image"@),
            r.video_dir@ == media_dir(root@, "video"@),
    {
        let proxy = select_proxy(asset_proxy, base_proxy);
        let base_dir = join_path(join_path(root, "data").as_str(), "tmp");
        DownloadService {
            base: BaseService::new(Some(proxy), timeout),
            image_dir: join_path(base_dir.as_str(), "image"),
            video_dir: join_path(base_dir.as_str(), "video"),
        }
    }

    /// The directory for a sort of media.
    pub open spec fn dir_of(&self, media_type: Seq<char>) -> Seq<char> {
        if media_type == "image"@ {
            self.image_dir@
        } else {
            self.video_dir@
        }
    }

    /// The directory for a sort of media.
    pub fn dir<'a>(&'a self, media_type: &str) -> (r: &'a str)
        ensures
            r@ == self.dir_of(media_type@),
    {
        if same_text(media_type, "image") {
            self.image_dir.as_str()
        } else {
            self.video_dir.as_str()
        }
    }

    /// Where a file is kept.
    pub fn cache_path(&self, file_path: &str, media_type: &str) -> (r: String)
        ensures
            r@ == join(self.dir_of(media_type@), cached_name(file_path@)),
    {
        let name = replaced_char(trimmed_start_char(file_path, '/').as_str(), '/', '-');
        join_path(self.dir(media_type), name.as_str())
    }

    /// The download of a file, before the first look.
    pub fn download(&self, file_path: &str, media_type: &str) -> (r: DownloadTask)
        ensures
            r@ == new_download(self.dir_of(media_type@), file_path@, media_type@),
    {
        let digest = sha1_digest(file_path.as_bytes());
        let lock_name = join4("download_", media_type, "_", digest.as_str());
        let path = rooted_path(file_path);
        let r = DownloadTask {
            path: self.cache_path(file_path, media_type),
            lock_name,
            url: join2(DOWNLOAD_API, path.as_str()),
            mime: String::new(),
            stage: DownloadStage::FirstLook,
        };
        r
    }

    /// The request for the file at an address, as curl makes it.
    pub fn request<'a>(&'a self, url: &'a str, headers: &'a HeaderMap) -> (r: CurlRequest<'a>)
        ensures
            r.proxy@ == self.base.proxy@,
            r.timeout == self.base.timeout,
            r.method@ == "GET"@,
            r.url@ == url@,
            *r.headers == *headers,
            !r.has_body,
            r.capture_headers,
    {
        CurlRequest {
            proxy: self.base.proxy.as_str(),
            timeout: self.base.timeout,
            method: "GET",
            url,
            headers,
            has_body: false,
            capture_headers: true,
        }
    }

    /// A downloaded file as a data URL, or the error for one that could not be
    /// read.
    pub fn to_base64(&self, read: Result<Vec<u8>, String>, mime: &str) -> (r: Result<
        String,
        ApiError,
    >)
        ensures
            match (read, r) {
                (Ok(bytes), Ok(s)) => s@ == crate::base_service::data_url_text(bytes@, mime@),
                (Err(cause), Err(e)) => e@ == server_error("read file failed: "@ + cause@),
                _ => false,
            },
    {
        self.base.to_b64(read, mime)
    }

    /// The publication of a file that was downloaded with a media type, and what to
    /// do first.
    pub fn download_and_upload(
        &self,
        file_path: &str,
        media_type: &str,
        mime: String,
        has_storage: bool,
        app_url: Option<String>,
    ) -> (r: (PublishTask, PublishAction))
        ensures
            (r.0@, r.1@) == publish_first(
                file_path@,
                media_type@,
                mime@,
                has_storage,
                text_option(app_url),
            ),
    {
        if has_storage {
            let task = PublishTask {
                file_path: file_path.to_string(),
                mime,
                stage: PublishStage::Reading,
            };
            (task, PublishAction::Read)
        } else {
            let app_url = match app_url {
                Some(url) => url,
                None => "http://127.0.0.1:8000".to_string(),
            };
            let app = trimmed_end_char(app_url.as_str(), '/');
            let url = join4(app.as_str(), "/v1/files/", media_type, file_path);
            let task = PublishTask {
                file_path: file_path.to_string(),
                mime,
                stage: PublishStage::Done,
            };
            (task, PublishAction::Finish(Ok(url)))
        }
    }

    /// The public address of a file.
    pub fn get_public_url(&self, app_url: &str, file_path: &str) -> (r: String)
        ensures
            r@ == public_url(app_url@, file_path@),
    {
        let path = rooted_path(file_path);
        if app_url.is_empty() {
            join2(DOWNLOAD_API, path.as_str())
        } else {
            let app = trimmed_end_char(app_url, '/');
            crate::text::join3(app.as_str(), "/v1/files", path.as_str())
        }
    }
}

/// A name in the cache holds no slash. Where it names a file at all, the file
/// stands right in the directory.
pub proof fn law_cached_name_is_plain(dir: Seq<char>, file_path: Seq<char>)
    requires
        cached_name(file_path).len() > 0,
        cached_name(file_path) != seq!['.'],
        cached_name(file_path) != seq!['.', '.'],
    ensures
        !cached_name(file_path).contains('/'),
        file_name(join(dir, cached_name(file_path))) == Some(cached_name(file_path)),
{
    let name = cached_name(file_path);
    assert forall|i: int| 0 <= i < name.len() implies name[i] != '/' by {}
    lemma_join_name(dir, name);
}

/// A file is not written under its name in the cache but beside it, so that it
/// is there only when it is complete.
pub proof fn law_partial_path_differs(path: Seq<char>)
    requires
        file_name(path) is Some,
    ensures
        partial_path(path) != path,
{
    reveal_strlit("tmp");
    let head = path.take(name_end(path));
    let start = name_start(head);
    let name = head.skip(start);
    let stem = path.take(start) + stem_of_name(name);
    lemma_name_end_bounds(path);
    lemma_name_start_bounds(head);
    lemma_last_dot_bounds(name);
    assert(partial_path(path).last() == 'p');
    if path.last() == 'p' {
        assert(name_end(path) == path.len());
        assert(partial_path(path).len() > path.len());
    }
}

/// A file that is not in the cache is looked for again under its lock, requested
/// from upstream, written beside its name, and renamed. What is returned is its
/// path in the cache and the media type of the answer.
pub proof fn law_download_from_upstream(
    dir: Seq<char>,
    file_path: Seq<char>,
    media_type: Seq<char>,
    mime: Seq<char>,
    response: CurlResponseView,
)
    requires
        response.status == 200,
    ensures
        ({
            let path = join(dir, cached_name(file_path));
            let t0 = new_download(dir, file_path, media_type);
            let (t1, a1) = after_look(t0, false, mime);
            let (t2, a2) = after_lock(t1, Ok(()));
            let (t3, a3) = after_look(t2, false, mime);
            let (t4, a4) = after_answer(t3, Ok(response), content_type_of(Ok(response)));
            let (t5, a5) = after_write(t4, Ok(()));
            let (t6, a6) = after_rename(t5, Ok(()));
            &&& a1 == DownloadActionView::Lock(download_lock(file_path, media_type), 10)
            &&& a2 == DownloadActionView::LookUp(path)
            &&& a3 == DownloadActionView::Request(DOWNLOAD_API@ + rooted(file_path))
            &&& a4 == DownloadActionView::Write(partial_path(path), response.body)
            &&& a5 == DownloadActionView::Rename(partial_path(path), path)
            &&& a6 == DownloadActionView::Finish(
                Ok((path, mime_of_header(value_of_header(response.headers, "content-type"@)))),
                true,
            )
        }),
{
}

/// A file is requested only after it was looked for in vain a second time, under
/// its lock.
pub proof fn law_request_only_when_missing(task: DownloadTaskView, exists: bool, mime: Seq<char>)
    requires
        task.stage == DownloadStage::FirstLook || task.stage == DownloadStage::SecondLook,
    ensures
        after_look(task, exists, mime).1 is Request <==> (task.stage == DownloadStage::SecondLook
            && !exists),
{
}

/// A slash before a path makes no difference to where a file is kept, where it
/// comes from, and its public address.
pub proof fn law_leading_slash_is_ignored(
    dir: Seq<char>,
    file_path: Seq<char>,
    media_type: Seq<char>,
    app_url: Seq<char>,
)
    requires
        file_path.len() == 0 || file_path[0] != '/',
    ensures
        new_download(dir, "/"@ + file_path, media_type).path == new_download(
            dir,
            file_path,
            media_type,
        ).path,
        new_download(dir, "/"@ + file_path, media_type).url == new_download(
            dir,
            file_path,
            media_type,
        ).url,
        public_url(app_url, "/"@ + file_path) == public_url(app_url, file_path),
{
    reveal_strlit("/");
    assert(("/"@ + file_path).drop_first() == file_path);
    assert(trim_start_char("/"@ + file_path, '/') == trim_start_char(file_path, '/'));
}

/// Without an address of its own the gateway names the address that it would
/// download from.
pub proof fn law_public_url_is_source(
    dir: Seq<char>,
    file_path: Seq<char>,
    media_type: Seq<char>,
)
    ensures
        public_url(Seq::empty(), file_path) == new_download(dir, file_path, media_type).url,
{
}

/// With a storage, a file that was read is uploaded once under its path, and the
/// result is the address that the storage gives, not as a direct one, for the
/// identifier of that upload. An error of either is answered as a storage error.
pub proof fn law_publication(
    file_path: Seq<char>,
    media_type: Seq<char>,
    mime: Seq<char>,
    app_url: Option<Seq<char>>,
    data: Seq<u8>,
    uploaded: Result<Seq<char>, StorageErrorView>,
    address: Result<Seq<char>, StorageErrorView>,
)
    ensures
        ({
            let (t0, a0) = publish_first(file_path, media_type, mime, true, app_url);
            let (t1, a1) = publish_read(t0, Ok(data));
            let (t2, a2) = publish_uploaded(t1, uploaded);
            let (t3, a3) = publish_addressed(t2, address);
            &&& a0 == PublishActionView::Read
            &&& a1 == PublishActionView::Upload(file_path, data, mime)
            &&& match uploaded {
                Ok(id) => a2 == PublishActionView::GetUrl(id, false) && a3
                    == PublishActionView::Finish(
                    match address {
                        Ok(url) => Ok(url),
                        Err(e) => Err(api_error_for(e)),
                    },
                ),
                Err(e) => a2 == PublishActionView::Finish(Err(api_error_for(e))),
            }
        }),
{
}

/// The cache of a project is in two directories below its root.
pub proof fn law_download_service(
    root: &str,
    asset_proxy: String,
    base_proxy: String,
    timeout: u64,
    r: DownloadService,
)
    requires
        call_ensures(DownloadService::new, (root, asset_proxy, base_proxy, timeout), r),
    ensures
        r.image_dir@ == join(join(join(root@, "data"@), "tmp"@), "image"@),
        r.video_dir@ == join(join(join(root@, "data"@), "tmp"@), "video"@),
        r.base.timeout == timeout,
        asset_proxy@.len() > 0 ==> r.base.proxy@ == asset_proxy@,
        asset_proxy@.len() == 0 ==> r.base.proxy@ == base_proxy@,
{
}

/// Images are kept in one directory, and everything else in the other one.
pub proof fn law_cache_dir(service: &DownloadService, media_type: &str, r: &str)
    requires
        call_ensures(DownloadService::dir, (service, media_type), r),
    ensures
        media_type@ == "image"@ ==> r@ == service.image_dir@,
        media_type@ != "image"@ ==> r@ == service.video_dir@,
{
}

/// A file is kept under its path without the slashes at the start, and with hyphens
/// for the others.
pub proof fn law_cache_path(
    service: &DownloadService,
    file_path: &str,
    media_type: &str,
    n: nat,
    path: Seq<char>,
    dir: &str,
    r: String,
)
    requires
        call_ensures(DownloadService::cache_path, (service, file_path, media_type), r),
        call_ensures(DownloadService::dir, (service, media_type), dir),
        file_path@ == Seq::new(n, |i: int| '/') + path,
        path.len() == 0 || path[0] != '/',
    ensures
        r@ == join(dir@, replace_char(path, '/', '-')),
{
    law_trim_char(n, '/', path);
}

/// A download begins with a look at the place where the file is kept, and knows
/// where it comes from and the lock that it takes.
pub proof fn law_download_begins(
    service: &DownloadService,
    file_path: &str,
    media_type: &str,
    path: Seq<char>,
    kept: String,
    r: DownloadTask,
    first: DownloadAction,
)
    requires
        call_ensures(DownloadService::download, (service, file_path, media_type), r),
        call_ensures(DownloadService::cache_path, (service, file_path, media_type), kept),
        call_ensures(DownloadTask::first_look, (&r,), first),
    ensures
        r@.path == kept@,
        first is LookUp && first->LookUp_0@ == kept@,
        file_path@ == seq!['/'] + path ==> r@.url == "https://assets.grok.com"@ + file_path@,
        file_path@.len() == 0 || file_path@[0] != '/' ==> r@.url == "https://assets.grok.com"@ + (
        "/"@ + file_path@),
        r@.lock_name == "download_"@ + media_type@ + "_"@ + sha1_hex(encode_utf8(file_path@)),
        r@.stage == DownloadStage::FirstLook,
{
}

/// A file that is in the cache is returned with its media type by its name, and the
/// cache has not grown. One that is not is looked for again under its lock, and then
/// requested.
pub proof fn law_looked_up(task: &mut DownloadTask, exists: bool, mime: String, r: DownloadAction)
    requires
        call_ensures(DownloadTask::looked_up_as, (task, exists, mime), r),
    ensures
        exists ==> r@ == DownloadActionView::Finish(Ok((old(task)@.path, mime@)), false),
        exists ==> final(task)@.stage == DownloadStage::Done,
        !exists && old(task)@.stage == DownloadStage::FirstLook ==> r@ == DownloadActionView::Lock(
            old(task)@.lock_name,
            10,
        ) && final(task)@.stage == DownloadStage::Locking,
        !exists && old(task)@.stage == DownloadStage::SecondLook ==> r@
            == DownloadActionView::Request(old(task)@.url) && final(task)@.stage
            == DownloadStage::Requesting,
        final(task)@.path == old(task)@.path,
        final(task)@.url == old(task)@.url,
        final(task)@.lock_name == old(task)@.lock_name,
{
}

/// The media type of a file in the cache goes by its name.
pub proof fn law_cached_media_type(task: &mut DownloadTask, exists: bool, r: DownloadAction)
    requires
        call_ensures(DownloadTask::looked_up, (task, exists), r),
    ensures
        exists ==> r@ == DownloadActionView::Finish(
            Ok((old(task)@.path, mime_for_path(old(task)@.path))),
            false,
        ),
        exists ==> final(task)@.stage == DownloadStage::Done,
        !exists && old(task)@.stage == DownloadStage::FirstLook ==> r@ == DownloadActionView::Lock(
            old(task)@.lock_name,
            10,
        ) && final(task)@.stage == DownloadStage::Locking,
        !exists && old(task)@.stage == DownloadStage::SecondLook ==> r@
            == DownloadActionView::Request(old(task)@.url) && final(task)@.stage
            == DownloadStage::Requesting,
        final(task)@.path == old(task)@.path,
        final(task)@.url == old(task)@.url,
{
}

/// Under the lock the cache is looked up again. Without it the download fails, with
/// the error for the lock.
pub proof fn law_locked(
    task: &mut DownloadTask,
    locked: Result<(), ApiError>,
    r: DownloadAction,
)
    requires
        call_ensures(DownloadTask::locked, (task, locked), r),
    ensures
        locked is Ok ==> r@ == DownloadActionView::LookUp(old(task)@.path) && final(task)@.stage
            == DownloadStage::SecondLook,
        locked is Err ==> r@ == DownloadActionView::Finish(Err(locked->Err_0@), false) && final(task)@.stage == DownloadStage::Done,
        final(task)@.path == old(task)@.path,
        final(task)@.url == old(task)@.url,
{
}

/// The body of an answer is written beside the name of the file, and its media type
/// is the one that the answer names, whatever that is. Any answer but a success fails
/// the download.
pub proof fn law_answered(
    task: &mut DownloadTask,
    answer: Result<CurlResponse, ApiError>,
    content_type: Option<String>,
    t: Seq<char>,
    rest: Seq<char>,
    r: DownloadAction,
)
    requires
        call_ensures(DownloadTask::answered_as, (task, answer, content_type), r),
        !t.contains(';'),
        content_type is Some ==> content_type->0@ == t || content_type->0@ == t + seq![';'] + rest,
    ensures
        answer is Ok && answer->Ok_0.status == 200 ==> r@ == DownloadActionView::Write(
            partial_path(old(task)@.path),
            answer->Ok_0.body@,
        ) && final(task)@.stage == DownloadStage::Writing,
        answer is Ok && answer->Ok_0.status == 200 && content_type is Some ==> final(task)@.mime
            == t,
        answer is Ok && answer->Ok_0.status == 200 && content_type is None ==> final(task)@.mime
            == "application/octet-stream"@,
        answer is Ok && answer->Ok_0.status != 200 ==> r is Finish && r->Finish_0 is Err
            && r->Finish_0->Err_0.kind == ApiErrorKind::Upstream && r->Finish_0->Err_0.message@
            == "Download failed: "@ + decimal(answer->Ok_0.status as nat) && !r->Finish_1,
        answer is Err ==> r@ == DownloadActionView::Finish(Err(answer->Err_0@), false),
        !(answer is Ok && answer->Ok_0.status == 200) ==> final(task)@.stage
            == DownloadStage::Done,
        final(task)@.path == old(task)@.path,
{
    law_mime_of_header(t, rest);
    if answer is Ok && answer->Ok_0.status != 200 {
        assert(r@ is Finish);
    }
}

/// The media type of a download is what its answer names in the first header for it,
/// up to a semicolon, and that of unknown content exactly where there is no such
/// header.
pub proof fn law_answered_media_type(
    task: &mut DownloadTask,
    response: CurlResponse,
    i: int,
    t: Seq<char>,
    rest: Seq<char>,
    r: DownloadAction,
)
    requires
        call_ensures(DownloadTask::answered, (task, Ok::<CurlResponse, ApiError>(response)), r),
        response.status == 200,
        !t.contains(';'),
        0 <= i <= response.headers@.len(),
        forall|j: int|
            0 <= j < i ==> lowercase((#[trigger] response.headers@[j]).0@) != lowercase(
                "content-type"@,
            ),
        i < response.headers@.len() ==> lowercase(response.headers@[i].0@) == lowercase(
            "content-type"@,
        ) && (response.headers@[i].1@ == t || response.headers@[i].1@ == t + seq![';'] + rest),
    ensures
        r@ == DownloadActionView::Write(partial_path(old(task)@.path), response.body@),
        i < response.headers@.len() ==> final(task)@.mime == t,
        i == response.headers@.len() ==> final(task)@.mime == "application/octet-stream"@,
        final(task)@.stage == DownloadStage::Writing,
        final(task)@.path == old(task)@.path,
{
    let pairs = response@.headers;
    let names = lowered_names(pairs);
    assert forall|j: int| 0 <= j < pairs.len() implies #[trigger] names[j] == lowercase(
        response.headers@[j].0@,
    ) && pairs[j].1 == response.headers@[j].1@ by {
        assert(pairs[j] == (response.headers@[j].0@, response.headers@[j].1@));
    }
    assert forall|j: int| 0 <= j < i implies names[j] != lowercase("content-type"@) by {
        assert(lowercase(response.headers@[j].0@) != lowercase("content-type"@));
    }
    lemma_first_value(names, pairs, lowercase("content-type"@), i);
    law_mime_of_header(t, rest);
}

/// A download fails with the error that its request ends with.
pub proof fn law_failed_request(
    task: &mut DownloadTask,
    answer: Result<CurlResponse, ApiError>,
    r: DownloadAction,
)
    requires
        call_ensures(DownloadTask::answered, (task, answer), r),
        answer is Err || answer->Ok_0.status != 200,
    ensures
        r is Finish && r->Finish_0 is Err && !r->Finish_1,
        answer is Err ==> r->Finish_0->Err_0@ == answer->Err_0@,
        answer is Ok ==> r->Finish_0->Err_0.kind == ApiErrorKind::Upstream
            && r->Finish_0->Err_0.message@ == "Download failed: "@ + decimal(
            answer->Ok_0.status as nat,
        ),
        final(task)@.stage == DownloadStage::Done,
{
    assert(r@ is Finish);
}

/// A file is written under its name with `tmp` behind the extension, or as the
/// extension where there is none.
pub proof fn law_partial_path(dir: Seq<char>, stem: Seq<char>, ext: Seq<char>)
    requires
        stem.len() > 0,
        ext.len() > 0,
        !stem.contains('/'),
        !ext.contains('/'),
        !ext.contains('.'),
    ensures
        partial_path(join(dir, stem + seq!['.'] + ext)) == join(
            dir,
            stem + seq!['.'] + (ext + "tmp"@),
        ),
        !stem.contains('.') ==> partial_path(join(dir, stem)) == join(dir, stem + ".tmp"@),
{
    reveal_strlit("tmp");
    reveal_strlit(".tmp");
    let other = ext + "tmp"@;
    assert forall|i: int| 0 <= i < other.len() implies other[i] != '/' by {
        if i < ext.len() {
            assert(other[i] == ext[i] && ext.contains(ext[i]));
        }
    }
    law_extension(dir, stem, ext, other);
    if !stem.contains('.') {
        let path = join(dir, stem);
        law_no_extension(dir, stem);
        assert(stem[0] != '.' && stem[0] != '/') by {
            assert(stem.contains(stem[0]));
        }
        lemma_join_name(dir, stem);
        assert(path.take(path.len() as int) =~= path);
        let front = path.take(path.len() - stem.len());
        assert(path =~= front + stem);
        assert(Seq::<char>::empty() + "tmp"@ =~= "tmp"@);
        assert(file_name(path) == Some(stem));
        assert(stem_of_name(stem) == stem);
        let full = stem + ".tmp"@;
        assert(full[0] == stem[0]);
        assert(join(dir, full) =~= front + full);
        assert((front + stem).push('.') + "tmp"@ =~= front + full);
    }
}

/// A file that was written gets its name, and is then returned with the media type
/// of its answer: the cache has grown. A file that could not be written or renamed
/// fails the download.
pub proof fn law_written_and_renamed(
    task: &mut DownloadTask,
    done: Result<(), String>,
    r: DownloadAction,
)
    ensures
        call_ensures(DownloadTask::written, (task, done), r) && done is Ok ==> r@
            == DownloadActionView::Rename(partial_path(old(task)@.path), old(task)@.path) && final(task)@.stage == DownloadStage::Renaming && final(task)@.path == old(task)@.path && final(task)@.mime == old(task)@.mime,
        call_ensures(DownloadTask::written, (task, done), r) && done is Err ==> r is Finish
            && r->Finish_0 is Err && r->Finish_0->Err_0.kind == ApiErrorKind::Server
            && r->Finish_0->Err_0.message@ == "Write tmp file failed: "@ + done->Err_0@
            && !r->Finish_1,
        call_ensures(DownloadTask::renamed, (task, done), r) && done is Ok ==> r@
            == DownloadActionView::Finish(Ok((old(task)@.path, old(task)@.mime)), true) && final(task)@.stage == DownloadStage::Done,
        call_ensures(DownloadTask::renamed, (task, done), r) && done is Err ==> r is Finish
            && r->Finish_0 is Err && r->Finish_0->Err_0.kind == ApiErrorKind::Server
            && r->Finish_0->Err_0.message@ == "Rename tmp file failed: "@ + done->Err_0@
            && !r->Finish_1,
{
    if call_ensures(DownloadTask::written, (task, done), r) && done is Err {
        assert(r@ is Finish);
    }
    if call_ensures(DownloadTask::renamed, (task, done), r) && done is Err {
        assert(r@ is Finish);
    }
}

/// A download through all its steps returns the media type that the answer names,
/// whatever it is.
pub proof fn law_downloaded_media_type(
    dir: Seq<char>,
    file_path: Seq<char>,
    media_type: Seq<char>,
    mime: Seq<char>,
    response: CurlResponseView,
    content_type: Option<Seq<char>>,
    t: Seq<char>,
    rest: Seq<char>,
)
    requires
        response.status == 200,
        !t.contains(';'),
        content_type is Some ==> content_type->0 == t || content_type->0 == t + seq![';'] + rest,
    ensures
        ({
            let (t1, a1) = after_look(new_download(dir, file_path, media_type), false, mime);
            let (t2, a2) = after_lock(t1, Ok(()));
            let (t3, a3) = after_look(t2, false, mime);
            let (t4, a4) = after_answer(t3, Ok(response), content_type);
            let (t5, a5) = after_write(t4, Ok(()));
            let (t6, a6) = after_rename(t5, Ok(()));
            a6 == DownloadActionView::Finish(
                Ok(
                    (
                        join(dir, replace_char(trim_start_char(file_path, '/'), '/', '-')),
                        if content_type is Some {
                            t
                        } else {
                            "application/octet-stream"@
                        },
                    ),
                ),
                true,
            )
        }),
{
    law_mime_of_header(t, rest);
}

/// A file is requested from its address, with its headers captured.
pub proof fn law_download_request(
    service: &DownloadService,
    url: &str,
    headers: &HeaderMap,
    r: CurlRequest,
)
    requires
        call_ensures(DownloadService::request, (service, url, headers), r),
    ensures
        r.method@ == "GET"@,
        r.url@ == url@,
        r.capture_headers,
        !r.has_body,
        r.proxy@ == service.base.proxy@,
        r.timeout == service.base.timeout,
        *r.headers == *headers,
{
}

/// A downloaded file is handed out as a data URL with its media type.
pub proof fn law_download_as_data_url(
    service: &DownloadService,
    read: Result<Vec<u8>, String>,
    mime: &str,
    r: Result<String, ApiError>,
)
    requires
        call_ensures(DownloadService::to_base64, (service, read, mime), r),
    ensures
        read is Ok ==> r is Ok && r->Ok_0@ == "data:"@ + mime@ + ";base64,"@ + base64_text(
            read->Ok_0@,
        ),
        read is Err ==> r is Err && r->Err_0.kind == ApiErrorKind::Server && r->Err_0.message@
            == "read file failed: "@ + read->Err_0@,
{
}

/// With a storage a downloaded file is read to be published, with the media type
/// that it was downloaded with. Without one it has its address through the gateway.
pub proof fn law_publication_begins(
    service: &DownloadService,
    file_path: &str,
    media_type: &str,
    mime: String,
    has_storage: bool,
    app_url: Option<String>,
    n: nat,
    app: Seq<char>,
    r: (PublishTask, PublishAction),
)
    requires
        call_ensures(
            DownloadService::download_and_upload,
            (service, file_path, media_type, mime, has_storage, app_url),
            r,
        ),
        app.len() == 0 || app.last() != '/',
        app_url is Some ==> app_url->0@ == app + Seq::new(n, |i: int| '/'),
    ensures
        has_storage ==> r.1 is Read && r.0@.stage == PublishStage::Reading,
        r.0@.file_path == file_path@,
        r.0@.mime == mime@,
        !has_storage && app_url is Some ==> r.1@ == PublishActionView::Finish(
            Ok(app + "/v1/files/"@ + media_type@ + file_path@),
        ),
        !has_storage && app_url is None ==> r.1@ == PublishActionView::Finish(
            Ok("http://127.0.0.1:8000"@ + "/v1/files/"@ + media_type@ + file_path@),
        ),
{
    law_trim_char(n, '/', app);
    let usual = "http://127.0.0.1:8000"@;
    reveal_strlit("http://127.0.0.1:8000");
    law_trim_char(0, '/', usual);
    assert(usual + Seq::new(0, |i: int| '/') =~= usual);
    if has_storage {
        assert(r.1@ is Read);
    }
}

/// A file that is published is uploaded as it was read, under its path and with its
/// media type. The result is the address, not a direct one, that the storage gives
/// for what the upload returned. Every failure ends the publication with its error.
pub proof fn law_publication_steps(
    task: &mut PublishTask,
    read: Result<Vec<u8>, String>,
    stored: Result<String, StorageError>,
    r: PublishAction,
)
    ensures
        call_ensures(PublishTask::read, (task, read), r) && read is Ok ==> r@
            == PublishActionView::Upload(old(task)@.file_path, read->Ok_0@, old(task)@.mime)
            && final(task)@.stage == PublishStage::Uploading,
        call_ensures(PublishTask::read, (task, read), r) && read is Err ==> r is Finish
            && r->Finish_0 is Err && r->Finish_0->Err_0.kind == ApiErrorKind::Server
            && r->Finish_0->Err_0.message@ == "Read file failed: "@ + read->Err_0@,
        call_ensures(PublishTask::uploaded, (task, stored), r) && stored is Ok ==> r@
            == PublishActionView::GetUrl(stored->Ok_0@, false) && final(task)@.stage
            == PublishStage::Addressing,
        call_ensures(PublishTask::uploaded, (task, stored), r) && stored is Err ==> r@
            == PublishActionView::Finish(Err(api_error_for(stored->Err_0@))),
        call_ensures(PublishTask::addressed, (task, stored), r) && stored is Ok ==> r@
            == PublishActionView::Finish(Ok(stored->Ok_0@)) && final(task)@.stage
            == PublishStage::Done,
        call_ensures(PublishTask::addressed, (task, stored), r) && stored is Err ==> r@
            == PublishActionView::Finish(Err(api_error_for(stored->Err_0@))),
        call_ensures(PublishTask::read, (task, read), r) || call_ensures(
            PublishTask::uploaded,
            (task, stored),
            r,
        ) ==> final(task)@.file_path == old(task)@.file_path && final(task)@.mime == old(task)@.mime,
{
    if call_ensures(PublishTask::read, (task, read), r) && read is Err {
        assert(r@ is Finish);
    }
}

/// The public address of a file is one of the gateway where its address is known,
/// and else the one that the file comes from.
pub proof fn law_public_url(
    service: &DownloadService,
    app_url: &str,
    file_path: &str,
    n: nat,
    app: Seq<char>,
    path: Seq<char>,
    r: String,
)
    requires
        call_ensures(DownloadService::get_public_url, (service, app_url, file_path), r),
        app.len() == 0 || app.last() != '/',
        app_url@ == app + Seq::new(n, |i: int| '/'),
        file_path@ == path || file_path@ == "/"@ + path,
        path.len() == 0 || path[0] != '/',
    ensures
        app_url@.len() == 0 ==> r@ == "https://assets.grok.com"@ + ("/"@ + path),
        app_url@.len() > 0 ==> r@ == app + "/v1/files"@ + ("/"@ + path),
{
    reveal_strlit("/");
    law_trim_char(n, '/', app);
}

} // verus!
