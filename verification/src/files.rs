//! How the gateway serves stored files: from the storage, or else from the cache.

use crate::cache::view_url;
use crate::download::{media_dir, new_download, DownloadService};
use crate::encoding::{law_percent_round_trip, percent_decoded, percent_encoded, url_decode};
use crate::mime::{guess_mime, mime_for_path};
use crate::path::{join, join_path};
use crate::storage::{
    base_dir_of, law_places_ignore_leading_slashes, law_upload_is_looked_for, media_type_of,
    places_of, safe_name, stored_path, LocalMediaStorage,
};
use crate::text::{
    join2, law_trim_char, replace_char, replaced_char, same_text, text_pairs,
    trim_start_char, trimmed_start_char,
};
use vstd::prelude::*;

verus! {

/// How long browsers may keep a file.
pub const CACHE_CONTROL: &'static str = "public, max-age=31536000, immutable";

/// The answer to a request for a file.
pub enum FileAnswer {
    /// The file, with these headers.
    File(Vec<(String, String)>),
    /// There is none, in these words.
    NotFound(String),
}

/// The plain form of a [`FileAnswer`].
pub enum FileAnswerView {
    File(Seq<(Seq<char>, Seq<char>)>),
    NotFound(Seq<char>),
}

impl View for FileAnswer {
    type V = FileAnswerView;

    open spec fn view(&self) -> FileAnswerView {
        match *self {
            FileAnswer::File(headers) => FileAnswerView::File(text_pairs(headers@)),
            FileAnswer::NotFound(words) => FileAnswerView::NotFound(words@),
        }
    }
}

/// What to do next to serve a file.
pub enum ServeStep {
    /// To ask the storage for the file at a path.
    AskStorage(String),
    /// To read a file of the cache.
    ReadFile(String),
    /// To answer.
    Answer(FileAnswer),
}

/// The plain form of a [`ServeStep`].
pub enum ServeStepView {
    AskStorage(Seq<char>),
    ReadFile(Seq<char>),
    Answer(FileAnswerView),
}

impl View for ServeStep {
    type V = ServeStepView;

    open spec fn view(&self) -> ServeStepView {
        match *self {
            ServeStep::AskStorage(path) => ServeStepView::AskStorage(path@),
            ServeStep::ReadFile(path) => ServeStepView::ReadFile(path@),
            ServeStep::Answer(answer) => ServeStepView::Answer(answer@),
        }
    }
}

/// The plain form of a [`ServeTask`]: the path in the storage, and the files of
/// the cache that are left to try, with their media types.
pub struct ServeTaskView {
    pub storage_path: Seq<char>,
    pub left: Seq<(Seq<char>, Seq<char>)>,
}

/// A request for a file: what to do next is decided here, and done elsewhere.
pub struct ServeTask {
    storage_path: String,
    files: Vec<(String, String)>,
    next: usize,
}

impl View for ServeTask {
    type V = ServeTaskView;

    closed spec fn view(&self) -> ServeTaskView {
        ServeTaskView {
            storage_path: self.storage_path@,
            left: text_pairs(self.files@).skip(self.next as int),
        }
    }
}

/// The headers of a file.
pub open spec fn file_headers(mime: Seq<char>) -> Seq<(Seq<char>, Seq<char>)> {
    seq![("Cache-Control"@, CACHE_CONTROL@), ("Content-Type"@, mime)]
}

/// The next file of the cache to try, or the answer that there is none.
pub open spec fn try_next(task: ServeTaskView) -> ServeStepView {
    if task.left.len() > 0 {
        ServeStepView::ReadFile(task.left[0].0)
    } else {
        ServeStepView::Answer(FileAnswerView::NotFound("File not found"@))
    }
}

/// What to do first: to ask the storage, where there is one.
pub open spec fn serve_first(task: ServeTaskView, has_storage: bool) -> ServeStepView {
    if has_storage {
        ServeStepView::AskStorage(task.storage_path)
    } else {
        try_next(task)
    }
}

/// What to do once the storage has answered: with the media type of the file, or
/// with an error.
pub open spec fn serve_stored(task: ServeTaskView, mime: Option<Seq<char>>) -> ServeStepView {
    match mime {
        Some(mime) => ServeStepView::Answer(FileAnswerView::File(file_headers(mime))),
        None => try_next(task),
    }
}

/// The request once a file of the cache was tried, and what to do then.
pub open spec fn serve_read(task: ServeTaskView, found: bool) -> (ServeTaskView, ServeStepView) {
    if found {
        (task, ServeStepView::Answer(FileAnswerView::File(file_headers(task.left[0].1))))
    } else {
        let rest = ServeTaskView { left: task.left.drop_first(), ..task };
        (rest, try_next(rest))
    }
}

/// The file of the cache that a request names.
pub open spec fn served_path(root: Seq<char>, is_image: bool, file: Seq<char>) -> Seq<char> {
    let dir = if is_image {
        media_dir(root, "image"@)
    } else {
        media_dir(root, "video"@)
    };
    join(dir, replace_char(file, '/', '-'))
}

/// The request for an image or a video. `mime` is the media type of the image.
pub open spec fn media_task(
    root: Seq<char>,
    is_image: bool,
    file: Seq<char>,
    mime: Seq<char>,
) -> ServeTaskView {
    ServeTaskView {
        storage_path: "/"@ + trim_start_char(file, '/'),
        left: seq![
            (
                served_path(root, is_image, file),
                if is_image {
                    mime
                } else {
                    "video/mp4"@
                },
            ),
        ],
    }
}

/// A percent-encoded path, decoded where that is possible.
pub open spec fn decoded_path(file: Seq<char>) -> Seq<char> {
    match percent_decoded(file) {
        Some(path) => path,
        None => file,
    }
}

/// The files of the cache that a path in the storage stands for.
pub open spec fn stored_paths(root: Seq<char>, file_path: Seq<char>) -> (Seq<char>, Seq<char>) {
    (
        join(media_dir(root, "image"@), safe_name(file_path)),
        join(media_dir(root, "video"@), safe_name(file_path)),
    )
}

/// The request for a file by its path in the storage. `image_mime` and
/// `video_mime` are the media types of the two files of the cache.
pub open spec fn stored_task(
    root: Seq<char>,
    file_path: Seq<char>,
    image_mime: Seq<char>,
    video_mime: Seq<char>,
) -> ServeTaskView {
    ServeTaskView {
        storage_path: file_path,
        left: seq![
            (stored_paths(root, file_path).0, image_mime),
            (stored_paths(root, file_path).1, video_mime),
        ],
    }
}

/// The headers of a file.
fn headers_for(mime: String) -> (r: Vec<(String, String)>)
    ensures
        text_pairs(r@) == file_headers(mime@),
{
    let mut headers: Vec<(String, String)> = Vec::new();
    headers.push(("Cache-Control".to_string(), CACHE_CONTROL.to_string()));
    headers.push(("Content-Type".to_string(), mime));
    assert(text_pairs(headers@) == file_headers(mime@));
    headers
}

impl ServeTask {
    /// All files of the cache that were tried are behind the next one.
    pub closed spec fn well_formed(&self) -> bool {
        self.next <= self.files@.len()
    }

    /// The request for a file at a path in the storage, or at one of some paths
    /// in the cache, which come with their media types.
    pub fn new(storage_path: String, files: Vec<(String, String)>) -> (r: ServeTask)
        ensures
            r.well_formed(),
            r@ == (ServeTaskView { storage_path: storage_path@, left: text_pairs(files@) }),
    {
        let r = ServeTask { storage_path, files, next: 0 };
        assert(r@.left == text_pairs(files@));
        r
    }

    fn try_file(&self) -> (r: ServeStep)
        requires
            self.well_formed(),
        ensures
            r@ == try_next(self@),
    {
        if self.next < self.files.len() {
            assert(self@.left[0] == text_pairs(self.files@)[self.next as int]);
            ServeStep::ReadFile(self.files[self.next].0.clone())
        } else {
            ServeStep::Answer(FileAnswer::NotFound("File not found".to_string()))
        }
    }

    /// What to do first.
    pub fn first(&self, has_storage: bool) -> (r: ServeStep)
        requires
            self.well_formed(),
        ensures
            r@ == serve_first(self@, has_storage),
    {
        if has_storage {
            ServeStep::AskStorage(self.storage_path.clone())
        } else {
            self.try_file()
        }
    }

    /// What to do once the storage has answered: with the media type of the file,
    /// or with an error.
    pub fn stored(&self, mime: Option<String>) -> (r: ServeStep)
        requires
            self.well_formed(),
        ensures
            r@ == serve_stored(
                self@,
                match mime {
                    Some(s) => Some(s@),
                    None => None,
                },
            ),
    {
        match mime {
            Some(mime) => ServeStep::Answer(FileAnswer::File(headers_for(mime))),
            None => self.try_file(),
        }
    }

    /// What to do once a file of the cache was tried.
    pub fn read(&mut self, found: bool) -> (r: ServeStep)
        requires
            old(self).well_formed(),
            old(self)@.left.len() > 0,
        ensures
            final(self).well_formed(),
            (final(self)@, r@) == serve_read(old(self)@, found),
    {
        let ghost before = self@;
        assert(before.left[0] == text_pairs(self.files@)[self.next as int]);
        if found {
            let mime = self.files[self.next].1.clone();
            ServeStep::Answer(FileAnswer::File(headers_for(mime)))
        } else {
            let n = self.files.len();
            assert(self.next < n);
            self.next = self.next + 1;
            assert(self@.left == before.left.drop_first());
            self.try_file()
        }
    }
}

/// The answer where no files are served.
pub open spec fn disabled_answer() -> FileAnswerView {
    FileAnswerView::NotFound("Not Found"@)
}

/// The request for an image or, with any other `media_type`, a video.
pub fn serve_file(file: &str, media_type: &str, root: &str) -> (r: ServeTask)
    ensures
        r.well_formed(),
        r@ == media_task(
            root@,
            media_type@ == "image"@,
            file@,
            mime_for_path(served_path(root@, true, file@)),
        ),
{
    let is_image = same_text(media_type, "image");
    let storage_path = join2("/", trimmed_start_char(file, '/').as_str());
    let base = join_path(join_path(root, "data").as_str(), "tmp");
    let dir = if is_image {
        join_path(base.as_str(), "image")
    } else {
        join_path(base.as_str(), "video")
    };
    let path = join_path(dir.as_str(), replaced_char(file, '/', '-').as_str());
    let mime = if is_image {
        guess_mime(path.as_str())
    } else {
        "video/mp4".to_string()
    };
    let mut files: Vec<(String, String)> = Vec::new();
    files.push((path, mime));
    proof {
        let wanted = media_task(
            root@,
            is_image,
            file@,
            mime_for_path(served_path(root@, true, file@)),
        );
        assert(text_pairs(files@) == wanted.left);
    }
    ServeTask::new(storage_path, files)
}

/// The request for an image, or the answer where no files are served.
pub fn get_image(enabled: bool, file: &str, root: &str) -> (r: Result<ServeTask, FileAnswer>)
    ensures
        match r {
            Ok(task) => enabled && task.well_formed() && task@ == media_task(
                root@,
                true,
                file@,
                mime_for_path(served_path(root@, true, file@)),
            ),
            Err(answer) => !enabled && answer@ == disabled_answer(),
        },
{
    if !enabled {
        return Err(FileAnswer::NotFound("Not Found".to_string()));
    }
    Ok(serve_file(file, "image", root))
}

/// The request for an image under its short address.
pub fn get_image_alias(enabled: bool, file: &str, root: &str) -> (r: Result<ServeTask, FileAnswer>)
    ensures
        match r {
            Ok(task) => enabled && task.well_formed() && task@ == media_task(
                root@,
                true,
                file@,
                mime_for_path(served_path(root@, true, file@)),
            ),
            Err(answer) => !enabled && answer@ == disabled_answer(),
        },
{
    get_image(enabled, file, root)
}

/// The request for a video, or the answer where no files are served.
pub fn get_video(enabled: bool, file: &str, root: &str) -> (r: Result<ServeTask, FileAnswer>)
    ensures
        match r {
            Ok(task) => enabled && task.well_formed() && task@ == media_task(
                root@,
                false,
                file@,
                Seq::empty(),
            ),
            Err(answer) => !enabled && answer@ == disabled_answer(),
        },
{
    if !enabled {
        return Err(FileAnswer::NotFound("Not Found".to_string()));
    }
    proof {
        reveal_strlit("image");
        reveal_strlit("video");
        assert("video"@[0] != "image"@[0]);
    }
    Ok(serve_file(file, "video", root))
}

/// The request for a file by its path in the storage.
pub fn stored_file(file_path: &str, root: &str) -> (r: ServeTask)
    ensures
        r.well_formed(),
        r@ == stored_task(
            root@,
            file_path@,
            mime_for_path(stored_paths(root@, file_path@).0),
            mime_for_path(stored_paths(root@, file_path@).1),
        ),
{
    let safe = LocalMediaStorage::stored_name(file_path);
    let base = join_path(join_path(root, "data").as_str(), "tmp");
    let image = join_path(join_path(base.as_str(), "image").as_str(), safe.as_str());
    let video = join_path(join_path(base.as_str(), "video").as_str(), safe.as_str());
    let image_mime = guess_mime(image.as_str());
    let video_mime = guess_mime(video.as_str());
    let mut files: Vec<(String, String)> = Vec::new();
    files.push((image, image_mime));
    files.push((video, video_mime));
    proof {
        let wanted = stored_task(
            root@,
            file_path@,
            mime_for_path(stored_paths(root@, file_path@).0),
            mime_for_path(stored_paths(root@, file_path@).1),
        );
        assert(text_pairs(files@) == wanted.left);
    }
    ServeTask::new(file_path.to_string(), files)
}

/// The request for a file of another sort, under the address that the local storage
/// gives it, or the answer where no files are served.
pub fn get_media(enabled: bool, file: &str, root: &str) -> (r: Result<ServeTask, FileAnswer>)
    ensures
        match r {
            Ok(task) => enabled && task.well_formed() && task@ == stored_task(
                root@,
                file@,
                mime_for_path(stored_paths(root@, file@).0),
                mime_for_path(stored_paths(root@, file@).1),
            ),
            Err(answer) => !enabled && answer@ == disabled_answer(),
        },
{
    if !enabled {
        return Err(FileAnswer::NotFound("Not Found".to_string()));
    }
    Ok(stored_file(file, root))
}

/// The request for a file by its path in the storage, which may be
/// percent-encoded, or the answer where no files are served.
pub fn get_s3_file(enabled: bool, file: &str, root: &str) -> (r: Result<ServeTask, FileAnswer>)
    ensures
        match r {
            Ok(task) => enabled && task.well_formed() && ({
                let path = decoded_path(file@);
                task@ == stored_task(
                    root@,
                    path,
                    mime_for_path(stored_paths(root@, path).0),
                    mime_for_path(stored_paths(root@, path).1),
                )
            }),
            Err(answer) => !enabled && answer@ == disabled_answer(),
        },
{
    if !enabled {
        return Err(FileAnswer::NotFound("Not Found".to_string()));
    }
    let decoded = match url_decode(file) {
        Some(path) => path,
        None => file.to_string(),
    };
    Ok(stored_file(decoded.as_str(), root))
}

/// A downloaded file is served from where it was kept, under its path upstream
/// without the slashes at the start.
pub proof fn law_downloaded_file_is_served(
    root: Seq<char>,
    is_image: bool,
    file_path: Seq<char>,
    media_type: Seq<char>,
)
    ensures
        ({
            let dir = if is_image {
                media_dir(root, "image"@)
            } else {
                media_dir(root, "video"@)
            };
            served_path(root, is_image, trim_start_char(file_path, '/')) == new_download(
                dir,
                file_path,
                media_type,
            ).path
        }),
{
}

/// A name on the list is served, under the address on the list, from the file
/// that has this name.
pub proof fn law_listed_file_is_served(root: Seq<char>, is_image: bool, name: Seq<char>)
    requires
        !name.contains('/'),
    ensures
        served_path(root, is_image, name) == join(
            if is_image {
                media_dir(root, "image"@)
            } else {
                media_dir(root, "video"@)
            },
            name,
        ),
        view_url(is_image, name) == (if is_image {
            "/v1/files/image/"@
        } else {
            "/v1/files/video/"@
        }) + name,
{
    let replaced = replace_char(name, '/', '-');
    assert forall|i: int| 0 <= i < name.len() implies replaced[i] == name[i] by {
        assert(name.contains(name[i]));
    }
    assert(replaced == name);
}

/// The file that is deleted under a name is the one that is served under it.
pub proof fn law_deleted_file_was_served(
    service: DownloadService,
    root: Seq<char>,
    media_type: Seq<char>,
    name: Seq<char>,
)
    requires
        service.image_dir@ == media_dir(root, "image"@),
        service.video_dir@ == media_dir(root, "video"@),
    ensures
        join(service.dir_of(media_type), replace_char(name, '/', '-')) == served_path(
            root,
            media_type == "image"@,
            name,
        ),
{
}

/// What the storage holds is served, whatever is in the cache.
pub proof fn law_storage_comes_first(task: ServeTaskView, mime: Seq<char>)
    ensures
        serve_first(task, true) == ServeStepView::AskStorage(task.storage_path),
        serve_stored(task, Some(mime)) == ServeStepView::Answer(
            FileAnswerView::File(file_headers(mime)),
        ),
{
}

/// What comes of a request where the storage has no such file: `found` says
/// which files of the cache are there.
pub open spec fn served_from_cache(task: ServeTaskView, found: Seq<bool>) -> FileAnswerView
    decreases task.left.len(),
{
    if task.left.len() == 0 || found.len() == 0 {
        FileAnswerView::NotFound("File not found"@)
    } else if found[0] {
        FileAnswerView::File(file_headers(task.left[0].1))
    } else {
        served_from_cache(
            ServeTaskView { left: task.left.drop_first(), ..task },
            found.drop_first(),
        )
    }
}

/// Without the storage a request for a file by its path in the storage is
/// answered with the image where there is one, else with the video where there
/// is one, else not at all.
pub proof fn law_stored_file_from_cache(
    root: Seq<char>,
    file_path: Seq<char>,
    image_mime: Seq<char>,
    video_mime: Seq<char>,
    image: bool,
    video: bool,
)
    ensures
        ({
            let t0 = stored_task(root, file_path, image_mime, video_mime);
            let s0 = serve_stored(t0, None);
            let (t1, s1) = serve_read(t0, image);
            let (t2, s2) = serve_read(t1, video);
            let answer = served_from_cache(t0, seq![image, video]);
            &&& s0 == ServeStepView::ReadFile(stored_paths(root, file_path).0)
            &&& image ==> s1 == ServeStepView::Answer(answer) && answer == FileAnswerView::File(
                file_headers(image_mime),
            )
            &&& !image ==> s1 == ServeStepView::ReadFile(stored_paths(root, file_path).1)
            &&& !image ==> s2 == ServeStepView::Answer(answer)
            &&& !image && video ==> answer == FileAnswerView::File(file_headers(video_mime))
            &&& !image && !video ==> answer == FileAnswerView::NotFound("File not found"@)
        }),
{
    reveal_with_fuel(served_from_cache, 3);
}

/// A path that was percent-encoded into an address is the one that is looked for.
pub proof fn law_encoded_path_is_served(file_path: Seq<char>)
    ensures
        decoded_path(percent_encoded(file_path)) == file_path,
{
    law_percent_round_trip(file_path);
}

/// The address that the local storage gives for an upload leads to the file that
/// the upload wrote, whatever its path: the address holds the path, the storage is
/// asked for it, and looks where the upload wrote.
pub proof fn law_local_address_is_served(
    storage: LocalMediaStorage,
    root: Seq<char>,
    file_path: Seq<char>,
    mime_type: Seq<char>,
    is_image: bool,
    mime: Seq<char>,
    image_mime: Seq<char>,
    video_mime: Seq<char>,
)
    ensures
        percent_decoded(percent_encoded(file_path)) == Some(file_path),
        ({
            let written = stored_path(storage.base_dir@, media_type_of(mime_type), file_path);
            let as_media = media_task(root, is_image, file_path, mime).storage_path;
            let as_stored = stored_task(root, file_path, image_mime, video_mime).storage_path;
            &&& places_of(storage.base_dir@, as_media).contains(written)
            &&& places_of(storage.base_dir@, as_stored).contains(written)
            &&& places_of(storage.base_dir@, as_media) == places_of(storage.base_dir@, file_path)
        }),
{
    law_percent_round_trip(file_path);
    law_places_ignore_leading_slashes(storage.base_dir@, file_path);
    law_upload_is_looked_for(storage.base_dir@, file_path, mime_type);
}

/// An image or a video that is uploaded to the directory for media, in its usual
/// place, is found there by its path in the storage where the storage is not set
/// up.
pub proof fn law_local_upload_is_in_cache(
    root: Seq<char>,
    file_path: Seq<char>,
    mime_type: Seq<char>,
)
    ensures
        ({
            let base_dir = base_dir_of(root, "data/tmp"@);
            let path = stored_path(base_dir, media_type_of(mime_type), file_path);
            &&& media_type_of(mime_type) == "image"@ ==> path == stored_paths(root, file_path).0
            &&& media_type_of(mime_type) == "video"@ ==> path == stored_paths(root, file_path).1
        }),
{
    reveal_strlit("data/tmp");
    reveal_strlit("data");
    reveal_strlit("tmp");
    let data = join(root, "data"@);
    assert(data.last() == 'a');
    assert("data"@.push('/') + "tmp"@ =~= "data/tmp"@);
    assert(base_dir_of(root, "data/tmp"@) =~= join(data, "tmp"@));
}

/// A file is served with its media type, and may be kept by browsers for a year.
pub proof fn law_file_headers(headers: Seq<(Seq<char>, Seq<char>)>, mime: Seq<char>)
    requires
        headers == file_headers(mime),
    ensures
        headers.len() == 2,
        headers.contains(("Content-Type"@, mime)),
        headers.contains(("Cache-Control"@, "public, max-age=31536000, immutable"@)),
{
    assert(headers[0] == ("Cache-Control"@, "public, max-age=31536000, immutable"@));
    assert(headers[1] == ("Content-Type"@, mime));
}

/// An image or a video is looked for in the storage under its path, with one slash
/// before it, and then in the directory of the cache for its sort. An image has the
/// media type of its name, and anything else is a video.
pub proof fn law_serve_file(
    file: &str,
    media_type: &str,
    root: &str,
    n: nat,
    path: Seq<char>,
    r: ServeTask,
)
    requires
        call_ensures(serve_file, (file, media_type, root), r),
        file@ == Seq::new(n, |i: int| '/') + path,
        path.len() == 0 || path[0] != '/',
    ensures
        r@.storage_path == "/"@ + path,
        r@.left.len() == 1,
        media_type@ == "image"@ ==> r@.left[0].0 == join(
            join(join(join(root@, "data"@), "tmp"@), "image"@),
            replace_char(file@, '/', '-'),
        ),
        media_type@ != "image"@ ==> r@.left[0].0 == join(
            join(join(join(root@, "data"@), "tmp"@), "video"@),
            replace_char(file@, '/', '-'),
        ),
        media_type@ == "image"@ ==> r@.left[0].1 == mime_for_path(r@.left[0].0),
        media_type@ != "image"@ ==> r@.left[0].1 == "video/mp4"@,
{
    law_trim_char(n, '/', path);
}

/// Images, under both of their addresses, and videos are served as such where files
/// are served, and not at all where they are not.
pub proof fn law_media_routes(
    enabled: bool,
    file: &str,
    root: &str,
    image_type: &str,
    video_type: &str,
    as_image: ServeTask,
    as_video: ServeTask,
    image: Result<ServeTask, FileAnswer>,
    alias: Result<ServeTask, FileAnswer>,
    video: Result<ServeTask, FileAnswer>,
)
    requires
        image_type@ == "image"@,
        video_type@ == "video"@,
        call_ensures(serve_file, (file, image_type, root), as_image),
        call_ensures(serve_file, (file, video_type, root), as_video),
        call_ensures(get_image, (enabled, file, root), image),
        call_ensures(get_image_alias, (enabled, file, root), alias),
        call_ensures(get_video, (enabled, file, root), video),
    ensures
        image is Ok <==> enabled,
        alias is Ok <==> enabled,
        video is Ok <==> enabled,
        enabled ==> image->Ok_0@ == as_image@ && alias->Ok_0@ == as_image@ && video->Ok_0@
            == as_video@,
        !enabled ==> image->Err_0@ == FileAnswerView::NotFound("Not Found"@) && alias->Err_0@
            == FileAnswerView::NotFound("Not Found"@) && video->Err_0@ == FileAnswerView::NotFound(
            "Not Found"@,
        ),
{
    reveal_strlit("image");
    reveal_strlit("video");
    assert("video"@[0] == 'v' && "image"@[0] == 'i');
}

/// A file that is asked for by its path in the storage is looked for there under
/// that path, and then among the images and the videos of the cache.
pub proof fn law_stored_file(file_path: &str, root: &str, name: String, r: ServeTask)
    requires
        call_ensures(stored_file, (file_path, root), r),
        call_ensures(LocalMediaStorage::stored_name, (file_path,), name),
    ensures
        r@.storage_path == file_path@,
        r@.left.len() == 2,
        r@.left[0].0 == join(join(join(join(root@, "data"@), "tmp"@), "image"@), name@),
        r@.left[1].0 == join(join(join(join(root@, "data"@), "tmp"@), "video"@), name@),
        r@.left[0].1 == mime_for_path(r@.left[0].0),
        r@.left[1].1 == mime_for_path(r@.left[1].0),
{
}

/// A file by its path in the storage is served where files are served, and the path
/// may be percent-encoded where it comes in an address of the storage.
pub proof fn law_stored_routes(
    enabled: bool,
    file: &str,
    decoded: &str,
    root: &str,
    plain: ServeTask,
    other: ServeTask,
    media: Result<ServeTask, FileAnswer>,
    s3: Result<ServeTask, FileAnswer>,
)
    requires
        percent_decoded(file@) == Some(decoded@) || (percent_decoded(file@) is None && decoded@
            == file@),
        call_ensures(stored_file, (file, root), plain),
        call_ensures(stored_file, (decoded, root), other),
        call_ensures(get_media, (enabled, file, root), media),
        call_ensures(get_s3_file, (enabled, file, root), s3),
    ensures
        media is Ok <==> enabled,
        s3 is Ok <==> enabled,
        enabled ==> media->Ok_0@ == plain@ && s3->Ok_0@ == other@,
        !enabled ==> media->Err_0@ == FileAnswerView::NotFound("Not Found"@) && s3->Err_0@
            == FileAnswerView::NotFound("Not Found"@),
{
}

/// A request asks the storage first, where there is one. What the storage has is
/// answered with its media type. Else the files of the cache are tried in order.
pub proof fn law_serve_steps(
    task: &ServeTask,
    has_storage: bool,
    mime: Option<String>,
    first: ServeStep,
    stored: ServeStep,
)
    requires
        call_ensures(ServeTask::first, (task, has_storage), first),
        call_ensures(ServeTask::stored, (task, mime), stored),
    ensures
        has_storage ==> first@ == ServeStepView::AskStorage(task@.storage_path),
        !has_storage && task@.left.len() > 0 ==> first@ == ServeStepView::ReadFile(
            task@.left[0].0,
        ),
        !has_storage && task@.left.len() == 0 ==> first@ == ServeStepView::Answer(
            FileAnswerView::NotFound("File not found"@),
        ),
        mime is Some ==> stored@ == ServeStepView::Answer(
            FileAnswerView::File(file_headers(mime->0@)),
        ),
        mime is None && task@.left.len() > 0 ==> stored@ == ServeStepView::ReadFile(
            task@.left[0].0,
        ),
        mime is None && task@.left.len() == 0 ==> stored@ == ServeStepView::Answer(
            FileAnswerView::NotFound("File not found"@),
        ),
{
}

/// A file of the cache that is there is the answer, with its media type. One that is
/// not is passed over for the next one, and after the last there is none.
pub proof fn law_serve_read(task: &mut ServeTask, found: bool, r: ServeStep)
    requires
        call_ensures(ServeTask::read, (task, found), r),
        old(task)@.left.len() > 0,
    ensures
        found ==> r@ == ServeStepView::Answer(
            FileAnswerView::File(file_headers(old(task)@.left[0].1)),
        ),
        !found && old(task)@.left.len() > 1 ==> r@ == ServeStepView::ReadFile(
            old(task)@.left[1].0,
        ),
        !found && old(task)@.left.len() == 1 ==> r@ == ServeStepView::Answer(
            FileAnswerView::NotFound("File not found"@),
        ),
        !found ==> final(task)@.left == old(task)@.left.skip(1),
        final(task)@.storage_path == old(task)@.storage_path,
{
    assert(old(task)@.left.drop_first() =~= old(task)@.left.skip(1));
}

/// A request knows the path in the storage and the files that it is made with.
pub proof fn law_new_request(
    storage_path: String,
    files: Vec<(String, String)>,
    r: ServeTask,
)
    requires
        call_ensures(ServeTask::new, (storage_path, files), r),
    ensures
        r@.storage_path == storage_path@,
        r@.left.len() == files@.len(),
        forall|i: int|
            0 <= i < files@.len() ==> #[trigger] r@.left[i] == (files@[i].0@, files@[i].1@),
{
}

} // verus!
