//! The files of a project: its configuration, its tokens, and its media where
//! they are kept in a directory.

use crate::encoding::{ascii_lowercase, lowercase, percent_encoded, to_lowercase, url_encode};
use crate::json::{
    from_slice, is_plain, json_parse, json_pretty, json_view, to_string_pretty, value_object,
    JsonView,
};
use crate::lock::{lock_failure_message, lock_failure_text, LockFailure};
use crate::media_storage::{StorageError as MediaStorageError, StorageErrorView};
use crate::mime::{guess_mime, mime_for_path};
use crate::path::{
    file_name, join, join_path, lemma_join_name, lemma_last_dot, replace_extension, with_extension,
};
use crate::text::{
    before_char, has_prefix, join2, join3, join4, law_before_char, law_parts_of_text,
    law_trim_char, lemma_position, lemma_trim_start_char, replace_char, replaced_char, same_text,
    starts_with, text_before, text_option, texts, trim_end_char, trim_start_char,
    trimmed_end_char, trimmed_start_char,
};
use crate::toml_text::{
    can_be_written, is_config, is_writable, toml_from_str, toml_parse, toml_to_string, toml_view,
    toml_written, TomlView,
};
use vstd::prelude::*;
use vstd::utf8::{encode_utf8, is_ascii_chars};

verus! {

/// A failure to load or save, in words.
#[derive(Clone, Debug)]
pub struct StorageError(pub String);

impl StorageError {
    /// The words.
    pub fn to_text(&self) -> (r: String)
        ensures
            r@ == self.0@,
    {
        self.0.clone()
    }
}

/// Keeps the configuration and the tokens of a project below its root.
#[derive(Clone, Debug)]
pub struct LocalStorage {
    pub root: String,
}

/// Where a file is saved: in a directory, beside its name at first.
#[derive(Clone, Debug)]
pub struct SavePlan {
    pub dir: String,
    pub partial: String,
    pub path: String,
}

/// What is saved.
#[derive(Clone, Copy, Debug, PartialEq, Eq, Structural)]
pub enum SavedFile {
    Config,
    Tokens,
}

/// A step of saving.
#[derive(Clone, Copy, Debug, PartialEq, Eq, Structural)]
pub enum SaveStage {
    CreateDir,
    Write,
    Rename,
}

/// The directory of a project's files.
pub open spec fn data_dir(root: Seq<char>) -> Seq<char> {
    join(root, "data"@)
}

/// The file with the configuration.
pub open spec fn config_file(root: Seq<char>) -> Seq<char> {
    join(data_dir(root), "config.toml"@)
}

/// The file with the tokens.
pub open spec fn token_file(root: Seq<char>) -> Seq<char> {
    join(data_dir(root), "token.json"@)
}

/// The words for a step of saving that failed.
pub open spec fn save_failure_text(
    file: SavedFile,
    stage: SaveStage,
    cause: Seq<char>,
) -> Seq<char> {
    (match (file, stage) {
        (SavedFile::Config, SaveStage::CreateDir) => "create config dir failed: "@,
        (SavedFile::Config, SaveStage::Write) => "write tmp config failed: "@,
        (SavedFile::Config, SaveStage::Rename) => "rename config failed: "@,
        (SavedFile::Tokens, SaveStage::CreateDir) => "create token dir failed: "@,
        (SavedFile::Tokens, SaveStage::Write) => "write tmp tokens failed: "@,
        (SavedFile::Tokens, SaveStage::Rename) => "rename tokens failed: "@,
    }) + cause
}

/// What the configuration was loaded as.
pub enum LoadedConfig {
    /// There is none, so that it is an empty object.
    Empty(serde_json::Value),
    /// A TOML document.
    Document(toml::Value),
}

/// What saving a configuration gives: the text that is written, or the error. A
/// table of settings gives a text that is read as that table.
pub open spec fn is_saved_config(v: TomlView, r: Result<String, StorageError>) -> bool {
    &&& match (toml_written(v), r) {
        (Ok(text), Ok(s)) => s@ == text,
        (Err(cause), Err(e)) => e.0@ == "serialize config failed: "@ + cause,
        _ => false,
    }
    &&& is_config(v) ==> match r {
        Ok(s) => toml_parse(s@) == Ok::<TomlView, Seq<char>>(v),
        Err(_) => false,
    }
}

impl LocalStorage {
    /// The storage below a project's root.
    pub fn new(root: String) -> (r: LocalStorage)
        ensures
            r.root == root,
    {
        LocalStorage { root }
    }

    /// The file with the configuration.
    pub fn config_path(&self) -> (r: String)
        ensures
            r@ == config_file(self.root@),
    {
        join_path(join_path(self.root.as_str(), "data").as_str(), "config.toml")
    }

    /// The file with the tokens.
    pub fn token_path(&self) -> (r: String)
        ensures
            r@ == token_file(self.root@),
    {
        join_path(join_path(self.root.as_str(), "data").as_str(), "token.json")
    }

    /// Where a file is saved.
    pub fn save_plan(&self, file: SavedFile) -> (r: SavePlan)
        ensures
            r.dir@ == data_dir(self.root@),
            match file {
                SavedFile::Config => r.path@ == config_file(self.root@) && r.partial@
                    == with_extension(config_file(self.root@), "toml.tmp"@),
                SavedFile::Tokens => r.path@ == token_file(self.root@) && r.partial@
                    == with_extension(token_file(self.root@), "json.tmp"@),
            },
    {
        let dir = join_path(self.root.as_str(), "data");
        match file {
            SavedFile::Config => {
                let path = self.config_path();
                let partial = replace_extension(path.as_str(), "toml.tmp");
                SavePlan { dir, partial, path }
            },
            SavedFile::Tokens => {
                let path = self.token_path();
                let partial = replace_extension(path.as_str(), "json.tmp");
                SavePlan { dir, partial, path }
            },
        }
    }

    /// The error for a step of saving that failed.
    pub fn save_error(&self, file: SavedFile, stage: SaveStage, cause: &str) -> (r: StorageError)
        ensures
            r.0@ == save_failure_text(file, stage, cause@),
    {
        let words = match (file, stage) {
            (SavedFile::Config, SaveStage::CreateDir) => "create config dir failed: ",
            (SavedFile::Config, SaveStage::Write) => "write tmp config failed: ",
            (SavedFile::Config, SaveStage::Rename) => "rename config failed: ",
            (SavedFile::Tokens, SaveStage::CreateDir) => "create token dir failed: ",
            (SavedFile::Tokens, SaveStage::Write) => "write tmp tokens failed: ",
            (SavedFile::Tokens, SaveStage::Rename) => "rename tokens failed: ",
        };
        StorageError(join2(words, cause))
    }

    /// The configuration by what its file was read as. Nothing was read where
    /// there is no file.
    pub fn load_config(&self, read: Option<Result<String, String>>) -> (r: Result<
        LoadedConfig,
        StorageError,
    >)
        ensures
            match (read, r) {
                (None, Ok(LoadedConfig::Empty(v))) => json_view(v) == JsonView::Object(
                    Map::empty(),
                ),
                (Some(Ok(text)), Ok(LoadedConfig::Document(v))) => toml_parse(text@) == Ok::<
                    TomlView,
                    Seq<char>,
                >(toml_view(v)),
                (Some(Ok(text)), Err(e)) => match toml_parse(text@) {
                    Ok(_) => false,
                    Err(cause) => e.0@ == "parse config failed: "@ + cause,
                },
                (Some(Err(cause)), Err(e)) => e.0@ == "read config failed: "@ + cause@,
                _ => false,
            },
    {
        match read {
            None => Ok(LoadedConfig::Empty(value_object())),
            Some(Err(cause)) => Err(StorageError(join2("read config failed: ", cause.as_str()))),
            Some(Ok(text)) => match toml_from_str(text.as_str()) {
                Ok(v) => Ok(LoadedConfig::Document(v)),
                Err(cause) => Err(StorageError(join2("parse config failed: ", cause.as_str()))),
            },
        }
    }

    /// The text that the configuration is saved as. A table of settings is saved,
    /// and loaded from that text as it was.
    pub fn save_config(&self, data: &toml::Value) -> (r: Result<String, StorageError>)
        requires
            is_writable(toml_view(*data)),
        ensures
            is_saved_config(toml_view(*data), r),
    {
        match toml_to_string(data) {
            Ok(s) => Ok(s),
            Err(cause) => Err(StorageError(join2("serialize config failed: ", cause.as_str()))),
        }
    }

    /// The text that the configuration is saved as, or nothing where it cannot be
    /// written.
    pub fn try_save_config(&self, data: &toml::Value) -> (r: Option<Result<String, StorageError>>)
        ensures
            r is Some <==> is_writable(toml_view(*data)),
            match r {
                Some(saved) => is_saved_config(toml_view(*data), saved),
                None => true,
            },
    {
        if can_be_written(data) {
            Some(self.save_config(data))
        } else {
            None
        }
    }

    /// The tokens by what their file was read as. Nothing was read where there is
    /// no file.
    pub fn load_tokens(&self, read: Option<Result<String, String>>) -> (r: Result<
        serde_json::Value,
        StorageError,
    >)
        ensures
            match (read, r) {
                (None, Ok(v)) => json_view(v) == JsonView::Object(Map::empty()),
                (Some(Ok(text)), _) => match (json_parse(encode_utf8(text@)), r) {
                    (Ok(tokens), Ok(v)) => json_view(v) == tokens,
                    (Err(cause), Err(e)) => e.0@ == "parse tokens failed: "@ + cause,
                    _ => false,
                },
                (Some(Err(cause)), Err(e)) => e.0@ == "read tokens failed: "@ + cause@,
                _ => false,
            },
    {
        match read {
            None => Ok(value_object()),
            Some(Err(cause)) => Err(StorageError(join2("read tokens failed: ", cause.as_str()))),
            Some(Ok(text)) => match from_slice(text.as_str().as_bytes()) {
                Ok(v) => Ok(v),
                Err(cause) => Err(StorageError(join2("parse tokens failed: ", cause.as_str()))),
            },
        }
    }

    /// The text that the tokens are saved as. Plain tokens, nested no deeper than
    /// the parser goes, are saved, and loaded from that text as they were.
    pub fn save_tokens(&self, data: &serde_json::Value) -> (r: Result<String, StorageError>)
        ensures
            is_plain(json_view(*data), 127) ==> match r {
                Ok(s) => json_parse(encode_utf8(s@)) == Ok::<JsonView, Seq<char>>(json_view(*data)),
                Err(_) => false,
            },
            match (json_pretty(json_view(*data)), r) {
                (Ok(text), Ok(s)) => s@ == text,
                (Err(cause), Err(e)) => e.0@ == "serialize tokens failed: "@ + cause,
                _ => false,
            },
    {
        match to_string_pretty(data) {
            Ok(s) => Ok(s),
            Err(cause) => Err(StorageError(join2("serialize tokens failed: ", cause.as_str()))),
        }
    }

    /// The error for a lock that could not be taken.
    pub fn lock_error(&self, failure: &LockFailure, name: &str) -> (r: StorageError)
        ensures
            r.0@ == lock_failure_text(*failure, name@),
    {
        StorageError(lock_failure_message(failure, name))
    }
}

/// The storage, whatever sort of storage is requested, and whether that is the
/// one that there is.
pub fn get_storage(root: String, requested: &str) -> (r: (LocalStorage, bool))
    ensures
        r.0.root == root,
        r.1 == (lowercase(requested@) == "local"@),
        is_ascii_chars(requested@) ==> r.1 == (ascii_lowercase(requested@) == "local"@),
{
    (LocalStorage::new(root), same_text(to_lowercase(requested).as_str(), "local"))
}

/// Stores media in a directory.
#[derive(Clone, Debug)]
pub struct LocalMediaStorage {
    pub base_dir: String,
}

/// The directory for media: an absolute path, or one below the project's root.
pub open spec fn base_dir_of(root: Seq<char>, base_dir: Seq<char>) -> Seq<char> {
    if base_dir.len() > 0 && base_dir[0] == '/' {
        base_dir
    } else {
        join(root, base_dir)
    }
}

/// A path with hyphens for slashes, and without hyphens at the start.
pub open spec fn flat_name(file_path: Seq<char>) -> Seq<char> {
    trim_start_char(replace_char(file_path, '/', '-'), '-')
}

/// The name of a file in the directory: the flat name of its path, marked where
/// that would stand for a directory.
pub open spec fn safe_name(file_path: Seq<char>) -> Seq<char> {
    let name = flat_name(file_path);
    if name.len() == 0 || name == seq!['.'] || name == seq!['.', '.'] {
        seq!['-'] + name
    } else {
        name
    }
}

/// The name of a file while it is written. No stored file has such a name.
pub open spec fn partial_name(name: Seq<char>) -> Seq<char> {
    "-"@ + name + ".tmp"@
}

/// Where the file of some path and sort is stored.
pub open spec fn stored_path(
    base_dir: Seq<char>,
    sort: Seq<char>,
    file_path: Seq<char>,
) -> Seq<char> {
    join(join(base_dir, sort), safe_name(file_path))
}

/// Where the files of some path are stored, sort by sort.
pub open spec fn stored_places(base_dir: Seq<char>, file_path: Seq<char>) -> Seq<Seq<char>> {
    seq![
        stored_path(base_dir, "image"@, file_path),
        stored_path(base_dir, "video"@, file_path),
        stored_path(base_dir, "media"@, file_path),
    ]
}

/// Where the file of some path is looked for: where uploads of each sort go, and
/// then right in the directory.
pub open spec fn places_of(base_dir: Seq<char>, file_path: Seq<char>) -> Seq<Seq<char>> {
    stored_places(base_dir, file_path).push(join(base_dir, safe_name(file_path)))
}

/// Whether the newest file is at place `i`. `times` says of each place when its
/// file was last written, if there is one; of files that are equally new it is the
/// first.
pub open spec fn is_newest(times: Seq<Option<u128>>, i: int) -> bool {
    &&& 0 <= i < times.len()
    &&& times[i] is Some
    &&& forall|j: int|
        0 <= j < times.len() && (#[trigger] times[j]) is Some ==> if j < i {
            times[j]->0 < times[i]->0
        } else {
            times[j]->0 <= times[i]->0
        }
}

/// All of some paths at which there is a file.
pub open spec fn all_present(paths: Seq<Seq<char>>, present: Seq<bool>) -> Seq<Seq<char>>
    decreases paths.len(),
{
    if paths.len() == 0 || present.len() == 0 {
        Seq::empty()
    } else if present.last() {
        all_present(paths.drop_last(), present.drop_last()).push(paths.last())
    } else {
        all_present(paths.drop_last(), present.drop_last())
    }
}

/// What the name of a stored file is like: it names a file right in a directory.
proof fn lemma_safe_name(file_path: Seq<char>)
    ensures
        safe_name(file_path).len() > 0,
        safe_name(file_path) != seq!['.'],
        safe_name(file_path) != seq!['.', '.'],
        !safe_name(file_path).contains('/'),
        safe_name(file_path).len() < 5 || safe_name(file_path)[0] != '-',
{
    let replaced = replace_char(file_path, '/', '-');
    let flat = flat_name(file_path);
    let name = safe_name(file_path);
    lemma_trim_start_char(replaced, '-');
    assert forall|i: int| 0 <= i < flat.len() implies flat[i] != '/' by {
        assert(flat[i] == replaced[replaced.len() - flat.len() + i]);
    }
    if name != flat {
        assert(name[0] == '-');
        assert forall|i: int| 0 <= i < name.len() implies name[i] != '/' by {
            if i > 0 {
                assert(name[i] == flat[i - 1]);
            }
        }
        assert(seq!['.'][0] == '.' && seq!['.', '.'][0] == '.');
    }
}

/// The sort of media that a media type belongs to.
pub open spec fn media_type_of(mime_type: Seq<char>) -> Seq<char> {
    if starts_with(mime_type, "image/"@) {
        "image"@
    } else if starts_with(mime_type, "video/"@) {
        "video"@
    } else {
        "media"@
    }
}

/// The sort of media by the top level of a media type.
pub open spec fn media_sort(top: Seq<char>) -> Seq<char> {
    if top == "image"@ {
        "image"@
    } else if top == "video"@ {
        "video"@
    } else {
        "media"@
    }
}

/// The address of a file through the gateway. `mime` is its media type.
pub open spec fn local_url(app_url: Seq<char>, mime: Seq<char>, file_path: Seq<char>) -> Seq<char> {
    trim_end_char(app_url, '/') + "/v1/files/"@ + media_sort(before_char(mime, '/')) + "/"@
        + percent_encoded(file_path)
}

impl LocalMediaStorage {
    /// The address of a file.
    pub open spec fn url_of(&self, file_path: Seq<char>, app_url: Seq<char>) -> Seq<char> {
        local_url(app_url, mime_for_path(join(self.base_dir@, safe_name(file_path))), file_path)
    }

    /// The storage in a directory, for a project's root.
    pub fn new(base_dir: String, root: &str) -> (r: LocalMediaStorage)
        ensures
            r.base_dir@ == base_dir_of(root@, base_dir@),
    {
        LocalMediaStorage { base_dir: join_path(root, base_dir.as_str()) }
    }

    /// The name of a file in a directory for media.
    pub fn stored_name(file_path: &str) -> (r: String)
        ensures
            r@ == safe_name(file_path@),
    {
        let name = trimmed_start_char(replaced_char(file_path, '/', '-').as_str(), '-');
        proof {
            reveal_strlit("");
            reveal_strlit(".");
            reveal_strlit("..");
            reveal_strlit("-");
            assert("."@ == seq!['.']);
            assert(".."@ == seq!['.', '.']);
            assert("-"@ == seq!['-']);
        }
        if name.as_str().is_empty() || same_text(name.as_str(), ".") || same_text(
            name.as_str(),
            "..",
        ) {
            join2("-", name.as_str())
        } else {
            name
        }
    }

    /// The path of a file right in the directory.
    pub fn safe_path(&self, file_path: &str) -> (r: String)
        ensures
            r@ == join(self.base_dir@, safe_name(file_path@)),
            file_name(r@) == Some(safe_name(file_path@)),
            !safe_name(file_path@).contains('/'),
    {
        proof {
            lemma_safe_name(file_path@);
            lemma_join_name(self.base_dir@, safe_name(file_path@));
        }
        join_path(self.base_dir.as_str(), LocalMediaStorage::stored_name(file_path).as_str())
    }

    fn place(&self, sort: &str, file_path: &str) -> (r: String)
        ensures
            r@ == stored_path(self.base_dir@, sort@, file_path@),
    {
        let dir = join_path(self.base_dir.as_str(), sort);
        join_path(dir.as_str(), LocalMediaStorage::stored_name(file_path).as_str())
    }

    /// Where a file is looked for: where uploads of each sort go, and then right in
    /// the directory.
    pub fn places(&self, file_path: &str) -> (r: Vec<String>)
        ensures
            texts(r@) == places_of(self.base_dir@, file_path@),
    {
        let mut places: Vec<String> = Vec::new();
        places.push(self.place("image", file_path));
        places.push(self.place("video", file_path));
        places.push(self.place("media", file_path));
        places.push(self.safe_path(file_path));
        assert(texts(places@) == places_of(self.base_dir@, file_path@));
        places
    }

    /// The file to read for a path: the newest. `times` says of each place when its
    /// file was last written, if there is one.
    pub fn locate(&self, file_path: &str, times: &Vec<Option<u128>>) -> (r: Option<String>)
        requires
            times@.len() == 4,
        ensures
            match r {
                Some(path) => exists|i: int| #[trigger]
                    is_newest(times@, i) && path@ == places_of(self.base_dir@, file_path@)[i],
                None => forall|i: int| 0 <= i < 4 ==> (#[trigger] times@[i]) is None,
            },
    {
        let mut places = self.places(file_path);
        let ghost all = texts(places@);
        assert(places@.len() == all.len());
        let mut newest: Option<(usize, u128)> = None;
        let mut i: usize = 0;
        while i < times.len()
            invariant
                i <= times@.len() == 4,
                match newest {
                    Some((k, time)) => {
                        &&& k < i
                        &&& is_newest(times@.take(i as int), k as int)
                        &&& times@[k as int] == Some(time)
                    },
                    None => forall|j: int| 0 <= j < i ==> (#[trigger] times@[j]) is None,
                },
            decreases times@.len() - i,
        {
            let ghost before = times@.take(i as int);
            let ghost after = times@.take(i + 1);
            assert(forall|j: int| 0 <= j < i ==> #[trigger] after[j] == before[j]);
            assert(forall|j: int| 0 <= j < i ==> #[trigger] after[j] == times@[j]);
            assert(after[i as int] == times@[i as int]);
            if let Some(time) = times[i] {
                let newer = match newest {
                    Some((_, other)) => other < time,
                    None => true,
                };
                if newer {
                    newest = Some((i, time));
                }
            }
            i = i + 1;
        }
        assert(times@.take(4) == times@);
        match newest {
            Some((k, _)) => {
                assert(is_newest(times@, k as int));
                assert(all[k as int] == places@[k as int]@);
                Some(places.swap_remove(k))
            },
            None => None,
        }
    }

    /// The sort of media that a media type belongs to.
    pub fn detect_media_type(&self, mime_type: &str) -> (r: &'static str)
        ensures
            r@ == media_type_of(mime_type@),
    {
        if has_prefix(mime_type, "image/") {
            "image"
        } else if has_prefix(mime_type, "video/") {
            "video"
        } else {
            "media"
        }
    }

    /// Where a file that is uploaded goes.
    pub fn upload(&self, file_path: &str, mime_type: &str) -> (r: SavePlan)
        ensures
            r.dir@ == join(self.base_dir@, media_type_of(mime_type@)),
            r.path@ == stored_path(self.base_dir@, media_type_of(mime_type@), file_path@),
            r.partial@ == join(r.dir@, partial_name(safe_name(file_path@))),
    {
        let sort = self.detect_media_type(mime_type);
        let dir = join_path(self.base_dir.as_str(), sort);
        let name = LocalMediaStorage::stored_name(file_path);
        let path = self.place(sort, file_path);
        let partial = join_path(dir.as_str(), join3("-", name.as_str(), ".tmp").as_str());
        SavePlan { dir, partial, path }
    }

    /// What an upload leads to: the path of the file, as it came.
    pub fn uploaded(&self, file_path: &str, outcome: Result<(), String>) -> (r: Result<
        String,
        MediaStorageError,
    >)
        ensures
            match (outcome, r) {
                (Ok(_), Ok(path)) => path@ == file_path@,
                (Err(cause), Err(e)) => e@ == StorageErrorView::IoError(cause@),
                _ => false,
            },
    {
        match outcome {
            Ok(_) => Ok(file_path.to_string()),
            Err(cause) => Err(MediaStorageError::IoError(cause)),
        }
    }

    /// The address of a file with a media type, through the gateway.
    pub fn url_for(app_url: &str, mime: &str, file_path: &str) -> (r: String)
        ensures
            r@ == local_url(app_url@, mime@, file_path@),
    {
        let top = text_before(mime, '/');
        let sort = if same_text(top.as_str(), "image") {
            "image"
        } else if same_text(top.as_str(), "video") {
            "video"
        } else {
            "media"
        };
        let app = trimmed_end_char(app_url, '/');
        let base = join4(app.as_str(), "/v1/files/", sort, "/");
        join2(base.as_str(), url_encode(file_path).as_str())
    }

    /// The address of a file, which is one through the gateway in any case.
    pub fn get_url(&self, file_path: &str, _direct: bool, app_url: &str) -> (r: Result<
        String,
        MediaStorageError,
    >)
        ensures
            match r {
                Ok(url) => url@ == self.url_of(file_path@, app_url@),
                Err(_) => false,
            },
    {
        let mime = guess_mime(self.safe_path(file_path).as_str());
        Ok(LocalMediaStorage::url_for(app_url, mime.as_str(), file_path))
    }

    /// What was read of a file, as it is handed out. Nothing was read where there
    /// is no file. `mime` is its media type.
    pub fn downloaded(read: Option<Result<Vec<u8>, String>>, mime: String) -> (r: Result<
        (Vec<u8>, String),
        MediaStorageError,
    >)
        ensures
            match (read, r) {
                (None, Err(e)) => e@ == StorageErrorView::NotFound,
                (Some(Ok(data)), Ok(f)) => f.0 == data && f.1 == mime,
                (Some(Err(cause)), Err(e)) => e@ == StorageErrorView::IoError(cause@),
                _ => false,
            },
    {
        match read {
            None => Err(MediaStorageError::NotFound),
            Some(Ok(data)) => Ok((data, mime)),
            Some(Err(cause)) => Err(MediaStorageError::IoError(cause)),
        }
    }

    /// What was read of a file, as it is handed out with its media type. Nothing
    /// was read where there is no file.
    pub fn download(&self, file_path: &str, read: Option<Result<Vec<u8>, String>>) -> (r: Result<
        (Vec<u8>, String),
        MediaStorageError,
    >)
        ensures
            match (read, r) {
                (None, Err(e)) => e@ == StorageErrorView::NotFound,
                (Some(Ok(data)), Ok(f)) => f.0 == data && f.1@ == mime_for_path(
                    join(self.base_dir@, safe_name(file_path@)),
                ),
                (Some(Err(cause)), Err(e)) => e@ == StorageErrorView::IoError(cause@),
                _ => false,
            },
    {
        let mime = guess_mime(self.safe_path(file_path).as_str());
        LocalMediaStorage::downloaded(read, mime)
    }

    /// The files to remove for a path: all places at which there is one. `present`
    /// says of each place whether there is.
    pub fn delete(&self, file_path: &str, present: &Vec<bool>) -> (r: Vec<String>)
        requires
            present@.len() == 4,
        ensures
            texts(r@) == all_present(places_of(self.base_dir@, file_path@), present@),
    {
        let places = self.places(file_path);
        let ghost all = texts(places@);
        assert(places@.len() == all.len());
        let mut found: Vec<String> = Vec::new();
        assert(texts(found@) == all_present(all.take(0), present@.take(0)));
        let mut i: usize = 0;
        while i < places.len()
            invariant
                i <= places@.len(),
                all == texts(places@),
                present@.len() == places@.len(),
                texts(found@) == all_present(all.take(i as int), present@.take(i as int)),
            decreases places@.len() - i,
        {
            let ghost done = found@;
            assert(all[i as int] == places@[i as int]@);
            assert(all.take(i + 1).drop_last() == all.take(i as int));
            assert(present@.take(i + 1).drop_last() == present@.take(i as int));
            if present[i] {
                found.push(places[i].clone());
                assert(texts(found@) == texts(done).push(all[i as int]));
            }
            i = i + 1;
        }
        assert(all.take(i as int) == all);
        assert(present@.take(i as int) == present@);
        found
    }

    /// What a deletion leads to.
    pub fn deleted(&self, removed: Result<(), String>) -> (r: Result<(), MediaStorageError>)
        ensures
            match (removed, r) {
                (Ok(_), Ok(_)) => true,
                (Err(cause), Err(e)) => e@ == StorageErrorView::IoError(cause@),
                _ => false,
            },
    {
        match removed {
            Ok(_) => Ok(()),
            Err(cause) => Err(MediaStorageError::IoError(cause)),
        }
    }

    /// The file that a check of the directory writes and removes.
    pub fn health_check(&self) -> (r: String)
        ensures
            r@ == join(self.base_dir@, ".health_check"@),
    {
        join_path(self.base_dir.as_str(), ".health_check")
    }

    /// The name of this sort of storage.
    pub fn storage_type(&self) -> (r: &'static str)
        ensures
            r@ == "local"@,
    {
        "local"
    }
}

/// A file is saved under its name with `.tmp` behind it, and then renamed: its
/// name stands only for complete contents.
pub proof fn law_saved_beside(root: Seq<char>)
    ensures
        with_extension(config_file(root), "toml.tmp"@) == config_file(root) + ".tmp"@,
        with_extension(token_file(root), "json.tmp"@) == token_file(root) + ".tmp"@,
{
    reveal_strlit("data");
    reveal_strlit("config.toml");
    reveal_strlit("token.json");
    reveal_strlit("toml.tmp");
    reveal_strlit("json.tmp");
    reveal_strlit(".tmp");
    let dir = data_dir(root);
    assert(dir.last() == 'a');
    let config = "config.toml"@;
    let token = "token.json"@;
    assert(config.len() == 11 && token.len() == 10);
    assert forall|i: int| 0 <= i < 11 implies config[i] != '/' by {}
    assert forall|i: int| 0 <= i < 10 implies token[i] != '/' by {}
    lemma_join_name(dir, config);
    lemma_join_name(dir, token);
    lemma_last_dot(config, 6);
    lemma_last_dot(token, 5);
    let path = config_file(root);
    assert(path.take(path.len() as int) == path);
    assert(with_extension(path, "toml.tmp"@) == (path.take(path.len() - 11) + config.take(6)).push(
        '.',
    ) + "toml.tmp"@);
    assert(path == dir.push('/') + config);
    assert(with_extension(path, "toml.tmp"@) =~= path + ".tmp"@);
    let path = token_file(root);
    assert(path.take(path.len() as int) == path);
    assert(with_extension(path, "json.tmp"@) == (path.take(path.len() - 10) + token.take(5)).push(
        '.',
    ) + "json.tmp"@);
    assert(path == dir.push('/') + token);
    assert(with_extension(path, "json.tmp"@) =~= path + ".tmp"@);
}

/// An uploaded file is written under a name that no stored file has, so that it is
/// there only when it is complete, and in the directory to which it goes.
pub proof fn law_upload_written_beside(dir: Seq<char>, file_path: Seq<char>, other: Seq<char>)
    ensures
        file_name(join(dir, partial_name(safe_name(file_path)))) == Some(
            partial_name(safe_name(file_path)),
        ),
        join(dir, partial_name(safe_name(file_path))) != join(dir, safe_name(other)),
{
    reveal_strlit("-");
    reveal_strlit(".tmp");
    let name = safe_name(file_path);
    let partial = partial_name(name);
    lemma_safe_name(file_path);
    lemma_safe_name(other);
    assert(partial[0] == '-');
    assert forall|i: int| 0 <= i < partial.len() implies partial[i] != '/' by {
        if 1 <= i <= name.len() {
            assert(partial[i] == name[i - 1]);
            assert(name.contains(name[i - 1]));
        }
    }
    assert(partial.len() >= 5);
    lemma_join_name(dir, partial);
    lemma_join_name(dir, safe_name(other));
}

/// The name of a stored file is that of a file right in its directory, whatever
/// path it is stored under.
pub proof fn law_safe_name(base_dir: Seq<char>, file_path: Seq<char>)
    ensures
        file_name(join(base_dir, safe_name(file_path))) == Some(safe_name(file_path)),
        !safe_name(file_path).contains('/'),
        join(base_dir, safe_name(file_path)) == (if base_dir.len() == 0 || base_dir.last() == '/' {
            base_dir
        } else {
            base_dir.push('/')
        }) + safe_name(file_path),
{
    lemma_safe_name(file_path);
    lemma_join_name(base_dir, safe_name(file_path));
}

/// Paths with different flat names are stored under different names.
pub proof fn law_names_differ(a: Seq<char>, b: Seq<char>)
    ensures
        safe_name(a) == safe_name(b) <==> flat_name(a) == flat_name(b),
{
    lemma_trim_start_char(replace_char(a, '/', '-'), '-');
    lemma_trim_start_char(replace_char(b, '/', '-'), '-');
    if safe_name(a) == safe_name(b) {
        assert((seq!['-'] + flat_name(a)).skip(1) == flat_name(a));
        assert((seq!['-'] + flat_name(b)).skip(1) == flat_name(b));
        assert((seq!['-'] + flat_name(a))[0] == '-');
        assert((seq!['-'] + flat_name(b))[0] == '-');
    }
}

/// Slashes at the start of a path make no difference to where its file is stored
/// and looked for.
pub proof fn law_places_ignore_leading_slashes(base_dir: Seq<char>, file_path: Seq<char>)
    ensures
        safe_name("/"@ + trim_start_char(file_path, '/')) == safe_name(file_path),
        places_of(base_dir, "/"@ + trim_start_char(file_path, '/')) == places_of(
            base_dir,
            file_path,
        ),
{
    reveal_strlit("/");
    let rest = trim_start_char(file_path, '/');
    lemma_flat_name_slashes(file_path);
    lemma_flat_name_slashes("/"@ + rest);
    lemma_trim_start_char(file_path, '/');
    assert(("/"@ + rest).drop_first() == rest);
    assert(trim_start_char(rest, '/') == rest);
}

proof fn lemma_flat_name_slashes(file_path: Seq<char>)
    ensures
        flat_name(trim_start_char(file_path, '/')) == flat_name(file_path),
    decreases file_path.len(),
{
    if file_path.len() > 0 && file_path[0] == '/' {
        let rest = file_path.drop_first();
        lemma_flat_name_slashes(rest);
        assert(replace_char(file_path, '/', '-').drop_first() == replace_char(rest, '/', '-'));
    }
}

/// What an upload wrote is among the places where its path is looked for.
pub proof fn law_upload_is_looked_for(
    base_dir: Seq<char>,
    file_path: Seq<char>,
    mime_type: Seq<char>,
)
    ensures
        stored_places(base_dir, file_path).contains(
            stored_path(base_dir, media_type_of(mime_type), file_path),
        ),
        places_of(base_dir, file_path).contains(
            stored_path(base_dir, media_type_of(mime_type), file_path),
        ),
{
    let path = stored_path(base_dir, media_type_of(mime_type), file_path);
    let stored = stored_places(base_dir, file_path);
    let k: int = if media_type_of(mime_type) == "image"@ {
        0
    } else if media_type_of(mime_type) == "video"@ {
        1
    } else {
        2
    };
    assert(stored[k] == path);
    assert(places_of(base_dir, file_path)[k] == path);
}

/// A download of what was uploaded reads the file that the upload wrote, whatever
/// other files of that path there are, as long as they are older.
pub proof fn law_upload_is_downloaded(
    base_dir: Seq<char>,
    file_path: Seq<char>,
    mime_type: Seq<char>,
    times: Seq<Option<u128>>,
)
    requires
        times.len() == 4,
        ({
            let path = stored_path(base_dir, media_type_of(mime_type), file_path);
            let all = places_of(base_dir, file_path);
            forall|i: int, j: int|
                0 <= i < 4 && 0 <= j < 4 && #[trigger] all[i] == path ==> {
                    &&& times[i] is Some
                    &&& #[trigger] all[j] != path && times[j] is Some ==> times[j]->0 < times[i]->0
                }
        }),
    ensures
        exists|i: int| #[trigger]
            is_newest(times, i) && places_of(base_dir, file_path)[i] == stored_path(
                base_dir,
                media_type_of(mime_type),
                file_path,
            ),
        forall|i: int| #[trigger]
            is_newest(times, i) ==> places_of(base_dir, file_path)[i] == stored_path(
                base_dir,
                media_type_of(mime_type),
                file_path,
            ),
{
    let path = stored_path(base_dir, media_type_of(mime_type), file_path);
    let all = places_of(base_dir, file_path);
    law_upload_is_looked_for(base_dir, file_path, mime_type);
    let k = choose|k: int| 0 <= k < all.len() && all[k] == path;
    assert(all.len() == 4);
    assert(times[k] is Some);
    assert forall|i: int| #[trigger] is_newest(times, i) implies all[i] == path by {
        if all[i] != path {
            assert(times[i]->0 < times[k]->0);
        }
    }
    let i = lemma_newest(times, k);
    assert(is_newest(times, i));
}

/// Where there is a file, one is the newest.
proof fn lemma_newest(times: Seq<Option<u128>>, k: int) -> (i: int)
    requires
        0 <= k < times.len(),
        times[k] is Some,
    ensures
        is_newest(times, i),
    decreases times.len(),
{
    let n = times.len() - 1;
    let rest = times.drop_last();
    assert(forall|j: int| 0 <= j < n ==> #[trigger] times[j] == rest[j]);
    if exists|j: int| 0 <= j < n && (#[trigger] rest[j]) is Some {
        let j = choose|j: int| 0 <= j < n && (#[trigger] rest[j]) is Some;
        let i = lemma_newest(rest, j);
        if times[n] is Some && times[i]->0 < times[n]->0 {
            assert forall|m: int| 0 <= m < n && (#[trigger] times[m]) is Some implies times[m]->0
                < times[n]->0 by {
                assert(rest[m] is Some);
            }
            n
        } else {
            i
        }
    } else {
        n
    }
}

/// A deletion removes every file of a path, and with them the one that an upload
/// wrote.
pub proof fn law_upload_is_deleted(
    base_dir: Seq<char>,
    file_path: Seq<char>,
    mime_type: Seq<char>,
    present: Seq<bool>,
)
    requires
        present.len() == 4,
        ({
            let path = stored_path(base_dir, media_type_of(mime_type), file_path);
            forall|i: int|
                0 <= i < 4 && places_of(base_dir, file_path)[i] == path ==> #[trigger] present[i]
        }),
    ensures
        all_present(places_of(base_dir, file_path), present).contains(
            stored_path(base_dir, media_type_of(mime_type), file_path),
        ),
        forall|i: int|
            0 <= i < 4 && #[trigger] present[i] ==> all_present(
                places_of(base_dir, file_path),
                present,
            ).contains(places_of(base_dir, file_path)[i]),
{
    let path = stored_path(base_dir, media_type_of(mime_type), file_path);
    let all = places_of(base_dir, file_path);
    law_upload_is_looked_for(base_dir, file_path, mime_type);
    let k = choose|k: int| 0 <= k < all.len() && all[k] == path;
    assert(present[k]);
    assert forall|i: int| 0 <= i < 4 && #[trigger] present[i] implies all_present(
        all,
        present,
    ).contains(all[i]) by {
        lemma_all_present(all, present, i);
    }
}

proof fn lemma_all_present(paths: Seq<Seq<char>>, present: Seq<bool>, i: int)
    requires
        0 <= i < paths.len(),
        paths.len() == present.len(),
        present[i],
    ensures
        all_present(paths, present).contains(paths[i]),
    decreases paths.len(),
{
    let rest = all_present(paths.drop_last(), present.drop_last());
    if i < paths.len() - 1 {
        lemma_all_present(paths.drop_last(), present.drop_last(), i);
        let k = choose|k: int| 0 <= k < rest.len() && rest[k] == paths[i];
        assert(all_present(paths, present)[k] == paths[i]);
    } else {
        assert(all_present(paths, present).last() == paths[i]);
    }
}

/// A media type has its sort by its start and by its top level alike.
pub proof fn law_media_sorts_agree(top: Seq<char>, sub: Seq<char>)
    requires
        !top.contains('/'),
    ensures
        media_type_of(top + "/"@ + sub) == media_sort(before_char(top + "/"@ + sub, '/')),
{
    reveal_strlit("/");
    reveal_strlit("image/");
    reveal_strlit("video/");
    reveal_strlit("image");
    reveal_strlit("video");
    let mime = top + "/"@ + sub;
    let n = top.len() as int;
    assert(mime[n] == '/');
    assert forall|j: int| 0 <= j < n implies mime[j] != '/' by {
        assert(mime[j] == top[j]);
        assert(top.contains(top[j]));
    }
    lemma_position(mime, '/', n);
    assert(mime.take(n) == top);
    if starts_with(mime, "image/"@) {
        assert(mime.take(6)[5] == "image/"@[5]);
        assert(mime[5] == '/');
        if n < 5 {
            assert(mime.take(6)[n] == "image/"@[n]);
        }
        assert(n == 5);
        assert(top =~= "image"@) by {
            assert forall|j: int| 0 <= j < 5 implies top[j] == "image"@[j] by {
                assert(mime.take(6)[j] == "image/"@[j]);
            }
        }
    } else if top == "image"@ {
        assert(mime.take(6) =~= "image/"@);
    }
    if starts_with(mime, "video/"@) {
        assert(mime.take(6)[5] == "video/"@[5]);
        assert(mime[5] == '/');
        if n < 5 {
            assert(mime.take(6)[n] == "video/"@[n]);
        }
        assert(n == 5);
        assert(top =~= "video"@) by {
            assert forall|j: int| 0 <= j < 5 implies top[j] == "video"@[j] by {
                assert(mime.take(6)[j] == "video/"@[j]);
            }
        }
    } else if top == "video"@ {
        assert(mime.take(6) =~= "video/"@);
    }
}

/// The configuration and the tokens of a project are two files in its directory for
/// data. Each is written beside its name first.
pub proof fn law_project_files(
    storage: &LocalStorage,
    config: String,
    tokens: String,
    config_plan: SavePlan,
    token_plan: SavePlan,
)
    requires
        call_ensures(LocalStorage::config_path, (storage,), config),
        call_ensures(LocalStorage::token_path, (storage,), tokens),
        call_ensures(LocalStorage::save_plan, (storage, SavedFile::Config), config_plan),
        call_ensures(LocalStorage::save_plan, (storage, SavedFile::Tokens), token_plan),
    ensures
        config@ == join(join(storage.root@, "data"@), "config.toml"@),
        tokens@ == join(join(storage.root@, "data"@), "token.json"@),
        config_plan.dir@ == join(storage.root@, "data"@),
        token_plan.dir@ == join(storage.root@, "data"@),
        config_plan.path@ == config@,
        token_plan.path@ == tokens@,
        config_plan.partial@ == config@ + ".tmp"@,
        token_plan.partial@ == tokens@ + ".tmp"@,
{
    law_saved_beside(storage.root@);
}

/// A storage is that of the root that it is made for, whatever sort of storage is
/// requested, and it is told whether that is the one that there is.
pub proof fn law_get_storage(
    root: String,
    requested: &str,
    new: LocalStorage,
    r: (LocalStorage, bool),
)
    requires
        call_ensures(LocalStorage::new, (root,), new),
        call_ensures(get_storage, (root, requested), r),
    ensures
        new.root@ == root@,
        r.0.root@ == root@,
        r.1 <==> lowercase(requested@) == "local"@,
        requested@ == "local"@ ==> r.1,
        is_ascii_chars(requested@) && requested@.len() != 5 ==> !r.1,
{
    reveal_strlit("local");
    if requested@ == "local"@ {
        assert(is_ascii_chars(requested@));
        assert(ascii_lowercase("local"@) =~= "local"@);
    }
    assert(ascii_lowercase(requested@).len() == requested@.len());
}

/// A step of saving that fails is told by what was saved, the step and the cause.
pub proof fn law_save_error(
    storage: &LocalStorage,
    file: SavedFile,
    stage: SaveStage,
    cause: &str,
    text: String,
    r: StorageError,
)
    requires
        call_ensures(LocalStorage::save_error, (storage, file, stage, cause), r),
        call_ensures(StorageError::to_text, (&r,), text),
    ensures
        text@ == r.0@,
        file == SavedFile::Config && stage == SaveStage::CreateDir ==> text@
            == "create config dir failed: "@ + cause@,
        file == SavedFile::Config && stage == SaveStage::Write ==> text@
            == "write tmp config failed: "@ + cause@,
        file == SavedFile::Config && stage == SaveStage::Rename ==> text@
            == "rename config failed: "@ + cause@,
        file == SavedFile::Tokens && stage == SaveStage::CreateDir ==> text@
            == "create token dir failed: "@ + cause@,
        file == SavedFile::Tokens && stage == SaveStage::Write ==> text@
            == "write tmp tokens failed: "@ + cause@,
        file == SavedFile::Tokens && stage == SaveStage::Rename ==> text@
            == "rename tokens failed: "@ + cause@,
{
}

/// A lock that could not be taken is told by its cause.
pub proof fn law_storage_lock_error(
    storage: &LocalStorage,
    failure: &LockFailure,
    name: &str,
    text: String,
    r: StorageError,
)
    requires
        call_ensures(LocalStorage::lock_error, (storage, failure, name), r),
        call_ensures(lock_failure_message, (failure, name), text),
    ensures
        r.0@ == text@,
{
}

/// A configuration that is saved is loaded as it was.
pub proof fn law_config_is_read_back(
    storage: &LocalStorage,
    data: &toml::Value,
    text: String,
    r: Result<LoadedConfig, StorageError>,
)
    requires
        is_config(toml_view(*data)),
        call_ensures(LocalStorage::save_config, (storage, data), Ok::<String, StorageError>(text)),
        call_ensures(
            LocalStorage::load_config,
            (storage, Some(Ok::<String, String>(text))),
            r,
        ),
    ensures
        r is Ok,
        r->Ok_0 is Document,
        toml_view(r->Ok_0->Document_0) == toml_view(*data),
{
}

/// Every configuration of settings that can be written is saved.
pub proof fn law_config_is_saved(
    storage: &LocalStorage,
    data: &toml::Value,
    saved: Result<String, StorageError>,
    r: Option<Result<String, StorageError>>,
)
    requires
        call_ensures(LocalStorage::save_config, (storage, data), saved),
        call_ensures(LocalStorage::try_save_config, (storage, data), r),
    ensures
        r is Some <==> is_writable(toml_view(*data)),
        is_config(toml_view(*data)) ==> saved is Ok,
        r is Some ==> match (saved, r->0) {
            (Ok(a), Ok(b)) => a@ == b@,
            (Err(a), Err(b)) => a.0@ == b.0@,
            _ => false,
        },
        saved is Err ==> toml_written(toml_view(*data)) is Err && saved->Err_0.0@
            == "serialize config failed: "@ + toml_written(toml_view(*data))->Err_0,
{
}

/// A configuration is empty where there is no file, and what its file holds where
/// there is one. A file that cannot be read or understood is an error with its cause.
pub proof fn law_load_config(
    storage: &LocalStorage,
    read: Option<Result<String, String>>,
    r: Result<LoadedConfig, StorageError>,
)
    requires
        call_ensures(LocalStorage::load_config, (storage, read), r),
    ensures
        read is None ==> r is Ok && r->Ok_0 is Empty && json_view(r->Ok_0->Empty_0)
            == JsonView::Object(Map::empty()),
        read is Some && read->0 is Err ==> r is Err && r->Err_0.0@ == "read config failed: "@
            + read->0->Err_0@,
        read is Some && read->0 is Ok ==> match toml_parse(read->0->Ok_0@) {
            Ok(v) => r is Ok && r->Ok_0 is Document && toml_view(r->Ok_0->Document_0) == v,
            Err(cause) => r is Err && r->Err_0.0@ == "parse config failed: "@ + cause,
        },
{
}

/// Tokens that are saved are loaded as they were.
pub proof fn law_tokens_are_read_back(
    storage: &LocalStorage,
    data: &serde_json::Value,
    saved: Result<String, StorageError>,
    r: Result<serde_json::Value, StorageError>,
)
    requires
        is_plain(json_view(*data), 127),
        call_ensures(LocalStorage::save_tokens, (storage, data), saved),
        saved is Ok ==> call_ensures(
            LocalStorage::load_tokens,
            (storage, Some(Ok::<String, String>(saved->Ok_0))),
            r,
        ),
    ensures
        saved is Ok,
        r is Ok,
        json_view(r->Ok_0) == json_view(*data),
{
}

/// There are no tokens where there is no file, and else those that the file holds. A
/// file that cannot be read or understood is an error with its cause.
pub proof fn law_load_tokens(
    storage: &LocalStorage,
    read: Option<Result<String, String>>,
    r: Result<serde_json::Value, StorageError>,
)
    requires
        call_ensures(LocalStorage::load_tokens, (storage, read), r),
    ensures
        read is None ==> r is Ok && json_view(r->Ok_0) == JsonView::Object(Map::empty()),
        read is Some && read->0 is Err ==> r is Err && r->Err_0.0@ == "read tokens failed: "@
            + read->0->Err_0@,
        read is Some && read->0 is Ok ==> match json_parse(encode_utf8(read->0->Ok_0@)) {
            Ok(v) => r is Ok && json_view(r->Ok_0) == v,
            Err(cause) => r is Err && r->Err_0.0@ == "parse tokens failed: "@ + cause,
        },
{
}

/// Tokens that cannot be written are an error with its cause.
pub proof fn law_save_tokens_error(
    storage: &LocalStorage,
    data: &serde_json::Value,
    r: Result<String, StorageError>,
)
    requires
        call_ensures(LocalStorage::save_tokens, (storage, data), r),
    ensures
        match json_pretty(json_view(*data)) {
            Ok(text) => r is Ok && r->Ok_0@ == text,
            Err(cause) => r is Err && r->Err_0.0@ == "serialize tokens failed: "@ + cause,
        },
{
}

/// The directory for media is the one that is configured, below the root of the
/// project unless it is an absolute one.
pub proof fn law_media_directory(base_dir: String, root: &str, r: LocalMediaStorage)
    requires
        call_ensures(LocalMediaStorage::new, (base_dir, root), r),
    ensures
        base_dir@.len() > 0 && base_dir@[0] == '/' ==> r.base_dir@ == base_dir@,
        base_dir@.len() == 0 || base_dir@[0] != '/' ==> r.base_dir@ == join(root@, base_dir@),
{
}

/// The name of a stored file is its path with hyphens for slashes, without the
/// slashes at the start. Names of directories are told apart by a hyphen before them.
pub proof fn law_stored_name(file_path: &str, n: nat, path: Seq<char>, r: String)
    requires
        call_ensures(LocalMediaStorage::stored_name, (file_path,), r),
        file_path@ == Seq::new(n, |i: int| '/') + path,
        path.len() == 0 || (path[0] != '/' && path[0] != '-'),
    ensures
        path.len() > 0 && path != seq!['.'] && path != seq!['.', '.'] ==> r@ == replace_char(
            path,
            '/',
            '-',
        ),
        path.len() == 0 || path == seq!['.'] || path == seq!['.', '.'] ==> r@ == seq!['-'] + path,
{
    let flat = replace_char(path, '/', '-');
    let run = Seq::new(n, |i: int| '-');
    assert(replace_char(file_path@, '/', '-') =~= run + flat) by {
        assert forall|i: int| 0 <= i < file_path@.len() implies replace_char(
            file_path@,
            '/',
            '-',
        )[i] == (run + flat)[i] by {
            if i < n {
                assert(file_path@[i] == '/');
            } else {
                assert(file_path@[i] == path[i - n]);
            }
        }
    }
    law_trim_char(n, '-', flat);
    if path == seq!['.'] {
        assert(flat =~= path);
    }
    if path == seq!['.', '.'] {
        assert(flat =~= path);
    }
    if path.len() == 0 {
        assert(flat =~= path);
    }
    if flat == seq!['.'] {
        assert(flat[0] == '.');
        assert(path =~= seq!['.']);
    }
    if flat == seq!['.', '.'] {
        assert(flat[0] == '.' && flat[1] == '.');
        assert(path =~= seq!['.', '.']);
    }
}

/// The sort of media goes by what its media type starts with.
pub proof fn law_media_type(
    storage: &LocalMediaStorage,
    mime_type: &str,
    rest: Seq<char>,
    r: &'static str,
)
    requires
        call_ensures(LocalMediaStorage::detect_media_type, (storage, mime_type), r),
    ensures
        mime_type@ == "image/"@ + rest ==> r@ == "image"@,
        mime_type@ == "video/"@ + rest ==> r@ == "video"@,
        (forall|t: Seq<char>| mime_type@ != #[trigger] ("image/"@ + t)) && (forall|t: Seq<char>|
            mime_type@ != #[trigger] ("video/"@ + t)) ==> r@ == "media"@,
{
    reveal_strlit("image/");
    reveal_strlit("video/");
    law_parts_of_text(mime_type@, "image/"@, rest);
    law_parts_of_text(mime_type@, "video/"@, rest);
    if mime_type@ == "video/"@ + rest {
        assert(mime_type@.take(6)[0] == 'v');
        assert("image/"@[0] == 'i');
    }
    if starts_with(mime_type@, "image/"@) {
        assert(mime_type@ == "image/"@ + mime_type@.skip(6));
    }
    if starts_with(mime_type@, "video/"@) {
        assert(mime_type@ == "video/"@ + mime_type@.skip(6));
    }
}

/// An upload writes the file into the directory for its sort, under its name, and
/// beside that name first.
pub proof fn law_upload_place(
    storage: &LocalMediaStorage,
    file_path: &str,
    mime_type: &str,
    name: String,
    sort: &'static str,
    r: SavePlan,
)
    requires
        call_ensures(LocalMediaStorage::upload, (storage, file_path, mime_type), r),
        call_ensures(LocalMediaStorage::stored_name, (file_path,), name),
        call_ensures(LocalMediaStorage::detect_media_type, (storage, mime_type), sort),
    ensures
        r.dir@ == join(storage.base_dir@, sort@),
        r.path@ == join(r.dir@, name@),
        r.partial@ == join(r.dir@, "-"@ + name@ + ".tmp"@),
{
}

/// A file is looked for in the directories for images, videos and other media, and
/// right in the directory of the storage.
pub proof fn law_places(
    storage: &LocalMediaStorage,
    file_path: &str,
    name: String,
    direct: String,
    r: Vec<String>,
)
    requires
        call_ensures(LocalMediaStorage::places, (storage, file_path), r),
        call_ensures(LocalMediaStorage::stored_name, (file_path,), name),
        call_ensures(LocalMediaStorage::safe_path, (storage, file_path), direct),
    ensures
        direct@ == join(storage.base_dir@, name@),
        r@.len() == 4,
        r@[0]@ == join(join(storage.base_dir@, "image"@), name@),
        r@[1]@ == join(join(storage.base_dir@, "video"@), name@),
        r@[2]@ == join(join(storage.base_dir@, "media"@), name@),
        r@[3]@ == direct@,
{
    let all = texts(r@);
    assert(all.len() == r@.len());
    assert(all[0] == r@[0]@);
    assert(all[1] == r@[1]@);
    assert(all[2] == r@[2]@);
    assert(all[3] == r@[3]@);
}

/// A download reads the newest file that there is, and none where there is none.
pub proof fn law_locate(
    storage: &LocalMediaStorage,
    file_path: &str,
    times: &Vec<Option<u128>>,
    places: Vec<String>,
    r: Option<String>,
)
    requires
        call_ensures(LocalMediaStorage::locate, (storage, file_path, times), r),
        call_ensures(LocalMediaStorage::places, (storage, file_path), places),
        times@.len() == 4,
    ensures
        r is None <==> forall|i: int| 0 <= i < 4 ==> (#[trigger] times@[i]) is None,
        r is Some ==> exists|i: int|
            {
                &&& 0 <= i < 4
                &&& r->0@ == (#[trigger] places@[i])@
                &&& times@[i] is Some
                &&& forall|j: int|
                    0 <= j < 4 && (#[trigger] times@[j]) is Some ==> times@[j]->0 < times@[i]->0 || (
                    times@[j]->0 == times@[i]->0 && i <= j)
            },
{
    assert(texts(places@).len() == places@.len());
    assert(places_of(storage.base_dir@, file_path@).len() == 4);
    match r {
        Some(path) => {
            let i = choose|i: int| #[trigger]
                is_newest(times@, i) && path@ == places_of(storage.base_dir@, file_path@)[i];
            assert(is_newest(times@, i));
            assert(texts(places@)[i] == places@[i]@);
            assert(times@[i] is Some);
        },
        None => {},
    }
}

/// A deletion removes every file of a path that there is, and nothing else.
pub proof fn law_delete(
    storage: &LocalMediaStorage,
    file_path: &str,
    present: &Vec<bool>,
    places: Vec<String>,
    r: Vec<String>,
)
    requires
        call_ensures(LocalMediaStorage::delete, (storage, file_path, present), r),
        call_ensures(LocalMediaStorage::places, (storage, file_path), places),
        present@.len() == 4,
    ensures
        ({
            let found = |i: int|
                if present@[i] {
                    seq![places@[i]@]
                } else {
                    Seq::empty()
                };
            texts(r@) == found(0) + found(1) + found(2) + found(3)
        }),
{
    let all = texts(places@);
    assert(all.len() == 4 && places@.len() == 4);
    assert(all[0] == places@[0]@ && all[1] == places@[1]@ && all[2] == places@[2]@ && all[3]
        == places@[3]@);
    let found = |i: int|
        if present@[i] {
            seq![places@[i]@]
        } else {
            Seq::empty()
        };
    lemma_present_step(all, present@, 0);
    lemma_present_step(all, present@, 1);
    lemma_present_step(all, present@, 2);
    lemma_present_step(all, present@, 3);
    assert(all_present(all.take(0), present@.take(0)) =~= Seq::empty());
    assert(all.take(4) =~= all && present@.take(4) =~= present@);
    assert(texts(r@) =~= found(0) + found(1) + found(2) + found(3));
}

proof fn lemma_present_step(paths: Seq<Seq<char>>, present: Seq<bool>, i: int)
    requires
        0 <= i < paths.len(),
        paths.len() == present.len(),
    ensures
        all_present(paths.take(i + 1), present.take(i + 1)) == all_present(
            paths.take(i),
            present.take(i),
        ) + (if present[i] {
            seq![paths[i]]
        } else {
            Seq::empty()
        }),
{
    assert(paths.take(i + 1).drop_last() =~= paths.take(i));
    assert(present.take(i + 1).drop_last() =~= present.take(i));
    let rest = all_present(paths.take(i), present.take(i));
    assert(all_present(paths.take(i + 1), present.take(i + 1)) =~= rest + (if present[i] {
        seq![paths[i]]
    } else {
        Seq::empty()
    }));
}

/// An upload that succeeds returns the path of the file, and one that fails the
/// cause. So does a deletion, without a path.
pub proof fn law_local_outcomes(
    storage: &LocalMediaStorage,
    file_path: &str,
    outcome: Result<(), String>,
    uploaded: Result<String, MediaStorageError>,
    deleted: Result<(), MediaStorageError>,
)
    requires
        call_ensures(LocalMediaStorage::uploaded, (storage, file_path, outcome), uploaded),
        call_ensures(LocalMediaStorage::deleted, (storage, outcome), deleted),
    ensures
        outcome is Ok ==> uploaded is Ok && uploaded->Ok_0@ == file_path@ && deleted is Ok,
        outcome is Err ==> uploaded is Err && uploaded->Err_0@ == StorageErrorView::IoError(
            outcome->Err_0@,
        ),
        outcome is Err ==> deleted is Err && deleted->Err_0@ == StorageErrorView::IoError(
            outcome->Err_0@,
        ),
{
}

/// A download hands out what was read, with the media type of its name. A file that
/// is not there is not found, and one that could not be read an error.
pub proof fn law_local_download(
    storage: &LocalMediaStorage,
    file_path: &str,
    read: Option<Result<Vec<u8>, String>>,
    direct: String,
    r: Result<(Vec<u8>, String), MediaStorageError>,
)
    requires
        call_ensures(LocalMediaStorage::download, (storage, file_path, read), r),
        call_ensures(LocalMediaStorage::safe_path, (storage, file_path), direct),
    ensures
        read is None ==> r is Err && r->Err_0@ == StorageErrorView::NotFound,
        read is Some && read->0 is Ok ==> r is Ok && r->Ok_0.0 == read->0->Ok_0 && r->Ok_0.1@
            == mime_for_path(direct@),
        read is Some && read->0 is Err ==> r is Err && r->Err_0@ == StorageErrorView::IoError(
            read->0->Err_0@,
        ),
{
}

/// What was read is handed out with the media type that is given.
pub proof fn law_downloaded(
    read: Option<Result<Vec<u8>, String>>,
    mime: String,
    r: Result<(Vec<u8>, String), MediaStorageError>,
)
    requires
        call_ensures(LocalMediaStorage::downloaded, (read, mime), r),
    ensures
        read is None ==> r is Err && r->Err_0@ == StorageErrorView::NotFound,
        read is Some && read->0 is Ok ==> r is Ok && r->Ok_0.0 == read->0->Ok_0 && r->Ok_0.1
            == mime,
        read is Some && read->0 is Err ==> r is Err && r->Err_0@ == StorageErrorView::IoError(
            read->0->Err_0@,
        ),
{
}

/// The address of a file goes through the gateway, by the sort of its media type,
/// with its path percent-encoded.
pub proof fn law_local_url(
    app_url: &str,
    mime: &str,
    file_path: &str,
    n: nat,
    app: Seq<char>,
    rest: Seq<char>,
    r: String,
)
    requires
        call_ensures(LocalMediaStorage::url_for, (app_url, mime, file_path), r),
        app_url@ == app + Seq::new(n, |i: int| '/'),
        app.len() == 0 || app.last() != '/',
    ensures
        mime@ == "image"@ + seq!['/'] + rest ==> r@ == app + "/v1/files/"@ + "image"@ + "/"@
            + percent_encoded(file_path@),
        mime@ == "video"@ + seq!['/'] + rest ==> r@ == app + "/v1/files/"@ + "video"@ + "/"@
            + percent_encoded(file_path@),
        before_char(mime@, '/') != "image"@ && before_char(mime@, '/') != "video"@ ==> r@ == app
            + "/v1/files/"@ + "media"@ + "/"@ + percent_encoded(file_path@),
{
    law_trim_char(n, '/', app);
    reveal_strlit("image");
    reveal_strlit("video");
    assert("image"@[0] == 'i' && "video"@[0] == 'v');
    assert(!"image"@.contains('/'));
    assert(!"video"@.contains('/'));
    law_before_char("image"@, '/', rest);
    law_before_char("video"@, '/', rest);
}

/// The address of a file is that for the media type of its name, whether a direct one
/// is asked for or not.
pub proof fn law_local_get_url(
    storage: &LocalMediaStorage,
    file_path: &str,
    direct: bool,
    app_url: &str,
    path: String,
    mime: &str,
    given: String,
    r: Result<String, MediaStorageError>,
)
    requires
        call_ensures(LocalMediaStorage::get_url, (storage, file_path, direct, app_url), r),
        call_ensures(LocalMediaStorage::safe_path, (storage, file_path), path),
        call_ensures(LocalMediaStorage::url_for, (app_url, mime, file_path), given),
        mime@ == mime_for_path(path@),
    ensures
        r is Ok,
        r->Ok_0@ == given@,
{
}

/// The storage is checked with a file of its own, and is a local one.
pub proof fn law_local_storage(storage: &LocalMediaStorage, test: String, sort: &'static str)
    requires
        call_ensures(LocalMediaStorage::health_check, (storage,), test),
        call_ensures(LocalMediaStorage::storage_type, (storage,), sort),
    ensures
        test@ == join(storage.base_dir@, ".health_check"@),
        sort@ == "local"@,
{
}

} // verus!
