//! The contents of the cache: what is in it, page by page, and how it is kept
//! within its limit.

use crate::download::DownloadService;
use crate::json::{
    json_view, json_views, member, value_array, value_bool, value_i64, value_object, value_set,
    value_string, value_u64, JsonView,
};
use crate::path::{file_stem, file_stem_of, join, join_path};
use crate::sort::{
    comes_before, index_views, key_views, law_stable_order, order_insert, order_upto, picked,
    stable_order, stable_order_of,
};
use crate::text::{join2, replace_char, replaced_char, same_text, texts};
use vstd::prelude::*;

verus! {

/// An entry of a directory. Its time is in milliseconds since 1970, or zero
/// where there is none.
#[derive(Clone, Debug)]
pub struct DirEntry {
    pub name: String,
    pub is_file: bool,
    pub size: u64,
    pub mtime_ms: i64,
}

/// The plain form of a [`DirEntry`].
pub struct DirEntryView {
    pub name: Seq<char>,
    pub is_file: bool,
    pub size: int,
    pub mtime_ms: int,
}

impl View for DirEntry {
    type V = DirEntryView;

    open spec fn view(&self) -> DirEntryView {
        DirEntryView {
            name: self.name@,
            is_file: self.is_file,
            size: self.size as int,
            mtime_ms: self.mtime_ms as int,
        }
    }
}

/// The plain form of some entries.
pub open spec fn entry_views(entries: Seq<DirEntry>) -> Seq<DirEntryView> {
    entries.map_values(|e: DirEntry| e@)
}

/// The entries that are files, in order.
pub open spec fn files_among(entries: Seq<DirEntryView>) -> Seq<DirEntryView>
    decreases entries.len(),
{
    if entries.len() == 0 {
        Seq::empty()
    } else if entries.last().is_file {
        files_among(entries.drop_last()).push(entries.last())
    } else {
        files_among(entries.drop_last())
    }
}

/// The bytes that some files take.
pub open spec fn total_size(files: Seq<DirEntryView>) -> int
    decreases files.len(),
{
    if files.len() == 0 {
        0
    } else {
        total_size(files.drop_last()) + files.last().size
    }
}

/// A number of files, and the bytes that files take.
#[derive(Clone, Copy, Debug, PartialEq, Eq, Structural)]
pub struct CacheTally {
    pub count: usize,
    pub total: u64,
}

/// How many of the entries are files that were removed.
pub open spec fn removed_count(entries: Seq<DirEntryView>, removed: Seq<bool>) -> nat
    decreases entries.len(),
{
    if entries.len() == 0 || removed.len() == 0 {
        0
    } else {
        let n: nat = if entries.last().is_file && removed.last() {
            1
        } else {
            0
        };
        removed_count(entries.drop_last(), removed.drop_last()) + n
    }
}

/// What is reported of a tally. `size_mb` is its size in megabytes.
pub open spec fn tally_report(count: int, size_mb: JsonView) -> JsonView {
    JsonView::Object(map!["count"@ => JsonView::Int(count), "size_mb"@ => size_mb])
}

/// The order of some files on the list: the newest first. Files of the same time
/// keep their order.
pub open spec fn newest_first(files: Seq<DirEntryView>) -> Seq<DirEntryView> {
    picked(files, stable_order(files.map_values(|f: DirEntryView| -f.mtime_ms)))
}

/// Where a page starts. Pages count from one, and zero is the first page too.
pub open spec fn page_start(page: int, page_size: int) -> int {
    if page == 0 {
        0
    } else {
        (page - 1) * page_size
    }
}

/// Where a page ends.
pub open spec fn page_end(page: int, page_size: int, total: int) -> int {
    let end = page_start(page, page_size) + page_size;
    if end < total {
        end
    } else {
        total
    }
}

/// Whether there is such a page of a list: it may start at the end of the list,
/// but not behind it.
pub open spec fn has_page(page: int, page_size: int, total: int) -> bool {
    page_start(page, page_size) <= total && page_start(page, page_size) + page_size <= usize::MAX
}

/// The image that previews a video: the last one whose name without the
/// extension is `stem`.
pub open spec fn preview_of(images: Seq<Seq<char>>, stem: Seq<char>) -> Option<Seq<char>>
    decreases images.len(),
{
    if images.len() == 0 {
        None
    } else if file_stem(images.last()) == Some(stem) {
        Some(images.last())
    } else {
        preview_of(images.drop_last(), stem)
    }
}

/// The preview of the video `name`.
pub open spec fn preview_for(images: Seq<Seq<char>>, name: Seq<char>) -> Option<Seq<char>> {
    match file_stem(name) {
        Some(stem) => preview_of(images, stem),
        None => None,
    }
}

/// The address of a file in the cache, within the gateway.
pub open spec fn view_url(is_image: bool, name: Seq<char>) -> Seq<char> {
    if is_image {
        "/v1/files/image/"@ + name
    } else {
        "/v1/files/video/"@ + name
    }
}

/// A file as it stands on the list.
pub open spec fn list_item(
    file: DirEntryView,
    is_image: bool,
    images: Seq<Seq<char>>,
) -> JsonView {
    let members = map![
        "name"@ => JsonView::Str(file.name),
        "size_bytes"@ => JsonView::Int(file.size),
        "mtime_ms"@ => JsonView::Int(file.mtime_ms),
        "view_url"@ => JsonView::Str(view_url(is_image, file.name)),
    ];
    if is_image {
        JsonView::Object(members)
    } else {
        match preview_for(images, file.name) {
            Some(preview) => JsonView::Object(
                members.insert("preview_url"@, JsonView::Str(view_url(true, preview))),
            ),
            None => JsonView::Object(members),
        }
    }
}

/// Some files as they stand on the list.
pub open spec fn list_items(
    files: Seq<DirEntryView>,
    is_image: bool,
    images: Seq<Seq<char>>,
) -> Seq<JsonView> {
    files.map_values(|f: DirEntryView| list_item(f, is_image, images))
}

/// A page of the list.
pub open spec fn page_report(
    total: int,
    page: int,
    page_size: int,
    items: Seq<JsonView>,
) -> JsonView {
    JsonView::Object(
        map![
            "total"@ => JsonView::Int(total),
            "page"@ => JsonView::Int(page),
            "page_size"@ => JsonView::Int(page_size),
            "items"@ => JsonView::Array(items),
        ],
    )
}

/// The page of the list of a directory, or an empty one where there is no
/// directory.
pub open spec fn file_page(
    entries: Option<Seq<DirEntryView>>,
    is_image: bool,
    images: Seq<Seq<char>>,
    page: int,
    page_size: int,
) -> JsonView {
    match entries {
        Some(entries) => {
            let sorted = newest_first(files_among(entries));
            let total = sorted.len() as int;
            let on_page = sorted.subrange(
                page_start(page, page_size),
                page_end(page, page_size, total),
            );
            page_report(total, page, page_size, list_items(on_page, is_image, images))
        },
        None => page_report(0, page, page_size, Seq::empty()),
    }
}

/// The plain form of the entries of a directory that may not be there.
pub open spec fn dir_view(entries: Option<&Vec<DirEntry>>) -> Option<Seq<DirEntryView>> {
    match entries {
        Some(entries) => Some(entry_views(entries@)),
        None => None,
    }
}

proof fn lemma_total_size_step(entries: Seq<DirEntryView>, i: int)
    requires
        0 <= i < entries.len(),
        forall|j: int| 0 <= j < entries.len() ==> 0 <= (#[trigger] entries[j]).size,
    ensures
        files_among(entries.take(i + 1)) == (if entries[i].is_file {
            files_among(entries.take(i)).push(entries[i])
        } else {
            files_among(entries.take(i))
        }),
        total_size(files_among(entries.take(i + 1))) == total_size(files_among(entries.take(i)))
            + (if entries[i].is_file {
            entries[i].size
        } else {
            0
        }),
{
    assert(entries.take(i + 1).drop_last() == entries.take(i));
    assert(entries.take(i + 1).last() == entries[i]);
    if entries[i].is_file {
        let files = files_among(entries.take(i));
        assert(files.push(entries[i]).drop_last() == files);
    }
}

/// The size of some of the files is at most that of all of them.
proof fn lemma_total_size_prefix(entries: Seq<DirEntryView>, i: int)
    requires
        0 <= i <= entries.len(),
        forall|j: int| 0 <= j < entries.len() ==> 0 <= (#[trigger] entries[j]).size,
    ensures
        0 <= total_size(files_among(entries.take(i))) <= total_size(files_among(entries)),
        files_among(entries.take(i)).len() <= i,
    decreases entries.len() - i,
{
    if i == entries.len() {
        assert(entries.take(i) == entries);
        lemma_files_bound(entries);
    } else {
        lemma_total_size_step(entries, i);
        lemma_total_size_prefix(entries, i + 1);
        lemma_files_bound(entries.take(i));
    }
}

proof fn lemma_files_bound(entries: Seq<DirEntryView>)
    requires
        forall|j: int| 0 <= j < entries.len() ==> 0 <= (#[trigger] entries[j]).size,
    ensures
        0 <= total_size(files_among(entries)),
        files_among(entries).len() <= entries.len(),
        forall|j: int|
            0 <= j < files_among(entries).len() ==> (#[trigger] files_among(entries)[j]).is_file,
    decreases entries.len(),
{
    if entries.len() > 0 {
        let rest = entries.drop_last();
        assert forall|j: int| 0 <= j < rest.len() implies 0 <= (#[trigger] rest[j]).size by {
            assert(rest[j] == entries[j]);
        }
        lemma_files_bound(rest);
        let files = files_among(rest);
        assert(0 <= entries[entries.len() - 1].size);
        assert(files.push(entries.last()).drop_last() == files);
    }
}

impl CacheTally {
    /// What is reported of a tally. `size_mb` is its size in megabytes.
    pub fn report(&self, size_mb: serde_json::Value) -> (r: serde_json::Value)
        ensures
            json_view(r) == tally_report(self.count as int, json_view(size_mb)),
    {
        let mut report = value_object();
        value_set(&mut report, "count", value_u64(self.count as u64));
        value_set(&mut report, "size_mb", size_mb);
        report
    }
}

/// Adds the size of the next entry, where it is a file.
fn add_size(entries: &Vec<DirEntry>, i: usize, total: u64) -> (r: u64)
    requires
        i < entries@.len(),
        total == total_size(files_among(entry_views(entries@).take(i as int))),
        total_size(files_among(entry_views(entries@))) <= u64::MAX,
    ensures
        r == total_size(files_among(entry_views(entries@).take(i + 1))),
{
    proof {
        let all = entry_views(entries@);
        assert(all[i as int] == entries@[i as int]@);
        lemma_total_size_step(all, i as int);
        lemma_total_size_prefix(all, i + 1);
    }
    if entries[i].is_file {
        total + entries[i].size
    } else {
        total
    }
}

impl DownloadService {
    /// How many files a directory holds, and their size: none where there is no
    /// directory.
    pub fn get_stats(&self, entries: Option<&Vec<DirEntry>>) -> (r: CacheTally)
        requires
            match dir_view(entries) {
                Some(entries) => total_size(files_among(entries)) <= u64::MAX,
                None => true,
            },
        ensures
            match dir_view(entries) {
                Some(entries) => r.count == files_among(entries).len() && r.total == total_size(
                    files_among(entries),
                ),
                None => r.count == 0 && r.total == 0,
            },
    {
        let entries = match entries {
            Some(entries) => entries,
            None => return CacheTally { count: 0, total: 0 },
        };
        let ghost all = entry_views(entries@);
        let mut count: usize = 0;
        let mut total: u64 = 0;
        let mut i: usize = 0;
        assert(files_among(all.take(0)) == Seq::<DirEntryView>::empty());
        while i < entries.len()
            invariant
                i <= entries@.len(),
                all == entry_views(entries@),
                count <= i,
                count == files_among(all.take(i as int)).len(),
                total == total_size(files_among(all.take(i as int))),
                total_size(files_among(all)) <= u64::MAX,
            decreases entries@.len() - i,
        {
            total = add_size(entries, i, total);
            proof {
                assert(all[i as int] == entries@[i as int]@);
                lemma_total_size_step(all, i as int);
            }
            if entries[i].is_file {
                count = count + 1;
            }
            i = i + 1;
        }
        assert(all.take(i as int) == all);
        CacheTally { count, total }
    }

    /// How many files of a directory were removed, and the size of all of them.
    /// `removed` says of each entry whether it was.
    pub fn clear(&self, entries: Option<&Vec<DirEntry>>, removed: &Vec<bool>) -> (r: CacheTally)
        requires
            match dir_view(entries) {
                Some(entries) => removed@.len() == entries.len() && total_size(files_among(entries))
                    <= u64::MAX,
                None => true,
            },
        ensures
            match dir_view(entries) {
                Some(entries) => r.count == removed_count(entries, removed@) && r.total
                    == total_size(files_among(entries)),
                None => r.count == 0 && r.total == 0,
            },
    {
        let entries = match entries {
            Some(entries) => entries,
            None => return CacheTally { count: 0, total: 0 },
        };
        let ghost all = entry_views(entries@);
        let mut count: usize = 0;
        let mut total: u64 = 0;
        let mut i: usize = 0;
        assert(files_among(all.take(0)) == Seq::<DirEntryView>::empty());
        while i < entries.len()
            invariant
                i <= entries@.len(),
                removed@.len() == entries@.len(),
                all == entry_views(entries@),
                count <= i,
                count == removed_count(all.take(i as int), removed@.take(i as int)),
                total == total_size(files_among(all.take(i as int))),
                total_size(files_among(all)) <= u64::MAX,
            decreases entries@.len() - i,
        {
            total = add_size(entries, i, total);
            proof {
                assert(all[i as int] == entries@[i as int]@);
                assert(all.take(i + 1).drop_last() == all.take(i as int));
                assert(removed@.take(i + 1).drop_last() == removed@.take(i as int));
            }
            if entries[i].is_file && removed[i] {
                count = count + 1;
            }
            i = i + 1;
        }
        assert(all.take(i as int) == all);
        assert(removed@.take(i as int) == removed@);
        CacheTally { count, total }
    }
}

/// Indices into `entries`, as the entries behind them.
spec fn chosen(entries: Seq<DirEntryView>, indices: Seq<usize>) -> Seq<DirEntryView> {
    indices.map_values(|i: usize| entries[i as int])
}

/// The indices of the entries that are files.
fn file_indices(entries: &Vec<DirEntry>) -> (r: Vec<usize>)
    ensures
        chosen(entry_views(entries@), r@) == files_among(entry_views(entries@)),
        forall|j: int| 0 <= j < r@.len() ==> #[trigger] r@[j] < entries@.len(),
{
    let ghost all = entry_views(entries@);
    let mut out: Vec<usize> = Vec::new();
    let mut i: usize = 0;
    assert(files_among(all.take(0)) == Seq::<DirEntryView>::empty());
    assert(chosen(all, out@) == Seq::<DirEntryView>::empty());
    while i < entries.len()
        invariant
            i <= entries@.len(),
            all == entry_views(entries@),
            chosen(all, out@) == files_among(all.take(i as int)),
            forall|j: int| 0 <= j < out@.len() ==> #[trigger] out@[j] < entries@.len(),
        decreases entries@.len() - i,
    {
        let ghost before = out@;
        proof {
            assert(all[i as int] == entries@[i as int]@);
            lemma_total_size_step(all, i as int);
        }
        if entries[i].is_file {
            out.push(i);
            assert(chosen(all, out@) == chosen(all, before).push(all[i as int]));
        }
        i = i + 1;
    }
    assert(all.take(i as int) == all);
    out
}

/// The indices of the files, the newest first.
fn newest_indices(entries: &Vec<DirEntry>) -> (r: Vec<usize>)
    ensures
        chosen(entry_views(entries@), r@) == newest_first(files_among(entry_views(entries@))),
        forall|j: int| 0 <= j < r@.len() ==> #[trigger] r@[j] < entries@.len(),
{
    let ghost all = entry_views(entries@);
    let ghost files = files_among(all);
    let indices = file_indices(entries);
    let mut keys: Vec<i128> = Vec::new();
    let mut i: usize = 0;
    while i < indices.len()
        invariant
            i <= indices@.len(),
            all == entry_views(entries@),
            keys@.len() == i,
            forall|j: int| 0 <= j < indices@.len() ==> #[trigger] indices@[j] < entries@.len(),
            forall|j: int|
                0 <= j < i ==> #[trigger] keys@[j] as int == -all[indices@[j] as int].mtime_ms,
        decreases indices@.len() - i,
    {
        let k = indices[i];
        assert(all[k as int] == entries@[k as int]@);
        keys.push(0 - entries[k].mtime_ms as i128);
        i = i + 1;
    }
    let ghost file_keys = files.map_values(|f: DirEntryView| -f.mtime_ms);
    proof {
        assert(chosen(all, indices@).len() == files.len());
        assert forall|j: int| 0 <= j < files.len() implies #[trigger] key_views(keys@)[j]
            == file_keys[j] by {
            assert(files[j] == chosen(all, indices@)[j]);
            assert(keys@[j] as int == -all[indices@[j] as int].mtime_ms);
        }
        assert(key_views(keys@) == file_keys);
    }
    let order = stable_order_of(&keys);
    let mut out: Vec<usize> = Vec::new();
    let mut i: usize = 0;
    while i < order.len()
        invariant
            i <= order@.len(),
            out@.len() == i,
            order@.len() == indices@.len(),
            forall|j: int| 0 <= j < order@.len() ==> #[trigger] order@[j] < indices@.len(),
            forall|j: int| 0 <= j < indices@.len() ==> #[trigger] indices@[j] < entries@.len(),
            forall|j: int| 0 <= j < i ==> #[trigger] out@[j] == indices@[order@[j] as int],
        decreases order@.len() - i,
    {
        out.push(indices[order[i]]);
        i = i + 1;
    }
    proof {
        let sorted = newest_first(files);
        let wanted = stable_order(file_keys);
        assert(index_views(order@) == wanted);
        assert(sorted.len() == out@.len());
        assert forall|j: int| 0 <= j < out@.len() implies chosen(all, out@)[j] == sorted[j] by {
            assert(out@[j] == indices@[order@[j] as int]);
            assert(index_views(order@)[j] == order@[j] as int);
            assert(sorted[j] == files[wanted[j]]);
            assert(files[wanted[j]] == chosen(all, indices@)[wanted[j]]);
        }
        assert(chosen(all, out@) == sorted);
        assert forall|j: int| 0 <= j < out@.len() implies #[trigger] out@[j] < entries@.len() by {
            assert(out@[j] == indices@[order@[j] as int]);
        }
    }
    out
}

/// The preview of the video `name`.
fn preview_name(images: &Vec<String>, name: &str) -> (r: Option<String>)
    ensures
        match r {
            Some(preview) => preview_for(texts(images@), name@) == Some(preview@),
            None => preview_for(texts(images@), name@) is None,
        },
{
    let stem = match file_stem_of(name) {
        Some(stem) => stem,
        None => return None,
    };
    let ghost all = texts(images@);
    let mut n: usize = images.len();
    assert(all.take(n as int) == all);
    while n > 0
        invariant
            n <= images@.len(),
            all == texts(images@),
            file_stem(name@) == Some(stem@),
            preview_of(all, stem@) == preview_of(all.take(n as int), stem@),
        decreases n,
    {
        let image = &images[n - 1];
        proof {
            assert(all.take(n as int).drop_last() == all.take(n - 1));
            assert(all.take(n as int).last() == image@);
        }
        if let Some(s) = file_stem_of(image.as_str()) {
            if same_text(s.as_str(), stem.as_str()) {
                return Some(image.clone());
            }
        }
        n = n - 1;
    }
    None
}

/// A file as it stands on the list.
fn item_of(file: &DirEntry, is_image: bool, images: &Vec<String>) -> (r: serde_json::Value)
    ensures
        json_view(r) == list_item(file@, is_image, texts(images@)),
{
    let mut item = value_object();
    value_set(&mut item, "name", value_string(file.name.clone()));
    value_set(&mut item, "size_bytes", value_u64(file.size));
    value_set(&mut item, "mtime_ms", value_i64(file.mtime_ms));
    if is_image {
        let url = join2("/v1/files/image/", file.name.as_str());
        value_set(&mut item, "view_url", value_string(url));
    } else {
        let url = join2("/v1/files/video/", file.name.as_str());
        value_set(&mut item, "view_url", value_string(url));
        if let Some(preview) = preview_name(images, file.name.as_str()) {
            let url = join2("/v1/files/image/", preview.as_str());
            value_set(&mut item, "preview_url", value_string(url));
        }
    }
    item
}

/// A page of the list.
fn report_of(total: usize, page: usize, page_size: usize, items: Vec<serde_json::Value>) -> (r:
    serde_json::Value)
    ensures
        json_view(r) == page_report(
            total as int,
            page as int,
            page_size as int,
            json_views(items@),
        ),
{
    let mut report = value_object();
    value_set(&mut report, "total", value_u64(total as u64));
    value_set(&mut report, "page", value_u64(page as u64));
    value_set(&mut report, "page_size", value_u64(page_size as u64));
    value_set(&mut report, "items", value_array(items));
    report
}

impl DownloadService {
    /// Whether the list of a directory has a page.
    pub fn page_exists(&self, entries: Option<&Vec<DirEntry>>, page: usize, page_size: usize) -> (r:
        bool)
        ensures
            r == match dir_view(entries) {
                Some(entries) => has_page(
                    page as int,
                    page_size as int,
                    files_among(entries).len() as int,
                ),
                None => true,
            },
    {
        match entries {
            Some(entries) => {
                let files = file_indices(entries);
                let total = files.len();
                assert(chosen(entry_views(entries@), files@).len() == total);
                let before: usize = if page == 0 {
                    0
                } else {
                    page - 1
                };
                assert(page_start(page as int, page_size as int) == before * page_size);
                match before.checked_mul(page_size) {
                    Some(start) => start <= total && page_size <= usize::MAX - start,
                    None => false,
                }
            },
            None => true,
        }
    }

    /// A page of the list of a directory: its files, the newest first, with their
    /// addresses. A video comes with the image that has its name. `images` are
    /// the names of the files in the directory for images.
    pub fn list_files(
        &self,
        media_type: &str,
        page: usize,
        page_size: usize,
        entries: Option<&Vec<DirEntry>>,
        images: &Vec<String>,
    ) -> (r: serde_json::Value)
        requires
            match dir_view(entries) {
                Some(entries) => has_page(
                    page as int,
                    page_size as int,
                    files_among(entries).len() as int,
                ),
                None => true,
            },
        ensures
            json_view(r) == file_page(
                dir_view(entries),
                media_type@ == "image"@,
                texts(images@),
                page as int,
                page_size as int,
            ),
    {
        let is_image = same_text(media_type, "image");
        let mut items: Vec<serde_json::Value> = Vec::new();
        let entries = match entries {
            Some(entries) => entries,
            None => {
                assert(json_views(items@) == Seq::<JsonView>::empty());
                return report_of(0, page, page_size, items);
            },
        };
        let ghost all = entry_views(entries@);
        let ghost sorted = newest_first(files_among(all));
        let indices = newest_indices(entries);
        let total = indices.len();
        let before: usize = if page == 0 {
            0
        } else {
            page - 1
        };
        proof {
            assert(chosen(all, indices@).len() == total);
            law_stable_order(files_among(all).map_values(|f: DirEntryView| -f.mtime_ms));
            assert(sorted.len() == files_among(all).len());
            assert(page_start(page as int, page_size as int) == before * page_size);
        }
        let start = before * page_size;
        let end: usize = if start + page_size < total {
            start + page_size
        } else {
            total
        };
        let ghost on_page = sorted.subrange(start as int, end as int);
        let ghost wanted = list_items(on_page, is_image, texts(images@));
        let mut i: usize = start;
        while i < end
            invariant
                start <= i <= end <= indices@.len(),
                all == entry_views(entries@),
                sorted == chosen(all, indices@),
                on_page == sorted.subrange(start as int, end as int),
                wanted == list_items(on_page, is_image, texts(images@)),
                json_views(items@) == wanted.take(i - start),
                forall|j: int| 0 <= j < indices@.len() ==> #[trigger] indices@[j] < entries@.len(),
            decreases end - i,
        {
            let ghost done = items@;
            let item = item_of(&entries[indices[i]], is_image, images);
            items.push(item);
            proof {
                let k = i - start;
                assert(on_page[k] == sorted[i as int]);
                assert(sorted[i as int] == all[indices@[i as int] as int]);
                assert(all[indices@[i as int] as int] == entries@[indices@[i as int] as int]@);
                assert(wanted[k] == json_view(item));
                assert(json_views(items@) == json_views(done).push(json_view(item)));
                assert(wanted.take(k + 1) == wanted.take(k).push(wanted[k]));
            }
            i = i + 1;
        }
        assert(wanted.take(end - start) == wanted);
        report_of(total, page, page_size, items)
    }

    /// The file that a name in the cache stands for.
    pub fn delete_file(&self, media_type: &str, name: &str) -> (r: String)
        ensures
            r@ == join(self.dir_of(media_type@), replace_char(name@, '/', '-')),
    {
        join_path(self.dir(media_type), replaced_char(name, '/', '-').as_str())
    }

    /// What is reported of a file that was to be deleted: whether it was there
    /// and could be removed.
    pub fn file_deleted(&self, exists: bool, removed: bool) -> (r: serde_json::Value)
        ensures
            json_view(r) == JsonView::Object(map!["deleted"@ => JsonView::Bool(exists && removed)]),
    {
        let mut report = value_object();
        value_set(&mut report, "deleted", value_bool(exists && removed));
        report
    }
}

/// A file that may leave the cache, under a number by which it is found again.
/// Ages are compared only with each other, so that any numbers that grow with the
/// age will do.
#[derive(Clone, Copy, Debug, PartialEq, Eq, Structural)]
pub struct CachedFile {
    pub id: usize,
    pub age: u64,
    pub size: u64,
}

/// The plain form of a [`CachedFile`].
pub struct CachedFileView {
    pub id: int,
    pub age: int,
    pub size: int,
}

impl View for CachedFile {
    type V = CachedFileView;

    open spec fn view(&self) -> CachedFileView {
        CachedFileView { id: self.id as int, age: self.age as int, size: self.size as int }
    }
}

/// The plain form of some files.
pub open spec fn cached_views(files: Seq<CachedFile>) -> Seq<CachedFileView> {
    files.map_values(|f: CachedFile| f@)
}

/// The bytes that some files take.
pub open spec fn bytes_held(files: Seq<CachedFileView>) -> int
    decreases files.len(),
{
    if files.len() == 0 {
        0
    } else {
        bytes_held(files.drop_last()) + files.last().size
    }
}

/// The order in which files leave the cache: by ascending age. Files of the same
/// age keep their order.
pub open spec fn eviction_order(files: Seq<CachedFileView>) -> Seq<CachedFileView> {
    picked(files, stable_order(files.map_values(|f: CachedFileView| f.age)))
}

/// The plain form of an [`EvictionRun`]: the files that are left, and their size.
pub struct EvictionView {
    pub left: Seq<CachedFileView>,
    pub total: int,
}

/// The eviction from a cache that holds some files.
pub open spec fn eviction_of(files: Seq<CachedFileView>) -> EvictionView {
    EvictionView { left: eviction_order(files), total: bytes_held(files) }
}

/// The file that goes next: none where there is room enough, or no file is left.
pub open spec fn goes_next(run: EvictionView, enough: bool) -> Option<CachedFileView> {
    if enough || run.left.len() == 0 {
        None
    } else {
        Some(run.left[0])
    }
}

/// The eviction once the next file is gone.
pub open spec fn after_next(run: EvictionView, enough: bool) -> EvictionView {
    match goes_next(run, enough) {
        Some(f) => EvictionView { left: run.left.drop_first(), total: run.total - f.size },
        None => run,
    }
}

/// The files that go, one after the other. `enough_now` says whether there is room
/// enough to begin with, and `enough` whether there is with so many bytes held once
/// a file is gone.
pub open spec fn gone(
    run: EvictionView,
    enough_now: bool,
    enough: spec_fn(int) -> bool,
) -> Seq<CachedFileView>
    decreases run.left.len(),
{
    match goes_next(run, enough_now) {
        Some(f) => {
            let rest = after_next(run, enough_now);
            seq![f] + gone(rest, enough(rest.total), enough)
        },
        None => Seq::empty(),
    }
}

/// Makes room in the cache, file by file.
pub struct EvictionRun {
    files: Vec<CachedFile>,
    order: Vec<usize>,
    next: usize,
    total: u64,
}

proof fn lemma_bytes_held_bounds(files: Seq<CachedFile>)
    ensures
        0 <= bytes_held(cached_views(files)),
    decreases files.len(),
{
    if files.len() > 0 {
        lemma_bytes_held_bounds(files.drop_last());
        assert(cached_views(files).drop_last() == cached_views(files.drop_last()));
        assert(cached_views(files).last() == files.last()@);
    }
}

proof fn lemma_bytes_held_prefix(files: Seq<CachedFile>, i: int)
    requires
        0 <= i < files.len(),
    ensures
        bytes_held(cached_views(files).take(i + 1)) == bytes_held(cached_views(files).take(i))
            + files[i].size,
        bytes_held(cached_views(files).take(i + 1)) <= bytes_held(cached_views(files)),
    decreases files.len() - i,
{
    let all = cached_views(files);
    assert(all.take(i + 1).drop_last() == all.take(i));
    assert(all.take(i + 1).last() == files[i]@);
    if i + 1 < files.len() {
        lemma_bytes_held_prefix(files, i + 1);
    } else {
        assert(all.take(i + 1) == all);
    }
}

proof fn lemma_bytes_held_insert(
    files: Seq<CachedFileView>,
    keys: Seq<int>,
    order: Seq<int>,
    i: int,
)
    ensures
        bytes_held(picked(files, order_insert(keys, order, i))) == bytes_held(picked(files, order))
            + files[i].size,
    decreases order.len(),
{
    if order.len() == 0 || keys[order.last()] <= keys[i] {
        assert(picked(files, order.push(i)).drop_last() == picked(files, order));
    } else {
        let rest = order_insert(keys, order.drop_last(), i);
        lemma_bytes_held_insert(files, keys, order.drop_last(), i);
        assert(picked(files, rest.push(order.last())).drop_last() == picked(files, rest));
        assert(picked(files, order).drop_last() == picked(files, order.drop_last()));
    }
}

proof fn lemma_bytes_held_order(files: Seq<CachedFileView>, keys: Seq<int>, n: nat)
    requires
        n <= files.len(),
    ensures
        bytes_held(picked(files, order_upto(keys, n))) == bytes_held(files.take(n as int)),
    decreases n,
{
    if n > 0 {
        let m = (n - 1) as nat;
        lemma_bytes_held_order(files, keys, m);
        lemma_bytes_held_insert(files, keys, order_upto(keys, m), m as int);
        assert(files.take(n as int).drop_last() == files.take(m as int));
    } else {
        assert(picked(files, order_upto(keys, n)) == files.take(0));
    }
}

/// The first of some files takes its part of their bytes.
proof fn lemma_bytes_held_first(files: Seq<CachedFileView>)
    requires
        files.len() > 0,
    ensures
        bytes_held(files) == files[0].size + bytes_held(files.drop_first()),
    decreases files.len(),
{
    if files.len() > 1 {
        lemma_bytes_held_first(files.drop_last());
        assert(files.drop_last().drop_first() == files.drop_first().drop_last());
    } else {
        assert(files.drop_last() == Seq::<CachedFileView>::empty());
        assert(files.drop_first() == Seq::<CachedFileView>::empty());
    }
}

impl View for EvictionRun {
    type V = EvictionView;

    closed spec fn view(&self) -> EvictionView {
        EvictionView {
            left: picked(cached_views(self.files@), index_views(self.order@)).skip(
                self.next as int,
            ),
            total: self.total as int,
        }
    }
}

impl EvictionRun {
    /// What counts as held is what the files that are left take.
    pub closed spec fn well_formed(&self) -> bool {
        &&& self.next <= self.order@.len()
        &&& forall|j: int|
            0 <= j < self.order@.len() ==> #[trigger] self.order@[j] < self.files@.len()
        &&& self@.total == bytes_held(self@.left)
    }

    /// The eviction from a cache that holds some files.
    pub fn new(files: Vec<CachedFile>) -> (r: EvictionRun)
        requires
            bytes_held(cached_views(files@)) <= u64::MAX,
        ensures
            r.well_formed(),
            r@ == eviction_of(cached_views(files@)),
    {
        let ghost all = cached_views(files@);
        let ghost ages = all.map_values(|f: CachedFileView| f.age);
        let mut keys: Vec<i128> = Vec::new();
        let mut total: u64 = 0;
        let mut i: usize = 0;
        assert(bytes_held(all.take(0)) == 0);
        while i < files.len()
            invariant
                i <= files@.len(),
                all == cached_views(files@),
                keys@.len() == i,
                forall|j: int| 0 <= j < i ==> #[trigger] keys@[j] as int == all[j].age,
                total == bytes_held(all.take(i as int)),
                bytes_held(all) <= u64::MAX,
            decreases files@.len() - i,
        {
            proof {
                lemma_bytes_held_prefix(files@, i as int);
                assert(all[i as int] == files@[i as int]@);
            }
            keys.push(files[i].age as i128);
            total = total + files[i].size;
            i = i + 1;
        }
        assert(all.take(i as int) == all);
        assert(key_views(keys@) == ages);
        let order = stable_order_of(&keys);
        let r = EvictionRun { files, order, next: 0, total };
        proof {
            lemma_bytes_held_order(all, ages, all.len());
            assert(all.take(all.len() as int) == all);
            assert(r@.left == eviction_order(all));
        }
        r
    }

    /// The bytes that the files that are left take.
    pub fn total(&self) -> (r: u64)
        ensures
            r == self@.total,
    {
        self.total
    }

    /// The next file to remove: none where there is room enough, or no file is
    /// left.
    pub fn next(&mut self, enough: bool) -> (r: Option<usize>)
        requires
            old(self).well_formed(),
        ensures
            final(self).well_formed(),
            final(self)@ == after_next(old(self)@, enough),
            match (goes_next(old(self)@, enough), r) {
                (Some(f), Some(id)) => id == f.id,
                (None, None) => true,
                _ => false,
            },
    {
        if enough || self.next == self.order.len() {
            return None;
        }
        let ghost before = self@;
        let k = self.order[self.next];
        let size = self.files[k].size;
        proof {
            assert(before.left[0] == self.files@[k as int]@);
            lemma_bytes_held_first(before.left);
            let rest = Seq::new(
                (self.order@.len() - self.next - 1) as nat,
                |j: int| self.files@[self.order@[self.next + 1 + j] as int],
            );
            assert(before.left.drop_first() == cached_views(rest));
            lemma_bytes_held_bounds(rest);
        }
        self.total = self.total.saturating_sub(size);
        self.next = self.next + 1;
        assert(self@.left == before.left.drop_first());
        Some(self.files[k].id)
    }
}

impl DownloadService {
    /// The eviction from the cache that holds some files: from none of them where
    /// the cache is not cleaned.
    pub fn check_limit(&self, enabled: bool, files: Vec<CachedFile>) -> (r: EvictionRun)
        requires
            bytes_held(cached_views(files@)) <= u64::MAX,
        ensures
            r.well_formed(),
            r@ == eviction_of(
                if enabled {
                    cached_views(files@)
                } else {
                    Seq::empty()
                },
            ),
    {
        if enabled {
            EvictionRun::new(files)
        } else {
            let none: Vec<CachedFile> = Vec::new();
            assert(cached_views(none@) == Seq::<CachedFileView>::empty());
            EvictionRun::new(none)
        }
    }
}

/// The list holds every file once, the newest first, and files of the same time
/// in the order in which they came.
pub proof fn law_newest_first(files: Seq<DirEntryView>)
    ensures
        newest_first(files).len() == files.len(),
        forall|f: DirEntryView| files.contains(f) <==> newest_first(files).contains(f),
        forall|a: int, b: int|
            0 <= a < b < files.len() ==> (#[trigger] newest_first(files)[a]).mtime_ms >= (
            #[trigger] newest_first(files)[b]).mtime_ms,
{
    let keys = files.map_values(|f: DirEntryView| -f.mtime_ms);
    let order = stable_order(keys);
    let sorted = newest_first(files);
    law_stable_order(keys);
    assert forall|f: DirEntryView| files.contains(f) implies sorted.contains(f) by {
        let i = choose|i: int| 0 <= i < files.len() && files[i] == f;
        assert(order.contains(i));
        let j = choose|j: int| 0 <= j < order.len() && order[j] == i;
        assert(sorted[j] == f);
    }
    assert forall|f: DirEntryView| sorted.contains(f) implies files.contains(f) by {
        let j = choose|j: int| 0 <= j < sorted.len() && sorted[j] == f;
        assert(files[order[j]] == f);
    }
    assert forall|a: int, b: int| 0 <= a < b < files.len() implies (#[trigger] sorted[a]).mtime_ms
        >= (#[trigger] sorted[b]).mtime_ms by {
        assert(comes_before(keys, order[a], order[b]));
        assert(keys[order[a]] == -files[order[a]].mtime_ms);
        assert(keys[order[b]] == -files[order[b]].mtime_ms);
    }
}

/// A page ends where the next one starts, as long as the list goes on, and the
/// last one ends with the list: the pages hold every file once.
pub proof fn law_pages_follow_each_other(page: int, page_size: int, total: int)
    requires
        page >= 1,
        page_size >= 0,
        page_start(page, page_size) <= total,
    ensures
        page_start(page + 1, page_size) <= total ==> page_end(page, page_size, total) == page_start(
            page + 1,
            page_size,
        ),
        page_start(page + 1, page_size) > total ==> page_end(page, page_size, total) == total,
        page_start(1, page_size) == 0,
        page_start(0, page_size) == 0,
{
    assert(page * page_size == (page - 1) * page_size + page_size) by (nonlinear_arith);
    assert(0 * page_size == 0);
}

/// What counts as held while the cache is cleaned is what the files that are
/// left take. Once no file is left, it is nothing.
pub proof fn law_eviction_total(run: &EvictionRun)
    requires
        run.well_formed(),
    ensures
        run@.total == bytes_held(run@.left),
        run@.left.len() == 0 ==> run@.total == 0,
{
}

/// Files leave the cache by ascending age.
pub proof fn law_eviction_order(files: Seq<CachedFileView>)
    ensures
        eviction_order(files).len() == files.len(),
        bytes_held(eviction_order(files)) == bytes_held(files),
        forall|a: int, b: int|
            0 <= a < b < files.len() ==> (#[trigger] eviction_order(files)[a]).age <= (
            #[trigger] eviction_order(files)[b]).age,
{
    let keys = files.map_values(|f: CachedFileView| f.age);
    let order = stable_order(keys);
    law_stable_order(keys);
    lemma_bytes_held_order(files, keys, files.len());
    assert(files.take(files.len() as int) == files);
    assert forall|a: int, b: int| 0 <= a < b < files.len() implies (
    #[trigger] eviction_order(files)[a]).age <= (#[trigger] eviction_order(files)[b]).age by {
        assert(comes_before(keys, order[a], order[b]));
        assert(keys[order[a]] == files[order[a]].age);
        assert(keys[order[b]] == files[order[b]].age);
    }
}

/// The files that go are those of the shortest start of the list by ascending age
/// without which there is room enough: none where there is to begin with, and all
/// where there never is.
pub proof fn law_eviction_is_shortest(
    files: Seq<CachedFileView>,
    enough_now: bool,
    enough: spec_fn(int) -> bool,
)
    ensures
        ({
            let order = eviction_order(files);
            let n = gone(eviction_of(files), enough_now, enough).len() as int;
            &&& n <= files.len()
            &&& gone(eviction_of(files), enough_now, enough) == order.take(n)
            &&& n == 0 <==> enough_now || files.len() == 0
            &&& 0 < n < files.len() ==> enough(bytes_held(order.skip(n)))
            &&& forall|k: int| 0 < k < n ==> !enough(bytes_held(#[trigger] order.skip(k)))
        }),
{
    law_eviction_order(files);
    lemma_gone(eviction_of(files), enough_now, enough);
}

proof fn lemma_gone(run: EvictionView, enough_now: bool, enough: spec_fn(int) -> bool)
    requires
        run.total == bytes_held(run.left),
    ensures
        ({
            let n = gone(run, enough_now, enough).len() as int;
            &&& n <= run.left.len()
            &&& gone(run, enough_now, enough) == run.left.take(n)
            &&& n == 0 <==> enough_now || run.left.len() == 0
            &&& 0 < n < run.left.len() ==> enough(bytes_held(run.left.skip(n)))
            &&& forall|k: int| 0 < k < n ==> !enough(bytes_held(#[trigger] run.left.skip(k)))
        }),
    decreases run.left.len(),
{
    if goes_next(run, enough_now) is None {
        assert(run.left.take(0) == Seq::<CachedFileView>::empty());
    } else {
        let rest = after_next(run, enough_now);
        lemma_bytes_held_first(run.left);
        lemma_gone(rest, enough(rest.total), enough);
        let tail = gone(rest, enough(rest.total), enough);
        let all = gone(run, enough_now, enough);
        let n = all.len() as int;
        assert(all == seq![run.left[0]] + tail);
        assert(all =~= run.left.take(n));
        assert forall|k: int| 0 < k <= n implies #[trigger] run.left.skip(k) == rest.left.skip(
            k - 1,
        ) by {
            assert(run.left.skip(k) =~= rest.left.skip(k - 1));
        }
        assert(rest.left.skip(0) =~= rest.left);
    }
}

/// What counts of a directory are its files, every one of them, in order.
pub proof fn law_files_among(entries: Seq<DirEntryView>)
    ensures
        files_among(entries) == entries.filter(|e: DirEntryView| e.is_file),
    decreases entries.len(),
{
    reveal(Seq::filter);
    if entries.len() > 0 {
        law_files_among(entries.drop_last());
    }
}

/// Files take as many bytes as they do one by one.
pub proof fn law_total_size(files: Seq<DirEntryView>, cached: Seq<CachedFileView>)
    ensures
        total_size(files) == files.fold_left(0int, |n: int, f: DirEntryView| n + f.size),
        bytes_held(cached) == cached.fold_left(0int, |n: int, f: CachedFileView| n + f.size),
    decreases files.len() + cached.len(),
{
    if files.len() > 0 {
        law_total_size(files.drop_last(), cached);
    } else if cached.len() > 0 {
        law_total_size(files, cached.drop_last());
    }
}

/// The statistics of a directory count its files and their bytes. There is nothing
/// to count where there is no directory.
pub proof fn law_stats(service: &DownloadService, entries: Option<&Vec<DirEntry>>, r: CacheTally)
    requires
        call_ensures(DownloadService::get_stats, (service, entries), r),
    ensures
        entries is Some ==> r.count == files_among(entry_views(entries->0@)).len(),
        entries is Some ==> r.total == total_size(files_among(entry_views(entries->0@))),
        entries is None ==> r.count == 0 && r.total == 0,
{
}

/// Whether the entry at `i` is a file that was removed.
pub open spec fn was_removed(entries: Seq<DirEntryView>, removed: Seq<bool>, i: int) -> bool {
    entries[i].is_file && removed[i]
}

/// Clearing a directory counts the files that were removed, and the bytes of all
/// files that there were.
pub proof fn law_clear(
    service: &DownloadService,
    entries: Option<&Vec<DirEntry>>,
    removed: &Vec<bool>,
    r: CacheTally,
)
    requires
        call_ensures(DownloadService::clear, (service, entries, removed), r),
        entries is Some ==> removed@.len() == entries->0@.len(),
    ensures
        entries is Some ==> r.count == Set::new(
            |i: int| 0 <= i < removed@.len() && was_removed(entry_views(entries->0@), removed@, i),
        ).len(),
        entries is Some ==> r.total == total_size(files_among(entry_views(entries->0@))),
        entries is None ==> r.count == 0 && r.total == 0,
{
    if entries is Some {
        lemma_removed_count(entry_views(entries->0@), removed@, removed@.len() as int);
        assert(entry_views(entries->0@).take(removed@.len() as int) == entry_views(entries->0@));
        assert(removed@.take(removed@.len() as int) == removed@);
    }
}

proof fn lemma_removed_count(entries: Seq<DirEntryView>, removed: Seq<bool>, n: int)
    requires
        entries.len() == removed.len(),
        0 <= n <= removed.len(),
    ensures
        Set::new(|i: int| 0 <= i < n && was_removed(entries, removed, i)).finite(),
        removed_count(entries.take(n), removed.take(n)) == Set::new(
            |i: int| 0 <= i < n && was_removed(entries, removed, i),
        ).len(),
    decreases n,
{
    let now = Set::new(|i: int| 0 <= i < n && was_removed(entries, removed, i));
    if n > 0 {
        lemma_removed_count(entries, removed, n - 1);
        let before = Set::new(|i: int| 0 <= i < n - 1 && was_removed(entries, removed, i));
        assert(entries.take(n).drop_last() == entries.take(n - 1));
        assert(removed.take(n).drop_last() == removed.take(n - 1));
        assert(entries.take(n).last() == entries[n - 1]);
        if was_removed(entries, removed, n - 1) {
            assert(now =~= before.insert(n - 1));
        } else {
            assert(now =~= before);
        }
    } else {
        assert(now =~= Set::empty());
    }
}

/// A tally is reported with its number of files and its size.
pub proof fn law_tally_report(tally: &CacheTally, size_mb: serde_json::Value, r: serde_json::Value)
    requires
        call_ensures(CacheTally::report, (tally, size_mb), r),
    ensures
        member(json_view(r), "count"@) == Some(JsonView::Int(tally.count as int)),
        member(json_view(r), "size_mb"@) == Some(json_view(size_mb)),
{
    reveal_strlit("count");
    reveal_strlit("size_mb");
    assert("count"@.len() == 5 && "size_mb"@.len() == 7);
}

/// A file is reported as deleted exactly where it was there and was removed.
pub proof fn law_file_deleted(
    service: &DownloadService,
    exists: bool,
    removed: bool,
    r: serde_json::Value,
)
    requires
        call_ensures(DownloadService::file_deleted, (service, exists, removed), r),
    ensures
        member(json_view(r), "deleted"@) == Some(JsonView::Bool(exists && removed)),
{
}

/// The file to delete is the one with that name in the directory for its sort of
/// media, and in no directory below it.
pub proof fn law_delete_file(service: &DownloadService, media_type: &str, name: &str, r: String)
    requires
        call_ensures(DownloadService::delete_file, (service, media_type, name), r),
    ensures
        media_type@ == "image"@ ==> r@ == join(
            service.image_dir@,
            replace_char(name@, '/', '-'),
        ),
        media_type@ != "image"@ ==> r@ == join(
            service.video_dir@,
            replace_char(name@, '/', '-'),
        ),
{
}

/// A page exists where it starts within the list or right behind it, and its end
/// can be counted.
pub proof fn law_page_exists(
    service: &DownloadService,
    entries: Option<&Vec<DirEntry>>,
    page: usize,
    page_size: usize,
    r: bool,
)
    requires
        call_ensures(DownloadService::page_exists, (service, entries, page, page_size), r),
    ensures
        entries is None ==> r,
        entries is Some && page <= 1 ==> r,
        entries is Some && page > 1 ==> (r <==> (page - 1) * page_size <= files_among(
            entry_views(entries->0@),
        ).len() && page * page_size <= usize::MAX),
{
    assert(page * page_size == (page - 1) * page_size + page_size) by (nonlinear_arith);
    assert(0 * page_size == 0);
}

/// The number of files on a list: those of a page that starts at `start` and has
/// `page_size` places, of `total` files.
pub open spec fn files_on_page(start: int, page_size: int, total: int) -> int {
    if total - start < page_size {
        total - start
    } else {
        page_size
    }
}

/// Every page tells how many files the directory holds in all, whatever the page
/// and the page size, which page it is, and how many files are on a page.
pub proof fn law_list_total(
    service: &DownloadService,
    media_type: &str,
    page: usize,
    page_size: usize,
    entries: Option<&Vec<DirEntry>>,
    images: &Vec<String>,
    r: serde_json::Value,
)
    requires
        call_ensures(
            DownloadService::list_files,
            (service, media_type, page, page_size, entries, images),
            r,
        ),
    ensures
        entries is Some ==> member(json_view(r), "total"@) == Some(
            JsonView::Int(files_among(entry_views(entries->0@)).len() as int),
        ),
        entries is None ==> member(json_view(r), "total"@) == Some(JsonView::Int(0)) && member(
            json_view(r),
            "items"@,
        ) == Some(JsonView::Array(Seq::empty())),
        member(json_view(r), "page"@) == Some(JsonView::Int(page as int)),
        member(json_view(r), "page_size"@) == Some(JsonView::Int(page_size as int)),
{
    lemma_page_keys();
    if entries is Some {
        law_newest_first(files_among(entry_views(entries->0@)));
    }
}

/// Two pages of the same directory tell the same total.
pub proof fn law_pages_have_one_total(
    service: &DownloadService,
    media_type: &str,
    entries: Option<&Vec<DirEntry>>,
    images: &Vec<String>,
    first: (usize, usize, serde_json::Value),
    second: (usize, usize, serde_json::Value),
)
    requires
        call_ensures(
            DownloadService::list_files,
            (service, media_type, first.0, first.1, entries, images),
            first.2,
        ),
        call_ensures(
            DownloadService::list_files,
            (service, media_type, second.0, second.1, entries, images),
            second.2,
        ),
    ensures
        member(json_view(first.2), "total"@) == member(json_view(second.2), "total"@),
        member(json_view(first.2), "total"@) is Some,
{
    law_list_total(service, media_type, first.0, first.1, entries, images, first.2);
    law_list_total(service, media_type, second.0, second.1, entries, images, second.2);
}

/// A page holds the files at its places on the list, which has every file once, by
/// descending time, and files of the same time in the order in which they came.
pub proof fn law_list_items(
    service: &DownloadService,
    media_type: &str,
    page: usize,
    page_size: usize,
    entries: &Vec<DirEntry>,
    images: &Vec<String>,
    start: int,
    r: serde_json::Value,
)
    requires
        call_ensures(
            DownloadService::list_files,
            (service, media_type, page, page_size, Some(entries), images),
            r,
        ),
        start == (if page <= 1 {
            0
        } else {
            (page - 1) * page_size
        }),
        start <= files_among(entry_views(entries@)).len(),
    ensures
        ({
            let files = files_among(entry_views(entries@));
            let items = member(json_view(r), "items"@)->0->Array_0;
            &&& member(json_view(r), "items"@) is Some
            &&& member(json_view(r), "items"@)->0 is Array
            &&& items.len() == files_on_page(start, page_size as int, files.len() as int)
            &&& exists|order: Seq<int>|
                {
                    &&& #[trigger] order.no_duplicates()
                    &&& order.len() == files.len()
                    &&& forall|k: int| 0 <= k < order.len() ==> 0 <= #[trigger] order[k] < files.len()
                    &&& forall|a: int, b: int|
                        0 <= a < b < order.len() ==> files[#[trigger] order[a]].mtime_ms
                            > files[#[trigger] order[b]].mtime_ms || (files[order[a]].mtime_ms
                            == files[order[b]].mtime_ms && order[a] < order[b])
                    &&& forall|i: int|
                        0 <= i < items.len() ==> {
                            let file = files[order[start + i]];
                            &&& member(#[trigger] items[i], "name"@) == Some(
                                JsonView::Str(file.name),
                            )
                            &&& member(items[i], "size_bytes"@) == Some(JsonView::Int(file.size))
                            &&& member(items[i], "mtime_ms"@) == Some(
                                JsonView::Int(file.mtime_ms),
                            )
                        }
                }
        }),
{
    let files = files_among(entry_views(entries@));
    let keys = files.map_values(|f: DirEntryView| -f.mtime_ms);
    let order = stable_order(keys);
    let sorted = newest_first(files);
    law_stable_order(keys);
    lemma_page_keys();
    lemma_item_keys();
    assert(0 * page_size == 0);
    assert(page_start(page as int, page_size as int) == start);
    let is_image = media_type@ == "image"@;
    let end = page_end(page as int, page_size as int, files.len() as int);
    let on_page = sorted.subrange(start, end);
    let items = list_items(on_page, is_image, texts(images@));
    assert(member(json_view(r), "items"@) == Some(JsonView::Array(items)));
    assert forall|a: int, b: int| 0 <= a < b < order.len() implies files[#[trigger] order[a]].mtime_ms
        > files[#[trigger] order[b]].mtime_ms || (files[order[a]].mtime_ms
        == files[order[b]].mtime_ms && order[a] < order[b]) by {
        assert(comes_before(keys, order[a], order[b]));
        assert(keys[order[a]] == -files[order[a]].mtime_ms);
        assert(keys[order[b]] == -files[order[b]].mtime_ms);
    }
    assert forall|i: int| 0 <= i < items.len() implies {
        let file = files[order[start + i]];
        &&& member(#[trigger] items[i], "name"@) == Some(JsonView::Str(file.name))
        &&& member(items[i], "size_bytes"@) == Some(JsonView::Int(file.size))
        &&& member(items[i], "mtime_ms"@) == Some(JsonView::Int(file.mtime_ms))
    } by {
        let file = files[order[start + i]];
        assert(on_page[i] == sorted[start + i]);
        assert(sorted[start + i] == file);
        assert(items[i] == list_item(file, is_image, texts(images@)));
    }
    assert(order.no_duplicates());
}

/// A file on the list has its address in the gateway, by its sort of media. A video
/// has the address of the last image with its name, if there is one, too.
pub proof fn law_list_addresses(
    service: &DownloadService,
    media_type: &str,
    page: usize,
    page_size: usize,
    entries: &Vec<DirEntry>,
    images: &Vec<String>,
    i: int,
    name: Seq<char>,
    r: serde_json::Value,
)
    requires
        call_ensures(
            DownloadService::list_files,
            (service, media_type, page, page_size, Some(entries), images),
            r,
        ),
        has_page(page as int, page_size as int, files_among(entry_views(entries@)).len() as int),
        ({
            let items = member(json_view(r), "items"@)->0->Array_0;
            0 <= i < items.len() && member(items[i], "name"@) == Some(JsonView::Str(name))
        }),
    ensures
        ({
            let item = member(json_view(r), "items"@)->0->Array_0[i];
            &&& media_type@ == "image"@ ==> member(item, "view_url"@) == Some(
                JsonView::Str("/v1/files/image/"@ + name),
            ) && member(item, "preview_url"@) is None
            &&& media_type@ != "image"@ ==> member(item, "view_url"@) == Some(
                JsonView::Str("/v1/files/video/"@ + name),
            )
            &&& media_type@ != "image"@ && member(item, "preview_url"@) is None ==> forall|k: int|
                0 <= k < images@.len() && file_stem(name) is Some ==> file_stem(
                    (#[trigger] images@[k])@,
                ) != file_stem(name)
            &&& media_type@ != "image"@ && member(item, "preview_url"@) is Some ==> exists|k: int|
                {
                    &&& 0 <= k < images@.len()
                    &&& member(item, "preview_url"@) == Some(
                        JsonView::Str("/v1/files/image/"@ + (#[trigger] images@[k])@),
                    )
                    &&& file_stem(name) is Some
                    &&& file_stem(images@[k]@) == file_stem(name)
                    &&& forall|j: int|
                        k < j < images@.len() ==> file_stem((#[trigger] images@[j])@) != file_stem(
                            name,
                        )
                }
        }),
{
    let files = files_among(entry_views(entries@));
    law_newest_first(files);
    lemma_page_keys();
    lemma_item_keys();
    let is_image = media_type@ == "image"@;
    let sorted = newest_first(files);
    assert(0 <= page_start(page as int, page_size as int)) by (nonlinear_arith)
        requires
            page >= 0,
            page_size >= 0,
            page_start(page as int, page_size as int) == (if page == 0 {
                0
            } else {
                (page - 1) * page_size
            }),
    ;
    let start = page_start(page as int, page_size as int);
    let end = page_end(page as int, page_size as int, files.len() as int);
    let on_page = sorted.subrange(start, end);
    let pics = texts(images@);
    let items = list_items(on_page, is_image, pics);
    assert(member(json_view(r), "items"@) == Some(JsonView::Array(items)));
    let item = items[i];
    assert(item == list_item(on_page[i], is_image, pics));
    assert(on_page[i].name == name);
    if !is_image {
        match file_stem(name) {
            Some(stem) => {
                lemma_preview(pics, stem);
                if preview_of(pics, stem) is Some {
                    let k = choose|k: int|
                        {
                            &&& 0 <= k < pics.len()
                            &&& preview_of(pics, stem) == Some(#[trigger] pics[k])
                            &&& file_stem(pics[k]) == Some(stem)
                            &&& forall|j: int|
                                k < j < pics.len() ==> file_stem(#[trigger] pics[j]) != Some(stem)
                        };
                    assert(pics[k] == images@[k]@);
                    assert forall|j: int| k < j < images@.len() implies file_stem(
                        (#[trigger] images@[j])@,
                    ) != file_stem(name) by {
                        assert(pics[j] == images@[j]@);
                    }
                    assert(member(item, "preview_url"@) == Some(
                        JsonView::Str("/v1/files/image/"@ + images@[k]@),
                    ));
                } else {
                    assert forall|k: int| 0 <= k < images@.len() implies file_stem(
                        (#[trigger] images@[k])@,
                    ) != file_stem(name) by {
                        assert(pics[k] == images@[k]@);
                    }
                }
            },
            None => {},
        }
    }
}

proof fn lemma_preview(images: Seq<Seq<char>>, stem: Seq<char>)
    ensures
        preview_of(images, stem) is None ==> forall|k: int|
            0 <= k < images.len() ==> file_stem(#[trigger] images[k]) != Some(stem),
        preview_of(images, stem) is Some ==> exists|k: int|
            {
                &&& 0 <= k < images.len()
                &&& preview_of(images, stem) == Some(#[trigger] images[k])
                &&& file_stem(images[k]) == Some(stem)
                &&& forall|j: int|
                    k < j < images.len() ==> file_stem(#[trigger] images[j]) != Some(stem)
            },
    decreases images.len(),
{
    if images.len() > 0 {
        let n = images.len() - 1;
        let rest = images.drop_last();
        if file_stem(images.last()) == Some(stem) {
            assert(images[n] == images.last());
        } else {
            lemma_preview(rest, stem);
            if preview_of(rest, stem) is Some {
                let k = choose|k: int|
                    {
                        &&& 0 <= k < rest.len()
                        &&& preview_of(rest, stem) == Some(#[trigger] rest[k])
                        &&& file_stem(rest[k]) == Some(stem)
                        &&& forall|j: int|
                            k < j < rest.len() ==> file_stem(#[trigger] rest[j]) != Some(stem)
                    };
                assert(images[k] == rest[k]);
                assert forall|j: int| k < j < images.len() implies file_stem(#[trigger] images[j])
                    != Some(stem) by {
                    if j < n {
                        assert(images[j] == rest[j]);
                    }
                }
            } else {
                assert forall|k: int| 0 <= k < images.len() implies file_stem(#[trigger] images[k])
                    != Some(stem) by {
                    if k < n {
                        assert(images[k] == rest[k]);
                    }
                }
            }
        }
    }
}

proof fn lemma_page_keys()
    ensures
        "total"@ != "page"@,
        "total"@ != "page_size"@,
        "total"@ != "items"@,
        "page"@ != "page_size"@,
        "page"@ != "items"@,
        "page_size"@ != "items"@,
{
    reveal_strlit("total");
    reveal_strlit("page");
    reveal_strlit("page_size");
    reveal_strlit("items");
    assert("total"@.len() == 5 && "items"@.len() == 5);
    assert("page"@.len() == 4 && "page_size"@.len() == 9);
    assert("total"@[0] == 't' && "items"@[0] == 'i');
}

proof fn lemma_item_keys()
    ensures
        "name"@ != "size_bytes"@,
        "name"@ != "mtime_ms"@,
        "name"@ != "view_url"@,
        "name"@ != "preview_url"@,
        "size_bytes"@ != "mtime_ms"@,
        "size_bytes"@ != "view_url"@,
        "size_bytes"@ != "preview_url"@,
        "mtime_ms"@ != "view_url"@,
        "mtime_ms"@ != "preview_url"@,
        "view_url"@ != "preview_url"@,
{
    reveal_strlit("name");
    reveal_strlit("size_bytes");
    reveal_strlit("mtime_ms");
    reveal_strlit("view_url");
    reveal_strlit("preview_url");
    assert("name"@.len() == 4 && "size_bytes"@.len() == 10 && "preview_url"@.len() == 11);
    assert("mtime_ms"@.len() == 8 && "view_url"@.len() == 8);
    assert("mtime_ms"@[0] == 'm' && "view_url"@[0] == 'v');
}

/// A run to make room starts with all files and their bytes, where the cache is
/// cleaned, and with none where it is not.
pub proof fn law_room_is_made(
    service: &DownloadService,
    enabled: bool,
    files: Vec<CachedFile>,
    new: EvictionRun,
    r: EvictionRun,
)
    requires
        call_ensures(EvictionRun::new, (files,), new),
        call_ensures(DownloadService::check_limit, (service, enabled, files), r),
    ensures
        enabled ==> r@ == new@,
        !enabled ==> r@.left.len() == 0 && r@.total == 0,
        new@.total == bytes_held(cached_views(files@)),
        new@.left.len() == files@.len(),
        forall|f: CachedFileView|
            cached_views(files@).contains(f) <==> #[trigger] new@.left.contains(f),
        forall|a: int, b: int|
            0 <= a < b < new@.left.len() ==> (#[trigger] new@.left[a]).age <= (
            #[trigger] new@.left[b]).age,
{
    let all = cached_views(files@);
    let keys = all.map_values(|f: CachedFileView| f.age);
    let order = stable_order(keys);
    law_eviction_order(all);
    law_stable_order(keys);
    let sorted = eviction_order(all);
    assert forall|f: CachedFileView| all.contains(f) <==> #[trigger] sorted.contains(f) by {
        if all.contains(f) {
            let i = choose|i: int| 0 <= i < all.len() && all[i] == f;
            assert(order.contains(i));
            let j = choose|j: int| 0 <= j < order.len() && order[j] == i;
            assert(sorted[j] == f);
        }
        if sorted.contains(f) {
            let j = choose|j: int| 0 <= j < sorted.len() && sorted[j] == f;
            assert(all[order[j]] == f);
        }
    }
    if !enabled {
        let none = Seq::<CachedFileView>::empty();
        law_eviction_order(none);
    }
}

/// One file leaves the cache at a time, the first that is left, until there is room
/// enough or none is left.
pub proof fn law_file_leaves(run: &mut EvictionRun, enough: bool, r: Option<usize>)
    requires
        call_ensures(EvictionRun::next, (run, enough), r),
    ensures
        r is Some <==> !enough && old(run)@.left.len() > 0,
        r is Some ==> r->0 == old(run)@.left[0].id,
        r is Some ==> final(run)@.left == old(run)@.left.skip(1),
        r is Some ==> final(run)@.total == old(run)@.total - old(run)@.left[0].size,
        r is None ==> final(run)@ == old(run)@,
{
    if r is Some {
        assert(old(run)@.left.drop_first() =~= old(run)@.left.skip(1));
    }
}

/// The bytes that count as held are those of the run.
pub proof fn law_run_total(run: &EvictionRun, r: u64)
    requires
        call_ensures(EvictionRun::total, (run,), r),
        run.well_formed(),
    ensures
        r == bytes_held(run@.left),
{
}

} // verus!
