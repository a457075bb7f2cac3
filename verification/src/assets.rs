//! The assets of an account upstream: uploading, listing and deleting them.

use crate::base_service::{
    asset_proxy_of, inline_file, is_web_address, select_proxy, web_file, BaseService,
};
use crate::curl::CurlRequest;
use crate::error::{upstream_error, ApiError, ApiErrorKind, ApiErrorView};
use crate::ident::is_uuid;
use crate::json::{
    from_slice, json_compact, json_parse, json_view, json_views, member, text_member, text_of,
    value_as_array, value_bool, value_clone, value_get, value_object, value_set, value_string,
    value_to_string, value_u64, JsonView,
};
use crate::number::{decimal, decimal_text};
use crate::query::{add_query, url_with_pairs};
use crate::text::{join2, join3, same_text, text_option, text_pairs, texts};
use reqwest::header::HeaderMap;
use vstd::prelude::*;

verus! {

pub const UPLOAD_API: &'static str = "https://grok.com/rest/app-chat/upload-file";

pub const LIST_API: &'static str = "https://grok.com/rest/assets";

pub const DELETE_API: &'static str = "https://grok.com/rest/assets-metadata";

/// A request to the programming interface upstream.
#[derive(Clone, Debug)]
pub struct ApiRequest {
    pub method: String,
    pub url: String,
    pub referer: String,
    pub body: Option<String>,
}

/// The plain form of an [`ApiRequest`].
pub struct ApiRequestView {
    pub method: Seq<char>,
    pub url: Seq<char>,
    pub referer: Seq<char>,
    pub body: Option<Seq<char>>,
}

impl View for ApiRequest {
    type V = ApiRequestView;

    open spec fn view(&self) -> ApiRequestView {
        ApiRequestView {
            method: self.method@,
            url: self.url@,
            referer: self.referer@,
            body: text_option(self.body),
        }
    }
}

impl ApiRequest {
    /// The request as curl makes it through a service, with some headers.
    pub fn through<'a>(&'a self, base: &'a BaseService, headers: &'a HeaderMap) -> (r: CurlRequest<
        'a,
    >)
        ensures
            r.proxy@ == base.proxy@,
            r.timeout == base.timeout,
            r.method@ == self@.method,
            r.url@ == self@.url,
            *r.headers == *headers,
            r.has_body == (self@.body is Some),
            !r.capture_headers,
    {
        CurlRequest {
            proxy: base.proxy.as_str(),
            timeout: base.timeout,
            method: self.method.as_str(),
            url: self.url.as_str(),
            headers,
            has_body: self.body.is_some(),
            capture_headers: false,
        }
    }
}

/// The error for an answer with a status that is no success.
pub open spec fn status_error(what: Seq<char>, status: int) -> ApiErrorView {
    upstream_error(what + decimal(status as nat))
}

/// The error for an answer with a status that is no success.
pub(crate) fn error_for_status(what: &str, status: u16) -> (r: ApiError)
    ensures
        r@ == status_error(what@, status as int),
{
    ApiError::upstream(join2(what, decimal_text(status as u64).as_str()))
}

/// The document that describes a file to upload.
pub open spec fn upload_payload(
    filename: Seq<char>,
    mime: Seq<char>,
    content: Seq<char>,
) -> JsonView {
    JsonView::Object(
        map![
            "fileName"@ => JsonView::Str(filename),
            "fileMimeType"@ => JsonView::Str(mime),
            "content"@ => JsonView::Str(content),
        ],
    )
}

/// The request that uploads a file with a name, Base64 content and a media type.
pub open spec fn upload_request(file: (Seq<char>, Seq<char>, Seq<char>)) -> ApiRequestView {
    ApiRequestView {
        method: "POST"@,
        url: UPLOAD_API@,
        referer: "https://grok.com/"@,
        body: Some(json_compact(upload_payload(file.0, file.2, file.1))),
    }
}

/// What to do first to upload something.
pub enum UploadStep {
    /// To fetch the file at an address.
    Fetch(String),
    /// To send the request that uploads the file.
    Post(ApiRequest),
}

/// The text of the string member under `key`, or nothing.
pub open spec fn text_or_empty(v: JsonView, key: Seq<char>) -> Seq<char> {
    match text_member(v, key) {
        Some(s) => s,
        None => Seq::empty(),
    }
}

/// What the answer to an upload means: the identifier and the address of the
/// file. `parsed` is what the body is read as.
pub open spec fn upload_answer(
    status: int,
    parsed: Result<JsonView, Seq<char>>,
) -> Result<(Seq<char>, Seq<char>), ApiErrorView> {
    if status == 200 {
        match parsed {
            Ok(v) => Ok((text_or_empty(v, "fileMetadataId"@), text_or_empty(v, "fileUri"@))),
            Err(cause) => Err(upstream_error("Upload parse error: "@ + cause)),
        }
    } else {
        Err(status_error("Upload failed: "@, status))
    }
}

/// Uploads files.
#[derive(Clone, Debug)]
pub struct UploadService {
    pub base: BaseService,
}

impl UploadService {
    /// The service with the configured proxies and time limit.
    pub fn new(asset_proxy: String, base_proxy: String, timeout: u64) -> (r: UploadService)
        ensures
            r.base.proxy@ == asset_proxy_of(asset_proxy@, base_proxy@),
            r.base.timeout == timeout,
    {
        let proxy = select_proxy(asset_proxy, base_proxy);
        UploadService { base: BaseService::new(Some(proxy), timeout) }
    }

    /// The request that uploads a file with a name, Base64 content and a media
    /// type.
    pub fn upload_file(&self, file: &(String, String, String)) -> (r: ApiRequest)
        ensures
            r@ == upload_request((file.0@, file.1@, file.2@)),
    {
        let mut payload = value_object();
        value_set(&mut payload, "fileName", value_string(file.0.clone()));
        value_set(&mut payload, "fileMimeType", value_string(file.2.clone()));
        value_set(&mut payload, "content", value_string(file.1.clone()));
        ApiRequest {
            method: "POST".to_string(),
            url: UPLOAD_API.to_string(),
            referer: "https://grok.com/".to_string(),
            body: Some(value_to_string(&payload)),
        }
    }

    /// What to do first to upload `file_input`: to fetch it where it is an
    /// address on the web, else to upload the file that it holds.
    pub fn upload(&self, file_input: &str) -> (r: UploadStep)
        ensures
            match r {
                UploadStep::Fetch(url) => is_web_address(file_input@) && url@ == file_input@,
                UploadStep::Post(request) => !is_web_address(file_input@) && exists|id: Seq<char>|
                    is_uuid(id) && request@ == upload_request(
                        #[trigger] inline_file(file_input@, id),
                    ),
            },
    {
        if BaseService::is_url(file_input) {
            UploadStep::Fetch(file_input.to_string())
        } else {
            UploadStep::Post(self.upload_file(&self.base.parse_b64(file_input)))
        }
    }

    /// The request that uploads the file that was fetched from `url`, or the
    /// error for an answer that is no success.
    pub fn upload_fetched(
        &self,
        url: &str,
        status: u16,
        content_type: Option<String>,
        bytes: &[u8],
    ) -> (r: Result<ApiRequest, ApiError>)
        ensures
            match r {
                Ok(request) => 200 <= status < 300 && exists|id: Seq<char>|
                    is_uuid(id) && request@ == upload_request(
                        #[trigger] web_file(url@, text_option(content_type), bytes@, id),
                    ),
                Err(e) => !(200 <= status < 300) && e@ == status_error(
                    "Fetch failed: "@,
                    status as int,
                ),
            },
    {
        match self.base.fetched_file(url, status, content_type, bytes) {
            Ok(file) => Ok(self.upload_file(&file)),
            Err(e) => Err(e),
        }
    }

    /// What the parsed answer to an upload means.
    pub fn uploaded_with(status: u16, parsed: Result<serde_json::Value, String>) -> (r: Result<
        (String, String),
        ApiError,
    >)
        ensures
            match r {
                Ok(p) => upload_answer(status as int, parsed_view(parsed)) == Ok::<
                    (Seq<char>, Seq<char>),
                    ApiErrorView,
                >((p.0@, p.1@)),
                Err(e) => upload_answer(status as int, parsed_view(parsed)) == Err::<
                    (Seq<char>, Seq<char>),
                    ApiErrorView,
                >(e@),
            },
    {
        if status != 200 {
            return Err(error_for_status("Upload failed: ", status));
        }
        match parsed {
            Ok(v) => {
                let id = match text_of(&v, "fileMetadataId") {
                    Some(s) => s,
                    None => String::new(),
                };
                let uri = match text_of(&v, "fileUri") {
                    Some(s) => s,
                    None => String::new(),
                };
                Ok((id, uri))
            },
            Err(cause) => Err(
                ApiError::upstream(join2("Upload parse error: ", cause.as_str())),
            ),
        }
    }

    /// What the answer to an upload means: the identifier and the address of the
    /// file.
    pub fn uploaded(&self, status: u16, body: &[u8]) -> (r: Result<(String, String), ApiError>)
        ensures
            match r {
                Ok(p) => upload_answer(status as int, json_parse(body@)) == Ok::<
                    (Seq<char>, Seq<char>),
                    ApiErrorView,
                >((p.0@, p.1@)),
                Err(e) => upload_answer(status as int, json_parse(body@)) == Err::<
                    (Seq<char>, Seq<char>),
                    ApiErrorView,
                >(e@),
            },
    {
        UploadService::uploaded_with(status, from_slice(body))
    }
}

/// The plain form of what a body was read as.
pub open spec fn parsed_view(parsed: Result<serde_json::Value, String>) -> Result<
    JsonView,
    Seq<char>,
> {
    match parsed {
        Ok(v) => Ok(json_view(v)),
        Err(cause) => Err(cause@),
    }
}

/// The plain form of an [`AssetPager`].
pub struct PagerView {
    pub assets: Seq<JsonView>,
    pub page_token: Option<Seq<char>>,
    pub seen: Seq<Seq<char>>,
}

/// Lists assets page by page.
pub struct AssetPager {
    assets: Vec<serde_json::Value>,
    page_token: Option<String>,
    seen: Vec<String>,
}

impl View for AssetPager {
    type V = PagerView;

    closed spec fn view(&self) -> PagerView {
        PagerView {
            assets: json_views(self.assets@),
            page_token: text_option(self.page_token),
            seen: texts(self.seen@),
        }
    }
}

/// The listing before the first page.
pub open spec fn first_page() -> PagerView {
    PagerView { assets: Seq::empty(), page_token: None, seen: Seq::empty() }
}

/// Whether the listing ends before another page, because the page was already
/// asked for.
pub open spec fn pager_stops(p: PagerView) -> bool {
    match p.page_token {
        Some(token) => p.seen.contains(token),
        None => false,
    }
}

/// The listing with the next page noted as asked for.
pub open spec fn pager_asked(p: PagerView) -> PagerView {
    match p.page_token {
        Some(token) => PagerView { seen: p.seen.push(token), ..p },
        None => p,
    }
}

/// The query for the next page.
pub open spec fn page_query(page_token: Option<Seq<char>>) -> Seq<(Seq<char>, Seq<char>)> {
    let fixed = seq![
        ("pageSize"@, "50"@),
        ("orderBy"@, "ORDER_BY_LAST_USE_TIME"@),
        ("source"@, "SOURCE_ANY"@),
        ("isLatest"@, "true"@),
    ];
    match page_token {
        Some(token) => fixed.push(("pageToken"@, token)),
        None => fixed,
    }
}

/// The request for a page at an address.
pub open spec fn list_request(url: Seq<char>) -> ApiRequestView {
    ApiRequestView { method: "GET"@, url, referer: "https://grok.com/files"@, body: None }
}

/// The assets on a page.
pub open spec fn page_assets(page: JsonView) -> Seq<JsonView> {
    match member(page, "assets"@) {
        Some(JsonView::Array(items)) => items,
        _ => Seq::empty(),
    }
}

/// The listing after a page was answered. `parsed` is what the body is read as.
pub open spec fn pager_answer(
    p: PagerView,
    status: int,
    parsed: Result<JsonView, Seq<char>>,
) -> Result<PagerView, ApiErrorView> {
    if status != 200 {
        Err(status_error("List failed: "@, status))
    } else {
        match parsed {
            Err(cause) => Err(upstream_error("List parse error: "@ + cause)),
            Ok(page) => Ok(
                PagerView {
                    assets: p.assets + page_assets(page),
                    page_token: text_member(page, "nextPageToken"@),
                    ..p
                },
            ),
        }
    }
}

/// The assets on a page.
fn assets_on_page(page: &serde_json::Value) -> (r: Vec<serde_json::Value>)
    ensures
        json_views(r@) == page_assets(json_view(*page)),
{
    let mut out: Vec<serde_json::Value> = Vec::new();
    if let Some(m) = value_get(page, "assets") {
        if let Some(items) = value_as_array(m) {
            let mut i: usize = 0;
            while i < items.len()
                invariant
                    i <= items@.len(),
                    json_views(out@) == json_views(items@).take(i as int),
                decreases items@.len() - i,
            {
                let ghost done = out@;
                let item = value_clone(&items[i]);
                out.push(item);
                i = i + 1;
                assert(json_views(out@) == json_views(done).push(json_view(item)));
                assert(json_views(items@).take(i as int) == json_views(items@).take(i - 1).push(
                    json_view(items@[i - 1]),
                ));
            }
            assert(json_views(items@).take(i as int) == json_views(items@));
            return out;
        }
    }
    assert(json_views(out@) == Seq::<JsonView>::empty());
    out
}

impl AssetPager {
    /// No page is asked for twice.
    pub closed spec fn well_formed(&self) -> bool {
        self@.seen.no_duplicates()
    }

    /// The listing before the first page.
    pub fn new() -> (r: AssetPager)
        ensures
            r.well_formed(),
            r@ == first_page(),
    {
        let r = AssetPager { assets: Vec::new(), page_token: None, seen: Vec::new() };
        assert(r@.assets == Seq::<JsonView>::empty());
        assert(r@.seen == Seq::<Seq<char>>::empty());
        r
    }

    /// Whether the next page was already asked for.
    fn stops(&self) -> (r: bool)
        ensures
            r == pager_stops(self@),
    {
        if let Some(token) = &self.page_token {
            let mut i: usize = 0;
            while i < self.seen.len()
                invariant
                    i <= self.seen@.len(),
                    self@.page_token == Some(token@),
                    forall|j: int| 0 <= j < i ==> (#[trigger] self.seen@[j])@ != token@,
                decreases self.seen@.len() - i,
            {
                if same_text(self.seen[i].as_str(), token.as_str()) {
                    assert(self@.seen[i as int] == token@);
                    return true;
                }
                i = i + 1;
            }
            proof {
                if self@.seen.contains(token@) {
                    let k = choose|k: int| 0 <= k < self@.seen.len() && self@.seen[k] == token@;
                    assert(self.seen@[k]@ == token@);
                }
            }
        }
        false
    }

    /// The request for the next page, or nothing where the page was already
    /// asked for.
    pub fn next_request(&mut self) -> (r: Result<Option<ApiRequest>, ApiError>)
        requires
            old(self).well_formed(),
        ensures
            final(self).well_formed(),
            pager_stops(old(self)@) ==> r == Ok::<Option<ApiRequest>, ApiError>(None),
            pager_stops(old(self)@) ==> final(self)@ == old(self)@,
            !pager_stops(old(self)@) ==> final(self)@ == pager_asked(old(self)@),
            !pager_stops(old(self)@) ==> match (
                url_with_pairs(LIST_API@, page_query(old(self)@.page_token)),
                r,
            ) {
                (Ok(url), Ok(Some(request))) => request@ == list_request(url),
                (Err(cause), Err(e)) => e@ == upstream_error("List url error: "@ + cause),
                _ => false,
            },
    {
        if self.stops() {
            return Ok(None);
        }
        let ghost before = self@;
        let mut pairs: Vec<(String, String)> = Vec::new();
        pairs.push(("pageSize".to_string(), "50".to_string()));
        pairs.push(("orderBy".to_string(), "ORDER_BY_LAST_USE_TIME".to_string()));
        pairs.push(("source".to_string(), "SOURCE_ANY".to_string()));
        pairs.push(("isLatest".to_string(), "true".to_string()));
        let token = self.page_token.clone();
        if let Some(t) = token {
            pairs.push(("pageToken".to_string(), t.clone()));
            let ghost seen = self.seen@;
            self.seen.push(t);
            assert(texts(self.seen@) == texts(seen).push(t@));
        }
        assert(text_pairs(pairs@) == page_query(before.page_token));
        assert(self@ == pager_asked(before));
        match add_query(LIST_API, &pairs) {
            Ok(url) => Ok(
                Some(
                    ApiRequest {
                        method: "GET".to_string(),
                        url,
                        referer: "https://grok.com/files".to_string(),
                        body: None,
                    },
                ),
            ),
            Err(cause) => Err(ApiError::upstream(join2("List url error: ", cause.as_str()))),
        }
    }

    /// Takes in the parsed answer to a page. Tells whether another page follows.
    pub fn answer(&mut self, status: u16, parsed: Result<serde_json::Value, String>) -> (r: Result<
        bool,
        ApiError,
    >)
        requires
            old(self).well_formed(),
        ensures
            final(self).well_formed(),
            match (pager_answer(old(self)@, status as int, parsed_view(parsed)), r) {
                (Ok(p), Ok(more)) => final(self)@ == p && more == (p.page_token is Some),
                (Err(error), Err(e)) => final(self)@ == old(self)@ && e@ == error,
                _ => false,
            },
    {
        if status != 200 {
            return Err(error_for_status("List failed: ", status));
        }
        match parsed {
            Err(cause) => Err(ApiError::upstream(join2("List parse error: ", cause.as_str()))),
            Ok(page) => {
                let ghost before = self.assets@;
                let mut found = assets_on_page(&page);
                let ghost added = found@;
                self.assets.append(&mut found);
                assert(json_views(self.assets@) == json_views(before) + json_views(added));
                self.page_token = text_of(&page, "nextPageToken");
                Ok(self.page_token.is_some())
            },
        }
    }

    /// Takes in the answer to a page. Tells whether another page follows.
    pub fn take_page(&mut self, status: u16, body: &[u8]) -> (r: Result<bool, ApiError>)
        requires
            old(self).well_formed(),
        ensures
            final(self).well_formed(),
            match (pager_answer(old(self)@, status as int, json_parse(body@)), r) {
                (Ok(p), Ok(more)) => final(self)@ == p && more == (p.page_token is Some),
                (Err(error), Err(e)) => final(self)@ == old(self)@ && e@ == error,
                _ => false,
            },
    {
        self.answer(status, from_slice(body))
    }

    /// The assets that were listed, in order.
    pub fn into_assets(self) -> (r: Vec<serde_json::Value>)
        ensures
            json_views(r@) == self@.assets,
    {
        self.assets
    }
}

/// Lists the assets of an account.
#[derive(Clone, Debug)]
pub struct ListService {
    pub base: BaseService,
}

impl ListService {
    /// The service with the configured proxies and time limit.
    pub fn new(asset_proxy: String, base_proxy: String, timeout: u64) -> (r: ListService)
        ensures
            r.base.proxy@ == asset_proxy_of(asset_proxy@, base_proxy@),
            r.base.timeout == timeout,
    {
        let proxy = select_proxy(asset_proxy, base_proxy);
        ListService { base: BaseService::new(Some(proxy), timeout) }
    }

    /// The listing of all assets, before the first page.
    pub fn list(&self) -> (r: AssetPager)
        ensures
            r.well_formed(),
            r@ == first_page(),
    {
        AssetPager::new()
    }

    /// The number of assets that were listed.
    pub fn count(&self, pager: &AssetPager) -> (r: usize)
        ensures
            r == pager@.assets.len(),
    {
        pager.assets.len()
    }
}

/// Deletes the assets of an account.
#[derive(Clone, Debug)]
pub struct DeleteService {
    pub base: BaseService,
}

impl DeleteService {
    /// The service with the configured proxies and time limit.
    pub fn new(asset_proxy: String, base_proxy: String, timeout: u64) -> (r: DeleteService)
        ensures
            r.base.proxy@ == asset_proxy_of(asset_proxy@, base_proxy@),
            r.base.timeout == timeout,
    {
        let proxy = select_proxy(asset_proxy, base_proxy);
        DeleteService { base: BaseService::new(Some(proxy), timeout) }
    }

    /// The request that deletes an asset.
    pub fn delete(&self, asset_id: &str) -> (r: ApiRequest)
        ensures
            r@ == (ApiRequestView {
                method: "DELETE"@,
                url: DELETE_API@ + "/"@ + asset_id@,
                referer: "https://grok.com/files"@,
                body: None,
            }),
    {
        ApiRequest {
            method: "DELETE".to_string(),
            url: join3(DELETE_API, "/", asset_id),
            referer: "https://grok.com/files".to_string(),
            body: None,
        }
    }

    /// What the answer to a deletion means.
    pub fn deleted(&self, status: u16) -> (r: Result<bool, ApiError>)
        ensures
            match r {
                Ok(done) => status == 200 && done,
                Err(e) => status != 200 && e@ == status_error("Delete failed: "@, status as int),
            },
    {
        if status == 200 {
            Ok(true)
        } else {
            Err(error_for_status("Delete failed: ", status))
        }
    }

    /// The run that deletes all assets that were listed: none where listing them
    /// failed.
    pub fn delete_all(&self, listed: Result<Vec<serde_json::Value>, ApiError>) -> (r: DeleteRun)
        ensures
            r.well_formed(),
            r@ == run_over(
                match listed {
                    Ok(assets) => json_views(assets@),
                    Err(_) => Seq::empty(),
                },
            ),
    {
        match listed {
            Ok(assets) => DeleteRun::new(assets),
            Err(_) => {
                let none: Vec<serde_json::Value> = Vec::new();
                assert(json_views(none@) == Seq::<JsonView>::empty());
                DeleteRun::new(none)
            },
        }
    }
}

/// How many of the assets have an identifier.
pub open spec fn count_ids(assets: Seq<JsonView>) -> nat
    decreases assets.len(),
{
    if assets.len() == 0 {
        0
    } else {
        let n: nat = if text_member(assets.last(), "assetId"@) is Some {
            1
        } else {
            0
        };
        count_ids(assets.drop_last()) + n
    }
}

/// The index of the first asset at or after `i` with an identifier, or the
/// number of assets.
pub open spec fn next_with_id(assets: Seq<JsonView>, i: int) -> int
    decreases assets.len() - i,
{
    if i >= assets.len() || text_member(assets[i], "assetId"@) is Some {
        i
    } else {
        next_with_id(assets, i + 1)
    }
}

/// The plain form of a [`DeleteRun`].
pub struct DeleteRunView {
    pub assets: Seq<JsonView>,
    pub next: int,
    pub success: int,
    pub failed: int,
    pub pending: bool,
}

/// Deletes all assets of a list, one after the other.
pub struct DeleteRun {
    assets: Vec<serde_json::Value>,
    next: usize,
    success: usize,
    failed: usize,
    pending: bool,
}

impl View for DeleteRun {
    type V = DeleteRunView;

    closed spec fn view(&self) -> DeleteRunView {
        DeleteRunView {
            assets: json_views(self.assets@),
            next: self.next as int,
            success: self.success as int,
            failed: self.failed as int,
            pending: self.pending,
        }
    }
}

/// The run over some assets, before the first of them.
pub open spec fn run_over(assets: Seq<JsonView>) -> DeleteRunView {
    DeleteRunView { assets, next: 0, success: 0, failed: 0, pending: false }
}

/// What is reported of a run: nothing was done where there were no assets.
pub open spec fn delete_report(run: DeleteRunView) -> JsonView {
    if run.assets.len() == 0 {
        JsonView::Object(
            map![
                "total"@ => JsonView::Int(0),
                "success"@ => JsonView::Int(0),
                "failed"@ => JsonView::Int(0),
                "skipped"@ => JsonView::Bool(true),
            ],
        )
    } else {
        JsonView::Object(
            map![
                "total"@ => JsonView::Int(run.assets.len() as int),
                "success"@ => JsonView::Int(run.success),
                "failed"@ => JsonView::Int(run.failed),
            ],
        )
    }
}

/// The run once the next asset to delete was sought.
pub open spec fn run_sought(run: DeleteRunView) -> DeleteRunView {
    let k = next_with_id(run.assets, run.next);
    if k < run.assets.len() {
        DeleteRunView { next: k + 1, pending: true, ..run }
    } else {
        DeleteRunView { next: k, ..run }
    }
}

/// The run once it is recorded whether an asset was deleted.
pub open spec fn run_recorded(run: DeleteRunView, deleted: bool) -> DeleteRunView {
    if deleted {
        DeleteRunView { success: run.success + 1, pending: false, ..run }
    } else {
        DeleteRunView { failed: run.failed + 1, pending: false, ..run }
    }
}

proof fn lemma_next_with_id(assets: Seq<JsonView>, i: int)
    requires
        0 <= i <= assets.len(),
    ensures
        ({
            let k = next_with_id(assets, i);
            &&& i <= k <= assets.len()
            &&& count_ids(assets.take(k)) == count_ids(assets.take(i))
            &&& k < assets.len() ==> text_member(assets[k], "assetId"@) is Some && count_ids(
                assets.take(k + 1),
            ) == count_ids(assets.take(i)) + 1
        }),
    decreases assets.len() - i,
{
    if i < assets.len() {
        assert(assets.take(i + 1).drop_last() == assets.take(i));
        assert(assets.take(i + 1).last() == assets[i]);
        if !(text_member(assets[i], "assetId"@) is Some) {
            lemma_next_with_id(assets, i + 1);
        }
    }
}

/// At most all of the assets have an identifier.
proof fn lemma_count_ids_bound(assets: Seq<JsonView>)
    ensures
        count_ids(assets) <= assets.len(),
    decreases assets.len(),
{
    if assets.len() > 0 {
        lemma_count_ids_bound(assets.drop_last());
    }
}

impl DeleteRun {
    /// Every asset with an identifier up to here was deleted, failed to be, or is
    /// about to be.
    pub closed spec fn well_formed(&self) -> bool {
        let v = self@;
        &&& v.next <= v.assets.len()
        &&& v.success + v.failed + (if v.pending {
            1int
        } else {
            0int
        }) == count_ids(v.assets.take(v.next))
    }

    /// The run over some assets, before the first of them.
    pub fn new(assets: Vec<serde_json::Value>) -> (r: DeleteRun)
        ensures
            r.well_formed(),
            r@ == run_over(json_views(assets@)),
    {
        let r = DeleteRun { assets, next: 0, success: 0, failed: 0, pending: false };
        assert(r@.assets.take(0) == Seq::<JsonView>::empty());
        r
    }

    /// The identifier of the next asset to delete. Assets without one are passed
    /// over.
    pub fn next_id(&mut self) -> (r: Option<String>)
        requires
            old(self).well_formed(),
            !old(self)@.pending,
        ensures
            final(self).well_formed(),
            ({
                let before = old(self)@;
                let k = next_with_id(before.assets, before.next);
                match r {
                    Some(id) => k < before.assets.len() && text_member(
                        before.assets[k],
                        "assetId"@,
                    ) == Some(id@) && final(self)@ == (DeleteRunView {
                        next: k + 1,
                        pending: true,
                        ..before
                    }),
                    None => k == before.assets.len() && final(self)@ == (DeleteRunView {
                        next: k,
                        ..before
                    }),
                }
            }),
            final(self)@ == run_sought(old(self)@),
    {
        let ghost before = self@;
        proof {
            lemma_next_with_id(before.assets, before.next);
        }
        while self.next < self.assets.len()
            invariant
                self.next <= self.assets@.len(),
                before == old(self)@,
                before.assets == json_views(self.assets@),
                !self.pending,
                self@ == (DeleteRunView { next: self.next as int, ..before }),
                before.success + before.failed == count_ids(before.assets.take(before.next)),
                next_with_id(before.assets, before.next) == next_with_id(
                    before.assets,
                    self.next as int,
                ),
                count_ids(before.assets.take(self.next as int)) == count_ids(
                    before.assets.take(before.next),
                ),
            decreases self.assets@.len() - self.next,
        {
            let i = self.next;
            assert(json_view(self.assets@[i as int]) == before.assets[i as int]);
            let id = text_of(&self.assets[i], "assetId");
            assert(before.assets.take(i + 1).drop_last() == before.assets.take(i as int));
            assert(before.assets.take(i + 1).last() == before.assets[i as int]);
            self.next = i + 1;
            if let Some(id) = id {
                self.pending = true;
                return Some(id);
            }
        }
        None
    }

    /// Takes in whether the asset that came last was deleted.
    pub fn record(&mut self, deleted: bool)
        requires
            old(self).well_formed(),
            old(self)@.pending,
        ensures
            final(self).well_formed(),
            final(self)@ == (DeleteRunView {
                success: old(self)@.success + (if deleted {
                    1int
                } else {
                    0int
                }),
                failed: old(self)@.failed + (if deleted {
                    0int
                } else {
                    1int
                }),
                pending: false,
                ..old(self)@
            }),
            final(self)@ == run_recorded(old(self)@, deleted),
    {
        proof {
            lemma_count_ids_bound(self@.assets.take(self@.next));
            assert(self@.success + self@.failed < self.assets@.len());
        }
        assert(self.assets@.len() == self@.assets.len());
        let bound = self.assets.len();
        assert(self.success < bound && self.failed < bound);
        if deleted {
            self.success = self.success + 1;
        } else {
            self.failed = self.failed + 1;
        }
        self.pending = false;
    }

    /// What is reported at the end of the run.
    pub fn report(&self) -> (r: serde_json::Value)
        requires
            self.well_formed(),
            !self@.pending,
            self@.next == self@.assets.len(),
        ensures
            json_view(r) == delete_report(self@),
            self@.success + self@.failed == count_ids(self@.assets),
    {
        proof {
            assert(self@.assets.take(self@.assets.len() as int) == self@.assets);
        }
        let mut report = value_object();
        value_set(&mut report, "total", value_u64(self.assets.len() as u64));
        value_set(&mut report, "success", value_u64(self.success as u64));
        value_set(&mut report, "failed", value_u64(self.failed as u64));
        if self.assets.len() == 0 {
            proof {
                assert(self@.assets == Seq::<JsonView>::empty());
            }
            value_set(&mut report, "skipped", value_bool(true));
        }
        report
    }
}

/// The listing after some pages were asked for and answered in turn.
pub open spec fn pager_after(pages: Seq<JsonView>) -> PagerView
    decreases pages.len(),
{
    if pages.len() == 0 {
        first_page()
    } else {
        let before = pager_after(pages.drop_last());
        match pager_answer(pager_asked(before), 200, Ok(pages.last())) {
            Ok(after) => after,
            Err(_) => before,
        }
    }
}

/// The assets on some pages, one page after the other.
pub open spec fn assets_on_pages(pages: Seq<JsonView>) -> Seq<JsonView>
    decreases pages.len(),
{
    if pages.len() == 0 {
        Seq::empty()
    } else {
        assets_on_pages(pages.drop_last()) + page_assets(pages.last())
    }
}

/// A listing holds the assets of all its pages, in the order of the pages, and
/// goes on with the page that the last of them names.
pub proof fn law_listing_keeps_every_asset(pages: Seq<JsonView>)
    ensures
        pager_after(pages).assets == assets_on_pages(pages),
        pages.len() > 0 ==> pager_after(pages).page_token == text_member(
            pages.last(),
            "nextPageToken"@,
        ),
    decreases pages.len(),
{
    if pages.len() > 0 {
        law_listing_keeps_every_asset(pages.drop_last());
    }
}

/// No page is asked for twice.
pub proof fn law_no_page_twice(pager: &AssetPager)
    requires
        pager.well_formed(),
    ensures
        pager@.seen.no_duplicates(),
{
}

/// A page that names itself, or an earlier page, as the next one ends the
/// listing.
pub proof fn law_repeated_page_ends_listing(before: PagerView, page: JsonView, token: Seq<char>)
    requires
        before.page_token == Some(token) || before.seen.contains(token),
        text_member(page, "nextPageToken"@) == Some(token),
    ensures
        match pager_answer(pager_asked(before), 200, Ok(page)) {
            Ok(after) => pager_stops(after),
            Err(_) => false,
        },
{
    let asked = pager_asked(before);
    if before.seen.contains(token) {
        let k = choose|k: int| 0 <= k < before.seen.len() && before.seen[k] == token;
        assert(asked.seen[k] == token);
    } else {
        assert(asked.seen.last() == token);
    }
}

/// At the end of a run every asset with an identifier was deleted or failed to
/// be, and the others were passed over.
pub proof fn law_delete_run_covers_every_asset(run: &DeleteRun)
    requires
        run.well_formed(),
        !run@.pending,
        run@.next == run@.assets.len(),
    ensures
        run@.success + run@.failed == count_ids(run@.assets),
        run@.success + run@.failed <= run@.assets.len(),
{
    assert(run@.assets.take(run@.assets.len() as int) == run@.assets);
    lemma_count_ids_bound(run@.assets);
}

/// A request goes out as it is: its method, its address and whether it has a body,
/// through the proxy of the service and within its time.
pub proof fn law_request_through_service(
    request: &ApiRequest,
    base: &BaseService,
    headers: &HeaderMap,
    r: CurlRequest,
)
    requires
        call_ensures(ApiRequest::through, (request, base, headers), r),
    ensures
        r.method@ == request.method@,
        r.url@ == request.url@,
        r.has_body <==> request.body is Some,
        r.proxy@ == base.proxy@,
        r.timeout == base.timeout,
        *r.headers == *headers,
        !r.capture_headers,
{
}

/// Each service goes through the proxy for assets where there is one, and else
/// through the general one, and keeps to its time.
pub proof fn law_asset_services(
    asset_proxy: String,
    base_proxy: String,
    timeout: u64,
    uploads: UploadService,
    lists: ListService,
    deletes: DeleteService,
)
    requires
        call_ensures(UploadService::new, (asset_proxy, base_proxy, timeout), uploads),
        call_ensures(ListService::new, (asset_proxy, base_proxy, timeout), lists),
        call_ensures(DeleteService::new, (asset_proxy, base_proxy, timeout), deletes),
    ensures
        uploads.base.timeout == timeout,
        lists.base.timeout == timeout,
        deletes.base.timeout == timeout,
        asset_proxy@.len() > 0 ==> uploads.base.proxy@ == asset_proxy@,
        asset_proxy@.len() == 0 ==> uploads.base.proxy@ == base_proxy@,
        lists.base.proxy@ == uploads.base.proxy@,
        deletes.base.proxy@ == uploads.base.proxy@,
{
}

/// An upload sends a document with the name, the media type and the content of the
/// file, and nothing else.
pub proof fn law_upload_sends_file(
    service: &UploadService,
    file: &(String, String, String),
    r: ApiRequest,
)
    requires
        call_ensures(UploadService::upload_file, (service, file), r),
    ensures
        r.method@ == "POST"@,
        r.url@ == "https://grok.com/rest/app-chat/upload-file"@,
        r.referer@ == "https://grok.com/"@,
        exists|v: JsonView|
            {
                &&& text_option(r.body) == Some(#[trigger] json_compact(v))
                &&& member(v, "fileName"@) == Some(JsonView::Str(file.0@))
                &&& member(v, "content"@) == Some(JsonView::Str(file.1@))
                &&& member(v, "fileMimeType"@) == Some(JsonView::Str(file.2@))
                &&& v is Object
                &&& v->Object_0.dom() == set!["fileName"@, "content"@, "fileMimeType"@]
            },
{
    reveal_strlit("fileName");
    reveal_strlit("content");
    reveal_strlit("fileMimeType");
    assert("fileName"@.len() == 8 && "content"@.len() == 7 && "fileMimeType"@.len() == 12);
    let v = upload_payload(file.0@, file.2@, file.1@);
    assert(v->Object_0.dom() =~= set!["fileName"@, "content"@, "fileMimeType"@]);
    assert(text_option(r.body) == Some(json_compact(v)));
}

/// What is an address on the web is fetched from there before it is uploaded, and
/// anything else is uploaded as it is.
pub proof fn law_upload_first_step(
    service: &UploadService,
    input: &str,
    is_url: bool,
    r: UploadStep,
)
    requires
        call_ensures(UploadService::upload, (service, input), r),
        call_ensures(BaseService::is_url, (input,), is_url),
    ensures
        is_url ==> r is Fetch && r->Fetch_0@ == input@,
        !is_url ==> r is Post,
{
}

/// What is uploaded of a data URL, or of what is no data URL, is what is read from
/// it, under a new name.
pub proof fn law_upload_of_content(
    service: &UploadService,
    input: &str,
    id: &str,
    given: (String, String, String),
    r: UploadStep,
)
    requires
        call_ensures(UploadService::upload, (service, input), r),
        call_ensures(BaseService::parse_b64_with, (&service.base, input, id), given),
        r is Post,
    ensures
        exists|name: Seq<char>|
            is_uuid(name) && r->Post_0@ == #[trigger] upload_request(
                ("file-"@ + name + ".bin"@, given.1@, given.2@),
            ),
{
    let name = choose|name: Seq<char>|
        is_uuid(name) && r->Post_0@ == upload_request(#[trigger] inline_file(input@, name));
    assert(inline_file(input@, name) == ("file-"@ + name + ".bin"@, given.1@, given.2@));
}

/// What is uploaded of a file from the web is its content with its media type. A
/// fetch that did not succeed is not uploaded.
pub proof fn law_upload_of_fetched_file(
    service: &UploadService,
    url: &str,
    status: u16,
    content_type: Option<String>,
    bytes: &[u8],
    id: &str,
    given: (String, String, String),
    r: Result<ApiRequest, ApiError>,
)
    requires
        call_ensures(
            UploadService::upload_fetched,
            (service, url, status, content_type, bytes),
            r,
        ),
        call_ensures(
            BaseService::fetched_file_with,
            (&service.base, url, content_type, bytes, id),
            given,
        ),
    ensures
        r is Ok <==> 200 <= status <= 299,
        r is Ok ==> exists|name: Seq<char>|
            r->Ok_0@ == #[trigger] upload_request((name, given.1@, given.2@)),
        r is Err ==> r->Err_0.kind == ApiErrorKind::Upstream && r->Err_0.message@
            == "Fetch failed: "@ + decimal(status as nat),
{
    if r is Ok {
        let new = choose|new: Seq<char>|
            is_uuid(new) && r->Ok_0@ == upload_request(
                #[trigger] web_file(url@, text_option(content_type), bytes@, new),
            );
        let file = web_file(url@, text_option(content_type), bytes@, new);
        assert(file == (file.0, given.1@, given.2@));
    }
}

/// An upload that is answered with success gives the identifier and the address
/// that the answer names, each empty where it names none. Any other answer is a
/// failure upstream.
pub proof fn law_upload_answer(
    status: u16,
    parsed: Result<serde_json::Value, String>,
    r: Result<(String, String), ApiError>,
)
    requires
        call_ensures(UploadService::uploaded_with, (status, parsed), r),
    ensures
        r is Ok <==> status == 200 && parsed is Ok,
        r is Ok ==> match member(json_view(parsed->Ok_0), "fileMetadataId"@) {
            Some(JsonView::Str(id)) => r->Ok_0.0@ == id,
            _ => r->Ok_0.0@.len() == 0,
        },
        r is Ok ==> match member(json_view(parsed->Ok_0), "fileUri"@) {
            Some(JsonView::Str(uri)) => r->Ok_0.1@ == uri,
            _ => r->Ok_0.1@.len() == 0,
        },
        r is Err ==> r->Err_0.kind == ApiErrorKind::Upstream,
        r is Err && status != 200 ==> r->Err_0.message@ == "Upload failed: "@ + decimal(
            status as nat,
        ),
        r is Err && status == 200 ==> r->Err_0.message@ == "Upload parse error: "@
            + parsed->Err_0@,
{
}

/// The answer to an upload means what the document in its body means.
pub proof fn law_upload_answer_is_parsed(
    service: &UploadService,
    status: u16,
    body: &[u8],
    parsed: Result<serde_json::Value, String>,
    given: Result<(String, String), ApiError>,
    r: Result<(String, String), ApiError>,
)
    requires
        parsed_view(parsed) == json_parse(body@),
        call_ensures(UploadService::uploaded_with, (status, parsed), given),
        call_ensures(UploadService::uploaded, (service, status, body), r),
    ensures
        match (given, r) {
            (Ok(a), Ok(b)) => a.0@ == b.0@ && a.1@ == b.1@,
            (Err(a), Err(b)) => a@ == b@,
            _ => false,
        },
{
}

/// A listing begins without assets and without a page to name.
pub proof fn law_listing_begins(service: &ListService, new: AssetPager, r: AssetPager)
    requires
        call_ensures(AssetPager::new, (), new),
        call_ensures(ListService::list, (service,), r),
    ensures
        r@.assets.len() == 0,
        r@.page_token is None,
        r@.seen.len() == 0,
        new@ == r@,
{
}

/// A page that was not asked for before never ends the listing: it is asked for
/// under its token, and noted as asked for.
pub proof fn law_new_page_is_asked_for(
    pager: &mut AssetPager,
    token: Seq<char>,
    r: Result<Option<ApiRequest>, ApiError>,
)
    requires
        call_ensures(AssetPager::next_request, (pager,), r),
        old(pager)@.page_token == Some(token),
        !old(pager)@.seen.contains(token),
    ensures
        r is Ok ==> r->Ok_0 is Some,
        final(pager)@.seen == old(pager)@.seen.push(token),
        final(pager)@.assets == old(pager)@.assets,
        final(pager)@.page_token == Some(token),
        match url_with_pairs(
            "https://grok.com/rest/assets"@,
            seq![
                ("pageSize"@, "50"@),
                ("orderBy"@, "ORDER_BY_LAST_USE_TIME"@),
                ("source"@, "SOURCE_ANY"@),
                ("isLatest"@, "true"@),
                ("pageToken"@, token),
            ],
        ) {
            Ok(url) => r is Ok && r->Ok_0->0@.url == url && r->Ok_0->0@.method == "GET"@
                && r->Ok_0->0@.referer == "https://grok.com/files"@ && r->Ok_0->0@.body is None,
            Err(cause) => r is Err && r->Err_0.kind == ApiErrorKind::Upstream && r->Err_0.message@
                == "List url error: "@ + cause,
        },
{
    assert(page_query(Some(token)) =~= seq![
        ("pageSize"@, "50"@),
        ("orderBy"@, "ORDER_BY_LAST_USE_TIME"@),
        ("source"@, "SOURCE_ANY"@),
        ("isLatest"@, "true"@),
        ("pageToken"@, token),
    ]);
}

/// The first page is asked for without a token.
pub proof fn law_first_page_is_asked_for(
    pager: &mut AssetPager,
    r: Result<Option<ApiRequest>, ApiError>,
)
    requires
        call_ensures(AssetPager::next_request, (pager,), r),
        old(pager)@.page_token is None,
    ensures
        r is Ok ==> r->Ok_0 is Some,
        final(pager)@ == old(pager)@,
        match url_with_pairs(
            "https://grok.com/rest/assets"@,
            seq![
                ("pageSize"@, "50"@),
                ("orderBy"@, "ORDER_BY_LAST_USE_TIME"@),
                ("source"@, "SOURCE_ANY"@),
                ("isLatest"@, "true"@),
            ],
        ) {
            Ok(url) => r is Ok && r->Ok_0->0@.url == url && r->Ok_0->0@.method == "GET"@
                && r->Ok_0->0@.referer == "https://grok.com/files"@ && r->Ok_0->0@.body is None,
            Err(cause) => r is Err && r->Err_0.kind == ApiErrorKind::Upstream && r->Err_0.message@
                == "List url error: "@ + cause,
        },
{
}

/// A page that was asked for before is not asked for again.
pub proof fn law_old_page_is_not_asked_for(
    pager: &mut AssetPager,
    token: Seq<char>,
    r: Result<Option<ApiRequest>, ApiError>,
)
    requires
        call_ensures(AssetPager::next_request, (pager,), r),
        old(pager)@.page_token == Some(token),
        old(pager)@.seen.contains(token),
    ensures
        r is Ok,
        r->Ok_0 is None,
        final(pager)@ == old(pager)@,
{
}

/// A page adds its assets behind those that were listed before, and names the next
/// page, if there is one.
pub proof fn law_page_is_taken_in(
    pager: &mut AssetPager,
    status: u16,
    parsed: Result<serde_json::Value, String>,
    r: Result<bool, ApiError>,
)
    requires
        call_ensures(AssetPager::answer, (pager, status, parsed), r),
    ensures
        r is Ok <==> status == 200 && parsed is Ok,
        final(pager)@.seen == old(pager)@.seen,
        r is Ok ==> match member(json_view(parsed->Ok_0), "assets"@) {
            Some(JsonView::Array(items)) => final(pager)@.assets == old(pager)@.assets + items,
            _ => final(pager)@.assets == old(pager)@.assets,
        },
        r is Ok ==> match member(json_view(parsed->Ok_0), "nextPageToken"@) {
            Some(JsonView::Str(token)) => r->Ok_0 && final(pager)@.page_token == Some(token),
            _ => !r->Ok_0 && final(pager)@.page_token is None,
        },
        r is Err ==> final(pager)@ == old(pager)@ && r->Err_0.kind == ApiErrorKind::Upstream,
        r is Err && status != 200 ==> r->Err_0.message@ == "List failed: "@ + decimal(
            status as nat,
        ),
        r is Err && status == 200 ==> r->Err_0.message@ == "List parse error: "@ + parsed->Err_0@,
{
    if r is Ok && !(member(json_view(parsed->Ok_0), "assets"@) matches Some(JsonView::Array(_))) {
        assert(old(pager)@.assets + Seq::<JsonView>::empty() =~= old(pager)@.assets);
    }
}

/// The answer to a page means what the document in its body means.
pub proof fn law_page_is_parsed(
    pager: &mut AssetPager,
    status: u16,
    body: &[u8],
    r: Result<bool, ApiError>,
)
    requires
        call_ensures(AssetPager::take_page, (pager, status, body), r),
    ensures
        r is Ok <==> status == 200 && json_parse(body@) is Ok,
        final(pager)@.seen == old(pager)@.seen,
        r is Ok ==> match member(json_parse(body@)->Ok_0, "assets"@) {
            Some(JsonView::Array(items)) => final(pager)@.assets == old(pager)@.assets + items,
            _ => final(pager)@.assets == old(pager)@.assets,
        },
        r is Ok ==> match member(json_parse(body@)->Ok_0, "nextPageToken"@) {
            Some(JsonView::Str(token)) => r->Ok_0 && final(pager)@.page_token == Some(token),
            _ => !r->Ok_0 && final(pager)@.page_token is None,
        },
        r is Err ==> final(pager)@ == old(pager)@ && r->Err_0.kind == ApiErrorKind::Upstream,
        r is Err && status != 200 ==> r->Err_0.message@ == "List failed: "@ + decimal(
            status as nat,
        ),
        r is Err && status == 200 ==> r->Err_0.message@ == "List parse error: "@ + json_parse(
            body@,
        )->Err_0,
{
    if r is Ok && !(member(json_parse(body@)->Ok_0, "assets"@) matches Some(JsonView::Array(_))) {
        assert(old(pager)@.assets + Seq::<JsonView>::empty() =~= old(pager)@.assets);
    }
}

/// Pages that name different next pages are all asked for, until one names none,
/// and all their assets are listed.
pub proof fn law_different_pages_are_all_asked_for(pages: Seq<JsonView>, tokens: Seq<Seq<char>>)
    requires
        pages.len() == tokens.len(),
        forall|i: int|
            0 <= i < pages.len() ==> text_member(#[trigger] pages[i], "nextPageToken"@) == Some(
                tokens[i],
            ),
        tokens.no_duplicates(),
    ensures
        !pager_stops(pager_after(pages)),
        pager_after(pages).seen == tokens.take(
            if pages.len() == 0 {
                0
            } else {
                pages.len() - 1
            },
        ),
    decreases pages.len(),
{
    if pages.len() > 0 {
        let n = pages.len() - 1;
        let before = pager_after(pages.drop_last());
        law_different_pages_are_all_asked_for(pages.drop_last(), tokens.drop_last());
        assert(pages.last() == pages[n]);
        if n > 0 {
            assert(pages.drop_last().last() == pages[n - 1]);
            assert(before.page_token == Some(tokens[n - 1]));
            assert(tokens.drop_last().take(n - 1).push(tokens[n - 1]) =~= tokens.take(n));
        } else {
            assert(tokens.drop_last().take(0) =~= tokens.take(0));
        }
        let after = pager_after(pages);
        assert(after.seen =~= tokens.take(n));
        assert(!after.seen.contains(tokens[n])) by {
            if after.seen.contains(tokens[n]) {
                let k = choose|k: int| 0 <= k < n && after.seen[k] == tokens[n];
                assert(tokens[k] == tokens[n]);
            }
        }
    } else {
        assert(pager_after(pages).seen =~= tokens.take(0));
    }
}

/// What was listed is handed out, and counted, as it is.
pub proof fn law_listed_assets(
    service: &ListService,
    pager: AssetPager,
    assets: Vec<serde_json::Value>,
    count: usize,
)
    requires
        call_ensures(AssetPager::into_assets, (pager,), assets),
        call_ensures(ListService::count, (service, &pager), count),
    ensures
        assets@.len() == pager@.assets.len(),
        forall|i: int|
            0 <= i < assets@.len() ==> json_view(#[trigger] assets@[i]) == pager@.assets[i],
        count == assets@.len(),
{
    assert(json_views(assets@).len() == assets@.len());
    assert forall|i: int| 0 <= i < assets@.len() implies json_view(#[trigger] assets@[i])
        == pager@.assets[i] by {
        assert(json_views(assets@)[i] == json_view(assets@[i]));
    }
}

/// An asset is deleted at its own address, and is deleted exactly when the answer
/// says so.
pub proof fn law_deletion(
    service: &DeleteService,
    id: &str,
    status: u16,
    request: ApiRequest,
    r: Result<bool, ApiError>,
)
    requires
        call_ensures(DeleteService::delete, (service, id), request),
        call_ensures(DeleteService::deleted, (service, status), r),
    ensures
        request.method@ == "DELETE"@,
        request.url@ == "https://grok.com/rest/assets-metadata"@ + "/"@ + id@,
        request.referer@ == "https://grok.com/files"@,
        request.body is None,
        status == 200 ==> r == Ok::<bool, ApiError>(true),
        status != 200 ==> r is Err && r->Err_0.kind == ApiErrorKind::Upstream && r->Err_0.message@
            == "Delete failed: "@ + decimal(status as nat),
{
}

/// A run goes over all assets that were listed, in order, and over none where
/// listing them failed. Nothing is deleted to begin with.
pub proof fn law_run_over_listed_assets(
    service: &DeleteService,
    listed: Result<Vec<serde_json::Value>, ApiError>,
    r: DeleteRun,
)
    requires
        call_ensures(DeleteService::delete_all, (service, listed), r),
    ensures
        listed is Ok ==> r@.assets.len() == listed->Ok_0@.len() && forall|i: int|
            0 <= i < r@.assets.len() ==> #[trigger] r@.assets[i] == json_view(listed->Ok_0@[i]),
        listed is Err ==> r@.assets.len() == 0,
        r@.next == 0,
        r@.success == 0,
        r@.failed == 0,
        !r@.pending,
{
}

/// The next asset to delete is the next one with an identifier, and no other asset
/// is passed over. There is none where none of the rest has one.
pub proof fn law_next_asset(run: &mut DeleteRun, r: Option<String>)
    requires
        old(run).well_formed(),
        !old(run)@.pending,
        call_ensures(DeleteRun::next_id, (run,), r),
    ensures
        final(run)@.assets == old(run)@.assets,
        final(run)@.success == old(run)@.success,
        final(run)@.failed == old(run)@.failed,
        final(run)@.pending == (r is Some),
        old(run)@.next <= final(run)@.next <= old(run)@.assets.len(),
        ({
            let passed = if r is Some {
                final(run)@.next - 1
            } else {
                final(run)@.next
            };
            &&& forall|i: int|
                old(run)@.next <= i < passed ==> !(member(
                    #[trigger] old(run)@.assets[i],
                    "assetId"@,
                ) matches Some(JsonView::Str(_)))
            &&& r is Some ==> old(run)@.next <= passed && member(
                old(run)@.assets[passed],
                "assetId"@,
            ) == Some(JsonView::Str(r->0@))
            &&& r is None ==> passed == old(run)@.assets.len()
        }),
{
    lemma_passed_over(old(run)@.assets, old(run)@.next);
}

proof fn lemma_passed_over(assets: Seq<JsonView>, i: int)
    requires
        0 <= i <= assets.len(),
    ensures
        i <= next_with_id(assets, i) <= assets.len(),
        forall|j: int|
            i <= j < next_with_id(assets, i) ==> text_member(#[trigger] assets[j], "assetId"@)
                is None,
    decreases assets.len() - i,
{
    if i < assets.len() && text_member(assets[i], "assetId"@) is None {
        lemma_passed_over(assets, i + 1);
    }
}

/// A deletion that is recorded as done counts as a success, and one that is
/// recorded as not done as a failure.
pub proof fn law_deletion_is_counted(run: &mut DeleteRun, deleted: bool, r: ())
    requires
        call_ensures(DeleteRun::record, (run, deleted), r),
    ensures
        deleted ==> final(run)@.success == old(run)@.success + 1 && final(run)@.failed == old(run)@.failed,
        !deleted ==> final(run)@.failed == old(run)@.failed + 1 && final(run)@.success == old(run)@.success,
        final(run)@.assets == old(run)@.assets,
        final(run)@.next == old(run)@.next,
        !final(run)@.pending,
{
}

/// The report of a run says how many assets there were, how many were deleted and
/// how many were not. It says that nothing was done exactly where there were none.
pub proof fn law_delete_report(run: &DeleteRun, r: serde_json::Value)
    requires
        call_ensures(DeleteRun::report, (run,), r),
    ensures
        member(json_view(r), "total"@) == Some(JsonView::Int(run@.assets.len() as int)),
        run@.assets.len() > 0 ==> member(json_view(r), "success"@) == Some(
            JsonView::Int(run@.success),
        ),
        run@.assets.len() > 0 ==> member(json_view(r), "failed"@) == Some(
            JsonView::Int(run@.failed),
        ),
        run@.assets.len() > 0 ==> member(json_view(r), "skipped"@) is None,
        run@.assets.len() == 0 ==> member(json_view(r), "success"@) == Some(JsonView::Int(0))
            && member(json_view(r), "failed"@) == Some(JsonView::Int(0)) && member(
            json_view(r),
            "skipped"@,
        ) == Some(JsonView::Bool(true)),
{
    lemma_report_keys();
}

proof fn lemma_report_keys()
    ensures
        "total"@ != "success"@,
        "total"@ != "failed"@,
        "total"@ != "skipped"@,
        "success"@ != "failed"@,
        "success"@ != "skipped"@,
        "failed"@ != "skipped"@,
{
    reveal_strlit("total");
    reveal_strlit("success");
    reveal_strlit("failed");
    reveal_strlit("skipped");
    assert("total"@.len() == 5 && "failed"@.len() == 6);
    assert("success"@.len() == 7 && "skipped"@.len() == 7);
    assert("success"@[1] == 'u' && "skipped"@[1] == 'k');
}

/// The run over some assets after some of them were sought and recorded in turn.
pub open spec fn run_after(assets: Seq<JsonView>, outcomes: Seq<bool>) -> DeleteRunView
    decreases outcomes.len(),
{
    if outcomes.len() == 0 {
        run_over(assets)
    } else {
        run_recorded(run_sought(run_after(assets, outcomes.drop_last())), outcomes.last())
    }
}

/// How many of the outcomes are `outcome`.
pub open spec fn count_outcomes(outcomes: Seq<bool>, outcome: bool) -> int {
    outcomes.to_multiset().count(outcome) as int
}

/// At the end of a run the report holds as many successes as deletions were done,
/// and as many failures as were not, of all the assets that there were.
pub proof fn law_report_counts_outcomes(assets: Seq<JsonView>, outcomes: Seq<bool>)
    requires
        assets.len() > 0,
    ensures
        ({
            let report = delete_report(run_sought(run_after(assets, outcomes)));
            &&& member(report, "total"@) == Some(JsonView::Int(assets.len() as int))
            &&& member(report, "success"@) == Some(JsonView::Int(count_outcomes(outcomes, true)))
            &&& member(report, "failed"@) == Some(JsonView::Int(count_outcomes(outcomes, false)))
        }),
{
    lemma_run_counts(assets, outcomes);
    lemma_report_keys();
}

proof fn lemma_run_counts(assets: Seq<JsonView>, outcomes: Seq<bool>)
    ensures
        run_after(assets, outcomes).assets == assets,
        run_after(assets, outcomes).success == count_outcomes(outcomes, true),
        run_after(assets, outcomes).failed == count_outcomes(outcomes, false),
    decreases outcomes.len(),
{
    broadcast use vstd::seq_lib::group_to_multiset_ensures;

    if outcomes.len() > 0 {
        lemma_run_counts(assets, outcomes.drop_last());
        assert(outcomes =~= outcomes.drop_last().push(outcomes.last()));
    }
}

} // verus!
