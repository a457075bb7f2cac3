//! Video requests: the form that they come in, and the answer to them.

use crate::error::{
    invalid_request_error, not_found_error, ApiError, ApiErrorKind, ApiErrorView,
};
use crate::ident::{is_simple_uuid, new_simple_uuid, unix_time};
use crate::json::{
    as_text, element, json_view, json_views, member, value_as_str, value_at, value_clone, value_get,
    value_i64, value_object, value_set, value_string, value_u64, JsonView,
};
use crate::model::{find_model, law_video_models, model_table, Cost, ModelInfo, ModelService};
use crate::number::{decimal, lemma_decimal, lemma_no_digits, parse_i32, parse_i32_spec};
use crate::text::{
    chars_of, contains_text, find_in, find_text, join2, join3, join4, lemma_find_text,
    lemma_first_text, lemma_position, lemma_position_bounds, occurs_at, position, position_in,
    same_text, string_of, text_option,
};
use vstd::prelude::*;

verus! {

/// What the gateway does with a field of the form.
#[derive(Clone, Copy, Debug, PartialEq, Eq, Structural)]
pub enum FieldKind {
    /// Its text is read.
    Text,
    /// Its bytes are read.
    File,
    /// It is passed over.
    Ignored,
}

/// The form of a video request.
#[derive(Clone, Debug)]
pub struct VideoForm {
    pub model: String,
    pub prompt: String,
    pub aspect_ratio: String,
    pub seconds: i32,
    pub size: String,
    pub input_reference: Option<Vec<u8>>,
}

/// The plain form of a [`VideoForm`].
pub struct VideoFormView {
    pub model: Seq<char>,
    pub prompt: Seq<char>,
    pub aspect_ratio: Seq<char>,
    pub seconds: int,
    pub size: Seq<char>,
    pub input_reference: Option<Seq<u8>>,
}

impl View for VideoForm {
    type V = VideoFormView;

    open spec fn view(&self) -> VideoFormView {
        VideoFormView {
            model: self.model@,
            prompt: self.prompt@,
            aspect_ratio: self.aspect_ratio@,
            seconds: self.seconds as int,
            size: self.size@,
            input_reference: match self.input_reference {
                Some(data) => Some(data@),
                None => None,
            },
        }
    }
}

/// A video request that was accepted.
#[derive(Clone, Debug)]
pub struct VideoRequest {
    pub model: String,
    pub prompt: String,
    pub aspect_ratio: String,
    pub seconds: i32,
    pub size: String,
    pub cost: Cost,
}

/// The plain form of a [`VideoRequest`].
pub struct VideoRequestView {
    pub model: Seq<char>,
    pub prompt: Seq<char>,
    pub aspect_ratio: Seq<char>,
    pub seconds: int,
    pub size: Seq<char>,
    pub cost: Cost,
}

impl View for VideoRequest {
    type V = VideoRequestView;

    open spec fn view(&self) -> VideoRequestView {
        VideoRequestView {
            model: self.model@,
            prompt: self.prompt@,
            aspect_ratio: self.aspect_ratio@,
            seconds: self.seconds as int,
            size: self.size@,
            cost: self.cost,
        }
    }
}

/// What a model is asked for to make a video.
pub struct VideoCompletion {
    pub model: String,
    pub messages: Vec<serde_json::Value>,
    pub stream: Option<bool>,
    pub thinking: Option<String>,
    pub aspect_ratio: String,
    pub seconds: i32,
    pub size: String,
    pub preset: String,
}

/// How much of a token a request uses up.
#[derive(Clone, Copy, Debug, PartialEq, Eq, Structural)]
pub enum EffortType {
    Low,
    High,
}

/// The form before any field is read.
pub open spec fn empty_form() -> VideoFormView {
    VideoFormView {
        model: Seq::empty(),
        prompt: Seq::empty(),
        aspect_ratio: "3:2"@,
        seconds: 6,
        size: "SD"@,
        input_reference: None,
    }
}

/// What the gateway does with the field `name`.
pub open spec fn kind_of_field(name: Seq<char>) -> FieldKind {
    if name == "model"@ || name == "prompt"@ || name == "aspect_ratio"@ || name == "seconds"@
        || name == "size"@ {
        FieldKind::Text
    } else if name == "input_reference"@ {
        FieldKind::File
    } else {
        FieldKind::Ignored
    }
}

/// The form with the text of the field `name` taken in. Seconds that are no
/// number count as six.
pub open spec fn form_with_text(
    form: VideoFormView,
    name: Seq<char>,
    value: Seq<char>,
) -> VideoFormView {
    if name == "model"@ {
        VideoFormView { model: value, ..form }
    } else if name == "prompt"@ {
        VideoFormView { prompt: value, ..form }
    } else if name == "aspect_ratio"@ {
        VideoFormView { aspect_ratio: value, ..form }
    } else if name == "seconds"@ {
        VideoFormView {
            seconds: match parse_i32_spec(value) {
                Some(n) => n,
                None => 6,
            },
            ..form
        }
    } else if name == "size"@ {
        VideoFormView { size: value, ..form }
    } else {
        form
    }
}

/// The form with the bytes of the reference file taken in, unless it is empty.
pub open spec fn form_with_file(form: VideoFormView, data: Seq<u8>) -> VideoFormView {
    if data.len() > 0 {
        VideoFormView { input_reference: Some(data), ..form }
    } else {
        form
    }
}

/// The length of the video in seconds: fixed for the models that have it in
/// their name, as asked for otherwise.
pub open spec fn video_seconds(model: Seq<char>, asked: int) -> int {
    if model == "grok-video-3"@ {
        3
    } else if model == "grok-video-3-pro"@ {
        6
    } else {
        asked
    }
}

/// The error for a model that there is not.
pub open spec fn unknown_model_error(model: Seq<char>) -> ApiErrorView {
    ApiErrorView {
        param: Some("model"@),
        code: Some("model_not_found"@),
        ..not_found_error(
            "The model `"@ + model + "` does not exist or you do not have access to it."@,
        )
    }
}

/// What a completed form leads to: the request that it makes, or the error that
/// is answered.
pub open spec fn accept_form(form: VideoFormView) -> Result<VideoRequestView, ApiErrorView> {
    if form.model.len() == 0 {
        Err(invalid_request_error("model is required"@))
    } else if form.prompt.len() == 0 {
        Err(invalid_request_error("prompt is required"@))
    } else {
        match find_model(model_table(), form.model) {
            None => Err(unknown_model_error(form.model)),
            Some(m) => if m.is_video {
                Ok(
                    VideoRequestView {
                        model: form.model,
                        prompt: form.prompt,
                        aspect_ratio: form.aspect_ratio,
                        seconds: video_seconds(form.model, form.seconds),
                        size: form.size,
                        cost: m.cost,
                    },
                )
            } else {
                Err(
                    invalid_request_error(
                        "Model `"@ + form.model + "` is not a video model"@,
                    ),
                )
            },
        }
    }
}

/// The target of a Markdown link whose label `s` goes on with: what stands between
/// the first `](` and the next `)`.
pub open spec fn link_target(s: Seq<char>) -> Option<Seq<char>> {
    match find_text(s, "]("@) {
        Some(start) => {
            let rest = s.skip(start + 2);
            let end = position(rest, ')');
            if end < rest.len() {
                Some(rest.take(end))
            } else {
                None
            }
        },
        None => None,
    }
}

/// The address in the form `![...](url)`. A text without one stands for itself.
pub open spec fn video_url(content: Seq<char>) -> Seq<char> {
    match find_text(content, "!["@) {
        Some(start) => match link_target(content.skip(start + 2)) {
            Some(url) => url,
            None => content,
        },
        None => content,
    }
}

/// The text of the first choice of a completion, or nothing.
pub open spec fn completion_content(result: JsonView) -> Seq<char> {
    match member(result, "choices"@) {
        Some(choices) => match element(choices, 0) {
            Some(choice) => match member(choice, "message"@) {
                Some(message) => match member(message, "content"@) {
                    Some(content) => match as_text(content) {
                        Some(s) => s,
                        None => Seq::empty(),
                    },
                    None => Seq::empty(),
                },
                None => Seq::empty(),
            },
            None => Seq::empty(),
        },
        None => Seq::empty(),
    }
}

/// The usage that a completion reports, or none of anything.
pub open spec fn completion_usage(result: JsonView) -> JsonView {
    match member(result, "usage"@) {
        Some(usage) => usage,
        None => JsonView::Object(
            map![
                "prompt_tokens"@ => JsonView::Int(0),
                "completion_tokens"@ => JsonView::Int(0),
                "total_tokens"@ => JsonView::Int(0),
            ],
        ),
    }
}

/// The answer to a video request that was completed with `result` by `model`.
pub open spec fn video_response_view(
    request: VideoRequestView,
    model: Seq<char>,
    result: JsonView,
    id: Seq<char>,
    created: int,
) -> JsonView {
    let data = JsonView::Object(
        map![
            "url"@ => JsonView::Str(video_url(completion_content(result))),
            "prompt"@ => JsonView::Str(request.prompt),
            "aspect_ratio"@ => JsonView::Str(request.aspect_ratio),
            "seconds"@ => JsonView::Int(request.seconds),
            "size"@ => JsonView::Str(request.size),
        ],
    );
    JsonView::Object(
        map![
            "id"@ => JsonView::Str("video-"@ + id),
            "object"@ => JsonView::Str("video"@),
            "created"@ => JsonView::Int(created),
            "model"@ => JsonView::Str(model),
            "data"@ => data,
            "usage"@ => completion_usage(result),
        ],
    )
}

/// The chat message of a user with the given text.
pub open spec fn user_message(prompt: Seq<char>) -> JsonView {
    JsonView::Object(
        map!["role"@ => JsonView::Str("user"@), "content"@ => JsonView::Str(prompt)],
    )
}

/// Whether the endpoint answers at all.
pub fn check_videos_enabled(enabled: bool) -> (r: Result<(), ApiError>)
    ensures
        match r {
            Ok(_) => enabled,
            Err(e) => !enabled && e@ == not_found_error("Endpoint disabled"@),
        },
{
    if enabled {
        Ok(())
    } else {
        Err(ApiError::not_found("Endpoint disabled".to_string()))
    }
}

/// The error for a form that cannot be taken apart.
pub fn form_error(cause: &str) -> (r: ApiError)
    ensures
        r@ == invalid_request_error("Failed to parse multipart: "@ + cause@),
{
    ApiError::invalid_request(join2("Failed to parse multipart: ", cause))
}

/// The error for a field that cannot be read.
pub fn field_error(name: &str, cause: &str) -> (r: ApiError)
    ensures
        r@ == invalid_request_error("Failed to read "@ + name@ + ": "@ + cause@),
{
    ApiError::invalid_request(join4("Failed to read ", name, ": ", cause))
}

/// What the gateway does with the field `name`.
pub fn field_kind(name: &str) -> (r: FieldKind)
    ensures
        r == kind_of_field(name@),
{
    if same_text(name, "model") || same_text(name, "prompt") || same_text(name, "aspect_ratio")
        || same_text(name, "seconds") || same_text(name, "size") {
        FieldKind::Text
    } else if same_text(name, "input_reference") {
        FieldKind::File
    } else {
        FieldKind::Ignored
    }
}

impl VideoForm {
    /// The form before any field is read.
    pub fn new() -> (r: VideoForm)
        ensures
            r@ == empty_form(),
    {
        VideoForm {
            model: String::new(),
            prompt: String::new(),
            aspect_ratio: "3:2".to_string(),
            seconds: 6,
            size: "SD".to_string(),
            input_reference: None,
        }
    }

    /// Takes in the text of the field `name`.
    pub fn set_text(&mut self, name: &str, value: String)
        ensures
            final(self)@ == form_with_text(old(self)@, name@, value@),
    {
        if same_text(name, "model") {
            self.model = value;
        } else if same_text(name, "prompt") {
            self.prompt = value;
        } else if same_text(name, "aspect_ratio") {
            self.aspect_ratio = value;
        } else if same_text(name, "seconds") {
            self.seconds = match parse_i32(value.as_str()) {
                Some(n) => n,
                None => 6,
            };
        } else if same_text(name, "size") {
            self.size = value;
        }
    }

    /// Takes in the bytes of the reference file.
    pub fn set_file(&mut self, data: Vec<u8>)
        ensures
            final(self)@ == form_with_file(old(self)@, data@),
    {
        if data.len() > 0 {
            self.input_reference = Some(data);
        }
    }

    /// The request that the form makes, or the error to answer.
    pub fn accept(self) -> (r: Result<VideoRequest, ApiError>)
        ensures
            match r {
                Ok(request) => accept_form(self@) == Ok::<VideoRequestView, ApiErrorView>(request@),
                Err(e) => accept_form(self@) == Err::<VideoRequestView, ApiErrorView>(e@),
            },
    {
        if self.model.as_str().is_empty() {
            return Err(ApiError::invalid_request("model is required".to_string()));
        }
        if self.prompt.as_str().is_empty() {
            return Err(ApiError::invalid_request("prompt is required".to_string()));
        }
        let seconds = final_seconds(self.model.as_str(), self.seconds);
        match ModelService::get(self.model.as_str()) {
            None => Err(
                ApiError::not_found(
                    join3(
                        "The model `",
                        self.model.as_str(),
                        "` does not exist or you do not have access to it.",
                    ),
                ).with_param("model").with_code("model_not_found"),
            ),
            Some(m) => if m.is_video {
                Ok(
                    VideoRequest {
                        model: self.model,
                        prompt: self.prompt,
                        aspect_ratio: self.aspect_ratio,
                        seconds,
                        size: self.size,
                        cost: m.cost,
                    },
                )
            } else {
                Err(
                    ApiError::invalid_request(
                        join3("Model `", self.model.as_str(), "` is not a video model"),
                    ),
                )
            },
        }
    }
}

/// The length of the video in seconds.
pub fn final_seconds(model: &str, asked: i32) -> (r: i32)
    ensures
        r == video_seconds(model@, asked as int),
{
    if same_text(model, "grok-video-3") {
        3
    } else if same_text(model, "grok-video-3-pro") {
        6
    } else {
        asked
    }
}

/// The characters of `v` from an index on.
fn tail_of(v: &Vec<char>, from: usize) -> (r: Vec<char>)
    requires
        from <= v@.len(),
    ensures
        r@ == v@.skip(from as int),
{
    let mut rest: Vec<char> = Vec::new();
    let n = v.len();
    let mut i: usize = from;
    while i < n
        invariant
            from <= i <= n,
            n == v@.len(),
            rest@ == v@.subrange(from as int, i as int),
        decreases n - i,
    {
        rest.push(v[i]);
        i = i + 1;
    }
    assert(rest@ == v@.skip(from as int));
    rest
}

/// The target of a Markdown link whose label `v` goes on with.
fn target_of(v: &Vec<char>) -> (r: Option<String>)
    ensures
        text_option(r) == link_target(v@),
{
    let open = chars_of("](");
    proof {
        reveal_strlit("](");
    }
    if let Some(start) = find_in(v, &open) {
        let n = v.len();
        assert(start + 2 <= n);
        let rest = tail_of(v, start + 2);
        let end = position_in(&rest, ')');
        if end < rest.len() {
            assert(rest@.subrange(0, end as int) == rest@.take(end as int));
            return Some(string_of(&rest, 0, end));
        }
    }
    None
}

/// The address in the form `![...](url)`. A text without one stands for itself.
pub fn extract_video_url(content: &str) -> (r: String)
    ensures
        r@ == video_url(content@),
{
    let v = chars_of(content);
    let open = chars_of("![");
    proof {
        reveal_strlit("![");
    }
    if let Some(start) = find_in(&v, &open) {
        let n = v.len();
        assert(start + 2 <= n);
        if let Some(url) = target_of(&tail_of(&v, start + 2)) {
            return url;
        }
    }
    content.to_string()
}

/// The text of the first choice of a completion, or nothing.
fn content_of(result: &serde_json::Value) -> (r: String)
    ensures
        r@ == completion_content(json_view(*result)),
{
    if let Some(choices) = value_get(result, "choices") {
        if let Some(choice) = value_at(choices, 0) {
            if let Some(message) = value_get(choice, "message") {
                if let Some(content) = value_get(message, "content") {
                    if let Some(s) = value_as_str(content) {
                        return s.to_string();
                    }
                }
            }
        }
    }
    String::new()
}

/// The usage that a completion reports, or none of anything.
fn usage_of(result: &serde_json::Value) -> (r: serde_json::Value)
    ensures
        json_view(r) == completion_usage(json_view(*result)),
{
    match value_get(result, "usage") {
        Some(usage) => value_clone(usage),
        None => {
            let mut usage = value_object();
            value_set(&mut usage, "prompt_tokens", value_u64(0));
            value_set(&mut usage, "completion_tokens", value_u64(0));
            value_set(&mut usage, "total_tokens", value_u64(0));
            usage
        },
    }
}

impl VideoRequest {
    /// The messages that are sent to the model.
    pub fn messages(&self) -> (r: Vec<serde_json::Value>)
        ensures
            json_views(r@) == seq![user_message(self.prompt@)],
    {
        let mut message = value_object();
        value_set(&mut message, "role", value_string("user".to_string()));
        value_set(&mut message, "content", value_string(self.prompt.clone()));
        let mut out: Vec<serde_json::Value> = Vec::new();
        out.push(message);
        assert(json_views(out@) == seq![user_message(self.prompt@)]);
        out
    }

    /// The completion that makes the video: in one piece, and with the preset for
    /// prompts of one's own.
    pub fn completion(&self) -> (r: VideoCompletion)
        ensures
            r.model@ == self.model@,
            json_views(r.messages@) == seq![user_message(self.prompt@)],
            r.stream == Some(false),
            r.thinking is None,
            r.aspect_ratio@ == self.aspect_ratio@,
            r.seconds == self.seconds,
            r.size@ == self.size@,
            r.preset@ == "custom"@,
    {
        VideoCompletion {
            model: self.model.clone(),
            messages: self.messages(),
            stream: Some(false),
            thinking: None,
            aspect_ratio: self.aspect_ratio.clone(),
            seconds: self.seconds,
            size: self.size.clone(),
            preset: "custom".to_string(),
        }
    }

    /// How much of a token the request uses up.
    pub fn effort(&self) -> (r: EffortType)
        ensures
            r == (if self.cost == Cost::High {
                EffortType::High
            } else {
                EffortType::Low
            }),
    {
        if self.cost == Cost::High {
            EffortType::High
        } else {
            EffortType::Low
        }
    }

    /// The answer to the request that `model` completed with `result`, under the
    /// given identifier and time.
    pub fn response_with(
        &self,
        model: &str,
        result: &serde_json::Value,
        id: &str,
        created: i64,
    ) -> (r: serde_json::Value)
        ensures
            json_view(r) == video_response_view(
                self@,
                model@,
                json_view(*result),
                id@,
                created as int,
            ),
    {
        let content = content_of(result);
        let mut data = value_object();
        value_set(&mut data, "url", value_string(extract_video_url(content.as_str())));
        value_set(&mut data, "prompt", value_string(self.prompt.clone()));
        value_set(&mut data, "aspect_ratio", value_string(self.aspect_ratio.clone()));
        value_set(&mut data, "seconds", value_i64(self.seconds as i64));
        value_set(&mut data, "size", value_string(self.size.clone()));
        let mut response = value_object();
        value_set(&mut response, "id", value_string(join2("video-", id)));
        value_set(&mut response, "object", value_string("video".to_string()));
        value_set(&mut response, "created", value_i64(created));
        value_set(&mut response, "model", value_string(model.to_string()));
        value_set(&mut response, "data", data);
        value_set(&mut response, "usage", usage_of(result));
        response
    }

    /// The answer to the request that `model` completed with `result`, under a
    /// new identifier and the current time.
    pub fn response(&self, model: &str, result: &serde_json::Value) -> (r: serde_json::Value)
        ensures
            exists|id: Seq<char>, created: i64|
                is_simple_uuid(id) && json_view(r) == #[trigger] video_response_view(
                    self@,
                    model@,
                    json_view(*result),
                    id,
                    created as int,
                ),
    {
        let id = new_simple_uuid();
        let created = unix_time();
        self.response_with(model, result, id.as_str(), created)
    }
}

/// An accepted request is for a known video model and has a prompt. The models
/// with a fixed length have it whatever was asked for.
pub proof fn law_accepted_request(form: VideoFormView)
    requires
        accept_form(form) is Ok,
    ensures
        ({
            let request = accept_form(form)->Ok_0;
            &&& request.prompt == form.prompt && request.prompt.len() > 0
            &&& request.model == form.model
            &&& find_model(model_table(), request.model) is Some
            &&& find_model(model_table(), request.model).unwrap().is_video
            &&& request.model == "grok-video-3"@ ==> request.seconds == 3
            &&& request.model == "grok-video-3-pro"@ ==> request.seconds == 6
        }),
{
    reveal_strlit("grok-video-3");
    reveal_strlit("grok-video-3-pro");
    assert("grok-video-3"@.len() != "grok-video-3-pro"@.len());
}

/// A link whose label holds no `](` leads to its target, up to the first `)`.
proof fn lemma_link_target(label: Seq<char>, url: Seq<char>, rest: Seq<char>)
    requires
        !contains_text(label, "]("@),
        !url.contains(')'),
    ensures
        link_target(label + "]("@ + (url + ")"@ + rest)) == Some(url),
{
    reveal_strlit("](");
    reveal_strlit(")");
    let tail = url + ")"@ + rest;
    let s = label + "]("@ + tail;
    lemma_first_text(label, "]("@, tail);
    assert(s.skip(label.len() as int + 2) == tail);
    assert forall|j: int| 0 <= j < url.len() implies tail[j] != ')' by {
        assert(tail[j] == url[j]);
        assert(url.contains(url[j]));
    }
    lemma_position(tail, ')', url.len() as int);
    assert(tail.take(url.len() as int) == url);
}

/// What stands behind the first `![` of a text.
pub open spec fn behind_mark(s: Seq<char>) -> Seq<char> {
    match find_text(s, "!["@) {
        Some(start) => s.skip(start + 2),
        None => s,
    }
}

/// The text of a Markdown image gives its address back, whatever stands before and
/// behind it, as long as no `](` stands between the first `![` and the one that
/// ends the label, and the address holds no `)`.
pub proof fn law_markdown_url_round_trip(
    before: Seq<char>,
    label: Seq<char>,
    url: Seq<char>,
    rest: Seq<char>,
)
    requires
        !contains_text(behind_mark(before + "!["@ + label), "]("@),
        !url.contains(')'),
    ensures
        video_url(before + "!["@ + (label + "]("@ + (url + ")"@ + rest))) == url,
{
    reveal_strlit("![");
    reveal_strlit("](");
    let mark = "!["@;
    let head = before + mark + label;
    let tail = url + ")"@ + rest;
    let s = head + "]("@ + tail;
    assert(s == before + mark + (label + "]("@ + tail));
    lemma_find_text(head, mark);
    lemma_find_text(s, mark);
    assert(head.subrange(before.len() as int, before.len() as int + 2) == mark);
    assert(occurs_at(head, mark, before.len() as int));
    let start = find_text(head, mark)->0;
    assert forall|j: int| 0 <= j <= start implies occurs_at(s, mark, j) == occurs_at(
        head,
        mark,
        j,
    ) by {
        assert(s.subrange(j, j + 2) == head.subrange(j, j + 2));
    }
    assert(find_text(s, mark) == Some(start));
    assert(s.skip(start + 2) == head.skip(start + 2) + "]("@ + tail);
    lemma_link_target(head.skip(start + 2), url, rest);
}

/// A text that holds no Markdown image stands for itself.
pub proof fn law_text_without_image(content: Seq<char>)
    requires
        !contains_text(content, "!["@),
    ensures
        video_url(content) == content,
{
    lemma_find_text(content, "!["@);
}

proof fn lemma_field_names()
    ensures
        "model"@ != "prompt"@,
        "model"@ != "aspect_ratio"@,
        "model"@ != "seconds"@,
        "model"@ != "size"@,
        "model"@ != "input_reference"@,
        "prompt"@ != "aspect_ratio"@,
        "prompt"@ != "seconds"@,
        "prompt"@ != "size"@,
        "prompt"@ != "input_reference"@,
        "aspect_ratio"@ != "seconds"@,
        "aspect_ratio"@ != "size"@,
        "aspect_ratio"@ != "input_reference"@,
        "seconds"@ != "size"@,
        "seconds"@ != "input_reference"@,
        "size"@ != "input_reference"@,
{
    reveal_strlit("model");
    reveal_strlit("prompt");
    reveal_strlit("aspect_ratio");
    reveal_strlit("seconds");
    reveal_strlit("size");
    reveal_strlit("input_reference");
    assert("model"@.len() != "prompt"@.len());
    assert("model"@.len() != "aspect_ratio"@.len());
    assert("model"@.len() != "seconds"@.len());
    assert("model"@.len() != "size"@.len());
    assert("model"@.len() != "input_reference"@.len());
    assert("prompt"@.len() != "aspect_ratio"@.len());
    assert("prompt"@.len() != "seconds"@.len());
    assert("prompt"@.len() != "size"@.len());
    assert("prompt"@.len() != "input_reference"@.len());
    assert("aspect_ratio"@.len() != "seconds"@.len());
    assert("aspect_ratio"@.len() != "size"@.len());
    assert("aspect_ratio"@.len() != "input_reference"@.len());
    assert("seconds"@.len() != "size"@.len());
    assert("seconds"@.len() != "input_reference"@.len());
    assert("size"@.len() != "input_reference"@.len());
}

proof fn lemma_answer_keys()
    ensures
        "id"@ != "object"@,
        "id"@ != "created"@,
        "id"@ != "model"@,
        "id"@ != "data"@,
        "id"@ != "usage"@,
        "object"@ != "created"@,
        "object"@ != "model"@,
        "object"@ != "data"@,
        "object"@ != "usage"@,
        "created"@ != "model"@,
        "created"@ != "data"@,
        "created"@ != "usage"@,
        "model"@ != "data"@,
        "model"@ != "usage"@,
        "data"@ != "usage"@,
{
    reveal_strlit("id");
    reveal_strlit("object");
    reveal_strlit("created");
    reveal_strlit("model");
    reveal_strlit("data");
    reveal_strlit("usage");
    assert("id"@.len() != "object"@.len());
    assert("id"@.len() != "created"@.len());
    assert("id"@.len() != "model"@.len());
    assert("id"@.len() != "data"@.len());
    assert("id"@.len() != "usage"@.len());
    assert("object"@.len() != "created"@.len());
    assert("object"@.len() != "model"@.len());
    assert("object"@.len() != "data"@.len());
    assert("object"@.len() != "usage"@.len());
    assert("created"@.len() != "model"@.len());
    assert("created"@.len() != "data"@.len());
    assert("created"@.len() != "usage"@.len());
    assert("model"@.len() != "data"@.len());
    assert("model"@[0] != "usage"@[0]);
    assert("data"@.len() != "usage"@.len());
}

proof fn lemma_data_keys()
    ensures
        "url"@ != "prompt"@,
        "url"@ != "aspect_ratio"@,
        "url"@ != "seconds"@,
        "url"@ != "size"@,
        "prompt"@ != "aspect_ratio"@,
        "prompt"@ != "seconds"@,
        "prompt"@ != "size"@,
        "aspect_ratio"@ != "seconds"@,
        "aspect_ratio"@ != "size"@,
        "seconds"@ != "size"@,
{
    reveal_strlit("url");
    reveal_strlit("prompt");
    reveal_strlit("aspect_ratio");
    reveal_strlit("seconds");
    reveal_strlit("size");
    assert("url"@.len() != "prompt"@.len());
    assert("url"@.len() != "aspect_ratio"@.len());
    assert("url"@.len() != "seconds"@.len());
    assert("url"@.len() != "size"@.len());
    assert("prompt"@.len() != "aspect_ratio"@.len());
    assert("prompt"@.len() != "seconds"@.len());
    assert("prompt"@.len() != "size"@.len());
    assert("aspect_ratio"@.len() != "seconds"@.len());
    assert("aspect_ratio"@.len() != "size"@.len());
    assert("seconds"@.len() != "size"@.len());
}

proof fn lemma_usage_keys()
    ensures
        "prompt_tokens"@ != "completion_tokens"@,
        "prompt_tokens"@ != "total_tokens"@,
        "completion_tokens"@ != "total_tokens"@,
{
    reveal_strlit("prompt_tokens");
    reveal_strlit("completion_tokens");
    reveal_strlit("total_tokens");
    assert("prompt_tokens"@.len() != "completion_tokens"@.len());
    assert("prompt_tokens"@.len() != "total_tokens"@.len());
    assert("completion_tokens"@.len() != "total_tokens"@.len());
}

proof fn lemma_message_keys()
    ensures
        "role"@ != "content"@,
{
    reveal_strlit("role");
    reveal_strlit("content");
    assert("role"@.len() != "content"@.len());
}


/// A form starts without a model, a prompt and a reference file, and with the usual
/// shape, length and size.
pub proof fn law_new_form(r: VideoForm)
    requires
        call_ensures(VideoForm::new, (), r),
    ensures
        r.model@.len() == 0,
        r.prompt@.len() == 0,
        r.aspect_ratio@ == "3:2"@,
        r.seconds == 6,
        r.size@ == "SD"@,
        r.input_reference is None,
{
}

/// A field is read as text or as a file by its name, and other fields are passed
/// over.
pub proof fn law_field_kind(name: &str, r: FieldKind)
    requires
        call_ensures(field_kind, (name,), r),
    ensures
        r == FieldKind::Text <==> (name@ == "model"@ || name@ == "prompt"@ || name@
            == "aspect_ratio"@ || name@ == "seconds"@ || name@ == "size"@),
        r == FieldKind::File <==> name@ == "input_reference"@,
{
    lemma_field_names();
}

/// After a text is taken in under the name of a field the form holds it there, and
/// every other field is as it was.
pub proof fn law_text_is_taken_in(form: &mut VideoForm, name: &str, value: String, r: ())
    requires
        call_ensures(VideoForm::set_text, (form, name, value), r),
    ensures
        name@ == "model"@ ==> final(form)@.model == value@,
        name@ != "model"@ ==> final(form)@.model == old(form)@.model,
        name@ == "prompt"@ ==> final(form)@.prompt == value@,
        name@ != "prompt"@ ==> final(form)@.prompt == old(form)@.prompt,
        name@ == "aspect_ratio"@ ==> final(form)@.aspect_ratio == value@,
        name@ != "aspect_ratio"@ ==> final(form)@.aspect_ratio == old(form)@.aspect_ratio,
        name@ == "size"@ ==> final(form)@.size == value@,
        name@ != "size"@ ==> final(form)@.size == old(form)@.size,
        name@ != "seconds"@ ==> final(form)@.seconds == old(form)@.seconds,
        final(form)@.input_reference == old(form)@.input_reference,
{
    lemma_field_names();
}

/// Seconds are taken in as the number that is written, and count as six where none
/// is.
pub proof fn law_seconds_are_taken_in(
    form: &mut VideoForm,
    name: &str,
    value: String,
    n: nat,
    i: int,
    r: (),
)
    requires
        call_ensures(VideoForm::set_text, (form, name, value), r),
        name@ == "seconds"@,
    ensures
        value@ == decimal(n) && n <= i32::MAX ==> final(form)@.seconds == n,
        value@ == seq!['-'] + decimal(n) && n <= i32::MAX ==> final(form)@.seconds == -n,
        value@ == decimal(n) && n > i32::MAX ==> final(form)@.seconds == 6,
        value@.len() == 0 ==> final(form)@.seconds == 6,
        0 < i < value@.len() && !('0' <= value@[i] <= '9') ==> final(form)@.seconds == 6,
{
    lemma_field_names();
    lemma_decimal(n);
    assert((seq!['-'] + decimal(n)).drop_first() == decimal(n));
    assert('0' <= decimal(n)[0]);
    if 0 < i < value@.len() && !('0' <= value@[i] <= '9') {
        lemma_no_digits(value@, i);
        lemma_no_digits(value@.drop_first(), i - 1);
    }
}

/// A reference file is taken in unless it is empty, and changes nothing else.
pub proof fn law_file_is_taken_in(form: &mut VideoForm, data: Vec<u8>, r: ())
    requires
        call_ensures(VideoForm::set_file, (form, data), r),
    ensures
        data@.len() > 0 ==> final(form)@.input_reference == Some(data@),
        data@.len() == 0 ==> final(form)@.input_reference == old(form)@.input_reference,
        final(form)@.model == old(form)@.model,
        final(form)@.prompt == old(form)@.prompt,
        final(form)@.aspect_ratio == old(form)@.aspect_ratio,
        final(form)@.seconds == old(form)@.seconds,
        final(form)@.size == old(form)@.size,
{
}

/// A form is accepted exactly where it has a prompt and names a video model. The
/// request carries what the form holds. Two models fix the length of the video.
pub proof fn law_accept(form: VideoForm, r: Result<VideoRequest, ApiError>)
    requires
        call_ensures(VideoForm::accept, (form,), r),
    ensures
        r is Ok <==> form.prompt@.len() > 0 && (form.model@ == "grok-imagine-1.0-video"@
            || form.model@ == "grok-video-3"@ || form.model@ == "grok-video-3-pro"@),
        r is Ok ==> r->Ok_0.model@ == form.model@,
        r is Ok ==> r->Ok_0.prompt@ == form.prompt@,
        r is Ok ==> r->Ok_0.aspect_ratio@ == form.aspect_ratio@,
        r is Ok ==> r->Ok_0.size@ == form.size@,
        r is Ok ==> r->Ok_0.cost == Cost::High,
        r is Ok && form.model@ == "grok-video-3"@ ==> r->Ok_0.seconds == 3,
        r is Ok && form.model@ == "grok-video-3-pro"@ ==> r->Ok_0.seconds == 6,
        r is Ok && form.model@ == "grok-imagine-1.0-video"@ ==> r->Ok_0.seconds == form.seconds,
{
    law_video_models(form.model@);
    reveal_strlit("grok-imagine-1.0-video");
    reveal_strlit("grok-video-3");
    reveal_strlit("grok-video-3-pro");
    assert("grok-video-3"@.len() == 12 && "grok-video-3-pro"@.len() == 16);
    assert("grok-imagine-1.0-video"@.len() == 22);
}

/// A form that is not accepted is answered with what is wrong with it: what is
/// missing, a model that there is not, or one that makes no videos.
pub proof fn law_refusal(form: VideoForm, known: Option<ModelInfo>, model: &str, r: ApiError)
    requires
        call_ensures(VideoForm::accept, (form,), Err::<VideoRequest, ApiError>(r)),
        call_ensures(ModelService::get, (model,), known),
        model@ == form.model@,
    ensures
        form.model@.len() == 0 ==> r.kind == ApiErrorKind::InvalidRequest && r.message@
            == "model is required"@,
        form.model@.len() > 0 && form.prompt@.len() == 0 ==> r.kind == ApiErrorKind::InvalidRequest
            && r.message@ == "prompt is required"@,
        form.model@.len() > 0 && form.prompt@.len() > 0 && known is None ==> r.kind
            == ApiErrorKind::NotFound && r.message@ == "The model `"@ + form.model@
            + "` does not exist or you do not have access to it."@ && text_option(r.param) == Some(
            "model"@,
        ) && text_option(r.code) == Some("model_not_found"@),
        form.model@.len() > 0 && form.prompt@.len() > 0 && known is Some ==> r.kind
            == ApiErrorKind::InvalidRequest && r.message@ == "Model `"@ + form.model@
            + "` is not a video model"@,
{
}

/// Two models fix the length of a video. With any other one it is as asked for.
pub proof fn law_final_seconds(model: &str, asked: i32, r: i32)
    requires
        call_ensures(final_seconds, (model, asked), r),
    ensures
        model@ == "grok-video-3"@ ==> r == 3,
        model@ == "grok-video-3-pro"@ ==> r == 6,
        model@ != "grok-video-3"@ && model@ != "grok-video-3-pro"@ ==> r == asked,
{
    reveal_strlit("grok-video-3");
    reveal_strlit("grok-video-3-pro");
    assert("grok-video-3"@.len() == 12 && "grok-video-3-pro"@.len() == 16);
}

/// The address of a video is that of the Markdown image in a text. A text without a
/// complete image stands for itself.
pub proof fn law_extract_video_url(
    content: &str,
    before: Seq<char>,
    label: Seq<char>,
    url: Seq<char>,
    rest: Seq<char>,
    r: String,
)
    requires
        call_ensures(extract_video_url, (content,), r),
    ensures
        content@ == before + "!["@ + (label + "]("@ + (url + ")"@ + rest)) && !contains_text(
            behind_mark(before + "!["@ + label),
            "]("@,
        ) && !url.contains(')') ==> r@ == url,
        !contains_text(content@, "!["@) ==> r@ == content@,
        !contains_text(content@, "]("@) ==> r@ == content@,
        !content@.contains(')') ==> r@ == content@,
{
    if content@ == before + "!["@ + (label + "]("@ + (url + ")"@ + rest)) && !contains_text(
        behind_mark(before + "!["@ + label),
        "]("@,
    ) && !url.contains(')') {
        law_markdown_url_round_trip(before, label, url, rest);
    }
    if !contains_text(content@, "!["@) {
        law_text_without_image(content@);
    }
    reveal_strlit("![");
    reveal_strlit("](");
    lemma_find_text(content@, "!["@);
    if let Some(start) = find_text(content@, "!["@) {
        let tail = content@.skip(start + 2);
        lemma_find_text(tail, "]("@);
        if let Some(k) = find_text(tail, "]("@) {
            let p = start + 2 + k;
            assert(content@.subrange(p, p + 2) =~= tail.subrange(k, k + 2));
            assert(occurs_at(content@, "]("@, p));
            let target = tail.skip(k + 2);
            lemma_position_bounds(target, ')');
            let end = position(target, ')');
            if end < target.len() {
                assert(content@[p + 2 + end] == ')');
                assert(content@.contains(')'));
            }
        }
    }
}

/// A completion is asked for in one piece, from the model of the request, with its
/// prompt as the only message of the user, and with its shape, length and size.
pub proof fn law_completion(request: &VideoRequest, r: VideoCompletion)
    requires
        call_ensures(VideoRequest::completion, (request,), r),
    ensures
        r.model@ == request.model@,
        r.aspect_ratio@ == request.aspect_ratio@,
        r.seconds == request.seconds,
        r.size@ == request.size@,
        r.preset@ == "custom"@,
        r.stream == Some(false),
        r.thinking is None,
        r.messages@.len() == 1,
        member(json_view(r.messages@[0]), "role"@) == Some(JsonView::Str("user"@)),
        member(json_view(r.messages@[0]), "content"@) == Some(JsonView::Str(request.prompt@)),
{
    lemma_message_keys();
    assert(json_views(r.messages@).len() == r.messages@.len());
    assert(json_views(r.messages@)[0] == json_view(r.messages@[0]));
}

/// The messages of a request are those of its completion.
pub proof fn law_messages(
    request: &VideoRequest,
    completion: VideoCompletion,
    r: Vec<serde_json::Value>,
)
    requires
        call_ensures(VideoRequest::messages, (request,), r),
        call_ensures(VideoRequest::completion, (request,), completion),
    ensures
        json_views(r@) == json_views(completion.messages@),
{
}

/// What an accepted form asks for is what the model is asked for.
pub proof fn law_form_reaches_model(
    form: VideoForm,
    request: VideoRequest,
    completion: VideoCompletion,
)
    requires
        call_ensures(VideoForm::accept, (form,), Ok::<VideoRequest, ApiError>(request)),
        call_ensures(VideoRequest::completion, (&request,), completion),
    ensures
        completion.model@ == form.model@,
        completion.aspect_ratio@ == form.aspect_ratio@,
        completion.size@ == form.size@,
        member(json_view(completion.messages@[0]), "content"@) == Some(
            JsonView::Str(form.prompt@),
        ),
        form.model@ == "grok-imagine-1.0-video"@ ==> completion.seconds == form.seconds,
{
    law_accept(form, Ok(request));
    law_completion(&request, completion);
}

/// A request of high cost takes a high effort, and any other one a low one.
pub proof fn law_effort(request: &VideoRequest, r: EffortType)
    requires
        call_ensures(VideoRequest::effort, (request,), r),
    ensures
        request.cost == Cost::High ==> r == EffortType::High,
        request.cost != Cost::High ==> r == EffortType::Low,
{
}

/// The answer to a request names the video: the address in the text of the first
/// choice, and the prompt, shape, length and size of the request. It has the
/// identifier, the time and the model that it is made with.
pub proof fn law_video_answer(
    request: &VideoRequest,
    model: &str,
    result: &serde_json::Value,
    id: &str,
    created: i64,
    content: &str,
    url: String,
    r: serde_json::Value,
)
    requires
        call_ensures(VideoRequest::response_with, (request, model, result, id, created), r),
        call_ensures(extract_video_url, (content,), url),
        content@ == completion_content(json_view(*result)),
    ensures
        member(json_view(r), "id"@) == Some(JsonView::Str("video-"@ + id@)),
        member(json_view(r), "object"@) == Some(JsonView::Str("video"@)),
        member(json_view(r), "created"@) == Some(JsonView::Int(created as int)),
        member(json_view(r), "model"@) == Some(JsonView::Str(model@)),
        member(json_view(r), "data"@) is Some,
        ({
            let data = member(json_view(r), "data"@)->0;
            &&& member(data, "url"@) == Some(JsonView::Str(url@))
            &&& member(data, "prompt"@) == Some(JsonView::Str(request.prompt@))
            &&& member(data, "aspect_ratio"@) == Some(JsonView::Str(request.aspect_ratio@))
            &&& member(data, "seconds"@) == Some(JsonView::Int(request.seconds as int))
            &&& member(data, "size"@) == Some(JsonView::Str(request.size@))
        }),
{
    lemma_answer_keys();
    lemma_data_keys();
}

/// The answer reports the usage of the completion, or none of anything where the
/// completion reports none.
pub proof fn law_video_usage(
    request: &VideoRequest,
    model: &str,
    result: &serde_json::Value,
    id: &str,
    created: i64,
    r: serde_json::Value,
)
    requires
        call_ensures(VideoRequest::response_with, (request, model, result, id, created), r),
    ensures
        match member(json_view(*result), "usage"@) {
            Some(usage) => member(json_view(r), "usage"@) == Some(usage),
            None => member(json_view(r), "usage"@) is Some && ({
                let usage = member(json_view(r), "usage"@)->0;
                &&& member(usage, "prompt_tokens"@) == Some(JsonView::Int(0))
                &&& member(usage, "completion_tokens"@) == Some(JsonView::Int(0))
                &&& member(usage, "total_tokens"@) == Some(JsonView::Int(0))
            }),
        },
{
    lemma_answer_keys();
    lemma_usage_keys();
}

/// The text of a completion is that of the message of its first choice, and is empty
/// where there is none.
pub proof fn law_completion_content(
    result: JsonView,
    choices: Seq<JsonView>,
    message: JsonView,
    text: Seq<char>,
)
    ensures
        member(result, "choices"@) == Some(JsonView::Array(choices)) && choices.len() > 0 && member(
            choices[0],
            "message"@,
        ) == Some(message) && member(message, "content"@) == Some(JsonView::Str(text))
            ==> completion_content(result) == text,
        member(result, "choices"@) == Some(JsonView::Array(choices)) && choices.len() > 0 && member(
            choices[0],
            "message"@,
        ) == Some(message) && !(member(message, "content"@) matches Some(JsonView::Str(_)))
            ==> completion_content(result).len() == 0,
        member(result, "choices"@) == Some(JsonView::Array(choices)) && choices.len() > 0 && member(
            choices[0],
            "message"@,
        ) is None ==> completion_content(result).len() == 0,
        member(result, "choices"@) == Some(JsonView::Array(choices)) && choices.len() == 0
            ==> completion_content(result).len() == 0,
        !(member(result, "choices"@) matches Some(JsonView::Array(_))) ==> completion_content(
            result,
        ).len() == 0,
{
}

/// The answer under a new identifier is what it is under a given one, but for the
/// identifier and the time.
pub proof fn law_new_video_answer(
    request: &VideoRequest,
    model: &str,
    result: &serde_json::Value,
    id: &str,
    created: i64,
    given: serde_json::Value,
    r: serde_json::Value,
)
    requires
        call_ensures(VideoRequest::response_with, (request, model, result, id, created), given),
        call_ensures(VideoRequest::response, (request, model, result), r),
    ensures
        member(json_view(r), "data"@) == member(json_view(given), "data"@),
        member(json_view(r), "usage"@) == member(json_view(given), "usage"@),
        member(json_view(r), "model"@) == member(json_view(given), "model"@),
        member(json_view(r), "object"@) == member(json_view(given), "object"@),
        exists|new: Seq<char>|
            is_simple_uuid(new) && member(json_view(r), "id"@) == Some(
                JsonView::Str(#[trigger] ("video-"@ + new)),
            ),
{
    lemma_answer_keys();
    let (new, time) = choose|new: Seq<char>, time: i64|
        is_simple_uuid(new) && json_view(r) == #[trigger] video_response_view(
            request@,
            model@,
            json_view(*result),
            new,
            time as int,
        );
    assert(member(json_view(r), "id"@) == Some(JsonView::Str("video-"@ + new)));
}

/// The endpoint answers exactly where it is enabled.
pub proof fn law_videos_enabled(enabled: bool, r: Result<(), ApiError>)
    requires
        call_ensures(check_videos_enabled, (enabled,), r),
    ensures
        r is Ok <==> enabled,
        r is Err ==> r->Err_0.kind == ApiErrorKind::NotFound && r->Err_0.message@
            == "Endpoint disabled"@,
{
}

/// A form or a field that cannot be read makes the request invalid, with its cause.
pub proof fn law_form_errors(name: &str, cause: &str, form: ApiError, field: ApiError)
    requires
        call_ensures(form_error, (cause,), form),
        call_ensures(field_error, (name, cause), field),
    ensures
        form.kind == ApiErrorKind::InvalidRequest,
        form.message@ == "Failed to parse multipart: "@ + cause@,
        field.kind == ApiErrorKind::InvalidRequest,
        field.message@ == "Failed to read "@ + name@ + ": "@ + cause@,
{
}

} // verus!
