use grok2api::error::ApiErrorKind;
use grok2api::videos::{
    check_videos_enabled, extract_video_url, field_error, field_kind, final_seconds, form_error,
    EffortType, FieldKind, VideoForm,
};
use serde_json::Value;

fn parse(text: &str) -> Value {
    serde_json::from_str(text).unwrap()
}

fn form(fields: &[(&str, &str)]) -> VideoForm {
    let mut form = VideoForm::new();
    for (name, value) in fields {
        form.set_text(name, value.to_string());
    }
    form
}

#[test]
fn a_disabled_endpoint_is_not_found() {
    assert!(check_videos_enabled(true).is_ok());
    let e = check_videos_enabled(false).unwrap_err();
    assert_eq!(e.kind, ApiErrorKind::NotFound);
    assert_eq!(e.message, "Endpoint disabled");
}

#[test]
fn fields_are_told_apart() {
    assert_eq!(field_kind("model"), FieldKind::Text);
    assert_eq!(field_kind("size"), FieldKind::Text);
    assert_eq!(field_kind("input_reference"), FieldKind::File);
    assert_eq!(field_kind("Model"), FieldKind::Ignored);
    assert_eq!(field_kind(""), FieldKind::Ignored);
}

#[test]
fn unreadable_forms_have_words() {
    let e = form_error("bad boundary");
    assert_eq!(e.kind, ApiErrorKind::InvalidRequest);
    assert_eq!(e.message, "Failed to parse multipart: bad boundary");
    assert_eq!(field_error("seconds", "eof").message, "Failed to read seconds: eof");
}

#[test]
fn a_form_starts_with_defaults() {
    let f = VideoForm::new();
    assert_eq!((f.aspect_ratio.as_str(), f.seconds, f.size.as_str()), ("3:2", 6, "SD"));
    assert!(f.input_reference.is_none());
}

#[test]
fn seconds_that_are_no_number_count_as_six() {
    assert_eq!(form(&[("seconds", "12")]).seconds, 12);
    assert_eq!(form(&[("seconds", "-4")]).seconds, -4);
    assert_eq!(form(&[("seconds", "ten")]).seconds, 6);
    assert_eq!(form(&[("seconds", " 8")]).seconds, 6);
}

#[test]
fn empty_reference_files_are_dropped() {
    let mut f = VideoForm::new();
    f.set_file(vec![]);
    assert!(f.input_reference.is_none());
    f.set_file(vec![1, 2]);
    assert_eq!(f.input_reference, Some(vec![1, 2]));
    f.set_file(vec![]);
    assert_eq!(f.input_reference, Some(vec![1, 2]));
}

#[test]
fn a_model_and_a_prompt_are_required() {
    let e = form(&[("prompt", "a cat")]).accept().unwrap_err();
    assert_eq!((e.kind, e.message.as_str()), (ApiErrorKind::InvalidRequest, "model is required"));
    let e = form(&[("model", "grok-5")]).accept().unwrap_err();
    assert_eq!((e.kind, e.message.as_str()), (ApiErrorKind::InvalidRequest, "prompt is required"));
}

#[test]
fn unknown_models_are_answered_with_a_code() {
    let e = form(&[("model", "grok-5"), ("prompt", "a cat")]).accept().unwrap_err();
    assert_eq!(e.kind, ApiErrorKind::NotFound);
    assert_eq!(
        e.message,
        "The model `grok-5` does not exist or you do not have access to it."
    );
    assert_eq!(e.param.as_deref(), Some("model"));
    assert_eq!(e.code.as_deref(), Some("model_not_found"));
}

#[test]
fn text_models_make_no_videos() {
    let e = form(&[("model", "grok-4"), ("prompt", "a cat")]).accept().unwrap_err();
    assert_eq!(e.kind, ApiErrorKind::InvalidRequest);
    assert_eq!(e.message, "Model `grok-4` is not a video model");
}

#[test]
fn accepted_requests_have_their_length() {
    let fields = [("prompt", "a cat"), ("seconds", "10"), ("size", "HD")];
    let with = |model: &str| {
        let mut f = form(&fields);
        f.set_text("model", model.to_string());
        f.accept().unwrap()
    };
    assert_eq!(with("grok-video-3").seconds, 3);
    assert_eq!(with("grok-video-3-pro").seconds, 6);
    let r = with("grok-imagine-1.0-video");
    assert_eq!((r.seconds, r.size.as_str(), r.prompt.as_str()), (10, "HD", "a cat"));
    assert_eq!(r.effort(), EffortType::High);
    assert_eq!(final_seconds("grok-4", 9), 9);
}

#[test]
fn a_request_asks_for_a_completion() {
    let r = form(&[("model", "grok-video-3"), ("prompt", "a \"cat\"")]).accept().unwrap();
    let c = r.completion();
    assert_eq!(c.model, "grok-video-3");
    assert_eq!(c.messages, vec![parse(r#"{"role":"user","content":"a \"cat\""}"#)]);
    assert_eq!((c.stream, c.thinking), (Some(false), None));
    assert_eq!((c.aspect_ratio.as_str(), c.seconds, c.size.as_str()), ("3:2", 3, "SD"));
    assert_eq!(c.preset, "custom");
}

#[test]
fn addresses_are_taken_out_of_markdown() {
    assert_eq!(extract_video_url("![video](https://x/v.mp4) done"), "https://x/v.mp4");
    assert_eq!(extract_video_url("[a](b) ![v](u)"), "u");
    assert_eq!(extract_video_url("![a](b](c)"), "b](c");
    assert_eq!(extract_video_url("!![a]](u)"), "u");
    assert_eq!(extract_video_url("![a ![b](u)"), "u");
    assert_eq!(extract_video_url("![](u)"), "u");
    assert_eq!(extract_video_url("\u{7535}![](\u{5f71})"), "\u{5f71}");
}

#[test]
fn texts_without_an_image_stay() {
    for content in [
        "[page](https://x.test/p)",
        "![video](https://x",
        "![video]",
        "a](b) ![c",
        "no link (here)",
        "",
    ] {
        assert_eq!(extract_video_url(content), content);
    }
}

#[test]
fn answers_hold_the_video() {
    let r = form(&[("model", "grok-video-3"), ("prompt", "a cat")]).accept().unwrap();
    let result = parse(
        r#"{"choices":[{"message":{"content":"![v](https://x/v.mp4)"}}],"usage":{"total_tokens":7}}"#,
    );
    let answer = r.response_with("grok-3", &result, "abc", 1700000000);
    assert_eq!(
        answer,
        parse(
            r#"{"id":"video-abc","object":"video","created":1700000000,"model":"grok-3",
                "data":{"url":"https://x/v.mp4","prompt":"a cat","aspect_ratio":"3:2","seconds":3,"size":"SD"},
                "usage":{"total_tokens":7}}"#
        )
    );
}

#[test]
fn answers_without_content_are_empty() {
    let r = form(&[("model", "grok-video-3-pro"), ("prompt", "p")]).accept().unwrap();
    for result in ["{}", r#"{"choices":[]}"#, r#"{"choices":[{"message":{"content":5}}]}"#, "null"] {
        let answer = r.response_with("m", &parse(result), "i", -1);
        assert_eq!(answer["data"]["url"], "");
        assert_eq!(
            answer["usage"],
            parse(r#"{"prompt_tokens":0,"completion_tokens":0,"total_tokens":0}"#)
        );
        assert_eq!(answer["created"], -1);
    }
}

#[test]
fn answers_have_a_new_name() {
    let r = form(&[("model", "grok-video-3-pro"), ("prompt", "p")]).accept().unwrap();
    let one = r.response("m", &parse("{}"));
    let two = r.response("m", &parse("{}"));
    let id = one["id"].as_str().unwrap();
    assert!(id.starts_with("video-") && id.len() == 38);
    assert!(id[6..].chars().all(|c| matches!(c, '0'..='9' | 'a'..='f')));
    assert_ne!(one["id"], two["id"]);
    assert!(one["created"].as_i64().unwrap() > 1_600_000_000);
}
