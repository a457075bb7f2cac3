use grok2api::model::{Cost, ModelInfo, ModelService, Tier};

#[test]
fn lists_every_model() {
    let names: Vec<String> = ModelService::list().into_iter().map(|m| m.model_id).collect();
    assert_eq!(
        names,
        vec![
            "grok-3",
            "grok-3-fast",
            "grok-4",
            "grok-4-mini",
            "grok-4-fast",
            "grok-4-heavy",
            "grok-4.1",
            "grok-4.1-thinking",
            "grok-imagine-1.0",
            "grok-imagine-1.0-video",
            "grok-video-3",
            "grok-video-3-pro",
        ]
    );
}

#[test]
fn model_names_are_distinct() {
    let models = ModelService::list();
    for i in 0..models.len() {
        for j in 0..i {
            assert_ne!(models[i].model_id, models[j].model_id);
        }
    }
}

#[test]
fn finds_every_listed_model() {
    for m in ModelService::list() {
        let found = ModelService::get(&m.model_id).unwrap();
        assert_eq!(found.grok_model, m.grok_model);
        assert_eq!(found.model_mode, m.model_mode);
        assert_eq!(found.display_name, m.display_name);
        assert!(ModelService::valid(&m.model_id));
    }
}

#[test]
fn unknown_models_are_not_found() {
    assert!(ModelService::get("grok-5").is_none());
    assert!(ModelService::get("").is_none());
    assert!(!ModelService::valid("Grok-4"));
}

#[test]
fn only_the_heavy_model_is_super() {
    assert_eq!(ModelService::pool_for_model("grok-4-heavy"), "ssoSuper");
    assert_eq!(ModelService::pool_for_model("grok-4.1-thinking"), "ssoBasic");
    assert_eq!(ModelService::pool_for_model("grok-3"), "ssoBasic");
    assert_eq!(ModelService::pool_for_model("no-such-model"), "ssoBasic");
    let heavy = ModelService::get("grok-4-heavy").unwrap();
    assert_eq!(heavy.tier, Tier::Super);
    assert_eq!(heavy.cost, Cost::High);
}

#[test]
fn media_models_have_a_description() {
    let image = ModelService::get("grok-imagine-1.0").unwrap();
    assert!(image.is_image && !image.is_video);
    assert_eq!(image.description, "Image generation model");
    let video = ModelService::get("grok-video-3").unwrap();
    assert!(video.is_video && !video.is_image);
    assert_eq!(video.description, "3-second video generation model");
}

#[test]
fn a_new_model_is_plain() {
    let m = ModelInfo::new("a", "b", "c", "d");
    assert_eq!((m.model_id.as_str(), m.grok_model.as_str()), ("a", "b"));
    assert_eq!((m.model_mode.as_str(), m.display_name.as_str()), ("c", "d"));
    assert_eq!(m.tier, Tier::Basic);
    assert_eq!(m.cost, Cost::Low);
    assert_eq!(m.description, "");
    assert!(!m.is_video && !m.is_image);
}
