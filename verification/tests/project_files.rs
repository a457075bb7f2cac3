use grok2api::lock::LockFailure;
use grok2api::media_storage::StorageError as MediaStorageError;
use grok2api::storage::{
    get_storage, LoadedConfig, LocalMediaStorage, LocalStorage, SaveStage, SavedFile,
};
use serde_json::Value;

fn storage() -> LocalStorage {
    LocalStorage::new("/srv".to_string())
}

fn media() -> LocalMediaStorage {
    LocalMediaStorage::new("data/tmp".to_string(), "/srv")
}

#[test]
fn files_have_their_places() {
    let s = storage();
    assert_eq!(s.config_path(), "/srv/data/config.toml");
    assert_eq!(s.token_path(), "/srv/data/token.json");
    let plan = s.save_plan(SavedFile::Config);
    assert_eq!(plan.dir, "/srv/data");
    assert_eq!(plan.partial, "/srv/data/config.toml.tmp");
    assert_eq!(plan.path, "/srv/data/config.toml");
    let plan = s.save_plan(SavedFile::Tokens);
    assert_eq!(plan.partial, "/srv/data/token.json.tmp");
    assert_eq!(plan.path, "/srv/data/token.json");
}

#[test]
fn failures_to_save_have_words() {
    let s = storage();
    let words = |f: SavedFile, g: SaveStage| s.save_error(f, g, "x").to_text();
    assert_eq!(words(SavedFile::Config, SaveStage::CreateDir), "create config dir failed: x");
    assert_eq!(words(SavedFile::Config, SaveStage::Write), "write tmp config failed: x");
    assert_eq!(words(SavedFile::Config, SaveStage::Rename), "rename config failed: x");
    assert_eq!(words(SavedFile::Tokens, SaveStage::CreateDir), "create token dir failed: x");
    assert_eq!(words(SavedFile::Tokens, SaveStage::Write), "write tmp tokens failed: x");
    assert_eq!(words(SavedFile::Tokens, SaveStage::Rename), "rename tokens failed: x");
    assert_eq!(s.lock_error(&LockFailure::TimedOut, "cfg").to_text(), "lock timeout: cfg");
}

#[test]
fn a_missing_config_is_empty() {
    match storage().load_config(None).unwrap() {
        LoadedConfig::Empty(v) => assert_eq!(v, serde_json::from_str::<Value>("{}").unwrap()),
        LoadedConfig::Document(_) => panic!("not empty"),
    }
}

#[test]
fn the_config_is_read_back() {
    let s = storage();
    let text = "[app]\napp_url = \"http://h\"\nport = 8000\n";
    let value = match s.load_config(Some(Ok(text.to_string()))).unwrap() {
        LoadedConfig::Document(v) => v,
        LoadedConfig::Empty(_) => panic!("empty"),
    };
    assert_eq!(value["app"]["port"].as_integer(), Some(8000));
    assert_eq!(s.save_config(&value).unwrap(), text);
}

#[test]
fn a_broken_config_has_words() {
    let s = storage();
    let e = s.load_config(Some(Ok("a = ".to_string()))).err().unwrap();
    assert!(e.to_text().starts_with("parse config failed: "));
    let e = s.load_config(Some(Err("denied".to_string()))).err().unwrap();
    assert_eq!(e.to_text(), "read config failed: denied");
    let e = s.save_config(&toml::Value::Integer(1)).err().unwrap();
    assert!(e.to_text().starts_with("serialize config failed: "));
}

#[test]
fn tokens_are_read_back() {
    let s = storage();
    assert_eq!(s.load_tokens(None).unwrap(), serde_json::from_str::<Value>("{}").unwrap());
    let tokens: Value =
        serde_json::from_str(r#"{"ssoBasic":[{"token":"a\n\u0001","quota":80,"left":-1}],"x":null}"#).unwrap();
    let text = s.save_tokens(&tokens).unwrap();
    assert!(text.starts_with("{\n  \"ssoBasic\": [\n"));
    assert_eq!(s.load_tokens(Some(Ok(text))).unwrap(), tokens);
}

#[test]
fn raw_documents_are_not_read_back() {
    let s = storage();
    let raw: Value = serde_json::from_str(r#"{"x":{"$serde_json::private::Other":"1"}}"#).unwrap();
    let text = s.save_tokens(&raw).unwrap();
    assert_eq!(s.load_tokens(Some(Ok(text))).unwrap(), raw);
    let mut members = serde_json::Map::new();
    members.insert("$serde_json::private::RawValue".to_string(), Value::from("1"));
    let text = s.save_tokens(&Value::Object(members)).unwrap();
    assert_eq!(s.load_tokens(Some(Ok(text))).unwrap(), Value::from(1));
}

#[test]
fn raw_names_behind_others_are_read_back() {
    let s = storage();
    let mut members = serde_json::Map::new();
    members.insert("$serde_json::private::RawValue".to_string(), Value::from("1"));
    members.insert("$".to_string(), Value::Null);
    let tokens = Value::Object(members);
    let text = s.save_tokens(&tokens).unwrap();
    assert_eq!(s.load_tokens(Some(Ok(text))).unwrap(), tokens);
}

#[test]
fn sections_are_read_back() {
    let s = storage();
    let text = "a = -9223372036854775808\nb = true\nc = \"it's \u{e9} # [x] = 1\"\n\n[e]\n\n[s]\nk = \"\"\n\n[s.s3.t]\n1-x_Y = 7\n";
    let load = |t: &str| match s.load_config(Some(Ok(t.to_string()))).unwrap() {
        LoadedConfig::Document(v) => v,
        LoadedConfig::Empty(_) => panic!("empty"),
    };
    let value = load(text);
    let saved = s.save_config(&value).unwrap();
    assert_eq!(load(&saved), value);
    assert_eq!(saved, text);
}

fn read_back(value: &toml::Value) -> toml::Value {
    let text = storage().try_save_config(value).unwrap().unwrap();
    match storage().load_config(Some(Ok(text))).unwrap() {
        LoadedConfig::Document(v) => v,
        LoadedConfig::Empty(_) => panic!("empty"),
    }
}

fn table(members: Vec<(&str, toml::Value)>) -> toml::Value {
    toml::Value::Table(members.into_iter().map(|(k, v)| (k.to_string(), v)).collect())
}

#[test]
fn any_text_is_read_back() {
    for text in ["'\"", "'''\"\"\"", "\n", "\r\n'''", "\\", "\u{7f}\u{0}", "a\t'", "\n\\\"\"\"\"", ""] {
        let item = toml::Value::String(text.to_string());
        let value = table(vec![
            (text, item.clone()),
            ("items", toml::Value::Array(vec![item.clone(), table(vec![(text, item.clone())])])),
            ("tables", toml::Value::Array(vec![table(vec![]), table(vec![(text, item)])])),
        ]);
        assert_eq!(read_back(&value), value);
    }
}

#[test]
fn deep_settings_are_read_back_as_far_as_the_parser_goes() {
    let nested = |n: usize, tables: usize| {
        let mut value = toml::Value::Integer(i64::MIN);
        for i in 1..n {
            value = if i % tables == 0 { table(vec![("k", value)]) } else { toml::Value::Array(vec![value]) };
        }
        table(vec![("k", value)])
    };
    for tables in [1, 2, 3, 100] {
        let value = nested(80, tables);
        assert_eq!(read_back(&value), value);
    }
    let text = storage().try_save_config(&nested(81, 100)).unwrap().unwrap();
    assert!(storage().load_config(Some(Ok(text))).is_err());
}

#[test]
fn numbers_are_read_back() {
    for x in [0.1, -0.0, 1024.0, 1e300, 5e-324, f64::MAX, f64::INFINITY, f64::NEG_INFINITY] {
        let value = table(vec![("x", toml::Value::Float(x))]);
        assert_eq!(read_back(&value), value);
        assert_eq!(read_back(&value)["x"].as_float().unwrap().to_bits(), x.to_bits());
    }
    let value = table(vec![("x", toml::Value::Float(f64::NAN)), ("y", toml::Value::Integer(1979))]);
    assert!(read_back(&value)["x"].as_float().unwrap().is_nan());
    assert_eq!(read_back(&value)["y"].as_integer(), Some(1979));
}

#[test]
fn tables_are_told_from_times() {
    let key = "$__toml_private_datetime";
    let day = || toml::Value::String("1979-05-27".to_string());
    let value = table(vec![("#", toml::Value::Boolean(true)), (key, day())]);
    assert_eq!(read_back(&value), value);
    let value = table(vec![("t", table(vec![(key, day())]))]);
    assert!(read_back(&value)["t"].is_datetime());
}

#[test]
fn what_cannot_be_written_is_not_saved() {
    let s = storage();
    for mark in ["'", "\""] {
        let texts = |n: usize| {
            let text = toml::Value::String(format!("a{}a", mark.repeat(n)));
            table(vec![("a", toml::Value::Integer(1)), ("k", toml::Value::Array(vec![table(vec![("t", text)])]))])
        };
        assert_eq!(read_back(&texts(255)), texts(255));
        assert!(s.try_save_config(&texts(256)).is_none());
        assert!(s.try_save_config(&texts(257)).is_none());
    }
    let time = |minutes: i16| {
        let offset = Some(toml::value::Offset::Custom { minutes });
        let time = toml::value::Datetime { date: None, time: None, offset };
        table(vec![("t", toml::Value::Datetime(time))])
    };
    assert!(s.try_save_config(&time(i16::MIN)).is_none());
    assert!(s.try_save_config(&time(60)).unwrap().is_err());
    assert!(s.try_save_config(&toml::Value::Integer(1)).unwrap().is_err());
    let value = table(vec![("e", table(vec![])), ("f", toml::Value::Float(0.5))]);
    assert_eq!(read_back(&value), value);
}

#[test]
fn deep_tokens_are_read_back_as_far_as_the_parser_goes() {
    let s = storage();
    let nested = |n: usize| {
        let mut v = Value::from(u64::MAX);
        for _ in 0..n {
            v = Value::Array(vec![v]);
        }
        v
    };
    let text = s.save_tokens(&nested(127)).unwrap();
    assert_eq!(s.load_tokens(Some(Ok(text))).unwrap(), nested(127));
    let text = s.save_tokens(&nested(128)).unwrap();
    assert!(s.load_tokens(Some(Ok(text))).is_err());
}

#[test]
fn broken_tokens_have_words() {
    let s = storage();
    let e = s.load_tokens(Some(Ok("{".to_string()))).unwrap_err();
    assert!(e.to_text().starts_with("parse tokens failed: EOF"));
    let e = s.load_tokens(Some(Err("denied".to_string()))).unwrap_err();
    assert_eq!(e.to_text(), "read tokens failed: denied");
}

#[test]
fn other_storages_are_told_apart() {
    let (s, supported) = get_storage("/srv".to_string(), "LOCAL");
    assert_eq!(s.root, "/srv");
    assert!(supported);
    let (s, supported) = get_storage("/srv".to_string(), "redis");
    assert_eq!(s.root, "/srv");
    assert!(!supported);
}

#[test]
fn media_have_a_directory() {
    assert_eq!(media().base_dir, "/srv/data/tmp");
    assert_eq!(LocalMediaStorage::new("/m".to_string(), "/srv").base_dir, "/m");
    assert_eq!(media().safe_path("/a/b.png"), "/srv/data/tmp/a-b.png");
    assert_eq!(media().safe_path("--a"), "/srv/data/tmp/a");
    assert_eq!(media().safe_path(".."), "/srv/data/tmp/-..");
    assert_eq!(media().safe_path("/.."), "/srv/data/tmp/-..");
    assert_eq!(media().safe_path("/."), "/srv/data/tmp/-.");
    assert_eq!(media().safe_path("//"), "/srv/data/tmp/-");
    assert_eq!(media().safe_path("_.."), "/srv/data/tmp/_..");
    assert_eq!(media().safe_path("../x"), "/srv/data/tmp/..-x");
    assert_eq!(media().health_check(), "/srv/data/tmp/.health_check");
    assert_eq!(media().storage_type(), "local");
}

#[test]
fn media_are_sorted() {
    let m = media();
    assert_eq!(m.detect_media_type("image/png"), "image");
    assert_eq!(m.detect_media_type("video/mp4"), "video");
    assert_eq!(m.detect_media_type("imagepng"), "media");
    assert_eq!(m.detect_media_type("audio/ogg"), "media");
}

#[test]
fn uploads_have_their_place() {
    let m = media();
    let u = m.upload("/a/b.png", "image/png");
    assert_eq!(u.dir, "/srv/data/tmp/image");
    assert_eq!(u.path, "/srv/data/tmp/image/a-b.png");
    assert_eq!(u.partial, "/srv/data/tmp/image/-a-b.png.tmp");
    let u = m.upload("x.tmp", "text/plain");
    assert_eq!(u.path, "/srv/data/tmp/media/x.tmp");
    assert_eq!(u.partial, "/srv/data/tmp/media/-x.tmp.tmp");
    assert_eq!(m.uploaded("/a/b.png", Ok(())).unwrap(), "/a/b.png");
    match m.uploaded("x", Err("full".to_string())) {
        Err(MediaStorageError::IoError(cause)) => assert_eq!(cause, "full"),
        _ => panic!("no error"),
    }
}

#[test]
fn media_have_addresses() {
    let m = media();
    let url = |p: &str| m.get_url(p, true, "http://h//").unwrap();
    assert_eq!(url("/a b/c.png"), "http://h/v1/files/image/%2Fa%20b%2Fc.png");
    assert_eq!(url("v.mp4"), "http://h/v1/files/video/v.mp4");
    assert_eq!(url("\u{e9}.txt"), "http://h/v1/files/media/%C3%A9.txt");
    assert_eq!(LocalMediaStorage::url_for("", "image/x", "a~-._"), "/v1/files/image/a~-._");
}

#[test]
fn media_are_handed_out() {
    let m = media();
    assert!(matches!(m.download("a.png", None), Err(MediaStorageError::NotFound)));
    let f = m.download("a.png", Some(Ok(vec![1, 2]))).unwrap();
    assert_eq!(f, (vec![1, 2], "image/png".to_string()));
    match m.download("a.png", Some(Err("denied".to_string()))) {
        Err(MediaStorageError::IoError(cause)) => assert_eq!(cause, "denied"),
        _ => panic!("no error"),
    }
}

#[test]
fn uploads_are_found_again() {
    let m = media();
    for (path, mime) in [("/a/b.png", "image/png"), ("v.mp4", "video/mp4"), ("x", "text/plain")] {
        let id = m.uploaded(path, Ok(())).unwrap();
        let upload = m.upload(path, mime);
        let places = m.places(&id);
        assert_eq!(places.len(), 4);
        assert!(places.contains(&upload.path));
        let present: Vec<bool> = places.iter().map(|p| *p == upload.path).collect();
        let mut times: Vec<Option<u128>> = present.iter().map(|p| p.then_some(7)).collect();
        assert_eq!(m.locate(&id, &times), Some(upload.path.clone()));
        assert_eq!(m.delete(&id, &present), vec![upload.path.clone()]);
        let mut direct = present.clone();
        direct[3] = true;
        times[3] = Some(6);
        assert_eq!(m.locate(&id, &times), Some(upload.path.clone()));
        assert_eq!(m.delete(&id, &direct), vec![upload.path.clone(), m.safe_path(path)]);
        assert_eq!(m.locate(&id, &vec![None; 4]), None);
    }
}

#[test]
fn the_newest_file_is_found() {
    let m = media();
    let at = |times: [Option<u128>; 4]| m.locate("a.png", &times.to_vec());
    let place = |sort: &str| Some(format!("/srv/data/tmp/{sort}a.png"));
    assert_eq!(at([Some(1), Some(2), None, None]), place("video/"));
    assert_eq!(at([Some(2), Some(1), None, None]), place("image/"));
    assert_eq!(at([None, Some(2), Some(2), Some(2)]), place("video/"));
    assert_eq!(at([Some(0), None, Some(u128::MAX), None]), place("media/"));
    assert_eq!(at([Some(1), Some(2), Some(3), Some(4)]), place(""));
}

#[test]
fn media_are_deleted() {
    let m = media();
    assert!(m.delete("a", &vec![false; 4]).is_empty());
    assert!(m.deleted(Ok(())).is_ok());
    assert!(matches!(m.deleted(Err("x".to_string())), Err(MediaStorageError::IoError(_))));
}
