use grok2api::headers::can_be_header_value;
use grok2api::lock::{
    lock_dir, lock_error, lock_failure_message, lock_path, lock_step, LockFailure, LockStep,
};
use grok2api::number::{decimal_text, parse_i32, parse_u16};
use grok2api::path::{extension_of, file_name_of, file_stem_of, join_path, replace_extension};
use grok2api::sort::stable_order_of;
use grok2api::text::{
    has_prefix, has_text, lines_of, replaced_char, same_text, split_at_char, text_before, trimmed,
    trimmed_end_char, trimmed_start_char, without_prefix,
};
use std::path::Path;

#[test]
fn texts_are_trimmed_as_by_std() {
    for s in ["", " ", "a", "  a b \t", "\u{3000}x\u{a0}", "\r\n1\r\n", "\u{200b}", "\u{85}z\u{2028}"] {
        assert_eq!(trimmed(s), s.trim());
        assert_eq!(trimmed_start_char(s, 'a'), s.trim_start_matches('a'));
    }
    assert_eq!(trimmed_start_char("//a/b/", '/'), "a/b/");
    assert_eq!(trimmed_end_char("http://x//", '/'), "http://x");
    assert_eq!(trimmed_end_char("///", '/'), "");
}

#[test]
fn texts_are_searched_as_by_std() {
    for (s, p) in [("abc", "b"), ("abc", ""), ("", "a"), ("a](b", "]("), ("aab", "ab"), ("ab", "abc")] {
        assert_eq!(has_text(s, p), s.contains(p));
        assert_eq!(has_prefix(s, p), s.starts_with(p));
        assert_eq!(without_prefix(s, p), s.strip_prefix(p).map(|x| x.to_string()));
        assert_eq!(same_text(s, p), s == p);
    }
    assert_eq!(text_before("image/png; q=1", ';'), "image/png");
    assert_eq!(text_before("image/png", ';'), "image/png");
    assert_eq!(split_at_char("a:b:c", ':'), Some(("a".to_string(), "b:c".to_string())));
    assert_eq!(split_at_char("abc", ':'), None);
    assert_eq!(replaced_char("a/b//c", '/', '-'), "a-b--c");
}

#[test]
fn lines_are_split_as_by_std() {
    for s in ["", "a", "a\n", "a\r\nb", "\n\n", "a\r", "a\n\rb\r\n", "x\ny\n\n"] {
        let expected: Vec<String> = s.lines().map(|l| l.to_string()).collect();
        assert_eq!(lines_of(s), expected);
    }
}

#[test]
fn numbers_are_read_and_written_as_by_std() {
    for n in [0u64, 7, 10, 120, 65535, u64::MAX] {
        assert_eq!(decimal_text(n), n.to_string());
    }
    for s in ["", "0", "200", "65535", "65536", "+12", "-1", "-", "+", "1a", " 1", "007", "99999999999"] {
        assert_eq!(parse_u16(s), s.parse::<u16>().ok());
    }
    for s in ["6", "-6", "+6", "2147483647", "2147483648", "-2147483648", "-2147483649", "", "-", "x"] {
        assert_eq!(parse_i32(s), s.parse::<i32>().ok());
    }
}

#[test]
fn paths_are_taken_apart_as_by_std() {
    for p in [
        "", "a", "a/b", "/a/b/", "a/b.c", "a/.b", "a/.b.c", "a/..", "..", ".", "a/.", "a/./", "/", "//",
        "a.b.c", "x/y.", "a//b", "https://h/x.png?q=1", "./a", ".../x", "a/b/..", "a/.../",
    ] {
        let path = Path::new(p);
        let name = path.file_name().map(|s| s.to_str().unwrap().to_string());
        let stem = path.file_stem().map(|s| s.to_str().unwrap().to_string());
        let extension = path.extension().map(|s| s.to_str().unwrap().to_string());
        assert_eq!(file_name_of(p), name, "{}", p);
        assert_eq!(file_stem_of(p), stem, "{}", p);
        assert_eq!(extension_of(p), extension, "{}", p);
        for e in ["", "tmp", "tar.gz"] {
            assert_eq!(replace_extension(p, e), path.with_extension(e).to_str().unwrap(), "{} {}", p, e);
        }
        for q in ["", "b", "/c", "d/e"] {
            assert_eq!(join_path(p, q), path.join(q).to_str().unwrap(), "{} {}", p, q);
        }
    }
}

#[test]
fn equal_keys_keep_their_order() {
    assert_eq!(stable_order_of(&vec![]), Vec::<usize>::new());
    assert_eq!(stable_order_of(&vec![3, 1, 2, 1, 3]), vec![1, 3, 2, 0, 4]);
    assert_eq!(stable_order_of(&vec![5, 5, 5]), vec![0, 1, 2]);
    assert_eq!(stable_order_of(&vec![-1, 0, -2]), vec![2, 0, 1]);
}

#[test]
fn header_values_are_checked() {
    assert!(can_be_header_value("sso=abc\t;x"));
    assert!(can_be_header_value(""));
    assert!(can_be_header_value("\u{e9}"));
    assert!(!can_be_header_value("a\nb"));
    assert!(!can_be_header_value("a\u{7f}"));
    for s in ["a b", "\u{0}", "tab\t", "\r", "zh-CN"] {
        assert_eq!(can_be_header_value(s), s.parse::<reqwest::header::HeaderValue>().is_ok());
    }
}

#[test]
fn locks_are_files() {
    assert_eq!(lock_dir("/srv/app"), "/srv/app/data/.locks");
    assert_eq!(lock_path("/srv/app", "tokens"), "/srv/app/data/.locks/tokens.lock");
}

#[test]
fn locks_are_tried_until_the_time_is_up() {
    assert_eq!(lock_step(true, 99, 10), LockStep::Acquired);
    assert_eq!(lock_step(false, 9, 10), LockStep::Retry(50));
    assert_eq!(lock_step(false, 10, 10), LockStep::TimedOut);
    assert_eq!(lock_step(false, 0, 0), LockStep::TimedOut);
}

#[test]
fn lock_failures_have_words() {
    let create = LockFailure::CreateDir("denied".to_string());
    assert_eq!(lock_failure_message(&create, "x"), "create lock dir failed: denied");
    let open = LockFailure::Open("denied".to_string());
    assert_eq!(lock_failure_message(&open, "x"), "open lock file failed: denied");
    assert_eq!(lock_failure_message(&LockFailure::TimedOut, "x"), "lock timeout: x");
    let error = lock_error(&LockFailure::TimedOut, "x");
    assert_eq!(error.kind, grok2api::error::ApiErrorKind::Server);
    assert_eq!(error.message, "lock timeout: x");
}
