use ped::sort::{sort_by_name, sort_by_number, str_le};
use ped::source::Source;
use ped::sys::{base_dir, file_name, pretty_path, this_dir};

#[test]
fn base_directories() {
    assert_eq!(this_dir(), ".");
    assert_eq!(base_dir("foo"), ".");
    assert_eq!(base_dir(""), ".");
    assert_eq!(base_dir("/"), "/");
    assert_eq!(base_dir("a/b/c.txt"), "a/b");
    assert_eq!(file_name("a/b/c.txt"), "c.txt");
    assert_eq!(file_name("/"), "/");
}

#[test]
fn home_is_shortened() {
    assert_eq!(pretty_path("/home/me/src/x.rs", "/home/me"), "~/src/x.rs");
    assert_eq!(pretty_path("/home/me", "/home/me"), "~/");
    assert_eq!(pretty_path("/tmp/x", "/home/me"), "/tmp/x");
    assert_eq!(pretty_path("/ho", "/home/me"), "/ho");
}

#[test]
fn sources_are_shown() {
    assert_eq!(Source::Null.text("/home/me"), "?null");
    assert_eq!(Source::as_file("/home/me/a.txt", None).text("/home/me"), "~/a.txt");
    assert_eq!(Source::as_ephemeral("help").text("/home/me"), "@help");
    assert!(Source::as_file("x", None).is_file());
    assert!(!Source::as_ephemeral("x").is_file());
}

#[test]
fn entries_are_sorted() {
    assert!(str_le("abc", "abd"));
    assert!(str_le("ab", "abc"));
    assert!(!str_le("b", "a"));
    let v = vec![("b".to_string(), "2".to_string()), ("a".to_string(), "1".to_string())];
    let r = sort_by_name(&v);
    assert_eq!(r[0].0, "a");
    assert_eq!(r[1].0, "b");
    let w = vec![("x".to_string(), 9u8), ("y".to_string(), 1u8), ("z".to_string(), 5u8)];
    let r = sort_by_number(&w);
    let numbers: Vec<u8> = r.iter().map(|e| e.1).collect();
    assert_eq!(numbers, vec![1, 5, 9]);
}

#[test]
fn file_suggestions_cycle_through_the_matches() {
    let ms = vec!["/d/a".to_string(), "/d/b".to_string(), "/d/c".to_string()];
    let dirs = vec![false, true, false];
    let (r, h, last) = ped::user::file_suggestion("/d", &ms, &dirs, None, ped::user::Suggest::Forward);
    assert_eq!((r, h, last), (Some("a".to_string()), Some(" (1 of 3 matches)".to_string()), Some(0)));
    let (r, h, last) = ped::user::file_suggestion("/d", &ms, &dirs, Some(0), ped::user::Suggest::Forward);
    assert_eq!((r, h, last), (Some("b".to_string()), Some("/ (2 of 3 matches)".to_string()), Some(1)));
    let (r, h, last) = ped::user::file_suggestion("/d", &ms, &dirs, Some(0), ped::user::Suggest::Backward);
    assert_eq!((r, h, last), (Some("c".to_string()), Some(" (3 of 3 matches)".to_string()), Some(2)));
    let one = vec!["/d/x".to_string()];
    let (r, h, last) = ped::user::file_suggestion("/d", &one, &vec![true], None, ped::user::Suggest::Forward);
    assert_eq!((r, h, last), (Some("x".to_string()), Some("/".to_string()), None));
    let none: Vec<String> = Vec::new();
    let (r, h, last) = ped::user::file_suggestion("/d", &none, &Vec::new(), None, ped::user::Suggest::Forward);
    assert_eq!((r, h, last), (None, Some(" (no matches)".to_string()), None));
}

#[test]
fn extracted_directories_and_sorted_paths() {
    let pair = |p: &str, d: bool| ped::sys::extract_dir(p, d);
    assert_eq!(pair("foo", false), ("./foo".to_string(), ".".to_string()));
    assert_eq!(pair("a/b", false), ("a/b".to_string(), "a".to_string()));
    assert_eq!(pair("x", true), ("x".to_string(), "x".to_string()));
    assert_eq!(pair("", false), ("./".to_string(), ".".to_string()));
    assert_eq!(pair("/", false), ("/".to_string(), "/".to_string()));
    let paths = vec!["d/b".to_string(), "d/a".to_string(), "d/ab".to_string()];
    assert_eq!(ped::sys::sorted_paths(&paths), vec!["d/a".to_string(), "d/ab".to_string(), "d/b".to_string()]);
}
