use ped::user::{
    file_matches, line_column_completer, line_column_parse, list_completer, match_suffix,
    null_completer, number_completer, number_parse, replace_match, yes_no_all_completer,
    yes_no_completer, Completer, Suggest,
};

#[test]
fn null_completer_accepts_anything() {
    let mut c = null_completer();
    assert_eq!(c.prepare(), None);
    assert_eq!(c.evaluate("abc"), None);
    assert_eq!(c.suggest("abc", Suggest::Forward), (None, None));
    assert_eq!(c.accept("abc"), Some("abc".to_string()));
}

#[test]
fn yes_no_answers() {
    let mut c = yes_no_completer();
    assert_eq!(c.prepare(), Some(" (y)es, (n)o".to_string()));
    assert_eq!(c.evaluate(" Y "), None);
    assert_eq!(c.evaluate("x"), Some(" (y)es, (n)o".to_string()));
    assert_eq!(c.accept(" Y "), Some("y".to_string()));
    assert_eq!(c.accept("N"), Some("n".to_string()));
    assert_eq!(c.accept("a"), None);
    assert_eq!(c.suggest("y", Suggest::Forward), (None, Some(" (y)es, (n)o".to_string())));
}

#[test]
fn yes_no_all_answers() {
    let mut c = yes_no_all_completer();
    assert_eq!(c.prepare(), Some(" (y)es, (n)o, (a)ll".to_string()));
    assert_eq!(c.accept("A"), Some("a".to_string()));
    assert_eq!(c.accept("yes"), None);
    assert_eq!(c.evaluate("n"), None);
}

#[test]
fn numbers_in_radix() {
    assert_eq!(number_parse("42", 10), Some(42));
    assert_eq!(number_parse("+ff", 16), Some(255));
    assert_eq!(number_parse("4294967295", 10), Some(u32::MAX));
    assert_eq!(number_parse("4294967296", 10), None);
    assert_eq!(number_parse("12a", 10), None);
    assert_eq!(number_parse("", 10), None);

    let mut c = number_completer(10);
    assert_eq!(c.evaluate("  "), None);
    assert_eq!(c.evaluate("1x"), Some(" (invalid)".to_string()));
    assert_eq!(c.accept(" 17 "), Some("17".to_string()));
    assert_eq!(c.accept("-1"), None);
}

#[test]
fn line_and_column() {
    assert_eq!(line_column_parse("12"), Some((12, None)));
    assert_eq!(line_column_parse(" 12 , 7 "), Some((12, Some(7))));
    assert_eq!(line_column_parse("12,,7"), Some((12, Some(7))));
    assert_eq!(line_column_parse("1,2,3"), None);
    assert_eq!(line_column_parse("x"), None);
    assert_eq!(line_column_parse(""), None);

    let mut c = line_column_completer();
    assert_eq!(c.evaluate(""), None);
    assert_eq!(c.evaluate("a"), Some(" (invalid)".to_string()));
    assert_eq!(c.accept(" 3,4 "), Some("3,4".to_string()));
}

#[test]
fn list_suggestions_cycle() {
    let items = vec!["Apple".to_string(), "banana".to_string(), "grape".to_string()];
    let mut c = list_completer(items);
    assert_eq!(c.prepare(), Some(" (3 available)".to_string()));
    assert_eq!(c.evaluate("AP"), Some(" (2 matches)".to_string()));
    assert_eq!(
        c.suggest("AP", Suggest::Forward),
        (Some("Apple".to_string()), Some(" (1 of 2 matches)".to_string()))
    );
    assert_eq!(
        c.suggest("AP", Suggest::Forward),
        (Some("grape".to_string()), Some(" (2 of 2 matches)".to_string()))
    );
    assert_eq!(
        c.suggest("AP", Suggest::Forward),
        (Some("Apple".to_string()), Some(" (1 of 2 matches)".to_string()))
    );
    assert_eq!(
        c.suggest("AP", Suggest::Backward),
        (Some("grape".to_string()), Some(" (2 of 2 matches)".to_string()))
    );
    assert_eq!(c.evaluate("nan"), Some(" (banana)".to_string()));
    assert_eq!(c.suggest("nan", Suggest::Forward), (Some("banana".to_string()), None));
    assert_eq!(c.evaluate("zzz"), Some(" (no matches)".to_string()));
    assert_eq!(c.suggest("zzz", Suggest::Forward), (None, Some(" (no matches)".to_string())));
    assert_eq!(c.accept("grape"), Some("grape".to_string()));
    assert_eq!(c.accept("Grape"), None);
}

#[test]
fn file_helpers() {
    let comps = vec!["./Foo.txt".to_string(), "./bar".to_string(), "./fob".to_string()];
    assert_eq!(
        file_matches(&comps, "./fo"),
        vec!["./Foo.txt".to_string(), "./fob".to_string()]
    );
    assert_eq!(replace_match("./dir", "./dir/file"), "file");
    assert_eq!(replace_match("./dir", "./other"), "./other");
    assert_eq!(match_suffix("./Foo.txt", "./fo"), Some("o.txt".to_string()));
    assert_eq!(match_suffix("./fo", "./fo"), None);
}
