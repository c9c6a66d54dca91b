use ped::error::Error;
use ped::opt::Options;

fn args(list: &[&str]) -> Vec<String> {
    list.iter().map(|s| s.to_string()).collect()
}

fn parse(list: &[&str]) -> Options {
    match Options::parse(&args(list)) {
        Ok(o) => o,
        Err(_) => panic!("options expected"),
    }
}

#[test]
fn flags_and_values() {
    let o = parse(&["--spotlight", "--no-lines", "-t", "8", "--crlf", "-C", "cfg.toml", "--keys"]);
    assert_eq!(o.spotlight, Some(true));
    assert_eq!(o.lines, Some(false));
    assert_eq!(o.tab_size, Some(8));
    assert_eq!(o.crlf, Some(true));
    assert_eq!(o.config_path, Some("cfg.toml".to_string()));
    assert!(o.keys);
    assert!(!o.ops);
    assert_eq!(o.files.len(), 0);
}

#[test]
fn files_and_locations() {
    let o = parse(&["a.txt", "-g", "3:4", "b.txt", "--", "-c", "--help"]);
    assert_eq!(o.files.len(), 4);
    assert_eq!(o.files[0].path, "a.txt");
    let loc = o.files[0].loc.expect("location expected");
    assert_eq!((loc.line, loc.col), (2, 3));
    assert!(o.files[1].loc.is_none());
    assert_eq!(o.files[2].path, "-c");
    assert_eq!(o.files[3].path, "--help");
    assert!(!o.help);
}

#[test]
fn later_location_replaces_earlier() {
    let o = parse(&["a.txt", "-g", "3", "--goto", "7"]);
    let loc = o.files[0].loc.expect("location expected");
    assert_eq!(loc.line, 6);
}

#[test]
fn errors() {
    match Options::parse(&args(&["--bogus"])) {
        Err(Error::UnexpectedArg { arg }) => assert_eq!(arg, "--bogus"),
        _ => panic!("unexpected-arg error expected"),
    }
    match Options::parse(&args(&["--tab-size"])) {
        Err(Error::ExpectedValue { arg }) => assert_eq!(arg, "--tab-size"),
        _ => panic!("expected-value error expected"),
    }
    match Options::parse(&args(&["-t", "x"])) {
        Err(Error::InvalidValue { arg, value }) => {
            assert_eq!(arg, "-t");
            assert_eq!(value, "x");
        }
        _ => panic!("invalid-value error expected"),
    }
    match Options::parse(&args(&["--describe"])) {
        Err(Error::ExpectedValue { arg }) => assert_eq!(arg, "--describe"),
        _ => panic!("expected-value error expected"),
    }
    match Options::parse(&args(&["-g"])) {
        Err(Error::ExpectedLocation { arg }) => assert_eq!(arg, "-g"),
        _ => panic!("expected-location error expected"),
    }
    match Options::parse(&args(&["-g", "a:b"])) {
        Err(Error::InvalidLocation { arg, value }) => {
            assert_eq!(arg, "-g");
            assert_eq!(value, "a:b");
        }
        _ => panic!("invalid-location error expected"),
    }
}

#[test]
fn defaults_when_empty() {
    let o = parse(&[]);
    assert_eq!(o.spotlight, None);
    assert_eq!(o.tab_size, None);
    assert!(!o.help && !o.version && !o.bare);
    assert_eq!(o.describe, None);
}
