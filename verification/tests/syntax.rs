use ped::color::Color;
use ped::syntax::Syntax;

const SYNTAX_NAME: &str = "foo";

fn syntax_tokens() -> [(&'static str, Color); 3] {
    [
        (r#"-?\d+(?:\.\d+)?(?:[eE]-?\d+)?"#, Color::new(1, 1)),
        (r#""(?:[^"\\]|(?:\\.))*""#, Color::new(2, 2)),
        (r#"\b(?:foo|bar)\b"#, Color::new(3, 3)),
    ]
}

fn build_tokens() -> Vec<(String, Color)> {
    syntax_tokens()
        .iter()
        .map(|(token, color)| (token.to_string(), *color))
        .collect()
}

fn build_syntax() -> Syntax {
    match Syntax::new(SYNTAX_NAME.to_string(), build_tokens()) {
        Ok(syntax) => syntax,
        Err(_) => panic!("syntax expected to compile"),
    }
}

fn build_empty_syntax() -> Syntax {
    match Syntax::new(SYNTAX_NAME.to_string(), Vec::new()) {
        Ok(syntax) => syntax,
        Err(_) => panic!("syntax expected to compile"),
    }
}

#[test]
fn new_syntax() {
    let syntax = build_syntax();
    let expected = syntax_tokens();
    assert_eq!(syntax.name, SYNTAX_NAME);
    assert_eq!(syntax.tokens().len(), expected.len());

    for (i, token) in syntax.tokens().iter().enumerate() {
        assert_eq!(token.id, i + 1);
        assert_eq!(token.name, format!("_{}", i + 1));
        assert_eq!(token.pattern, expected[i].0);
        assert_eq!(token.color, expected[i].1);
    }
}

#[test]
fn new_syntax_empty() {
    let syntax = build_empty_syntax();
    assert_eq!(syntax.name, SYNTAX_NAME);
    assert_eq!(syntax.tokens().len(), 1);

    let token = &syntax.tokens()[0];
    assert_eq!(token.id, 1);
    assert_eq!(token.name, "_1");
    assert_eq!(token.pattern, "^$a");
    assert_eq!(token.color, Color::zero());
}

#[test]
fn invalid_token() {
    let tokens = vec![("(bad".to_string(), Color::zero())];
    let syntax = Syntax::new(SYNTAX_NAME.to_string(), tokens);
    assert!(syntax.is_err());
}

#[test]
fn syntax_colors_by_id() {
    let syntax = build_syntax();
    assert_eq!(syntax.color(0), None);
    assert_eq!(syntax.color(1), Some(Color::new(1, 1)));
    assert_eq!(syntax.color(3), Some(Color::new(3, 3)));
}

#[test]
fn invalid_token_reports_joined_pattern() {
    let tokens = vec![("a".to_string(), Color::zero()), ("(bad".to_string(), Color::zero())];
    match Syntax::new(SYNTAX_NAME.to_string(), tokens) {
        Err(ped::error::Error::InvalidRegex { pattern, cause }) => {
            assert_eq!(pattern, "(?<_1>a)|(?<_2>(bad)");
            assert!(cause.len() > 0);
        }
        _ => panic!("expecting an invalid regex error"),
    }
}

#[test]
fn lookup_finds_first_group() {
    let cap = vec![None, Some((3, 5)), Some((3, 5))];
    assert_eq!(ped::syntax::lookup(&cap), Some((2, (3, 5))));
    let none: Vec<Option<(usize, usize)>> = vec![None, None];
    assert_eq!(ped::syntax::lookup(&none), None);
}
