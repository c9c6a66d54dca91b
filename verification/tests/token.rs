use ped::buffer::Buffer;
use ped::color::Color;
use ped::syntax::Syntax;
use ped::token::Tokenizer;

const TOKENS: [(&str, u8); 3] = [
    (r#"-?\d+(?:\.\d+)?(?:[eE]-?\d+)?"#, 1),
    (r#""(?:[^"\\]|(?:\\.))*""#, 2),
    (r#"\b(?:foo|bar)\b"#, 3),
];

const TEXT: &str = "Lorem 1.2\n34 ip😀sum foo \"dolor\" bar -9.87e-6\n";

const SPANS: [(usize, usize, &str); 13] = [
    (0, 6, "Lorem "),
    (1, 3, "1.2"),
    (0, 1, "\n"),
    (1, 2, "34"),
    (0, 8, " ip😀sum "),
    (3, 3, "foo"),
    (0, 1, " "),
    (2, 7, "\"dolor\""),
    (0, 1, " "),
    (3, 3, "bar"),
    (0, 1, " "),
    (1, 8, "-9.87e-6"),
    (0, 1, "\n"),
];

fn build_syntax() -> Syntax {
    let tokens = TOKENS
        .iter()
        .map(|(token, c)| (token.to_string(), Color::new(*c, *c)))
        .collect();
    match Syntax::new("foo".to_string(), tokens) {
        Ok(syntax) => syntax,
        Err(_) => panic!("syntax expected to compile"),
    }
}

fn build_empty_syntax() -> Syntax {
    match Syntax::new("foo".to_string(), Vec::new()) {
        Ok(syntax) => syntax,
        Err(_) => panic!("syntax expected to compile"),
    }
}

fn build_tokenizer() -> Tokenizer {
    Tokenizer::new(build_syntax())
}

fn build_buffer() -> Buffer {
    let mut buf = Buffer::new();
    buf.insert_str(TEXT);
    buf.set_pos(0);
    buf
}

fn copy_as_string(buf: &Buffer, from: usize, to: usize) -> String {
    buf.copy(from, to).iter().collect()
}

fn color_of(id: usize) -> Option<u8> {
    if id > 0 { Some(TOKENS[id - 1].1) } else { None }
}

#[test]
fn new_tokenizer() {
    let tz = build_tokenizer();
    assert_eq!(tz.chars(), 0);
    assert_eq!(tz.span_count(), 0);
}

#[test]
fn tokenize_buffer() {
    let mut tz = build_tokenizer();
    let buf = build_buffer();
    tz.tokenize(&buf);
    assert_eq!(tz.span_count(), SPANS.len());

    let mut pos = 0;
    for i in 0..tz.span_count() {
        let (id, len) = tz.span(i);
        assert_eq!(id, SPANS[i].0);
        assert_eq!(len, SPANS[i].1);
        assert_eq!(copy_as_string(&buf, pos, pos + len), SPANS[i].2);
        pos += len;
    }
}

#[test]
fn tokenize_empty_buffer() {
    let mut tz = build_tokenizer();
    let buf = Buffer::new();
    tz.tokenize(&buf);

    assert_eq!(tz.span_count(), 1);
    assert_eq!(tz.span(0).0, 0);
    assert_eq!(tz.span(0).1, 0);
}

#[test]
fn tokenize_buffer_no_tokens() {
    let mut tz = Tokenizer::new(build_empty_syntax());
    let buf = build_buffer();
    tz.tokenize(&buf);

    assert_eq!(tz.span_count(), 1);
    assert_eq!(tz.span(0).0, 0);
    assert_eq!(tz.span(0).1, buf.size());
}

#[test]
fn find_position() {
    // Pairs of (pos, index) associations.
    const POS_TOKENS: [(usize, usize); 5] = [(3, 0), (19, 4), (11, 3), (40, 11), (29, 7)];

    let mut tz = build_tokenizer();
    let buf = build_buffer();
    let mut token_pos = tz.tokenize(&buf);

    for p in POS_TOKENS {
        token_pos = tz.find(token_pos, p.0);

        // Verify that (pos, index) values match.
        assert_eq!(token_pos.pos, p.0);
        assert_eq!(token_pos.token.index, p.1);

        // Verify that token information matches what exists in spans.
        let (id, len, _) = SPANS[p.1];
        assert!(token_pos.token.start_pos <= p.0);
        assert!(token_pos.token.end_pos > p.0);
        assert_eq!(token_pos.token.end_pos - token_pos.token.start_pos, len);
        assert_eq!(token_pos.color, color_of(id));
    }
}

#[test]
fn position_forward() {
    let mut tz = build_tokenizer();
    let buf = build_buffer();
    let mut token_pos = tz.tokenize(&buf);

    while token_pos.pos < tz.chars() {
        // Verify that token information matches what exists in spans.
        let (id, len, _) = SPANS[token_pos.token.index];
        assert!(token_pos.token.start_pos <= token_pos.pos);
        assert!(token_pos.token.end_pos > token_pos.pos);
        assert_eq!(token_pos.token.end_pos - token_pos.token.start_pos, len);
        assert_eq!(token_pos.color, color_of(id));
        token_pos = tz.forward(token_pos, 1);
    }
}

#[test]
fn position_backward() {
    let mut tz = build_tokenizer();
    let buf = build_buffer();
    let mut token_pos = tz.tokenize(&buf);

    while token_pos.pos > 0 {
        // Verify that token information matches what exists in spans.
        let (id, len, _) = SPANS[token_pos.token.index];
        assert!(token_pos.token.start_pos <= token_pos.pos);

        // Special edge case when pos is at end of buffer.
        if token_pos.pos < tz.chars() {
            assert!(token_pos.token.end_pos > token_pos.pos);
        } else {
            assert!(token_pos.token.end_pos == token_pos.pos);
        }

        assert_eq!(token_pos.token.end_pos - token_pos.token.start_pos, len);
        assert_eq!(token_pos.color, color_of(id));
        token_pos = tz.backward(token_pos, 1);
    }
}

#[test]
fn insert_start_of_span() {
    const POS: usize = 24;
    const LEN: usize = 7;

    let mut tz = build_tokenizer();
    let buf = build_buffer();
    let token_pos = tz.tokenize(&buf);
    let chars = tz.chars();

    let token_pos = tz.find(token_pos, POS);
    let (id, len, _) = SPANS[token_pos.token.index];
    assert_eq!(token_pos.pos, POS);
    assert_eq!(token_pos.token.start_pos, POS);

    // Expands span referenced by token_pos token.
    let token_pos = tz.insert(token_pos, LEN);
    assert_eq!(tz.chars(), chars + LEN);
    assert_eq!(tz.span_count(), SPANS.len());

    // Verify that token at current position is expanded span.
    assert_eq!(token_pos.pos, POS);
    assert_eq!(token_pos.token.start_pos, POS);
    assert_eq!(token_pos.token.end_pos, POS + len + LEN);
    assert_eq!(token_pos.color, color_of(id));
}

#[test]
fn insert_middle_of_span() {
    const POS: usize = 26;
    const LEN: usize = 7;
    const START_POS: usize = 24;

    let mut tz = build_tokenizer();
    let buf = build_buffer();
    let token_pos = tz.tokenize(&buf);
    let chars = tz.chars();

    let token_pos = tz.find(token_pos, POS);
    let (id, len, _) = SPANS[token_pos.token.index];
    assert_eq!(token_pos.pos, POS);
    assert_eq!(token_pos.token.start_pos, START_POS);

    // Expands span referenced by token_pos token.
    let token_pos = tz.insert(token_pos, LEN);
    assert_eq!(tz.chars(), chars + LEN);
    assert_eq!(tz.span_count(), SPANS.len());

    // Verify that token at current position is newly inserted span.
    assert_eq!(token_pos.pos, POS);
    assert_eq!(token_pos.token.start_pos, START_POS);
    assert_eq!(token_pos.token.end_pos, START_POS + len + LEN);
    assert_eq!(token_pos.color, color_of(id));
}

#[test]
fn remove_single_span() {
    const POS: usize = 27;
    const LEN: usize = 3;
    const START_POS: usize = 24;

    let mut tz = build_tokenizer();
    let buf = build_buffer();
    let token_pos = tz.tokenize(&buf);
    let chars = tz.chars();

    let token_pos = tz.find(token_pos, POS);
    let (id, len, _) = SPANS[token_pos.token.index];
    assert_eq!(token_pos.pos, POS);
    assert_eq!(token_pos.token.start_pos, START_POS);

    // Results in zero spans being removed.
    let token_pos = tz.remove(token_pos, LEN);
    assert_eq!(tz.chars(), chars - LEN);
    assert_eq!(tz.span_count(), SPANS.len());

    // Verify that current token only changed in length.
    assert_eq!(token_pos.pos, POS);
    assert_eq!(token_pos.token.start_pos, START_POS);
    assert_eq!(token_pos.token.end_pos, START_POS + (len - LEN));
    assert_eq!(token_pos.color, color_of(id));
}

#[test]
fn remove_single_span_entire() {
    const POS: usize = 24;
    const LEN: usize = 7;

    let mut tz = build_tokenizer();
    let buf = build_buffer();
    let token_pos = tz.tokenize(&buf);
    let chars = tz.chars();

    let token_pos = tz.find(token_pos, POS);
    let (id, len, _) = SPANS[token_pos.token.index + 1];
    assert_eq!(token_pos.pos, POS);
    assert_eq!(token_pos.token.start_pos, POS);

    // Results in current span being removed.
    let token_pos = tz.remove(token_pos, LEN);
    assert_eq!(tz.chars(), chars - LEN);
    assert_eq!(tz.span_count(), SPANS.len() - 1);

    // Verify that new token at matches following token.
    assert_eq!(token_pos.pos, POS);
    assert_eq!(token_pos.token.start_pos, POS);
    assert_eq!(token_pos.token.end_pos, POS + len);
    assert_eq!(token_pos.color, color_of(id));
}

#[test]
fn remove_multiple_spans_inclusive() {
    const POS: usize = 6;
    const LEN: usize = 26;

    let mut tz = build_tokenizer();
    let buf = build_buffer();
    let token_pos = tz.tokenize(&buf);
    let chars = tz.chars();

    let token_pos = tz.find(token_pos, POS);
    let (id, len, _) = SPANS[token_pos.token.index + 8];
    assert_eq!(token_pos.pos, POS);
    assert_eq!(token_pos.token.start_pos, POS);

    // Results in mutiple spans being removed, including edges.
    let token_pos = tz.remove(token_pos, LEN);
    assert_eq!(tz.chars(), chars - LEN);
    assert_eq!(tz.span_count(), SPANS.len() - 8);

    // Verify that new token matches token following last span removed.
    assert_eq!(token_pos.pos, POS);
    assert_eq!(token_pos.token.start_pos, POS);
    assert_eq!(token_pos.token.end_pos, POS + len);
    assert_eq!(token_pos.color, color_of(id));
}

#[test]
fn remove_multiple_spans_exclusive() {
    const POS: usize = 7;
    const LEN: usize = 23;
    const START_POS: usize = 6;

    let mut tz = build_tokenizer();
    let buf = build_buffer();
    let token_pos = tz.tokenize(&buf);
    let chars = tz.chars();

    // Find last token whose prefix will be truncated.
    let token_pos = tz.find(token_pos, POS + LEN);
    let (id, _, _) = SPANS[token_pos.token.index];
    let len = token_pos.token.end_pos - token_pos.pos;

    let token_pos = tz.find(token_pos, POS);
    assert_eq!(token_pos.pos, POS);
    assert_eq!(token_pos.token.start_pos, START_POS);

    // Results in mutiple spans being removed, excluding edges.
    let token_pos = tz.remove(token_pos, LEN);
    assert_eq!(tz.chars(), chars - LEN);
    assert_eq!(tz.span_count(), SPANS.len() - 5);

    // Verify that new token matches final token whose prefix was truncated.
    assert_eq!(token_pos.pos, POS);
    assert_eq!(token_pos.token.start_pos, POS);
    assert_eq!(token_pos.token.end_pos, POS + len);
    assert_eq!(token_pos.color, color_of(id));
}

#[test]
fn remove_spans_to_end() {
    const POS: usize = 7;

    let mut tz = build_tokenizer();
    let buf = build_buffer();
    let token_pos = tz.tokenize(&buf);
    let chars = tz.chars();

    let token_pos = tz.find(token_pos, POS);
    let token_pos = tz.remove(token_pos, chars - POS);
    assert_eq!(tz.chars(), POS);
    assert_eq!(token_pos.pos, POS);
}

#[test]
fn remove_all_spans() {
    let mut tz = build_tokenizer();
    let buf = build_buffer();
    let token_pos = tz.tokenize(&buf);

    let token_pos = tz.remove(token_pos, tz.chars());
    assert_eq!(tz.chars(), 0);
    assert_eq!(token_pos.pos, 0);
    assert_eq!(tz.span_count(), 1);
    assert_eq!(tz.span(0), (0, 0));
}

#[test]
fn spans_cover_text_after_edits() {
    let mut tz = build_tokenizer();
    let buf = build_buffer();
    let p = tz.tokenize(&buf);
    let p = tz.find(p, 10);
    let p = tz.insert(p, 4);
    let _ = tz.remove(p, 9);
    let total: usize = (0..tz.span_count()).map(|i| tz.span(i).1).sum();
    assert_eq!(total, tz.chars());
    assert_eq!(tz.chars(), buf.size() + 4 - 9);
}

#[test]
fn find_clamps_to_end() {
    let mut tz = build_tokenizer();
    let buf = build_buffer();
    let p = tz.tokenize(&buf);
    let p = tz.find(p, 1000);
    assert_eq!(p.pos, tz.chars());
    assert_eq!(p.token.index, SPANS.len() - 1);
    assert_eq!(p.token.end_pos, p.pos);
}
