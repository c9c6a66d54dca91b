use ped::buffer::Buffer;
use ped::color::Color;
use ped::config::Theme;
use ped::editor::Editor;
use ped::render::{Style, EOL_CHAR, TAB_CHAR};
use ped::syntax::Syntax;
use ped::wrap::WrappingRenderer;

fn style(margin: bool) -> Style {
    Style { theme: Theme::default(), eol: false, spotlight: true, margin }
}

fn editor_of(text: &str, syntax: Option<Syntax>) -> Editor {
    let mut buf = Buffer::new();
    buf.insert_str(text);
    buf.set_pos(0);
    Editor::new(Some(buf), false, false, 4, false, syntax)
}

fn row_text(row: &[ped::grid::Cell]) -> String {
    row.iter().map(|c| c.value).collect()
}

#[test]
fn rows_wrap_and_blank_past_the_end() {
    let e = editor_of("abcdef\ngh", None);
    let w = WrappingRenderer::new(e.buffer(), 0, 4, 4);
    let g = e.render(&w, &style(false));
    assert_eq!(g.len(), 4);
    assert_eq!(row_text(&g[0]), "abcd");
    assert_eq!(row_text(&g[1]), "ef  ");
    assert_eq!(row_text(&g[2]), "gh  ");
    assert_eq!(row_text(&g[3]), "    ");
    let t = Theme::default();
    // The cursor's row is spotlighted; rows past the end are plain.
    assert_eq!(g[0][0].color, Color::new(t.text_fg, t.spotlight_bg));
    assert_eq!(g[1][0].color, Color::new(t.text_fg, t.text_bg));
    // The newline shows as a space in the whitespace color.
    assert_eq!(g[1][2].color, Color::new(t.whitespace_fg, t.text_bg));
}

#[test]
fn margin_shows_line_numbers() {
    let e = editor_of("abcdef\ngh", None);
    let w = WrappingRenderer::new(e.buffer(), 0, 3, 4);
    let g = e.render(&w, &style(true));
    assert_eq!(row_text(&g[0]), "    1 abcd");
    assert_eq!(row_text(&g[1]), "      ef  ");
    assert_eq!(row_text(&g[2]), "    2 gh  ");
    let t = Theme::default();
    assert_eq!(g[0][4].color, Color::new(t.line_fg, t.margin_bg));
    assert_eq!(g[2][4].color, Color::new(t.margin_fg, t.margin_bg));
}

#[test]
fn control_characters_and_selection() {
    let mut e = editor_of("a\tb\nc", None);
    e.set_soft_mark();
    e.move_to(3);
    let w = WrappingRenderer::new(e.buffer(), 3, 2, 8);
    let mut st = style(false);
    st.eol = true;
    let g = e.render(&w, &st);
    assert_eq!(g[0][1].value, TAB_CHAR);
    assert_eq!(g[0][3].value, EOL_CHAR);
    let t = Theme::default();
    assert_eq!(g[0][0].color.bg, t.select_bg);
    assert_eq!(g[0][2].color.bg, t.select_bg);
    assert_eq!(g[0][3].color.bg, t.spotlight_bg);
}

#[test]
fn syntax_colors_reach_the_cells() {
    let syntax = Syntax::new("t".to_string(), vec![("b+".to_string(), Color::new(9, 0))]).ok().unwrap();
    let e = editor_of("abba", Some(syntax));
    let w = WrappingRenderer::new(e.buffer(), 0, 1, 8);
    let g = e.render(&w, &style(false));
    let t = Theme::default();
    assert_eq!(g[0][0].color.fg, t.text_fg);
    assert_eq!(g[0][1].color.fg, 9);
    assert_eq!(g[0][2].color.fg, 9);
    assert_eq!(g[0][3].color.fg, t.text_fg);
}

#[test]
fn tokenizing_follows_changes() {
    let syntax = Syntax::new("t".to_string(), vec![("x".to_string(), Color::new(5, 0))]).ok().unwrap();
    let mut e = editor_of("ab", Some(syntax));
    assert!(!e.needs_tokenize());
    e.insert_char('x');
    assert!(e.needs_tokenize());
    e.tokenize();
    assert!(!e.needs_tokenize());
    assert_eq!(e.syntax_colors(), vec![Some(5), None, None]);
}

#[test]
fn text_area_and_screen_cursor() {
    assert_eq!(ped::render::text_area(24, 80, true), (23, 74, true));
    assert_eq!(ped::render::text_area(5, 10, true), (4, 10, false));
    assert_eq!(ped::render::text_area(0, 80, false), (0, 80, false));
    let p = ped::render::screen_cursor(ped::size::Point::new(2, 3), ped::size::Point::new(1, 4), true);
    assert_eq!(p, ped::size::Point::new(3, 13));
}
