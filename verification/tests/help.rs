use ped::bind::Bindings;
use ped::color::Colors;
use ped::config::Theme;
use ped::help::{bindings_content, colors_content, key_table_list, keys_content, op_table_list, ops_content, theme_content};

#[test]
fn keys_are_listed_sorted() {
    let content = keys_content();
    let lines: Vec<&str> = content.lines().collect();
    assert_eq!(lines.len(), key_table_list().len());
    assert_eq!(lines.len(), 98);
    let mut sorted = lines.clone();
    sorted.sort();
    assert_eq!(lines, sorted);
    assert!(lines.contains(&"C-\\"));
    assert!(lines.contains(&"S-C-pg_down"));
}

#[test]
fn ops_are_listed_sorted() {
    let content = ops_content();
    let lines: Vec<&str> = content.lines().collect();
    assert_eq!(lines.len(), op_table_list().len());
    assert_eq!(lines[0], "bottom-window");
    let mut sorted = lines.clone();
    sorted.sort();
    assert_eq!(lines, sorted);
}

#[test]
fn bindings_are_written_as_toml() {
    let pairs: Vec<(String, String)> = vec![
        ("C-x:C-s".to_string(), "save-file".to_string()),
        ("C-a".to_string(), "move-start".to_string()),
    ];
    let b = match Bindings::new(&pairs) {
        Ok(b) => b,
        Err(_) => panic!("bindings expected"),
    };
    assert_eq!(bindings_content(&b), "'C-a' = 'move-start'\n'C-x:C-s' = 'save-file'\n");
}

#[test]
fn colors_are_written_by_value() {
    let mut colors = Colors::empty();
    colors.apply(&vec![("b".to_string(), 9), ("a".to_string(), 3)]);
    assert_eq!(colors_content(&colors), "'a' = 3\n'b' = 9\n");
}

#[test]
fn theme_is_written_in_field_order() {
    let content = theme_content(&Theme::default());
    let lines: Vec<&str> = content.lines().collect();
    assert_eq!(lines.len(), 14);
    assert_eq!(lines[0], "'text-fg' = 252");
    assert_eq!(lines[13], "'line-fg' = 81");
}
