use galvanized::json_path::{JsonIndex, JsonPath};
use galvanized::object_widget::{preview_text, JsonValue, ObjectWidget, OutlineRow};

fn key(s: &str) -> JsonIndex {
    JsonIndex::Key(s.to_owned())
}

#[test]
fn index_text_shows_key_or_decimal_position() {
    assert_eq!(key("name").to_text(), "name");
    assert_eq!(JsonIndex::Number(0).to_text(), "0");
    assert_eq!(JsonIndex::Number(1203).to_text(), "1203");
}

#[test]
fn index_from_conversions() {
    assert!(JsonIndex::from(7usize).same_as(&JsonIndex::Number(7)));
    assert!(JsonIndex::from("a".to_owned()).same_as(&key("a")));
    assert!(!JsonIndex::from(7usize).same_as(&key("7")));
}

#[test]
fn path_text_joins_steps_with_slash() {
    let mut p = JsonPath::new();
    assert_eq!(p.to_text(), "");
    p.push_index(key("users")).push_index(JsonIndex::Number(12)).push_index(key("name"));
    assert_eq!(p.to_text(), "users/12/name");
}

#[test]
fn pop_undoes_push() {
    let mut p = JsonPath::new();
    p.push_index(key("a"));
    let before = p.clone_path();
    p.push_index(JsonIndex::Number(3));
    let popped = p.pop();
    assert!(popped.unwrap().same_as(&JsonIndex::Number(3)));
    assert!(p.same_as(&before));
    assert_eq!(p.to_text(), "a");
}

#[test]
fn pop_of_root_is_none() {
    let mut p = JsonPath::new();
    assert!(p.pop().is_none());
    assert!(p.same_as(&JsonPath::new()));
}

#[test]
fn paths_differ_by_step_kind() {
    let mut a = JsonPath::new();
    a.push_index(key("0"));
    let mut b = JsonPath::new();
    b.push_index(JsonIndex::Number(0));
    assert!(!a.same_as(&b));
    assert_eq!(a.to_text(), b.to_text());
}

#[test]
fn previews_of_each_kind() {
    assert_eq!(preview_text(&JsonValue::Null), "null");
    assert_eq!(preview_text(&JsonValue::Bool(true)), "true");
    assert_eq!(preview_text(&JsonValue::Bool(false)), "false");
    assert_eq!(preview_text(&JsonValue::Number("2.5".to_owned())), "2.5");
    assert_eq!(preview_text(&JsonValue::String("hi".to_owned())), "hi");
    let arr = JsonValue::Array((0..12).map(|_| JsonValue::Null).collect());
    assert_eq!(preview_text(&arr), "[...](len=12)");
    let obj = JsonValue::Object(vec![("k".to_owned(), JsonValue::Null)]);
    assert_eq!(preview_text(&obj), "{...}(len=1)");
    assert_eq!(preview_text(&JsonValue::Object(vec![])), "{...}(len=0)");
}

fn sample() -> JsonValue {
    JsonValue::Object(vec![
        ("name".to_owned(), JsonValue::String("Ann".to_owned())),
        (
            "tags".to_owned(),
            JsonValue::Array(vec![JsonValue::Number("1".to_owned()), JsonValue::Object(vec![("x".to_owned(), JsonValue::Bool(true))])]),
        ),
    ])
}

fn describe(rows: &[OutlineRow]) -> Vec<String> {
    rows.iter()
        .map(|r| match r {
            OutlineRow::Entry { path, key, preview, open } => format!("E {} {} {} {}", path.to_text(), key, preview, open),
            OutlineRow::Element { path, index } => format!("A {} {}", path.to_text(), index),
        })
        .collect()
}

#[test]
fn outline_expands_every_entry_by_default() {
    let mut w = ObjectWidget::new(sample());
    let rows = w.outline();
    assert_eq!(
        describe(&rows),
        vec![
            "E name name Ann true",
            "E tags tags [...](len=2) true",
            "A tags/0 0",
            "A tags/1 1",
            "E tags/1/x x true true",
        ]
    );
    // Every visited entry is now remembered as expanded.
    assert_eq!(w.by_path.len(), 3);
    assert!(w.by_path.iter().all(|(_, s)| s.open));
}

#[test]
fn toggle_collapses_and_toggle_twice_restores() {
    let mut w = ObjectWidget::new(sample());
    w.toggle(key("tags"));
    let rows = w.outline();
    assert_eq!(describe(&rows), vec!["E name name Ann true", "E tags tags [...](len=2) false"]);
    w.toggle(key("tags"));
    let rows = w.outline();
    assert_eq!(rows.len(), 5);
    assert_eq!(describe(&rows), describe(&ObjectWidget::new(sample()).outline()));
}

#[test]
fn outline_expanded_ignores_remembered_states() {
    let mut w = ObjectWidget::new(sample());
    w.toggle(key("tags"));
    let remembered = w.by_path.len();
    let rows = w.outline_expanded();
    assert_eq!(rows.len(), 5);
    assert_eq!(w.by_path.len(), remembered);
}

#[test]
fn path_state_remembers_expanded_first() {
    let mut w = ObjectWidget::new(JsonValue::Null);
    w.current_path.push_index(key("a"));
    assert!(w.path_state().open);
    w.path_state().open = false;
    assert!(!w.path_state().open);
    assert_eq!(w.by_path.len(), 1);
}

#[test]
fn scalar_root_has_no_rows() {
    let mut w = ObjectWidget::new(JsonValue::String("x".to_owned()));
    assert!(w.outline().is_empty());
    assert_eq!(w.value_text_preview(&JsonValue::Number("3".to_owned())), "3");
}
