use kron::output::{listing, tab_join, OutputMode, PorcelainRecord};

struct Row {
    id: String,
    state: String,
    title: String,
}

impl PorcelainRecord for Row {
    fn porcelain_fields(&self) -> Vec<String> {
        vec![self.id.clone(), self.state.clone(), self.title.clone()]
    }
}

#[test]
fn tab_join_joins_with_tab() {
    let parts = vec!["a".into(), "b".into(), "c".into()];
    assert_eq!(tab_join(&parts), "a\tb\tc");
}

#[test]
fn porcelain_fields_order_is_caller_defined() {
    let r = Row {
        id: "T2".into(),
        state: "doing".into(),
        title: "x".into(),
    };
    assert_eq!(
        r.porcelain_fields(),
        vec!["T2".to_string(), "doing".to_string(), "x".to_string()]
    );
}

#[test]
fn output_mode_from_flags_precedence() {
    assert_eq!(OutputMode::from_flags(true, true), OutputMode::Porcelain);
    assert_eq!(OutputMode::from_flags(true, false), OutputMode::Json);
    assert_eq!(OutputMode::from_flags(false, true), OutputMode::Porcelain);
    assert_eq!(OutputMode::from_flags(false, false), OutputMode::Human);
}

#[test]
fn tab_join_of_nothing_is_empty() {
    assert_eq!(tab_join(&[]), "");
    assert_eq!(tab_join(&["only".to_string()]), "only");
}

#[test]
fn listing_prints_one_line_per_record_in_porcelain_mode() {
    let r = Row { id: "T1".into(), state: "todo".into(), title: "a b".into() };
    let rows = vec![r.porcelain_fields()];
    let lines = listing(OutputMode::Porcelain, &rows, "body", "hint").unwrap();
    assert_eq!(lines, vec!["T1\ttodo\ta b".to_string()]);
}

#[test]
fn listing_marks_empty_porcelain_output() {
    let lines = listing(OutputMode::Porcelain, &[], "body", "hint").unwrap();
    assert_eq!(lines, vec!["# (empty)".to_string()]);
}

#[test]
fn listing_uses_hint_or_body_in_human_mode_and_nothing_in_json_mode() {
    assert_eq!(listing(OutputMode::Human, &[], "body", "hint").unwrap(), vec!["hint".to_string()]);
    let rows = vec![vec!["x".to_string()]];
    assert_eq!(listing(OutputMode::Human, &rows, "body", "hint").unwrap(), vec!["body".to_string()]);
    assert!(listing(OutputMode::Json, &rows, "body", "hint").is_none());
}
