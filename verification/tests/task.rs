use rustytime::services::task::edit_query;

#[test]
fn edit_query_with_nothing_to_edit() {
    assert_eq!(edit_query("t1", None, None), None);
}

#[test]
fn edit_query_sets_the_name() {
    let (statement, values) = edit_query("t1", Some("Write"), None).unwrap();
    assert_eq!(statement, "UPDATE tasks SET name = ? WHERE id = ?");
    assert_eq!(values, vec!["Write".to_string(), "t1".to_string()]);
}

#[test]
fn edit_query_sets_the_description() {
    let (statement, values) = edit_query("t1", None, Some("the report")).unwrap();
    assert_eq!(statement, "UPDATE tasks SET description = ? WHERE id = ?");
    assert_eq!(values, vec!["the report".to_string(), "t1".to_string()]);
}

#[test]
fn edit_query_sets_both() {
    let (statement, values) = edit_query("t1", Some("Write"), Some("the report")).unwrap();
    assert_eq!(statement, "UPDATE tasks SET name = ?, description = ? WHERE id = ?");
    assert_eq!(
        values,
        vec!["Write".to_string(), "the report".to_string(), "t1".to_string()]
    );
}
