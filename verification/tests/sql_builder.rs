use lpm_core::sql_builder::{
    Column, CommonInstructions, Delete, Insert, Operation, Select, Where, WhereInstructions,
};

#[test]
fn select_star_when_no_columns() {
    let op = Operation::Select(None, String::from("packages"));
    assert_eq!(op.to_string(), "SELECT * FROM packages");
    let op = Operation::Select(Some(Vec::new()), String::from("packages"));
    assert_eq!(op.to_string(), "SELECT * FROM packages");
}

#[test]
fn select_with_columns() {
    let cols = vec![String::from("id"), String::from("name")];
    let op = Operation::Select(Some(cols), String::from("packages"));
    assert_eq!(op.to_string(), "SELECT id, name FROM packages");
}

#[test]
fn select_distinct_with_columns() {
    let cols = vec![String::from("kind")];
    let op = Operation::SelectDistinct(cols, String::from("checksum_kinds"));
    assert_eq!(op.to_string(), "SELECT DISTINCT kind FROM checksum_kinds");
}

#[test]
fn select_distinct_empty_columns_fails_fast() {
    let op = Operation::SelectDistinct(Vec::new(), String::from("checksum_kinds"));
    assert!(op.try_to_string().is_none());
}

#[test]
fn select_distinct_try_to_string_succeeds_on_columns() {
    let cols = vec![String::from("kind"), String::from("id")];
    let op = Operation::SelectDistinct(cols, String::from("package_kinds"));
    assert_eq!(
        op.try_to_string().unwrap(),
        "SELECT DISTINCT kind, id FROM package_kinds"
    );
}

#[test]
fn delete_statement() {
    let op = Operation::Delete(String::from("files"));
    assert_eq!(op.to_string(), "DELETE FROM files");
}

#[test]
fn insert_with_columns_echoes_placeholder_indices() {
    let cols = vec![
        Column(String::from("name"), 1),
        Column(String::from("license"), 2),
    ];
    let op = Operation::Insert(String::from("packages"), Some(cols));
    assert_eq!(
        op.to_string(),
        "INSERT INTO packages (name, license) VALUES(?1, ?2)"
    );
}

#[test]
fn insert_without_columns_uses_default_values() {
    let op = Operation::Insert(String::from("packages"), None);
    assert_eq!(op.to_string(), "INSERT INTO packages DEFAULT VALUES");
    let op = Operation::Insert(String::from("packages"), Some(Vec::new()));
    assert_eq!(op.to_string(), "INSERT INTO packages DEFAULT VALUES");
}

#[test]
fn insert_placeholder_indices_are_not_renumbered() {
    let cols = vec![
        Column(String::from("name"), 7),
        Column(String::from("license"), 3),
    ];
    let op = Operation::Insert(String::from("packages"), Some(cols));
    assert_eq!(
        op.to_string(),
        "INSERT INTO packages (name, license) VALUES(?7, ?3)"
    );
}

#[test]
fn insert_from_select() {
    let select = Select::new(None, String::from("old_packages"));
    let op = Operation::InsertFromSelect(String::from("packages"), select);
    assert_eq!(
        op.to_string(),
        "INSERT INTO packages SELECT * FROM old_packages"
    );
}

#[test]
fn where_conditions_render_exactly() {
    assert_eq!(
        Where::Equal(1, String::from("name")).to_string(),
        "name = ?1"
    );
    assert_eq!(
        Where::NotEqual(2, String::from("name")).to_string(),
        "name != ?2"
    );
    assert_eq!(Where::LessThan(3, String::from("id")).to_string(), "id < ?3");
    assert_eq!(
        Where::LessThanOrEqual(4, String::from("id")).to_string(),
        "id <= ?4"
    );
    assert_eq!(
        Where::GreaterThan(5, String::from("id")).to_string(),
        "id > ?5"
    );
    assert_eq!(
        Where::GreaterThanOrEqual(6, String::from("id")).to_string(),
        "id >= ?6"
    );
    assert_eq!(
        Where::Between(1, 2, String::from("size")).to_string(),
        "size BETWEEN ?1 AND ?2"
    );
    assert_eq!(
        Where::NotBetween(1, 2, String::from("size")).to_string(),
        "size NOT BETWEEN ?1 AND ?2"
    );
    assert_eq!(Where::In(1, String::from("id")).to_string(), "id IN ?1");
    assert_eq!(
        Where::NotIn(1, String::from("id")).to_string(),
        "id NOT IN ?1"
    );
    assert_eq!(
        Where::Like(1, String::from("name")).to_string(),
        "name LIKE ?1"
    );
    assert_eq!(
        Where::NotLike(1, String::from("name")).to_string(),
        "name NOT LIKE ?1"
    );
}

#[test]
fn where_clause_on_select() {
    let sel = Select::new(Some(vec![String::from("id")]), String::from("packages"));
    let sel = sel.where_condition(Where::Equal(1, String::from("name")));
    assert_eq!(
        sel.to_string(),
        "SELECT id FROM packages WHERE name = ?1"
    );
    let sel = sel.and_where(Where::GreaterThan(2, String::from("id")));
    assert_eq!(
        sel.to_string(),
        "SELECT id FROM packages WHERE name = ?1 AND id > ?2"
    );
    let sel = sel.or_where(Where::Like(3, String::from("name")));
    assert_eq!(
        sel.to_string(),
        "SELECT id FROM packages WHERE name = ?1 AND id > ?2 OR name LIKE ?3"
    );
}

#[test]
fn parentheses_and_keywords_on_delete() {
    let del = Delete::new(String::from("files"));
    let del = del
        .where_condition(Where::Equal(1, String::from("package_id")))
        .and_keyword()
        .open_parentheses()
        .close_parentheses()
        .or_keyword();
    assert_eq!(
        del.to_string(),
        "DELETE FROM files WHERE package_id = ?1 AND ( ) OR"
    );
}

#[test]
fn insert_builder_carries_where_api() {
    let ins = Insert::new(String::from("packages"), None);
    let ins = ins.where_condition(Where::Equal(1, String::from("id")));
    assert_eq!(
        ins.to_string(),
        "INSERT INTO packages DEFAULT VALUES WHERE id = ?1"
    );
}
