use query_chain::chain::{compile_statement, traverse_to_the_latest_node, QueryBlock, StatementType};
use query_chain::factory::{delete, insert, select, update, Model};

fn users(fields: Option<Vec<&str>>) -> Model {
    Model {
        name: "users".to_string(),
        fields: fields.map(|f| f.into_iter().map(|s| s.to_string()).collect()),
    }
}

fn pairs(items: &[(&str, &str)]) -> Vec<(String, String)> {
    items.iter().map(|(k, v)| (k.to_string(), v.to_string())).collect()
}

fn strings(items: &[&str]) -> Vec<String> {
    items.iter().map(|s| s.to_string()).collect()
}

#[test]
fn test_select() {
    let model = Model {
        name: "users".to_string(),
        fields: None,
    };
    let query = select(&model);
    assert_eq!(query.query_part, "SELECT * FROM users");
}

#[test]
fn test_select_with_fields() {
    let model = Model {
        name: "users".to_string(),
        fields: Some(vec!["id".to_string(), "name".to_string()]),
    };
    let query = select(&model);
    assert_eq!(query.query_part, "SELECT id, name FROM users");
}

#[test]
fn test_insert_values() {
    let model = Model {
        name: "users".to_string(),
        fields: None,
    };
    let query = insert(&model).values(&vec!["1".to_string(), "John".to_string()]);
    let compiled_query = compile_statement(&query);
    assert_eq!(compiled_query, "INSERT INTO users VALUES (1, John)");
}

#[test]
fn test_select_where_clause() {
    let model = Model {
        name: "users".to_string(),
        fields: None,
    };
    let query = select(&model).where_clause(&"id = 1".to_string());
    let compiled_query = compile_statement(&query);
    assert_eq!(compiled_query, "SELECT * FROM users WHERE id = 1");
}

#[test]
fn test_update_values() {
    let model = Model {
        name: "users".to_string(),
        fields: Some(vec!["name".to_string()]),
    };
    let arguments = vec![("name".to_string(), "John".to_string())];
    let query = update(&model).set(&arguments);
    let compiled_query = compile_statement(&query);
    assert_eq!(compiled_query, "UPDATE users SET name = John");
}

#[test]
fn test_update_where_clause() {
    let arguments = vec![("id".to_string(), "2".to_string())];
    let where_string = "id = 1".to_string();
    let fields = Some(vec!["id".to_string()]);
    let model = Model {
        name: "users".to_string(),
        fields: fields,
    };
    let query = update(&model).set(&arguments).where_clause(&where_string);
    let compiled_query = compile_statement(&query);
    assert_eq!(compiled_query, "UPDATE users SET id = 2 WHERE id = 1");
}

#[test]
fn select_all_columns_compiles_alone() {
    let query = select(&users(None));
    assert_eq!(compile_statement(&query), "SELECT * FROM users");
    assert!(query.secondary_part.is_none());
    assert_eq!(query.statement_type, StatementType::Select);
}

#[test]
fn select_listed_columns_compiles_alone() {
    let query = select(&users(Some(vec!["id", "name", "email"])));
    assert_eq!(compile_statement(&query), "SELECT id, name, email FROM users");
}

#[test]
fn select_empty_column_list_is_not_validated() {
    let query = select(&users(Some(vec![])));
    assert_eq!(compile_statement(&query), "SELECT  FROM users");
}

#[test]
fn insert_with_columns_lists_them() {
    let query = insert(&users(Some(vec!["id", "name"])))
        .values(&strings(&["1", "John"]));
    assert_eq!(compile_statement(&query), "INSERT INTO users (id, name) VALUES (1, John)");
    assert_eq!(query.statement_type, StatementType::Insert);
}

#[test]
fn insert_with_no_values_is_not_validated() {
    let query = insert(&users(None)).values(&Vec::new());
    assert_eq!(compile_statement(&query), "INSERT INTO users VALUES ()");
}

#[test]
fn delete_ignores_columns() {
    let query = delete(&users(Some(vec!["id"]))).where_clause(&"id = 3".to_string());
    assert_eq!(compile_statement(&query), "DELETE FROM users WHERE id = 3");
    assert_eq!(query.statement_type, StatementType::Delete);
}

#[test]
fn update_keeps_the_order_of_assignments() {
    let query = update(&users(Some(vec!["name", "age"])))
        .set(&pairs(&[("name", "Ann"), ("age", "40"), ("city", "Oslo")]));
    assert_eq!(compile_statement(&query), "UPDATE users SET name = Ann, age = 40, city = Oslo");
}

#[test]
fn empty_condition_is_taken_verbatim() {
    let query = select(&users(None)).where_clause(&String::new());
    assert_eq!(compile_statement(&query), "SELECT * FROM users WHERE ");
}

#[test]
fn compiling_twice_gives_the_same_text() {
    let query = update(&users(Some(vec!["id"])))
        .set(&pairs(&[("id", "2")]))
        .where_clause(&"id = 1".to_string());
    let first = compile_statement(&query);
    let second = compile_statement(&query);
    assert_eq!(first, second);
    assert_eq!(first, "UPDATE users SET id = 2 WHERE id = 1");
}

#[test]
fn appends_keep_call_order() {
    let model = users(None);
    let a = "id = 1".to_string();
    let b = strings(&["7"]);
    let stepwise = select(&model).where_clause(&a);
    let stepwise = stepwise.values(&b);
    let chained = select(&model).where_clause(&a).values(&b);
    let linked = QueryBlock {
        query_part: "SELECT * FROM users".to_string(),
        secondary_part: Some(Box::new(QueryBlock {
            query_part: "WHERE id = 1".to_string(),
            secondary_part: Some(Box::new(QueryBlock {
                query_part: "VALUES (7)".to_string(),
                secondary_part: None,
                statement_type: StatementType::Select,
            })),
            statement_type: StatementType::Select,
        })),
        statement_type: StatementType::Select,
    };
    assert_eq!(compile_statement(&stepwise), compile_statement(&linked));
    assert_eq!(compile_statement(&chained), compile_statement(&linked));
    let swapped = select(&model).values(&b).where_clause(&a);
    assert_eq!(compile_statement(&swapped), "SELECT * FROM users VALUES (7) WHERE id = 1");
}

#[test]
fn appended_nodes_carry_the_head_kind() {
    let query = update(&users(Some(vec!["id"])))
        .set(&pairs(&[("id", "2")]))
        .where_clause(&"id = 1".to_string());
    let second = query.secondary_part.as_ref().unwrap();
    let third = second.secondary_part.as_ref().unwrap();
    assert_eq!(second.statement_type, StatementType::Update);
    assert_eq!(third.statement_type, StatementType::Update);
    assert_eq!(second.query_part, "SET id = 2");
    assert_eq!(third.query_part, "WHERE id = 1");
    assert!(third.secondary_part.is_none());
}

#[test]
fn traversal_reaches_the_tail() {
    let mut query = select(&users(None))
        .where_clause(&"id = 1".to_string())
        .values(&strings(&["1", "2"]));
    let last = traverse_to_the_latest_node(&mut query);
    assert_eq!(last.query_part, "VALUES (1, 2)");
    last.query_part = "LIMIT 1".to_string();
    assert_eq!(compile_statement(&query), "SELECT * FROM users WHERE id = 1 LIMIT 1");
}

#[test]
fn traversal_of_a_single_node_returns_the_head() {
    let mut query = delete(&users(None));
    let last = traverse_to_the_latest_node(&mut query);
    assert_eq!(last.query_part, "DELETE FROM users");
}
