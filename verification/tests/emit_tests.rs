use sqlgen::ast::GenError;
use sqlgen::{database, transaction};

#[test]
fn database_scenario_get_user() {
    let out = database("get_user(id: i64) -> Option<User>;").expect("should generate");
    let expected = [
        "pub struct Database {",
        "    pool: ::sqlx::postgres::PgPool,",
        "}",
        "",
        "impl Database {",
        "    pub fn new(pool: ::sqlx::postgres::PgPool) -> Self {",
        "        Self { pool }",
        "    }",
        "",
        "    pub async fn close(&self) {",
        "        self.pool.close().await",
        "    }",
        "",
        "    pub async fn get_user(&self, id: i64) -> ::sqlx::Result<::std::option::Option<User>> {",
        "        let mut query = ::sqlx::query_as(\"SELECT * FROM get_user($1)\");",
        "        let mut query = query.bind(id);",
        "        query.fetch_optional(&self.pool).await",
        "    }",
        "}",
        "",
    ]
    .join("\n");
    assert_eq!(out, expected);
}

#[test]
fn database_scenario_list_orders() {
    let out = database("list_orders(customer: i64) -> Vec<Order>;").expect("should generate");
    assert!(out.contains("SELECT * FROM list_orders($1)"));
    assert!(out.contains(
        "    pub async fn list_orders(&self, customer: i64) -> ::sqlx::Result<::std::vec::Vec<Order>> {"
    ));
    assert!(out.contains("        query.fetch_all(&self.pool).await"));
}

#[test]
fn database_empty_declaration_list_is_scaffold_only() {
    let out = database("").expect("should generate");
    let expected = [
        "pub struct Database {",
        "    pool: ::sqlx::postgres::PgPool,",
        "}",
        "",
        "impl Database {",
        "    pub fn new(pool: ::sqlx::postgres::PgPool) -> Self {",
        "        Self { pool }",
        "    }",
        "",
        "    pub async fn close(&self) {",
        "        self.pool.close().await",
        "    }",
        "}",
        "",
    ]
    .join("\n");
    assert_eq!(out, expected);
}

#[test]
fn transaction_scenario_update_name() {
    let out = transaction("update_name(id: i64, name: String);").expect("should generate");
    let expected = [
        "pub struct Transaction {",
        "    inner: ::sqlx::Transaction<'static, ::sqlx::postgres::Postgres>,",
        "}",
        "",
        "impl Database {",
        "    pub async fn begin(&self) -> ::sqlx::Result<Transaction> {",
        "        Ok(Transaction { inner: self.pool.begin().await? })",
        "    }",
        "}",
        "",
        "impl Transaction {",
        "    pub async fn commit(self) -> ::sqlx::Result<()> {",
        "        self.inner.commit().await",
        "    }",
        "",
        "    pub async fn rollback(self) -> ::sqlx::Result<()> {",
        "        self.inner.rollback().await",
        "    }",
        "",
        "    pub async fn update_name(&mut self, id: i64, name: String) -> ::sqlx::Result<()> {",
        "        let mut query = ::sqlx::query(\"SELECT * FROM update_name($1,$2)\");",
        "        let mut query = query.bind(id);",
        "        let mut query = query.bind(name);",
        "        query.execute(&mut *self.inner).await?;",
        "        Ok(())",
        "    }",
        "}",
        "",
    ]
    .join("\n");
    assert_eq!(out, expected);
}

#[test]
fn generation_is_idempotent() {
    let input = "get_user(id: i64) -> Option<User>;\nlist_orders(customer: i64) -> Vec<Order>;\ntail_events() -> Stream<Event>;";
    assert_eq!(database(input).expect("ok"), database(input).expect("ok"));
    assert_eq!(transaction(input).expect("ok"), transaction(input).expect("ok"));
}

#[test]
fn stream_scenario_is_cold_in_both_containers() {
    let input = "tail_events() -> Stream<Event>;";
    let out = database(input).expect("should generate");
    assert!(out.contains(
        "    pub fn tail_events(&self) -> ::futures::stream::BoxStream<::sqlx::Result<Event>> {"
    ));
    assert!(out.contains("        query.fetch(&self.pool)"));
    assert!(!out.contains("    pub async fn tail_events"));
    let tx = transaction(input).expect("should generate");
    assert!(tx.contains(
        "    pub fn tail_events(&mut self) -> ::futures::stream::BoxStream<::sqlx::Result<Event>> {"
    ));
    assert!(tx.contains("        query.fetch(&mut *self.inner)"));
}

#[test]
fn parse_error_aborts_whole_generation() {
    let e = database("a() -> i64; b(").expect_err("should fail");
    assert_eq!(e, GenError::SyntaxError("b".to_string()));
}

#[test]
fn first_classification_error_wins() {
    let e = database("a() -> Option; b() -> Vec;").expect_err("should fail");
    assert_eq!(e, GenError::SyntaxError("a".to_string()));
}

#[test]
fn unsupported_pattern_surfaces_from_entry_points() {
    let e = transaction("f((a, b): Pair);").expect_err("should fail");
    assert_eq!(e, GenError::UnsupportedPattern("f".to_string()));
}
