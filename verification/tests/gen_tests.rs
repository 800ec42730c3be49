use sqlgen::ast::{GenError, Param, SqlFn};
use sqlgen::gen::make_fn;
use sqlgen::parse::parse_declarations;

fn decl(name: &str, generics: &str, params: &[(&str, &str)], ret: Option<&str>) -> SqlFn {
    SqlFn {
        name: name.to_string(),
        generics: generics.to_string(),
        params: params
            .iter()
            .map(|(n, t)| Param { name: n.to_string(), ty: t.to_string() })
            .collect(),
        ret: ret.map(|t| t.to_string()),
    }
}

fn on_pool(f: &SqlFn) -> String {
    make_fn(f, false, "&self.pool").expect("should generate")
}

#[test]
fn method_void_executes_and_discards() {
    let expected = [
        "    pub async fn run_cleanup(&self) -> ::sqlx::Result<()> {",
        "        let mut query = ::sqlx::query(\"SELECT * FROM run_cleanup()\");",
        "        query.execute(&self.pool).await?;",
        "        Ok(())",
        "    }",
        "",
    ]
    .join("\n");
    assert_eq!(on_pool(&decl("run_cleanup", "", &[], None)), expected);
}

#[test]
fn method_scalar_projects_single_field() {
    let expected = [
        "    pub async fn count_users(&self) -> ::sqlx::Result<i64> {",
        "        let mut query = ::sqlx::query_as(\"SELECT * FROM count_users()\");",
        "        let row: (i64,) = query.fetch_one(&self.pool).await?;",
        "        Ok(row.0)",
        "    }",
        "",
    ]
    .join("\n");
    assert_eq!(on_pool(&decl("count_users", "", &[], Some("i64"))), expected);
}

#[test]
fn method_row_fetches_exactly_one() {
    let expected = [
        "    pub async fn get_config(&self) -> ::sqlx::Result<Config> {",
        "        let mut query = ::sqlx::query_as(\"SELECT * FROM get_config()\");",
        "        query.fetch_one(&self.pool).await",
        "    }",
        "",
    ]
    .join("\n");
    assert_eq!(on_pool(&decl("get_config", "", &[], Some("Config"))), expected);
}

#[test]
fn method_many_fetches_all() {
    let expected = [
        "    pub async fn list_orders(&self, customer: i64) -> ::sqlx::Result<::std::vec::Vec<Order>> {",
        "        let mut query = ::sqlx::query_as(\"SELECT * FROM list_orders($1)\");",
        "        let mut query = query.bind(customer);",
        "        query.fetch_all(&self.pool).await",
        "    }",
        "",
    ]
    .join("\n");
    assert_eq!(on_pool(&decl("list_orders", "", &[("customer", "i64")], Some("Vec<Order>"))), expected);
}

#[test]
fn method_optional_fetches_at_most_one() {
    let expected = [
        "    pub async fn get_user(&self, id: i64) -> ::sqlx::Result<::std::option::Option<User>> {",
        "        let mut query = ::sqlx::query_as(\"SELECT * FROM get_user($1)\");",
        "        let mut query = query.bind(id);",
        "        query.fetch_optional(&self.pool).await",
        "    }",
        "",
    ]
    .join("\n");
    assert_eq!(on_pool(&decl("get_user", "", &[("id", "i64")], Some("Option<User>"))), expected);
}

#[test]
fn method_stream_is_not_suspend_marked() {
    let expected = [
        "    pub fn tail_events(&self) -> ::futures::stream::BoxStream<::sqlx::Result<Event>> {",
        "        let mut query = ::sqlx::query_as(\"SELECT * FROM tail_events()\");",
        "        query.fetch(&self.pool)",
        "    }",
        "",
    ]
    .join("\n");
    let m = on_pool(&decl("tail_events", "", &[], Some("Stream<Event>")));
    assert_eq!(m, expected);
    assert!(!m.contains("async"));
    assert!(!m.contains(".await"));
}

#[test]
fn method_generics_forwarded_verbatim() {
    let expected = [
        "    pub async fn find<T: Send>(&self, key: T) -> ::sqlx::Result<T> {",
        "        let mut query = ::sqlx::query_as(\"SELECT * FROM find($1)\");",
        "        let mut query = query.bind(key);",
        "        query.fetch_one(&self.pool).await",
        "    }",
        "",
    ]
    .join("\n");
    assert_eq!(on_pool(&decl("find", "<T: Send>", &[("key", "T")], Some("T"))), expected);
}

#[test]
fn method_transaction_receiver_is_exclusive() {
    let expected = [
        "    pub async fn touch(&mut self) -> ::sqlx::Result<()> {",
        "        let mut query = ::sqlx::query(\"SELECT * FROM touch()\");",
        "        query.execute(&mut *self.inner).await?;",
        "        Ok(())",
        "    }",
        "",
    ]
    .join("\n");
    let m = make_fn(&decl("touch", "", &[], None), true, "&mut *self.inner").expect("should generate");
    assert_eq!(m, expected);
}

#[test]
fn method_binds_parameters_in_declaration_order() {
    let expected = [
        "    pub async fn f(&self, a: i64, b: String) -> ::sqlx::Result<::std::vec::Vec<T3>> {",
        "        let mut query = ::sqlx::query_as(\"SELECT * FROM f($1,$2)\");",
        "        let mut query = query.bind(a);",
        "        let mut query = query.bind(b);",
        "        query.fetch_all(&self.pool).await",
        "    }",
        "",
    ]
    .join("\n");
    assert_eq!(on_pool(&decl("f", "", &[("a", "i64"), ("b", "String")], Some("Vec<T3>"))), expected);
}

#[test]
fn method_zero_params_no_return_is_void_success() {
    let fs = parse_declarations("f() -> ;").expect("should parse");
    let expected = [
        "    pub async fn f(&self) -> ::sqlx::Result<()> {",
        "        let mut query = ::sqlx::query(\"SELECT * FROM f()\");",
        "        query.execute(&self.pool).await?;",
        "        Ok(())",
        "    }",
        "",
    ]
    .join("\n");
    assert_eq!(make_fn(&fs[0], false, "&self.pool").expect("should generate"), expected);
}

#[test]
fn method_malformed_wrapper_is_syntax_error() {
    let e = make_fn(&decl("f", "", &[], Some("Option")), false, "&self.pool")
        .expect_err("should fail");
    assert_eq!(e, GenError::SyntaxError("f".to_string()));
}
