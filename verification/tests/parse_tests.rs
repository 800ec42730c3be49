use sqlgen::ast::{GenError, SqlFn};
use sqlgen::parse::parse_declarations;

fn one(input: &str) -> SqlFn {
    let fs = parse_declarations(input).expect("should parse");
    assert_eq!(fs.len(), 1);
    fs.into_iter().next().unwrap()
}

#[test]
fn parse_basic_declaration() {
    let f = one("get_user(id: i64) -> Option<User>;");
    assert_eq!(f.name, "get_user");
    assert_eq!(f.generics, "");
    assert_eq!(f.params.len(), 1);
    assert_eq!(f.params[0].name, "id");
    assert_eq!(f.params[0].ty, "i64");
    assert_eq!(f.ret.as_deref(), Some("Option<User>"));
}

#[test]
fn parse_no_return_type() {
    let f = one("touch();");
    assert_eq!(f.name, "touch");
    assert_eq!(f.params.len(), 0);
    assert_eq!(f.ret, None);
}

#[test]
fn parse_arrow_with_empty_shape() {
    let f = one("touch_again() -> ;");
    assert_eq!(f.name, "touch_again");
    assert_eq!(f.ret, None);
}

#[test]
fn parse_generics_kept_verbatim() {
    let f = one("find<T: Into<String>>(key: T) -> Vec<T>;");
    assert_eq!(f.generics, "<T: Into<String>>");
    assert_eq!(f.params[0].name, "key");
    assert_eq!(f.params[0].ty, "T");
    assert_eq!(f.ret.as_deref(), Some("Vec<T>"));
}

#[test]
fn parse_parameter_order_kept() {
    let f = one("link(first: i64, second: String, third: bool);");
    let names: Vec<&str> = f.params.iter().map(|p| p.name.as_str()).collect();
    assert_eq!(names, ["first", "second", "third"]);
}

#[test]
fn parse_trailing_comma_accepted() {
    let f = one("f(a: i64,);");
    assert_eq!(f.params.len(), 1);
    assert_eq!(f.params[0].name, "a");
}

#[test]
fn parse_compound_parameter_type() {
    let f = one("store(pair: (i64, String), tags: Vec<String>);");
    assert_eq!(f.params[0].ty, "(i64, String)");
    assert_eq!(f.params[1].ty, "Vec<String>");
}

#[test]
fn parse_several_declarations_in_order() {
    let fs = parse_declarations("a(); b(x: i64) -> i64;\nc() -> Vec<Row>;").expect("should parse");
    let names: Vec<&str> = fs.iter().map(|f| f.name.as_str()).collect();
    assert_eq!(names, ["a", "b", "c"]);
}

#[test]
fn parse_empty_input_is_empty_list() {
    assert_eq!(parse_declarations("").expect("should parse").len(), 0);
    assert_eq!(parse_declarations("  \n\t ").expect("should parse").len(), 0);
}

#[test]
fn parse_duplicate_names_are_not_rejected() {
    let fs = parse_declarations("f(); f();").expect("should parse");
    assert_eq!(fs.len(), 2);
    assert_eq!(fs[0].name, "f");
    assert_eq!(fs[1].name, "f");
}

#[test]
fn parse_missing_terminator_is_syntax_error() {
    let e = parse_declarations("lonely()").expect_err("should fail");
    assert_eq!(e, GenError::SyntaxError("lonely".to_string()));
}

#[test]
fn parse_missing_terminator_after_return_type() {
    let e = parse_declarations("f() -> i64").expect_err("should fail");
    assert_eq!(e, GenError::SyntaxError("f".to_string()));
}

#[test]
fn parse_destructuring_pattern_is_unsupported() {
    let e = parse_declarations("f((a, b): Pair);").expect_err("should fail");
    assert_eq!(e, GenError::UnsupportedPattern("f".to_string()));
}

#[test]
fn parse_wildcard_pattern_is_unsupported() {
    let e = parse_declarations("f(_: i64);").expect_err("should fail");
    assert_eq!(e, GenError::UnsupportedPattern("f".to_string()));
}

#[test]
fn parse_missing_parameter_type_is_syntax_error() {
    let e = parse_declarations("f(a);").expect_err("should fail");
    assert!(matches!(e, GenError::SyntaxError(_)));
}

#[test]
fn parse_first_error_aborts_the_batch() {
    let e = parse_declarations("good(); bad(").expect_err("should fail");
    assert_eq!(e, GenError::SyntaxError("bad".to_string()));
}
