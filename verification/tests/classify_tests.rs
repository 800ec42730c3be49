use sqlgen::ast::GenError;
use sqlgen::classify::{classify, ShapeClass};

fn of(ty: &str) -> ShapeClass {
    classify(&Some(ty.to_string()), "d").expect("should classify")
}

#[test]
fn classify_absent_return_is_void() {
    assert_eq!(classify(&None, "d"), Ok(ShapeClass::Void));
}

#[test]
fn classify_option_wrapper() {
    assert_eq!(of("Option<User>"), ShapeClass::Optional("User".to_string()));
}

#[test]
fn classify_stream_wrapper() {
    assert_eq!(of("Stream<Event>"), ShapeClass::Stream("Event".to_string()));
}

#[test]
fn classify_vec_wrapper() {
    assert_eq!(of("Vec<Order>"), ShapeClass::Many("Order".to_string()));
}

#[test]
fn classify_scalar_names() {
    for ty in ["bool", "i8", "i16", "i32", "i64", "f32", "f64", "String"] {
        assert_eq!(of(ty), ShapeClass::Scalar(ty.to_string()));
    }
}

#[test]
fn classify_plain_composite_is_row() {
    assert_eq!(of("User"), ShapeClass::Row("User".to_string()));
}

#[test]
fn classify_qualified_path_is_row() {
    assert_eq!(of("my_mod::User"), ShapeClass::Row("my_mod::User".to_string()));
}

#[test]
fn classify_tuple_is_row() {
    assert_eq!(of("(i64, String)"), ShapeClass::Row("(i64, String)".to_string()));
}

#[test]
fn classify_only_outermost_level() {
    assert_eq!(of("Option<Vec<i64>>"), ShapeClass::Optional("Vec<i64>".to_string()));
    assert_eq!(of("Vec<Option<User>>"), ShapeClass::Many("Option<User>".to_string()));
}

#[test]
fn classify_inner_type_is_first_generic_argument() {
    assert_eq!(of("Vec<(i64, String)>"), ShapeClass::Many("(i64, String)".to_string()));
}

#[test]
fn classify_turbofish_argument_list() {
    assert_eq!(of("Vec::<i64>"), ShapeClass::Many("i64".to_string()));
    assert_eq!(of("Option::<User>"), ShapeClass::Optional("User".to_string()));
}

#[test]
fn classify_wrapper_without_arguments_is_syntax_error() {
    for ty in ["Option", "Stream", "Vec"] {
        let e = classify(&Some(ty.to_string()), "decl").expect_err("should fail");
        assert_eq!(e, GenError::SyntaxError("decl".to_string()));
    }
}

#[test]
fn classify_unclosed_argument_list_is_syntax_error() {
    for ty in ["Option<", "Vec<i64", "Stream<Event,", "Option<>"] {
        let e = classify(&Some(ty.to_string()), "decl").expect_err("should fail");
        assert_eq!(e, GenError::SyntaxError("decl".to_string()));
    }
}
