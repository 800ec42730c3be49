use sqlgen::query::query_for_fn;

#[test]
fn statement_zero_params() {
    assert_eq!(query_for_fn("refresh_all", 0), "SELECT * FROM refresh_all()");
}

#[test]
fn statement_one_param() {
    assert_eq!(query_for_fn("get_user", 1), "SELECT * FROM get_user($1)");
}

#[test]
fn statement_two_params() {
    assert_eq!(query_for_fn("find_order", 2), "SELECT * FROM find_order($1,$2)");
}

#[test]
fn statement_twelve_params_two_digit_placeholders() {
    assert_eq!(
        query_for_fn("wide", 12),
        "SELECT * FROM wide($1,$2,$3,$4,$5,$6,$7,$8,$9,$10,$11,$12)"
    );
}

#[test]
fn statement_placeholder_count_matches_arity() {
    for n in 0..40usize {
        let q = query_for_fn("p", n);
        assert_eq!(q.chars().filter(|c| *c == '$').count(), n);
    }
}

#[test]
fn statement_placeholders_numbered_in_order() {
    let q = query_for_fn("f", 3);
    let inner = &q["SELECT * FROM f(".len()..q.len() - 1];
    let parts: Vec<&str> = inner.split(',').collect();
    assert_eq!(parts, ["$1", "$2", "$3"]);
}
