//! The declaration parser: turns raw declaration text into a list of
//! [`SqlFn`] records.
//!
//! The grammar is `name<generics>(param: Type, ...) -> ReturnShape;`,
//! repeated until the end of the input. Generic-parameter lists are retained
//! verbatim and never interpreted. Parsing is strictly sequential; the first
//! malformed declaration aborts the whole pass with [`GenError::SyntaxError`]
//! (or [`GenError::UnsupportedPattern`] for a parameter binding that is not a
//! plain identifier), naming the declaration it stopped in.
//!
//! Every step is defined by a spec function on `Seq<char>`; the executable
//! functions are proved to return exactly what the spec functions say.

use vstd::prelude::*;
use crate::ast::{Param, ParamV, SqlFn, SqlFnV, GenError, ErrV, params_view, fns_view};
use crate::chars::{is_ident, is_ident_start, ident_start_char};
use crate::scan::{skip_ws, scan_ident_end, scan_angle, scan_type, rtrim_end, lemma_skip_ws,
    lemma_scan_ident_end, lemma_scan_ident_chars, lemma_scan_angle, lemma_scan_type,
    lemma_rtrim_end, skip_ws_x, scan_ident_end_x, scan_angle_x, scan_type_x, rtrim_end_x};

verus! {

/// One parameter, `ident ':' type`, starting at `i`. Returns the parsed
/// parameter (name, and type text with surrounding whitespace removed) and
/// the position one past the type.
pub open spec fn parse_param_spec(s: Seq<char>, i: int, decl: Seq<char>) -> (Result<
    ParamV,
    ErrV,
>, int) {
    let j = skip_ws(s, i);
    if j >= s.len() {
        (Result::Err(ErrV::Syntax(decl)), j)
    } else if !is_ident_start(s[j]) {
        (Result::Err(ErrV::Unsupported(decl)), j)
    } else {
        let k = scan_ident_end(s, j);
        if k == j + 1 && s[j] == '_' {
            (Result::Err(ErrV::Unsupported(decl)), k)
        } else {
            let j2 = skip_ws(s, k);
            if j2 >= s.len() || s[j2] != ':' {
                (Result::Err(ErrV::Syntax(decl)), j2)
            } else {
                let t0 = skip_ws(s, j2 + 1);
                match scan_type(s, t0, 0, false) {
                    Option::None => (Result::Err(ErrV::Syntax(decl)), t0),
                    Option::Some(e) => {
                        let te = rtrim_end(s, t0, e);
                        if te <= t0 {
                            (Result::Err(ErrV::Syntax(decl)), t0)
                        } else {
                            (Result::Ok(ParamV { name: s.subrange(j, k), ty: s.subrange(t0, te) }),
                            e)
                        }
                    },
                }
            }
        }
    }
}

pub proof fn lemma_parse_param(s: Seq<char>, i: int, decl: Seq<char>)
    requires
        i <= s.len(),
    ensures
        i <= parse_param_spec(s, i, decl).1 <= s.len(),
{
    lemma_skip_ws(s, i);
    let j = skip_ws(s, i);
    if j < s.len() && is_ident_start(s[j]) {
        lemma_scan_ident_end(s, j);
        let k = scan_ident_end(s, j);
        lemma_skip_ws(s, k);
        let j2 = skip_ws(s, k);
        if j2 < s.len() && s[j2] == ':' {
            lemma_skip_ws(s, j2 + 1);
            let t0 = skip_ws(s, j2 + 1);
            lemma_scan_type(s, t0, 0, false);
            match scan_type(s, t0, 0, false) {
                Option::None => {
                },
                Option::Some(e) => {
                    lemma_rtrim_end(s, t0, e);
                },
            }
        }
    }
}

/// The parameter list after the opening parenthesis: parameters separated by
/// commas, an optional trailing comma, then the closing parenthesis. Returns
/// the parameters in declaration order and the position one past `)`.
pub open spec fn parse_params_spec(s: Seq<char>, i: int, decl: Seq<char>) -> (Result<
    Seq<ParamV>,
    ErrV,
>, int)
    decreases s.len() - i,
    via parse_params_spec_dec
{
    let j = skip_ws(s, i);
    if j >= s.len() {
        (Result::Err(ErrV::Syntax(decl)), j)
    } else if s[j] == ')' {
        (Result::Ok(Seq::<ParamV>::empty()), j + 1)
    } else {
        match parse_param_spec(s, j, decl) {
            (Result::Err(e), p) => (Result::Err(e), p),
            (Result::Ok(prm), p) => {
                let q = skip_ws(s, p);
                if q >= s.len() {
                    (Result::Err(ErrV::Syntax(decl)), q)
                } else if s[q] == ',' {
                    match parse_params_spec(s, q + 1, decl) {
                        (Result::Err(e), r) => (Result::Err(e), r),
                        (Result::Ok(rest), r) => (Result::Ok(seq![prm] + rest), r),
                    }
                } else if s[q] == ')' {
                    (Result::Ok(seq![prm]), q + 1)
                } else {
                    (Result::Err(ErrV::Syntax(decl)), q)
                }
            },
        }
    }
}

#[via_fn]
proof fn parse_params_spec_dec(s: Seq<char>, i: int, decl: Seq<char>) {
    lemma_skip_ws(s, i);
    let j = skip_ws(s, i);
    if j < s.len() {
        lemma_parse_param(s, j, decl);
        let p = parse_param_spec(s, j, decl).1;
        lemma_skip_ws(s, p);
    }
}

pub proof fn lemma_parse_params(s: Seq<char>, i: int, decl: Seq<char>)
    requires
        i <= s.len(),
    ensures
        i <= parse_params_spec(s, i, decl).1 <= s.len(),
    decreases s.len() - i,
{
    lemma_skip_ws(s, i);
    let j = skip_ws(s, i);
    if j < s.len() && s[j] != ')' {
        lemma_parse_param(s, j, decl);
        match parse_param_spec(s, j, decl) {
            (Result::Err(_), _) => {
            },
            (Result::Ok(_), p) => {
                lemma_skip_ws(s, p);
                let q = skip_ws(s, p);
                if q < s.len() && s[q] == ',' {
                    lemma_parse_params(s, q + 1, decl);
                }
            },
        }
    }
}

/// The return shape and terminator after the parameter list: either `;`
/// alone (no return shape), or `->` followed by an optional type text and
/// `;`. Returns the verbatim trimmed type text, `None` when absent, and the
/// position one past `;`. A missing terminator is a syntax error.
pub open spec fn parse_ret_spec(s: Seq<char>, i: int, decl: Seq<char>) -> (Result<
    Option<Seq<char>>,
    ErrV,
>, int) {
    let j = skip_ws(s, i);
    if j >= s.len() {
        (Result::Err(ErrV::Syntax(decl)), j)
    } else if s[j] == ';' {
        (Result::Ok(Option::None), j + 1)
    } else if s[j] == '-' && j + 1 < s.len() && s[j + 1] == '>' {
        let t0 = skip_ws(s, j + 2);
        if t0 >= s.len() {
            (Result::Err(ErrV::Syntax(decl)), t0)
        } else if s[t0] == ';' {
            (Result::Ok(Option::None), t0 + 1)
        } else {
            match scan_type(s, t0, 0, true) {
                Option::None => (Result::Err(ErrV::Syntax(decl)), t0),
                Option::Some(e) => {
                    let te = rtrim_end(s, t0, e);
                    (Result::Ok(Option::Some(s.subrange(t0, te))), e + 1)
                },
            }
        }
    } else {
        (Result::Err(ErrV::Syntax(decl)), j)
    }
}

pub proof fn lemma_parse_ret(s: Seq<char>, i: int, decl: Seq<char>)
    requires
        i <= s.len(),
    ensures
        i <= parse_ret_spec(s, i, decl).1 <= s.len(),
        parse_ret_spec(s, i, decl).0 is Ok ==> i < parse_ret_spec(s, i, decl).1,
{
    lemma_skip_ws(s, i);
    let j = skip_ws(s, i);
    if j < s.len() && s[j] != ';' && s[j] == '-' && j + 1 < s.len() && s[j + 1] == '>' {
        lemma_skip_ws(s, j + 2);
        let t0 = skip_ws(s, j + 2);
        if t0 < s.len() && s[t0] != ';' {
            lemma_scan_type(s, t0, 0, true);
            match scan_type(s, t0, 0, true) {
                Option::None => {
                },
                Option::Some(e) => {
                    lemma_rtrim_end(s, t0, e);
                },
            }
        }
    }
}

/// The rest of one declaration once its name and generics are read: the
/// parenthesised parameter list, then the return shape and terminator.
pub open spec fn parse_decl_rest_spec(
    s: Seq<char>,
    i: int,
    name: Seq<char>,
    generics: Seq<char>,
) -> (Result<SqlFnV, ErrV>, int) {
    let j = skip_ws(s, i);
    if j >= s.len() || s[j] != '(' {
        (Result::Err(ErrV::Syntax(name)), j)
    } else {
        match parse_params_spec(s, j + 1, name) {
            (Result::Err(e), p) => (Result::Err(e), p),
            (Result::Ok(params), p) => match parse_ret_spec(s, p, name) {
                (Result::Err(e), q) => (Result::Err(e), q),
                (Result::Ok(ret), q) => (Result::Ok(SqlFnV { name, generics, params, ret }), q),
            },
        }
    }
}

/// One whole declaration starting at `i`: name, optional verbatim generics,
/// parameter list, return shape, terminator.
pub open spec fn parse_decl_spec(s: Seq<char>, i: int) -> (Result<SqlFnV, ErrV>, int) {
    let j = skip_ws(s, i);
    if j >= s.len() || !is_ident_start(s[j]) {
        (Result::Err(ErrV::Syntax(Seq::<char>::empty())), j)
    } else {
        let k = scan_ident_end(s, j);
        let name = s.subrange(j, k);
        let j2 = skip_ws(s, k);
        if j2 < s.len() && s[j2] == '<' {
            match scan_angle(s, j2, 0) {
                Option::None => (Result::Err(ErrV::Syntax(name)), j2),
                Option::Some(ge) => parse_decl_rest_spec(s, ge, name, s.subrange(j2, ge)),
            }
        } else {
            parse_decl_rest_spec(s, j2, name, Seq::<char>::empty())
        }
    }
}

pub proof fn lemma_parse_decl(s: Seq<char>, i: int)
    requires
        i <= s.len(),
    ensures
        parse_decl_spec(s, i).0 is Ok ==> i < parse_decl_spec(s, i).1 <= s.len(),
{
    lemma_skip_ws(s, i);
    let j = skip_ws(s, i);
    if j < s.len() && is_ident_start(s[j]) {
        lemma_scan_ident_end(s, j);
        let k = scan_ident_end(s, j);
        let name = s.subrange(j, k);
        lemma_skip_ws(s, k);
        let j2 = skip_ws(s, k);
        if j2 < s.len() && s[j2] == '<' {
            lemma_scan_angle(s, j2, 0);
            match scan_angle(s, j2, 0) {
                Option::None => {
                },
                Option::Some(ge) => {
                    lemma_parse_decl_rest(s, ge, name, s.subrange(j2, ge));
                },
            }
        } else {
            lemma_parse_decl_rest(s, j2, name, Seq::<char>::empty());
        }
    }
}

proof fn lemma_parse_decl_rest(s: Seq<char>, i: int, name: Seq<char>, generics: Seq<char>)
    requires
        i <= s.len(),
    ensures
        parse_decl_rest_spec(s, i, name, generics).0 is Ok ==> i < parse_decl_rest_spec(
            s,
            i,
            name,
            generics,
        ).1 <= s.len(),
{
    lemma_skip_ws(s, i);
    let j = skip_ws(s, i);
    if j < s.len() && s[j] == '(' {
        lemma_parse_params(s, j + 1, name);
        match parse_params_spec(s, j + 1, name) {
            (Result::Err(_), _) => {
            },
            (Result::Ok(_), p) => {
                lemma_parse_ret(s, p, name);
            },
        }
    }
}

/// The whole declaration list: declarations in order until the end of the
/// input, or the first error.
pub open spec fn parse_decls_spec(s: Seq<char>, i: int) -> Result<Seq<SqlFnV>, ErrV>
    decreases s.len() - i,
    via parse_decls_spec_dec
{
    let j = skip_ws(s, i);
    if j >= s.len() {
        Result::Ok(Seq::<SqlFnV>::empty())
    } else {
        match parse_decl_spec(s, i) {
            (Result::Err(e), _) => Result::Err(e),
            (Result::Ok(f), n) => match parse_decls_spec(s, n) {
                Result::Err(e) => Result::Err(e),
                Result::Ok(rest) => Result::Ok(seq![f] + rest),
            },
        }
    }
}

#[via_fn]
proof fn parse_decls_spec_dec(s: Seq<char>, i: int) {
    lemma_skip_ws(s, i);
    if i <= s.len() {
        lemma_parse_decl(s, i);
    }
}

/// What the parser promises of the whole input: the list of declarations
/// that [`parse_decls_spec`] names from position `0`.
pub open spec fn parse_spec(s: Seq<char>) -> Result<Seq<SqlFnV>, ErrV> {
    parse_decls_spec(s, 0)
}

proof fn lemma_parse_decl_name(s: Seq<char>, i: int)
    requires
        0 <= i <= s.len(),
    ensures
        parse_decl_spec(s, i).0 matches Result::Ok(f) ==> is_ident(f.name),
{
    lemma_skip_ws(s, i);
    let j = skip_ws(s, i);
    if j < s.len() && is_ident_start(s[j]) {
        lemma_scan_ident_end(s, j);
        lemma_scan_ident_end(s, j + 1);
        lemma_scan_ident_chars(s, j);
        let k = scan_ident_end(s, j);
        assert(k == scan_ident_end(s, j + 1));
        assert(k >= j + 1);
        let name = s.subrange(j, k);
        assert(name[0] == s[j]);
        assert(forall|m: int| 0 <= m < name.len() ==> name[m] == s[j + m]);
    }
}

/// Every declaration name the parser accepts is a well-formed identifier.
pub proof fn lemma_parsed_names_are_identifiers(s: Seq<char>, i: int)
    requires
        0 <= i <= s.len(),
    ensures
        parse_decls_spec(s, i) matches Result::Ok(fs) ==> forall|k: int|
            0 <= k < fs.len() ==> is_ident(#[trigger] fs[k].name),
    decreases s.len() - i,
{
    lemma_skip_ws(s, i);
    let j = skip_ws(s, i);
    if j < s.len() {
        lemma_parse_decl(s, i);
        lemma_parse_decl_name(s, i);
        match parse_decl_spec(s, i) {
            (Result::Err(_), _) => {
            },
            (Result::Ok(f), n) => {
                lemma_parsed_names_are_identifiers(s, n);
                match parse_decls_spec(s, n) {
                    Result::Err(_) => {
                    },
                    Result::Ok(rest) => {
                        let fs = seq![f] + rest;
                        assert(forall|k: int| 0 <= k < fs.len() ==> is_ident(#[trigger] fs[k].name))
                            by {
                            assert(fs[0] == f);
                            assert(forall|k: int| 1 <= k < fs.len() ==> fs[k] == rest[k - 1]);
                        }
                    },
                }
            },
        }
    }
}

pub fn parse_param_x(s: &str, n: usize, i: usize, decl: &str) -> (r: (Result<Param, GenError>, usize))
    requires
        n == s@.len(),
        i <= n,
    ensures
        ({
            let (sr, sn) = parse_param_spec(s@, i as int, decl@);
            &&& r.1 as int == sn
            &&& i <= r.1 <= n
            &&& (match r.0 {
                Result::Ok(p) => sr == Result::<ParamV, ErrV>::Ok(p@),
                Result::Err(e) => sr == Result::<ParamV, ErrV>::Err(e@),
            })
        }),
{
    proof {
        lemma_parse_param(s@, i as int, decl@);
    }
    let j = skip_ws_x(s, n, i);
    if j >= n {
        (Result::Err(GenError::SyntaxError(decl.to_owned())), j)
    } else if !ident_start_char(s.get_char(j)) {
        (Result::Err(GenError::UnsupportedPattern(decl.to_owned())), j)
    } else {
        let k = scan_ident_end_x(s, n, j);
        if k == j + 1 && s.get_char(j) == '_' {
            (Result::Err(GenError::UnsupportedPattern(decl.to_owned())), k)
        } else {
            let j2 = skip_ws_x(s, n, k);
            if j2 >= n || s.get_char(j2) != ':' {
                (Result::Err(GenError::SyntaxError(decl.to_owned())), j2)
            } else {
                let t0 = skip_ws_x(s, n, j2 + 1);
                match scan_type_x(s, n, t0, 0, false) {
                    Option::None => (Result::Err(GenError::SyntaxError(decl.to_owned())), t0),
                    Option::Some(e) => {
                        let te = rtrim_end_x(s, n, t0, e);
                        if te <= t0 {
                            (Result::Err(GenError::SyntaxError(decl.to_owned())), t0)
                        } else {
                            let name = s.substring_char(j, k).to_owned();
                            let ty = s.substring_char(t0, te).to_owned();
                            (Result::Ok(Param { name, ty }), e)
                        }
                    },
                }
            }
        }
    }
}

pub fn parse_params_x(s: &str, n: usize, i: usize, decl: &str) -> (r: (Result<
    Vec<Param>,
    GenError,
>, usize))
    requires
        n == s@.len(),
        i <= n,
    ensures
        ({
            let (sr, sn) = parse_params_spec(s@, i as int, decl@);
            &&& r.1 as int == sn
            &&& i <= r.1 <= n
            &&& (match r.0 {
                Result::Ok(v) => sr == Result::<Seq<ParamV>, ErrV>::Ok(params_view(v@)),
                Result::Err(e) => sr == Result::<Seq<ParamV>, ErrV>::Err(e@),
            })
        }),
    decreases n - i,
{
    proof {
        lemma_parse_params(s@, i as int, decl@);
    }
    let j = skip_ws_x(s, n, i);
    if j >= n {
        (Result::Err(GenError::SyntaxError(decl.to_owned())), j)
    } else if s.get_char(j) == ')' {
        let v: Vec<Param> = Vec::new();
        assert(params_view(v@) =~= Seq::<ParamV>::empty());
        (Result::Ok(v), j + 1)
    } else {
        let (pr, p) = parse_param_x(s, n, j, decl);
        match pr {
            Result::Err(e) => (Result::Err(e), p),
            Result::Ok(prm) => {
                let q = skip_ws_x(s, n, p);
                if q >= n {
                    (Result::Err(GenError::SyntaxError(decl.to_owned())), q)
                } else if s.get_char(q) == ',' {
                    let (rr, rn) = parse_params_x(s, n, q + 1, decl);
                    match rr {
                        Result::Err(e) => (Result::Err(e), rn),
                        Result::Ok(mut rest) => {
                            let ghost old_rest = rest@;
                            rest.insert(0, prm);
                            assert(params_view(rest@) =~= seq![prm@] + params_view(old_rest));
                            (Result::Ok(rest), rn)
                        },
                    }
                } else if s.get_char(q) == ')' {
                    let mut v: Vec<Param> = Vec::new();
                    v.push(prm);
                    assert(params_view(v@) =~= seq![prm@]);
                    (Result::Ok(v), q + 1)
                } else {
                    (Result::Err(GenError::SyntaxError(decl.to_owned())), q)
                }
            },
        }
    }
}

pub fn parse_ret_x(s: &str, n: usize, i: usize, decl: &str) -> (r: (Result<
    Option<String>,
    GenError,
>, usize))
    requires
        n == s@.len(),
        i <= n,
    ensures
        ({
            let (sr, sn) = parse_ret_spec(s@, i as int, decl@);
            &&& r.1 as int == sn
            &&& i <= r.1 <= n
            &&& (match r.0 {
                Result::Ok(o) => sr == Result::<Option<Seq<char>>, ErrV>::Ok(
                    match o {
                        Option::Some(t) => Option::Some(t@),
                        Option::None => Option::None,
                    },
                ),
                Result::Err(e) => sr == Result::<Option<Seq<char>>, ErrV>::Err(e@),
            })
        }),
{
    proof {
        lemma_parse_ret(s@, i as int, decl@);
    }
    let j = skip_ws_x(s, n, i);
    if j >= n {
        (Result::Err(GenError::SyntaxError(decl.to_owned())), j)
    } else if s.get_char(j) == ';' {
        (Result::Ok(Option::None), j + 1)
    } else if s.get_char(j) == '-' && j + 1 < n && s.get_char(j + 1) == '>' {
        let t0 = skip_ws_x(s, n, j + 2);
        if t0 >= n {
            (Result::Err(GenError::SyntaxError(decl.to_owned())), t0)
        } else if s.get_char(t0) == ';' {
            (Result::Ok(Option::None), t0 + 1)
        } else {
            match scan_type_x(s, n, t0, 0, true) {
                Option::None => (Result::Err(GenError::SyntaxError(decl.to_owned())), t0),
                Option::Some(e) => {
                    let te = rtrim_end_x(s, n, t0, e);
                    let ty = s.substring_char(t0, te).to_owned();
                    (Result::Ok(Option::Some(ty)), e + 1)
                },
            }
        }
    } else {
        (Result::Err(GenError::SyntaxError(decl.to_owned())), j)
    }
}

fn parse_decl_rest_x(s: &str, n: usize, i: usize, name: &str, generics: String) -> (r: (Result<
    SqlFn,
    GenError,
>, usize))
    requires
        n == s@.len(),
        i <= n,
    ensures
        ({
            let (sr, sn) = parse_decl_rest_spec(s@, i as int, name@, generics@);
            &&& r.1 as int == sn
            &&& (match r.0 {
                Result::Ok(f) => sr == Result::<SqlFnV, ErrV>::Ok(f@),
                Result::Err(e) => sr == Result::<SqlFnV, ErrV>::Err(e@),
            })
        }),
{
    let j = skip_ws_x(s, n, i);
    if j >= n || s.get_char(j) != '(' {
        (Result::Err(GenError::SyntaxError(name.to_owned())), j)
    } else {
        let (pr, p) = parse_params_x(s, n, j + 1, name);
        match pr {
            Result::Err(e) => (Result::Err(e), p),
            Result::Ok(params) => {
                let (rr, q) = parse_ret_x(s, n, p, name);
                match rr {
                    Result::Err(e) => (Result::Err(e), q),
                    Result::Ok(ret) => (
                        Result::Ok(SqlFn { name: name.to_owned(), generics, params, ret }),
                        q,
                    ),
                }
            },
        }
    }
}

pub fn parse_decl_x(s: &str, n: usize, i: usize) -> (r: (Result<SqlFn, GenError>, usize))
    requires
        n == s@.len(),
        i <= n,
    ensures
        ({
            let (sr, sn) = parse_decl_spec(s@, i as int);
            &&& r.1 as int == sn
            &&& (match r.0 {
                Result::Ok(f) => sr == Result::<SqlFnV, ErrV>::Ok(f@),
                Result::Err(e) => sr == Result::<SqlFnV, ErrV>::Err(e@),
            })
        }),
{
    let j = skip_ws_x(s, n, i);
    if j >= n || !ident_start_char(s.get_char(j)) {
        (Result::Err(GenError::SyntaxError(String::new())), j)
    } else {
        let k = scan_ident_end_x(s, n, j);
        let name = s.substring_char(j, k);
        let j2 = skip_ws_x(s, n, k);
        if j2 < n && s.get_char(j2) == '<' {
            match scan_angle_x(s, n, j2, 0) {
                Option::None => (Result::Err(GenError::SyntaxError(name.to_owned())), j2),
                Option::Some(ge) => {
                    let generics = s.substring_char(j2, ge).to_owned();
                    parse_decl_rest_x(s, n, ge, name, generics)
                },
            }
        } else {
            parse_decl_rest_x(s, n, j2, name, String::new())
        }
    }
}

pub fn parse_decls_x(s: &str, n: usize, i: usize) -> (r: Result<Vec<SqlFn>, GenError>)
    requires
        n == s@.len(),
        i <= n,
    ensures
        (match r {
            Result::Ok(v) => parse_decls_spec(s@, i as int) == Result::<Seq<SqlFnV>, ErrV>::Ok(
                fns_view(v@),
            ),
            Result::Err(e) => parse_decls_spec(s@, i as int) == Result::<Seq<SqlFnV>, ErrV>::Err(
                e@,
            ),
        }),
    decreases n - i,
{
    let j = skip_ws_x(s, n, i);
    if j >= n {
        let v: Vec<SqlFn> = Vec::new();
        assert(fns_view(v@) =~= Seq::<SqlFnV>::empty());
        Result::Ok(v)
    } else {
        let (fr, nx) = parse_decl_x(s, n, i);
        match fr {
            Result::Err(e) => Result::Err(e),
            Result::Ok(f) => {
                proof {
                    lemma_parse_decl(s@, i as int);
                }
                match parse_decls_x(s, n, nx) {
                    Result::Err(e) => Result::Err(e),
                    Result::Ok(mut rest) => {
                        let ghost old_rest = rest@;
                        rest.insert(0, f);
                        assert(fns_view(rest@) =~= seq![f@] + fns_view(old_rest));
                        Result::Ok(rest)
                    },
                }
            },
        }
    }
}

/// Parses a whole declaration list. Returns the declarations in input order,
/// or the first error: parsing aborts at the first malformed declaration and
/// produces nothing for the ones before it.
///
/// Duplicate declaration names are deliberately not rejected: the parser
/// does no name resolution, and every declaration generates its own method.
pub fn parse_declarations(input: &str) -> (r: Result<Vec<SqlFn>, GenError>)
    ensures
        (match r {
            Result::Ok(v) => parse_spec(input@) == Result::<Seq<SqlFnV>, ErrV>::Ok(fns_view(v@)),
            Result::Err(e) => parse_spec(input@) == Result::<Seq<SqlFnV>, ErrV>::Err(e@),
        }),
{
    let n = input.unicode_len();
    parse_decls_x(input, n, 0)
}

} // verus!
