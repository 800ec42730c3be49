//! The return-shape classifier: a purely structural inspection of the
//! outermost name of a return-type expression.
//!
//! Priority order: no return type at all is `Void`; `Option<T>` is
//! `Optional`; `Stream<T>` is `Stream`; `Vec<T>` is `Many`; one of a fixed
//! set of scalar type names is `Scalar`; anything else is `Row`. Only the
//! outermost segment is inspected — nested generic arguments pass through
//! opaquely as the inner type. A wrapper whose angle-bracket argument list
//! is missing or malformed is a fatal syntax error: recovery is not
//! attempted, since a misclassified shape would generate a call sequence
//! against the wrong fetch strategy.

use vstd::prelude::*;
use crate::ast::{GenError, ErrV};
use crate::chars::{is_ident_start, ident_start_char, str_eq};
use crate::scan::{skip_ws, scan_ident_end, scan_angle, rtrim_end, lemma_scan_ident_end,
    skip_ws_x, scan_ident_end_x, scan_angle_x, rtrim_end_x};

verus! {

/// A classified return shape, carrying the verbatim inner type text.
///
/// For `Scalar` and `Row` the whole return type doubles as the inner type;
/// for the three wrappers the inner type is the first generic argument.
#[derive(Debug, Clone, PartialEq, Eq)]
pub enum ShapeClass {
    Void,
    Scalar(String),
    Optional(String),
    Many(String),
    Stream(String),
    Row(String),
}

/// Mathematical model of a [`ShapeClass`].
pub ghost enum ShapeV {
    Void,
    Scalar(Seq<char>),
    Optional(Seq<char>),
    Many(Seq<char>),
    Stream(Seq<char>),
    Row(Seq<char>),
}

impl View for ShapeClass {
    type V = ShapeV;

    open spec fn view(&self) -> ShapeV {
        match self {
            ShapeClass::Void => ShapeV::Void,
            ShapeClass::Scalar(t) => ShapeV::Scalar(t@),
            ShapeClass::Optional(t) => ShapeV::Optional(t@),
            ShapeClass::Many(t) => ShapeV::Many(t@),
            ShapeClass::Stream(t) => ShapeV::Stream(t@),
            ShapeClass::Row(t) => ShapeV::Row(t@),
        }
    }
}

/// The scalar type names: single-column results projected from a one-field
/// tuple row.
pub open spec fn is_scalar_name(s: Seq<char>) -> bool {
    ||| s == "bool"@
    ||| s == "i8"@
    ||| s == "i16"@
    ||| s == "i32"@
    ||| s == "i64"@
    ||| s == "f32"@
    ||| s == "f64"@
    ||| s == "String"@
}

fn scalar_name(s: &str) -> (r: bool)
    ensures
        r == is_scalar_name(s@),
{
    str_eq(s, "bool") || str_eq(s, "i8") || str_eq(s, "i16") || str_eq(s, "i32") || str_eq(
        s,
        "i64",
    ) || str_eq(s, "f32") || str_eq(s, "f64") || str_eq(s, "String")
}

/// End of the first generic argument starting at `i`: the first `,` or `>`
/// outside every bracket. `None` when the text ends first or a bracket
/// closes that never opened.
pub open spec fn scan_generic_arg(s: Seq<char>, i: int, depth: nat) -> Option<int>
    decreases s.len() - i,
{
    if i >= s.len() {
        Option::None
    } else if depth == 0 && (s[i] == ',' || s[i] == '>') {
        Option::Some(i)
    } else if s[i] == '<' || s[i] == '(' || s[i] == '[' {
        scan_generic_arg(s, i + 1, depth + 1)
    } else if s[i] == ')' || s[i] == ']' {
        if depth == 0 {
            Option::None
        } else {
            scan_generic_arg(s, i + 1, (depth - 1) as nat)
        }
    } else if s[i] == '>' {
        scan_generic_arg(s, i + 1, (depth - 1) as nat)
    } else {
        scan_generic_arg(s, i + 1, depth)
    }
}

pub proof fn lemma_scan_generic_arg(s: Seq<char>, i: int, depth: nat)
    ensures
        scan_generic_arg(s, i, depth) matches Option::Some(e) ==> i <= e < s.len(),
    decreases s.len() - i,
{
    if i < s.len() {
        lemma_scan_generic_arg(s, i + 1, depth + 1);
        if depth >= 1 {
            lemma_scan_generic_arg(s, i + 1, (depth - 1) as nat);
        }
        lemma_scan_generic_arg(s, i + 1, depth);
    }
}

fn scan_generic_arg_x(s: &str, n: usize, i: usize, depth: usize) -> (r: Option<usize>)
    requires
        n == s@.len(),
        i <= n,
        depth <= i,
    ensures
        (match r {
            Option::Some(e) => scan_generic_arg(s@, i as int, depth as nat) == Option::Some(
                e as int,
            ) && i <= e < n,
            Option::None => scan_generic_arg(s@, i as int, depth as nat) is None,
        }),
    decreases n - i,
{
    proof {
        lemma_scan_generic_arg(s@, i as int, depth as nat);
    }
    if i >= n {
        Option::None
    } else {
        let c = s.get_char(i);
        if depth == 0 && (c == ',' || c == '>') {
            Option::Some(i)
        } else if c == '<' || c == '(' || c == '[' {
            scan_generic_arg_x(s, n, i + 1, depth + 1)
        } else if c == ')' || c == ']' {
            if depth == 0 {
                Option::None
            } else {
                scan_generic_arg_x(s, n, i + 1, depth - 1)
            }
        } else if c == '>' {
            // depth >= 1 here: depth 0 was handled by the stop case above
            scan_generic_arg_x(s, n, i + 1, depth - 1)
        } else {
            scan_generic_arg_x(s, n, i + 1, depth)
        }
    }
}

/// The classification of a return-type expression (or of its absence),
/// as a function of the trimmed type text alone. Errors name the declaration
/// `decl` the expression came from.
pub open spec fn classify_spec(ret: Option<Seq<char>>, decl: Seq<char>) -> Result<ShapeV, ErrV> {
    match ret {
        Option::None => Result::Ok(ShapeV::Void),
        Option::Some(t) => {
            if t.len() == 0 || !is_ident_start(t[0]) {
                Result::Ok(ShapeV::Row(t))
            } else {
                let k = scan_ident_end(t, 0);
                let head = t.subrange(0, k);
                if head == "Option"@ || head == "Stream"@ || head == "Vec"@ {
                    let j0 = skip_ws(t, k);
                    let j = if j0 + 1 < t.len() && t[j0] == ':' && t[j0 + 1] == ':' {
                        skip_ws(t, j0 + 2)
                    } else {
                        j0
                    };
                    if j >= t.len() || t[j] != '<' {
                        Result::Err(ErrV::Syntax(decl))
                    } else if scan_angle(t, j, 0) is None {
                        Result::Err(ErrV::Syntax(decl))
                    } else {
                        let a0 = skip_ws(t, j + 1);
                        match scan_generic_arg(t, a0, 0) {
                            Option::None => Result::Err(ErrV::Syntax(decl)),
                            Option::Some(e) => {
                                let ae = rtrim_end(t, a0, e);
                                if ae <= a0 {
                                    Result::Err(ErrV::Syntax(decl))
                                } else {
                                    let inner = t.subrange(a0, ae);
                                    if head == "Option"@ {
                                        Result::Ok(ShapeV::Optional(inner))
                                    } else if head == "Stream"@ {
                                        Result::Ok(ShapeV::Stream(inner))
                                    } else {
                                        Result::Ok(ShapeV::Many(inner))
                                    }
                                }
                            },
                        }
                    }
                } else if is_scalar_name(head) {
                    Result::Ok(ShapeV::Scalar(t))
                } else {
                    Result::Ok(ShapeV::Row(t))
                }
            }
        },
    }
}

/// The view of an optional return-type text.
pub open spec fn ret_view(o: Option<String>) -> Option<Seq<char>> {
    match o {
        Option::Some(ref t) => Option::Some(t@),
        Option::None => Option::None,
    }
}

/// Classifies a return-type expression into its shape. `decl` is the name
/// of the declaration the expression belongs to; it is reported in errors.
pub fn classify(ret: &Option<String>, decl: &str) -> (r: Result<ShapeClass, GenError>)
    ensures
        (match r {
            Result::Ok(c) => classify_spec(ret_view(*ret), decl@) == Result::<ShapeV, ErrV>::Ok(
                c@,
            ),
            Result::Err(e) => classify_spec(ret_view(*ret), decl@) == Result::<ShapeV, ErrV>::Err(
                e@,
            ),
        }),
{
    match ret {
        Option::None => Result::Ok(ShapeClass::Void),
        Option::Some(ty) => {
            let t = ty.as_str();
            let n = t.unicode_len();
            if n == 0 || !ident_start_char(t.get_char(0)) {
                return Result::Ok(ShapeClass::Row(ty.clone()));
            }
            proof {
                lemma_scan_ident_end(t@, 0);
            }
            let k = scan_ident_end_x(t, n, 0);
            let head = t.substring_char(0, k);
            let is_opt = str_eq(head, "Option");
            let is_stream = str_eq(head, "Stream");
            let is_vec = str_eq(head, "Vec");
            if is_opt || is_stream || is_vec {
                let j0 = skip_ws_x(t, n, k);
                let j = if j0 < n && t.get_char(j0) == ':' && j0 + 1 < n && t.get_char(j0 + 1)
                    == ':' {
                    skip_ws_x(t, n, j0 + 2)
                } else {
                    j0
                };
                if j >= n || t.get_char(j) != '<' {
                    return Result::Err(GenError::SyntaxError(decl.to_owned()));
                }
                if scan_angle_x(t, n, j, 0).is_none() {
                    return Result::Err(GenError::SyntaxError(decl.to_owned()));
                }
                let a0 = skip_ws_x(t, n, j + 1);
                match scan_generic_arg_x(t, n, a0, 0) {
                    Option::None => Result::Err(GenError::SyntaxError(decl.to_owned())),
                    Option::Some(e) => {
                        let ae = rtrim_end_x(t, n, a0, e);
                        if ae <= a0 {
                            Result::Err(GenError::SyntaxError(decl.to_owned()))
                        } else {
                            let inner = t.substring_char(a0, ae).to_owned();
                            if is_opt {
                                Result::Ok(ShapeClass::Optional(inner))
                            } else if is_stream {
                                Result::Ok(ShapeClass::Stream(inner))
                            } else {
                                Result::Ok(ShapeClass::Many(inner))
                            }
                        }
                    },
                }
            } else if scalar_name(head) {
                Result::Ok(ShapeClass::Scalar(ty.clone()))
            } else {
                Result::Ok(ShapeClass::Row(ty.clone()))
            }
        },
    }
}

} // verus!
