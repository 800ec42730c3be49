//! The call-sequence generator: one generated method per declaration and
//! container kind.
//!
//! A generated method's statement sequence is fixed by the declaration's
//! shape: construct a statement from the built query string (a raw statement
//! for `Void`, a typed one otherwise), bind every parameter in declaration
//! order, then dispatch to exactly one terminal call. Every shape but
//! `Stream` awaits the database round-trip inside the method; a `Stream`
//! method is not suspend-capable and returns the lazy sequence directly.

use vstd::prelude::*;
use crate::ast::{Param, ParamV, SqlFn, SqlFnV, GenError, ErrV, params_view};
use crate::classify::{ShapeClass, ShapeV, classify, classify_spec, ret_view};
use crate::query::{query_spec, query_for_fn};

verus! {

/// The declared result type of a generated method, mirroring the dispatch
/// table: every shape but `Stream` wraps its value in the fallible result
/// union; `Stream` returns a lazy sequence of independently fallible rows.
pub open spec fn result_type_spec(sh: ShapeV) -> Seq<char> {
    match sh {
        ShapeV::Void => "::sqlx::Result<()>"@,
        ShapeV::Scalar(t) => "::sqlx::Result<"@ + t + ">"@,
        ShapeV::Optional(t) => "::sqlx::Result<::std::option::Option<"@ + t + ">>"@,
        ShapeV::Many(t) => "::sqlx::Result<::std::vec::Vec<"@ + t + ">>"@,
        ShapeV::Stream(t) => "::futures::stream::BoxStream<::sqlx::Result<"@ + t + ">>"@,
        ShapeV::Row(t) => "::sqlx::Result<"@ + t + ">"@,
    }
}

/// The parameter list of a generated method's signature, mirroring the
/// declaration's parameters verbatim, in order, after the receiver.
pub open spec fn params_sig_spec(ps: Seq<ParamV>) -> Seq<char>
    decreases ps.len(),
{
    if ps.len() == 0 {
        Seq::<char>::empty()
    } else {
        params_sig_spec(ps.drop_last()) + ", "@ + ps.last().name + ": "@ + ps.last().ty
    }
}

/// One positional binding statement.
pub open spec fn bind_stmt_spec(p: ParamV) -> Seq<char> {
    "        let mut query = query.bind("@ + p.name + ");\n"@
}

/// The binding statements for all parameters, in declaration order; their
/// order matches the placeholder numbering of the built query string.
pub open spec fn binds_spec(ps: Seq<ParamV>) -> Seq<char>
    decreases ps.len(),
{
    if ps.len() == 0 {
        Seq::<char>::empty()
    } else {
        binds_spec(ps.drop_last()) + bind_stmt_spec(ps.last())
    }
}

/// The statement-construction line: a raw statement for `Void` (no expected
/// output shape), a typed one for every other shape.
pub open spec fn ctor_stmt_spec(sh: ShapeV, name: Seq<char>, arity: nat) -> Seq<char> {
    "        let mut query = ::sqlx::"@ + (match sh {
        ShapeV::Void => "query"@,
        _ => "query_as"@,
    }) + "(\""@ + query_spec(name, arity) + "\");\n"@
}

/// The terminal dispatch: exactly one fetch strategy per shape.
pub open spec fn terminal_spec(sh: ShapeV, executor: Seq<char>) -> Seq<char> {
    match sh {
        ShapeV::Void => "        query.execute("@ + executor + ").await?;\n        Ok(())\n"@,
        ShapeV::Scalar(t) => "        let row: ("@ + t + ",) = query.fetch_one("@ + executor
            + ").await?;\n        Ok(row.0)\n"@,
        ShapeV::Row(_) => "        query.fetch_one("@ + executor + ").await\n"@,
        ShapeV::Many(_) => "        query.fetch_all("@ + executor + ").await\n"@,
        ShapeV::Optional(_) => "        query.fetch_optional("@ + executor + ").await\n"@,
        ShapeV::Stream(_) => "        query.fetch("@ + executor + ")\n"@,
    }
}

/// The suspend marker of a generated method: every shape but `Stream`
/// awaits the round-trip inside the method, so its method is suspend-marked;
/// a `Stream` method is not — only consuming the returned sequence suspends.
pub open spec fn suspend_marker_spec(sh: ShapeV) -> Seq<char> {
    match sh {
        ShapeV::Stream(_) => Seq::<char>::empty(),
        _ => "async "@,
    }
}

/// The whole generated method for a classified declaration: signature
/// (suspend-marked for every shape but `Stream`), statement construction,
/// bindings in order, terminal dispatch.
pub open spec fn method_spec(f: SqlFnV, sh: ShapeV, mut_recv: bool, executor: Seq<char>) -> Seq<
    char,
> {
    "    pub "@ + suspend_marker_spec(sh) + "fn "@ + f.name + f.generics + "("@ + (if mut_recv {
        "&mut self"@
    } else {
        "&self"@
    }) + params_sig_spec(f.params) + ") -> "@ + result_type_spec(sh) + " {\n"@ + ctor_stmt_spec(
        sh,
        f.name,
        f.params.len(),
    ) + binds_spec(f.params) + terminal_spec(sh, executor) + "    }\n"@
}

/// What generating one method returns: the method text, or the first error
/// of classification.
pub open spec fn gen_method_spec(f: SqlFnV, mut_recv: bool, executor: Seq<char>) -> Result<
    Seq<char>,
    ErrV,
> {
    match classify_spec(f.ret, f.name) {
        Result::Err(e) => Result::Err(e),
        Result::Ok(sh) => Result::Ok(method_spec(f, sh, mut_recv, executor)),
    }
}

fn params_sig_x(ps: &Vec<Param>) -> (r: String)
    ensures
        r@ == params_sig_spec(params_view(ps@)),
{
    let mut out = String::new();
    assert(params_view(ps@).take(0) =~= Seq::<ParamV>::empty());
    let mut i: usize = 0;
    while i < ps.len()
        invariant
            i <= ps.len(),
            out@ == params_sig_spec(params_view(ps@).take(i as int)),
        decreases ps.len() - i,
    {
        out.append(", ");
        out.append(ps[i].name.as_str());
        out.append(": ");
        out.append(ps[i].ty.as_str());
        proof {
            let pv = params_view(ps@);
            assert(pv.take(i + 1).drop_last() =~= pv.take(i as int));
            assert(pv.take(i + 1).last() == pv[i as int]);
            assert(out@ =~= params_sig_spec(pv.take(i + 1)));
        }
        i += 1;
    }
    assert(params_view(ps@).take(ps.len() as int) =~= params_view(ps@));
    out
}

fn binds_x(ps: &Vec<Param>) -> (r: String)
    ensures
        r@ == binds_spec(params_view(ps@)),
{
    let mut out = String::new();
    assert(params_view(ps@).take(0) =~= Seq::<ParamV>::empty());
    let mut i: usize = 0;
    while i < ps.len()
        invariant
            i <= ps.len(),
            out@ == binds_spec(params_view(ps@).take(i as int)),
        decreases ps.len() - i,
    {
        out.append("        let mut query = query.bind(");
        out.append(ps[i].name.as_str());
        out.append(");\n");
        proof {
            let pv = params_view(ps@);
            assert(pv.take(i + 1).drop_last() =~= pv.take(i as int));
            assert(pv.take(i + 1).last() == pv[i as int]);
            assert(out@ =~= binds_spec(pv.take(i + 1)));
        }
        i += 1;
    }
    assert(params_view(ps@).take(ps.len() as int) =~= params_view(ps@));
    out
}

fn result_type_x(sh: &ShapeClass) -> (r: String)
    ensures
        r@ == result_type_spec(sh@),
{
    match sh {
        ShapeClass::Void => String::from_str("::sqlx::Result<()>"),
        ShapeClass::Scalar(t) => {
            let mut out = String::from_str("::sqlx::Result<");
            out.append(t.as_str());
            out.append(">");
            assert(out@ =~= result_type_spec(sh@));
            out
        },
        ShapeClass::Optional(t) => {
            let mut out = String::from_str("::sqlx::Result<::std::option::Option<");
            out.append(t.as_str());
            out.append(">>");
            assert(out@ =~= result_type_spec(sh@));
            out
        },
        ShapeClass::Many(t) => {
            let mut out = String::from_str("::sqlx::Result<::std::vec::Vec<");
            out.append(t.as_str());
            out.append(">>");
            assert(out@ =~= result_type_spec(sh@));
            out
        },
        ShapeClass::Stream(t) => {
            let mut out = String::from_str("::futures::stream::BoxStream<::sqlx::Result<");
            out.append(t.as_str());
            out.append(">>");
            assert(out@ =~= result_type_spec(sh@));
            out
        },
        ShapeClass::Row(t) => {
            let mut out = String::from_str("::sqlx::Result<");
            out.append(t.as_str());
            out.append(">");
            assert(out@ =~= result_type_spec(sh@));
            out
        },
    }
}

fn terminal_x(sh: &ShapeClass, executor: &str) -> (r: String)
    ensures
        r@ == terminal_spec(sh@, executor@),
{
    match sh {
        ShapeClass::Void => {
            let mut out = String::from_str("        query.execute(");
            out.append(executor);
            out.append(").await?;\n        Ok(())\n");
            assert(out@ =~= terminal_spec(sh@, executor@));
            out
        },
        ShapeClass::Scalar(t) => {
            let mut out = String::from_str("        let row: (");
            out.append(t.as_str());
            out.append(",) = query.fetch_one(");
            out.append(executor);
            out.append(").await?;\n        Ok(row.0)\n");
            assert(out@ =~= terminal_spec(sh@, executor@));
            out
        },
        ShapeClass::Row(_) => {
            let mut out = String::from_str("        query.fetch_one(");
            out.append(executor);
            out.append(").await\n");
            assert(out@ =~= terminal_spec(sh@, executor@));
            out
        },
        ShapeClass::Many(_) => {
            let mut out = String::from_str("        query.fetch_all(");
            out.append(executor);
            out.append(").await\n");
            assert(out@ =~= terminal_spec(sh@, executor@));
            out
        },
        ShapeClass::Optional(_) => {
            let mut out = String::from_str("        query.fetch_optional(");
            out.append(executor);
            out.append(").await\n");
            assert(out@ =~= terminal_spec(sh@, executor@));
            out
        },
        ShapeClass::Stream(_) => {
            let mut out = String::from_str("        query.fetch(");
            out.append(executor);
            out.append(")\n");
            assert(out@ =~= terminal_spec(sh@, executor@));
            out
        },
    }
}

/// Generates one data-access method for a declaration, for one container
/// kind: an exclusively borrowing receiver when `is_mut` (the
/// transaction holder), a shared one otherwise (the connection holder), with
/// `executor` the expression the terminal call runs the statement through.
pub fn make_fn(f: &SqlFn, is_mut: bool, executor: &str) -> (r: Result<String, GenError>)
    ensures
        (match r {
            Result::Ok(m) => gen_method_spec(f@, is_mut, executor@) == Result::<
                Seq<char>,
                ErrV,
            >::Ok(m@),
            Result::Err(e) => gen_method_spec(f@, is_mut, executor@) == Result::<
                Seq<char>,
                ErrV,
            >::Err(e@),
        }),
{
    let sh = match classify(&f.ret, f.name.as_str()) {
        Result::Err(e) => {
            return Result::Err(e);
        },
        Result::Ok(sh) => sh,
    };
    let mut out = String::from_str("    pub ");
    match &sh {
        ShapeClass::Stream(_) => {
        },
        _ => {
            out.append("async ");
        },
    }
    out.append("fn ");
    out.append(f.name.as_str());
    out.append(f.generics.as_str());
    out.append("(");
    if is_mut {
        out.append("&mut self");
    } else {
        out.append("&self");
    }
    let sig = params_sig_x(&f.params);
    out.append(sig.as_str());
    out.append(") -> ");
    let rt = result_type_x(&sh);
    out.append(rt.as_str());
    out.append(" {\n");
    let ctor = ctor_stmt_x(&sh, f.name.as_str(), f.params.len());
    out.append(ctor.as_str());
    let binds = binds_x(&f.params);
    out.append(binds.as_str());
    let term = terminal_x(&sh, executor);
    out.append(term.as_str());
    out.append("    }\n");
    assert(out@ =~= method_spec(f@, sh@, is_mut, executor@));
    Result::Ok(out)
}

fn ctor_stmt_x(sh: &ShapeClass, name: &str, arity: usize) -> (r: String)
    ensures
        r@ == ctor_stmt_spec(sh@, name@, arity as nat),
{
    let mut out = String::from_str("        let mut query = ::sqlx::");
    match sh {
        ShapeClass::Void => {
            out.append("query");
        },
        _ => {
            out.append("query_as");
        },
    }
    out.append("(\"");
    let q = query_for_fn(name, arity);
    out.append(q.as_str());
    out.append("\");\n");
    assert(out@ =~= ctor_stmt_spec(sh@, name@, arity as nat));
    out
}

/// The dispatch table, in one place: for every classified shape, the
/// declared result type, the terminal call, and the suspend marker of the
/// generated method are exactly these texts, with `t` the inner type and
/// `ex` the executor expression.
pub proof fn lemma_dispatch_table(sh: ShapeV, ex: Seq<char>)
    ensures
        sh is Void ==> result_type_spec(sh) == "::sqlx::Result<()>"@ && terminal_spec(sh, ex)
            == "        query.execute("@ + ex + ").await?;\n        Ok(())\n"@,
        sh matches ShapeV::Scalar(t) ==> result_type_spec(sh) == "::sqlx::Result<"@ + t + ">"@
            && terminal_spec(sh, ex) == "        let row: ("@ + t + ",) = query.fetch_one("@ + ex
            + ").await?;\n        Ok(row.0)\n"@,
        sh matches ShapeV::Optional(t) ==> result_type_spec(sh)
            == "::sqlx::Result<::std::option::Option<"@ + t + ">>"@ && terminal_spec(sh, ex)
            == "        query.fetch_optional("@ + ex + ").await\n"@,
        sh matches ShapeV::Many(t) ==> result_type_spec(sh)
            == "::sqlx::Result<::std::vec::Vec<"@ + t + ">>"@ && terminal_spec(sh, ex)
            == "        query.fetch_all("@ + ex + ").await\n"@,
        sh matches ShapeV::Row(t) ==> result_type_spec(sh) == "::sqlx::Result<"@ + t + ">"@
            && terminal_spec(sh, ex) == "        query.fetch_one("@ + ex + ").await\n"@,
        sh matches ShapeV::Stream(t) ==> result_type_spec(sh)
            == "::futures::stream::BoxStream<::sqlx::Result<"@ + t + ">>"@ && terminal_spec(sh, ex)
            == "        query.fetch("@ + ex + ")\n"@,
        suspend_marker_spec(sh) == if sh is Stream {
            Seq::<char>::empty()
        } else {
            "async "@
        },
{
}

/// Binding order mirrors declaration order: within the generated binding
/// block, the statement for the parameter at position `i` stands after the
/// statements of all parameters before it and before those of all
/// parameters after it, whatever the parameters are named.
pub proof fn lemma_bind_order(ps: Seq<ParamV>, i: int)
    requires
        0 <= i < ps.len(),
    ensures
        binds_spec(ps) == binds_spec(ps.take(i)) + bind_stmt_spec(ps[i]) + binds_spec(
            ps.skip(i + 1),
        ),
    decreases ps.len(),
{
    if i + 1 == ps.len() {
        assert(ps.take(i) =~= ps.drop_last());
        assert(ps.skip(i + 1) =~= Seq::<ParamV>::empty());
        assert(binds_spec(ps.take(i)) + bind_stmt_spec(ps[i]) + binds_spec(ps.skip(i + 1))
            =~= binds_spec(ps.drop_last()) + bind_stmt_spec(ps.last()));
    } else {
        lemma_bind_order(ps.drop_last(), i);
        assert(ps.drop_last().take(i) =~= ps.take(i));
        assert(ps.drop_last()[i] == ps[i]);
        assert(ps.drop_last().skip(i + 1) =~= ps.skip(i + 1).drop_last());
        assert(binds_spec(ps.take(i)) + bind_stmt_spec(ps[i]) + binds_spec(ps.skip(i + 1).drop_last())
            + bind_stmt_spec(ps.last()) =~= binds_spec(ps.take(i)) + bind_stmt_spec(ps[i]) + (
        binds_spec(ps.skip(i + 1).drop_last()) + bind_stmt_spec(ps.last())));
        assert(ps.skip(i + 1).last() == ps.last());
        assert(ps.skip(i + 1).len() > 0);
    }
}

} // verus!
