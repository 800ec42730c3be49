//! Assembling the generated unit for each container kind: the
//! pooled-connection holder and the transaction holder, their lifecycle
//! methods, and one generated data-access method per declaration.
//!
//! Generation is single-pass and fatal on first error: it returns either the
//! full emitted text or the first error encountered, never a partial result.

use vstd::prelude::*;
use crate::ast::{SqlFn, SqlFnV, GenError, ErrV, fns_view};
use crate::gen::{gen_method_spec, make_fn};

verus! {

/// The generated methods of one container, in declaration order, each
/// preceded by a blank line; or the first error.
pub open spec fn methods_spec(fs: Seq<SqlFnV>, mut_recv: bool, executor: Seq<char>) -> Result<
    Seq<char>,
    ErrV,
>
    decreases fs.len(),
{
    if fs.len() == 0 {
        Result::Ok(Seq::<char>::empty())
    } else {
        match methods_spec(fs.drop_last(), mut_recv, executor) {
            Result::Err(e) => Result::Err(e),
            Result::Ok(rest) => match gen_method_spec(fs.last(), mut_recv, executor) {
                Result::Err(e) => Result::Err(e),
                Result::Ok(m) => Result::Ok(rest + "\n"@ + m),
            },
        }
    }
}

/// An error in some prefix of the declaration list is the error of the
/// whole list: generation aborts at the first failing declaration.
pub proof fn lemma_methods_err_prefix(fs: Seq<SqlFnV>, j: int, mut_recv: bool, executor: Seq<char>)
    requires
        0 <= j <= fs.len(),
        methods_spec(fs.take(j), mut_recv, executor) is Err,
    ensures
        methods_spec(fs, mut_recv, executor) == methods_spec(fs.take(j), mut_recv, executor),
    decreases fs.len() - j,
{
    if j == fs.len() {
        assert(fs.take(j) =~= fs);
    } else {
        assert(fs.take(j + 1).drop_last() =~= fs.take(j));
        lemma_methods_err_prefix(fs, j + 1, mut_recv, executor);
    }
}

/// The scaffolding of the pooled-connection container, up to its generated
/// methods.
pub open spec fn database_header() -> Seq<char> {
    "pub struct Database {\n    pool: ::sqlx::postgres::PgPool,\n}\n\nimpl Database {\n    pub fn new(pool: ::sqlx::postgres::PgPool) -> Self {\n        Self { pool }\n    }\n\n    pub async fn close(&self) {\n        self.pool.close().await\n    }\n"@
}

/// The scaffolding of the transaction container, up to its generated
/// methods.
pub open spec fn transaction_header() -> Seq<char> {
    "pub struct Transaction {\n    inner: ::sqlx::Transaction<'static, ::sqlx::postgres::Postgres>,\n}\n\nimpl Database {\n    pub async fn begin(&self) -> ::sqlx::Result<Transaction> {\n        Ok(Transaction { inner: self.pool.begin().await? })\n    }\n}\n\nimpl Transaction {\n    pub async fn commit(self) -> ::sqlx::Result<()> {\n        self.inner.commit().await\n    }\n\n    pub async fn rollback(self) -> ::sqlx::Result<()> {\n        self.inner.rollback().await\n    }\n"@
}

/// The executor expression of the pooled-connection container.
pub open spec fn pool_executor() -> Seq<char> {
    "&self.pool"@
}

/// The executor expression of the transaction container.
pub open spec fn transaction_executor() -> Seq<char> {
    "&mut *self.inner"@
}

/// The full generated unit for the pooled-connection container: holder
/// struct, constructor and close, then one shared-receiver method per
/// declaration.
pub open spec fn database_spec(fs: Seq<SqlFnV>) -> Result<Seq<char>, ErrV> {
    match methods_spec(fs, false, pool_executor()) {
        Result::Err(e) => Result::Err(e),
        Result::Ok(ms) => Result::Ok(database_header() + ms + "}\n"@),
    }
}

/// The full generated unit for the transaction container: holder struct,
/// begin on the connection holder, commit and rollback, then one
/// exclusive-receiver method per declaration.
pub open spec fn transaction_spec(fs: Seq<SqlFnV>) -> Result<Seq<char>, ErrV> {
    match methods_spec(fs, true, transaction_executor()) {
        Result::Err(e) => Result::Err(e),
        Result::Ok(ms) => Result::Ok(transaction_header() + ms + "}\n"@),
    }
}

fn gen_methods(fs: &Vec<SqlFn>, is_mut: bool, executor: &str) -> (r: Result<String, GenError>)
    ensures
        (match r {
            Result::Ok(ms) => methods_spec(fns_view(fs@), is_mut, executor@) == Result::<
                Seq<char>,
                ErrV,
            >::Ok(ms@),
            Result::Err(e) => methods_spec(fns_view(fs@), is_mut, executor@) == Result::<
                Seq<char>,
                ErrV,
            >::Err(e@),
        }),
{
    let mut ms = String::new();
    assert(fns_view(fs@).take(0) =~= Seq::<SqlFnV>::empty());
    let mut i: usize = 0;
    while i < fs.len()
        invariant
            i <= fs.len(),
            methods_spec(fns_view(fs@).take(i as int), is_mut, executor@) == Result::<
                Seq<char>,
                ErrV,
            >::Ok(ms@),
        decreases fs.len() - i,
    {
        let ghost fv = fns_view(fs@);
        proof {
            assert(fv.take(i + 1).drop_last() =~= fv.take(i as int));
            assert(fv.take(i + 1).last() == fv[i as int]);
        }
        match make_fn(&fs[i], is_mut, executor) {
            Result::Err(e) => {
                proof {
                    lemma_methods_err_prefix(fv, i + 1, is_mut, executor@);
                }
                return Result::Err(e);
            },
            Result::Ok(m) => {
                ms.append("\n");
                ms.append(m.as_str());
                assert(ms@ =~= methods_spec(fv.take(i + 1), is_mut, executor@)->Ok_0);
            },
        }
        i += 1;
    }
    assert(fns_view(fs@).take(fs.len() as int) =~= fns_view(fs@));
    Result::Ok(ms)
}

/// Emits the whole pooled-connection container for a parsed declaration
/// list, or the first error.
pub fn gen_database(fs: &Vec<SqlFn>) -> (r: Result<String, GenError>)
    ensures
        (match r {
            Result::Ok(out) => database_spec(fns_view(fs@)) == Result::<Seq<char>, ErrV>::Ok(out@),
            Result::Err(e) => database_spec(fns_view(fs@)) == Result::<Seq<char>, ErrV>::Err(e@),
        }),
{
    match gen_methods(fs, false, "&self.pool") {
        Result::Err(e) => Result::Err(e),
        Result::Ok(ms) => {
            let mut out = String::from_str(
                "pub struct Database {\n    pool: ::sqlx::postgres::PgPool,\n}\n\nimpl Database {\n    pub fn new(pool: ::sqlx::postgres::PgPool) -> Self {\n        Self { pool }\n    }\n\n    pub async fn close(&self) {\n        self.pool.close().await\n    }\n",
            );
            out.append(ms.as_str());
            out.append("}\n");
            assert(out@ =~= database_header() + ms@ + "}\n"@);
            Result::Ok(out)
        },
    }
}

/// Emits the whole transaction container for a parsed declaration list, or
/// the first error.
pub fn gen_transaction(fs: &Vec<SqlFn>) -> (r: Result<String, GenError>)
    ensures
        (match r {
            Result::Ok(out) => transaction_spec(fns_view(fs@)) == Result::<Seq<char>, ErrV>::Ok(
                out@,
            ),
            Result::Err(e) => transaction_spec(fns_view(fs@)) == Result::<Seq<char>, ErrV>::Err(
                e@,
            ),
        }),
{
    match gen_methods(fs, true, "&mut *self.inner") {
        Result::Err(e) => Result::Err(e),
        Result::Ok(ms) => {
            let mut out = String::from_str(
                "pub struct Transaction {\n    inner: ::sqlx::Transaction<'static, ::sqlx::postgres::Postgres>,\n}\n\nimpl Database {\n    pub async fn begin(&self) -> ::sqlx::Result<Transaction> {\n        Ok(Transaction { inner: self.pool.begin().await? })\n    }\n}\n\nimpl Transaction {\n    pub async fn commit(self) -> ::sqlx::Result<()> {\n        self.inner.commit().await\n    }\n\n    pub async fn rollback(self) -> ::sqlx::Result<()> {\n        self.inner.rollback().await\n    }\n",
            );
            out.append(ms.as_str());
            out.append("}\n");
            assert(out@ =~= transaction_header() + ms@ + "}\n"@);
            Result::Ok(out)
        },
    }
}

} // verus!
