//! Generator for stored-procedure data-access methods.
//!
//! A declaration list such as `get_user(id: i64) -> Option<User>;` is parsed
//! into structured records, each record's return shape is classified, and one
//! data-access method is generated per record and container kind: a statement
//! is built (`SELECT * FROM get_user($1)`), each parameter is bound in
//! declaration order, and a terminal fetch call is chosen from the shape.

use vstd::prelude::*;

pub mod ast;
pub mod chars;
pub mod classify;
pub mod emit;
pub mod gen;
pub mod query;
pub mod parse;
pub mod scan;

use crate::ast::{GenError, ErrV, SqlFnV};
use crate::emit::{database_spec, transaction_spec, gen_database, gen_transaction};
use crate::parse::{parse_spec, parse_declarations, lemma_parsed_names_are_identifiers};
use crate::query::{query_spec, count_char, lemma_query_placeholder_count};

verus! {

/// What [`database`] returns for a given input text: the parsed list fed to
/// the connection-holder emitter, or the first error of either pass.
pub open spec fn database_output_spec(s: Seq<char>) -> Result<Seq<char>, ErrV> {
    match parse_spec(s) {
        Result::Err(e) => Result::Err(e),
        Result::Ok(fs) => database_spec(fs),
    }
}

/// What [`transaction`] returns for a given input text.
pub open spec fn transaction_output_spec(s: Seq<char>) -> Result<Seq<char>, ErrV> {
    match parse_spec(s) {
        Result::Err(e) => Result::Err(e),
        Result::Ok(fs) => transaction_spec(fs),
    }
}

/// Generates the pooled-connection container for a declaration list: the
/// `Database` holder, its lifecycle methods, and one shared-receiver
/// data-access method per declaration; or the first error.
pub fn database(input: &str) -> (r: Result<String, GenError>)
    ensures
        (match r {
            Result::Ok(out) => database_output_spec(input@) == Result::<Seq<char>, ErrV>::Ok(out@),
            Result::Err(e) => database_output_spec(input@) == Result::<Seq<char>, ErrV>::Err(e@),
        }),
{
    match parse_declarations(input) {
        Result::Err(e) => Result::Err(e),
        Result::Ok(fs) => gen_database(&fs),
    }
}

/// Generates the transaction container for a declaration list: the
/// `Transaction` holder, begin/commit/rollback, and one exclusive-receiver
/// data-access method per declaration; or the first error.
pub fn transaction(input: &str) -> (r: Result<String, GenError>)
    ensures
        (match r {
            Result::Ok(out) => transaction_output_spec(input@) == Result::<Seq<char>, ErrV>::Ok(
                out@,
            ),
            Result::Err(e) => transaction_output_spec(input@) == Result::<Seq<char>, ErrV>::Err(
                e@,
            ),
        }),
{
    match parse_declarations(input) {
        Result::Err(e) => Result::Err(e),
        Result::Ok(fs) => gen_transaction(&fs),
    }
}

/// For every declaration the parser accepts, the statement built for it
/// holds exactly one placeholder per declared parameter — `$1..$N` in
/// order, none when the declaration has no parameters.
pub proof fn lemma_statement_placeholder_count(s: Seq<char>, fs: Seq<SqlFnV>, k: int)
    requires
        parse_spec(s) == Result::<Seq<SqlFnV>, ErrV>::Ok(fs),
        0 <= k < fs.len(),
    ensures
        count_char(query_spec(fs[k].name, fs[k].params.len()), '$') == fs[k].params.len(),
{
    lemma_parsed_names_are_identifiers(s, 0);
    lemma_query_placeholder_count(fs[k].name, fs[k].params.len());
}

/// Generation is deterministic: the output is a function of the input text
/// alone, so generating twice from the same text — and, further down, from
/// the same declaration list — yields byte-identical output. Together with
/// the contracts of [`database`] and [`transaction`], which pin each call's
/// result to these spec functions, two runs on equal inputs return equal
/// bytes.
pub proof fn lemma_generation_deterministic(a: Seq<char>, b: Seq<char>, fs: Seq<SqlFnV>, gs: Seq<SqlFnV>)
    requires
        a == b,
        fs == gs,
    ensures
        database_output_spec(a) == database_output_spec(b),
        transaction_output_spec(a) == transaction_output_spec(b),
        database_spec(fs) == database_spec(gs),
        transaction_spec(fs) == transaction_spec(gs),
{
}

} // verus!
