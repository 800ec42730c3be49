//! The structured form of a declaration list, and the errors a generation
//! pass can end in.

use vstd::prelude::*;

verus! {

/// One declared parameter: a binding name and the verbatim text of its type.
#[derive(Debug, Clone, PartialEq, Eq)]
pub struct Param {
    pub name: String,
    pub ty: String,
}

/// Mathematical model of a [`Param`].
pub ghost struct ParamV {
    pub name: Seq<char>,
    pub ty: Seq<char>,
}

impl View for Param {
    type V = ParamV;

    open spec fn view(&self) -> ParamV {
        ParamV { name: self.name@, ty: self.ty@ }
    }
}

/// One declared data-access operation: `name<generics>(params) -> ret;`.
///
/// `generics` is the verbatim angle-bracketed text, empty when absent; `ret`
/// is the verbatim return-type text, `None` when the declaration has no
/// return shape.
#[derive(Debug, Clone, PartialEq, Eq)]
pub struct SqlFn {
    pub name: String,
    pub generics: String,
    pub params: Vec<Param>,
    pub ret: Option<String>,
}

/// The views of a parameter list.
pub open spec fn params_view(v: Seq<Param>) -> Seq<ParamV> {
    Seq::new(v.len(), |i: int| v[i]@)
}

/// Mathematical model of a [`SqlFn`].
pub ghost struct SqlFnV {
    pub name: Seq<char>,
    pub generics: Seq<char>,
    pub params: Seq<ParamV>,
    pub ret: Option<Seq<char>>,
}

impl View for SqlFn {
    type V = SqlFnV;

    open spec fn view(&self) -> SqlFnV {
        SqlFnV {
            name: self.name@,
            generics: self.generics@,
            params: params_view(self.params@),
            ret: match self.ret {
                Option::Some(ref t) => Option::Some(t@),
                Option::None => Option::None,
            },
        }
    }
}

/// The view of a parsed declaration list.
pub open spec fn fns_view(v: Seq<SqlFn>) -> Seq<SqlFnV> {
    Seq::new(v.len(), |i: int| v[i]@)
}

/// Why a generation pass failed; each variant names the offending
/// declaration (empty when no declaration name was read yet).
#[derive(Debug, Clone, PartialEq, Eq)]
pub enum GenError {
    /// Malformed declaration text, a missing statement terminator, or a
    /// malformed generic return-type expression.
    SyntaxError(String),
    /// A parameter binding that is not a plain identifier.
    UnsupportedPattern(String),
}

/// Mathematical model of a [`GenError`].
pub ghost enum ErrV {
    Syntax(Seq<char>),
    Unsupported(Seq<char>),
}

impl View for GenError {
    type V = ErrV;

    open spec fn view(&self) -> ErrV {
        match self {
            GenError::SyntaxError(d) => ErrV::Syntax(d@),
            GenError::UnsupportedPattern(d) => ErrV::Unsupported(d@),
        }
    }
}

} // verus!
