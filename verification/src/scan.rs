//! Low-level scanners over the declaration text: whitespace, identifiers,
//! balanced angle brackets, and type expressions.
//!
//! Each scanner exists twice: a spec function on `Seq<char>` that defines the
//! result, and an executable mirror on `&str` proved to return exactly it.

use vstd::prelude::*;
use crate::chars::{is_ws, is_ident_char, ws_char, ident_char};

verus! {

/// First position at or after `i` holding no whitespace.
pub open spec fn skip_ws(s: Seq<char>, i: int) -> int
    decreases s.len() - i,
{
    if i < s.len() && is_ws(s[i]) {
        skip_ws(s, i + 1)
    } else {
        i
    }
}

pub proof fn lemma_skip_ws(s: Seq<char>, i: int)
    ensures
        i <= skip_ws(s, i),
        i <= s.len() ==> skip_ws(s, i) <= s.len(),
    decreases s.len() - i,
{
    if i < s.len() && is_ws(s[i]) {
        lemma_skip_ws(s, i + 1);
    }
}

/// End of the run of identifier characters starting at `i`.
pub open spec fn scan_ident_end(s: Seq<char>, i: int) -> int
    decreases s.len() - i,
{
    if i < s.len() && is_ident_char(s[i]) {
        scan_ident_end(s, i + 1)
    } else {
        i
    }
}

pub proof fn lemma_scan_ident_end(s: Seq<char>, i: int)
    ensures
        i <= scan_ident_end(s, i),
        i <= s.len() ==> scan_ident_end(s, i) <= s.len(),
    decreases s.len() - i,
{
    if i < s.len() && is_ident_char(s[i]) {
        lemma_scan_ident_end(s, i + 1);
    }
}

/// Every character of the scanned identifier run is an identifier character.
pub proof fn lemma_scan_ident_chars(s: Seq<char>, i: int)
    ensures
        forall|k: int| i <= k < scan_ident_end(s, i) ==> is_ident_char(#[trigger] s[k]),
    decreases s.len() - i,
{
    if i < s.len() && is_ident_char(s[i]) {
        lemma_scan_ident_chars(s, i + 1);
    }
}

/// Position one past the `>` that closes the bracket run entered at `i`;
/// `None` when the text ends first. `depth` counts the brackets already
/// open.
pub open spec fn scan_angle(s: Seq<char>, i: int, depth: nat) -> Option<int>
    decreases s.len() - i,
{
    if i >= s.len() {
        Option::None
    } else if s[i] == '<' {
        scan_angle(s, i + 1, depth + 1)
    } else if s[i] == '>' {
        if depth <= 1 {
            Option::Some(i + 1)
        } else {
            scan_angle(s, i + 1, (depth - 1) as nat)
        }
    } else {
        scan_angle(s, i + 1, depth)
    }
}

pub proof fn lemma_scan_angle(s: Seq<char>, i: int, depth: nat)
    ensures
        scan_angle(s, i, depth) matches Option::Some(e) ==> i < e <= s.len(),
    decreases s.len() - i,
{
    if i < s.len() {
        lemma_scan_angle(s, i + 1, depth + 1);
        if depth >= 1 {
            lemma_scan_angle(s, i + 1, (depth - 1) as nat);
        }
        lemma_scan_angle(s, i + 1, depth);
    }
}

/// End of the type expression starting at `i`: the first `;` (when
/// `stop_semi`) or the first `,` or `)` (otherwise) outside every bracket.
/// `None` when the text ends first or a bracket closes that never opened.
pub open spec fn scan_type(s: Seq<char>, i: int, depth: nat, stop_semi: bool) -> Option<int>
    decreases s.len() - i,
{
    if i >= s.len() {
        Option::None
    } else if depth == 0 && (if stop_semi {
        s[i] == ';'
    } else {
        s[i] == ',' || s[i] == ')'
    }) {
        Option::Some(i)
    } else if s[i] == '<' || s[i] == '(' || s[i] == '[' {
        scan_type(s, i + 1, depth + 1, stop_semi)
    } else if s[i] == '>' || s[i] == ')' || s[i] == ']' {
        if depth == 0 {
            Option::None
        } else {
            scan_type(s, i + 1, (depth - 1) as nat, stop_semi)
        }
    } else {
        scan_type(s, i + 1, depth, stop_semi)
    }
}

pub proof fn lemma_scan_type(s: Seq<char>, i: int, depth: nat, stop_semi: bool)
    ensures
        scan_type(s, i, depth, stop_semi) matches Option::Some(e) ==> i <= e < s.len(),
    decreases s.len() - i,
{
    if i < s.len() {
        lemma_scan_type(s, i + 1, depth + 1, stop_semi);
        if depth >= 1 {
            lemma_scan_type(s, i + 1, (depth - 1) as nat, stop_semi);
        }
        lemma_scan_type(s, i + 1, depth, stop_semi);
    }
}

/// Largest end position at most `j` with no trailing whitespace before it,
/// going back no further than `i`.
pub open spec fn rtrim_end(s: Seq<char>, i: int, j: int) -> int
    decreases j - i,
{
    if j > i && 0 < j <= s.len() && is_ws(s[j - 1]) {
        rtrim_end(s, i, j - 1)
    } else {
        j
    }
}

pub proof fn lemma_rtrim_end(s: Seq<char>, i: int, j: int)
    requires
        i <= j,
    ensures
        i <= rtrim_end(s, i, j) <= j,
    decreases j - i,
{
    if j > i && 0 < j <= s.len() && is_ws(s[j - 1]) {
        lemma_rtrim_end(s, i, j - 1);
    }
}

pub fn skip_ws_x(s: &str, n: usize, i: usize) -> (r: usize)
    requires
        n == s@.len(),
        i <= n,
    ensures
        i <= r <= n,
        r as int == skip_ws(s@, i as int),
    decreases n - i,
{
    if i < n && ws_char(s.get_char(i)) {
        skip_ws_x(s, n, i + 1)
    } else {
        i
    }
}

pub fn scan_ident_end_x(s: &str, n: usize, i: usize) -> (r: usize)
    requires
        n == s@.len(),
        i <= n,
    ensures
        i <= r <= n,
        r as int == scan_ident_end(s@, i as int),
    decreases n - i,
{
    if i < n && ident_char(s.get_char(i)) {
        scan_ident_end_x(s, n, i + 1)
    } else {
        i
    }
}

pub fn scan_angle_x(s: &str, n: usize, i: usize, depth: usize) -> (r: Option<usize>)
    requires
        n == s@.len(),
        i <= n,
        depth <= i,
    ensures
        (match r {
            Option::Some(e) => scan_angle(s@, i as int, depth as nat) == Option::Some(e as int)
                && i < e <= n,
            Option::None => scan_angle(s@, i as int, depth as nat) is None,
        }),
    decreases n - i,
{
    proof {
        lemma_scan_angle(s@, i as int, depth as nat);
    }
    if i >= n {
        Option::None
    } else {
        let c = s.get_char(i);
        if c == '<' {
            scan_angle_x(s, n, i + 1, depth + 1)
        } else if c == '>' {
            if depth <= 1 {
                Option::Some(i + 1)
            } else {
                scan_angle_x(s, n, i + 1, depth - 1)
            }
        } else {
            scan_angle_x(s, n, i + 1, depth)
        }
    }
}

pub fn scan_type_x(s: &str, n: usize, i: usize, depth: usize, stop_semi: bool) -> (r: Option<
    usize,
>)
    requires
        n == s@.len(),
        i <= n,
        depth <= i,
    ensures
        (match r {
            Option::Some(e) => scan_type(s@, i as int, depth as nat, stop_semi) == Option::Some(
                e as int,
            ) && i <= e < n,
            Option::None => scan_type(s@, i as int, depth as nat, stop_semi) is None,
        }),
    decreases n - i,
{
    proof {
        lemma_scan_type(s@, i as int, depth as nat, stop_semi);
    }
    if i >= n {
        Option::None
    } else {
        let c = s.get_char(i);
        if depth == 0 && (if stop_semi {
            c == ';'
        } else {
            c == ',' || c == ')'
        }) {
            Option::Some(i)
        } else if c == '<' || c == '(' || c == '[' {
            scan_type_x(s, n, i + 1, depth + 1, stop_semi)
        } else if c == '>' || c == ')' || c == ']' {
            if depth == 0 {
                Option::None
            } else {
                scan_type_x(s, n, i + 1, depth - 1, stop_semi)
            }
        } else {
            scan_type_x(s, n, i + 1, depth, stop_semi)
        }
    }
}

pub fn rtrim_end_x(s: &str, n: usize, i: usize, j: usize) -> (r: usize)
    requires
        n == s@.len(),
        i <= j <= n,
    ensures
        i <= r <= j,
        r as int == rtrim_end(s@, i as int, j as int),
    decreases j - i,
{
    if j > i && ws_char(s.get_char(j - 1)) {
        rtrim_end_x(s, n, i, j - 1)
    } else {
        j
    }
}

} // verus!
