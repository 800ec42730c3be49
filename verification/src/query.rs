//! Building the invocation statement text: `SELECT * FROM name($1,$2,...)`.

use vstd::prelude::*;
use crate::chars::is_ident_char;

verus! {

/// The single digit `d` as text.
pub open spec fn digit_seq(d: nat) -> Seq<char>
    recommends
        d < 10,
{
    if d == 0 {
        "0"@
    } else if d == 1 {
        "1"@
    } else if d == 2 {
        "2"@
    } else if d == 3 {
        "3"@
    } else if d == 4 {
        "4"@
    } else if d == 5 {
        "5"@
    } else if d == 6 {
        "6"@
    } else if d == 7 {
        "7"@
    } else if d == 8 {
        "8"@
    } else {
        "9"@
    }
}

/// Decimal representation of `n`, most significant digit first.
pub open spec fn dec_rep(n: nat) -> Seq<char>
    decreases n,
{
    if n < 10 {
        digit_seq(n)
    } else {
        dec_rep(n / 10) + digit_seq(n % 10)
    }
}

/// The placeholder list `$1,$2,...,$n`; empty when `n` is zero.
pub open spec fn placeholders(n: nat) -> Seq<char>
    decreases n,
{
    if n == 0 {
        Seq::<char>::empty()
    } else if n == 1 {
        "$"@ + dec_rep(1)
    } else {
        placeholders((n - 1) as nat) + ","@ + "$"@ + dec_rep(n)
    }
}

/// The full statement text for a declaration name and arity.
pub open spec fn query_spec(name: Seq<char>, n: nat) -> Seq<char> {
    "SELECT * FROM "@ + name + "("@ + placeholders(n) + ")"@
}

fn digit_str(d: usize) -> (r: &'static str)
    requires
        d < 10,
    ensures
        r@ == digit_seq(d as nat),
{
    match d {
        0 => "0",
        1 => "1",
        2 => "2",
        3 => "3",
        4 => "4",
        5 => "5",
        6 => "6",
        7 => "7",
        8 => "8",
        _ => "9",
    }
}

/// The decimal text of `n`.
pub fn dec_string(n: usize) -> (r: String)
    ensures
        r@ == dec_rep(n as nat),
    decreases n,
{
    if n < 10 {
        String::from_str(digit_str(n))
    } else {
        assert(n / 10 < n && n / 10 >= 1 && n % 10 < 10) by (nonlinear_arith)
            requires
                n >= 10,
        ;
        let mut s = dec_string(n / 10);
        s.append(digit_str(n % 10));
        s
    }
}

/// Builds the invocation statement for a declared function of the given
/// arity: `SELECT * FROM <name>($1,...,$N)`, with no placeholder at all when
/// the arity is zero.
pub fn query_for_fn(name: &str, args: usize) -> (q: String)
    ensures
        q@ == query_spec(name@, args as nat),
{
    let mut q = String::from_str("SELECT * FROM ");
    q.append(name);
    q.append("(");
    let ghost prefix: Seq<char> = "SELECT * FROM "@ + name@ + "("@;
    assert(q@ =~= prefix + placeholders(0));
    let mut i: usize = 0;
    while i < args
        invariant
            i <= args,
            q@ == prefix + placeholders(i as nat),
        decreases args - i,
    {
        if i > 0 {
            q.append(",");
        }
        q.append("$");
        let d = dec_string(i + 1);
        q.append(d.as_str());
        proof {
            if i == 0 {
                assert(placeholders(1) == "$"@ + dec_rep(1));
                assert(q@ =~= prefix + placeholders((i + 1) as nat));
            } else {
                assert(placeholders((i + 1) as nat) == placeholders(i as nat) + ","@ + "$"@
                    + dec_rep((i + 1) as nat));
                assert(q@ =~= prefix + placeholders((i + 1) as nat));
            }
        }
        i += 1;
    }
    q.append(")");
    assert(q@ =~= query_spec(name@, args as nat));
    q
}

/// How often `c` occurs in `s`.
pub open spec fn count_char(s: Seq<char>, c: char) -> nat
    decreases s.len(),
{
    if s.len() == 0 {
        0
    } else {
        count_char(s.drop_last(), c) + if s.last() == c {
            1nat
        } else {
            0nat
        }
    }
}

proof fn lemma_count_char_concat(a: Seq<char>, b: Seq<char>, c: char)
    ensures
        count_char(a + b, c) == count_char(a, c) + count_char(b, c),
    decreases b.len(),
{
    if b.len() == 0 {
        assert(a + b =~= a);
    } else {
        assert((a + b).drop_last() =~= a + b.drop_last());
        assert((a + b).last() == b.last());
        lemma_count_char_concat(a, b.drop_last(), c);
    }
}

proof fn lemma_count_char_absent(s: Seq<char>, c: char)
    requires
        forall|i: int| 0 <= i < s.len() ==> s[i] != c,
    ensures
        count_char(s, c) == 0,
    decreases s.len(),
{
    if s.len() > 0 {
        lemma_count_char_absent(s.drop_last(), c);
    }
}

proof fn lemma_count_char_single(s: Seq<char>, d: char)
    requires
        s.len() == 1,
    ensures
        count_char(s, d) == if s[0] == d {
            1nat
        } else {
            0nat
        },
{
    assert(count_char(Seq::<char>::empty(), d) == 0);
    assert(s.drop_last() =~= Seq::<char>::empty());
}

proof fn lemma_digit_seq_shape(d: nat)
    requires
        d < 10,
    ensures
        digit_seq(d).len() == 1,
        '0' <= digit_seq(d)[0] <= '9',
{
    reveal_strlit("0");
    reveal_strlit("1");
    reveal_strlit("2");
    reveal_strlit("3");
    reveal_strlit("4");
    reveal_strlit("5");
    reveal_strlit("6");
    reveal_strlit("7");
    reveal_strlit("8");
    reveal_strlit("9");
}

proof fn lemma_dec_rep_digits(n: nat)
    ensures
        forall|i: int| 0 <= i < dec_rep(n).len() ==> '0' <= #[trigger] dec_rep(n)[i] <= '9',
    decreases n,
{
    if n < 10 {
        lemma_digit_seq_shape(n);
    } else {
        lemma_dec_rep_digits(n / 10);
        lemma_digit_seq_shape(n % 10);
        assert(forall|i: int|
            0 <= i < dec_rep(n).len() ==> #[trigger] dec_rep(n)[i] == if i < dec_rep(n / 10).len() {
                dec_rep(n / 10)[i]
            } else {
                digit_seq(n % 10)[i - dec_rep(n / 10).len()]
            });
    }
}

proof fn lemma_placeholders_count(n: nat)
    ensures
        count_char(placeholders(n), '$') == n,
    decreases n,
{
    reveal_strlit("$");
    reveal_strlit(",");
    lemma_count_char_single("$"@, '$');
    lemma_count_char_single(","@, '$');
    if n == 0 {
    } else if n == 1 {
        lemma_dec_rep_digits(1);
        lemma_count_char_concat("$"@, dec_rep(1), '$');
        lemma_count_char_absent(dec_rep(1), '$');
    } else {
        lemma_placeholders_count((n - 1) as nat);
        lemma_dec_rep_digits(n);
        lemma_count_char_concat(placeholders((n - 1) as nat), ","@, '$');
        lemma_count_char_concat(placeholders((n - 1) as nat) + ","@, "$"@, '$');
        lemma_count_char_concat(placeholders((n - 1) as nat) + ","@ + "$"@, dec_rep(n), '$');
        lemma_count_char_absent(dec_rep(n), '$');
    }
}

/// The statement built for a declaration with `n` parameters holds exactly
/// `n` placeholders, one `$` each, numbered in declaration order; none when
/// `n` is zero.
pub proof fn lemma_query_placeholder_count(name: Seq<char>, n: nat)
    requires
        forall|i: int| 0 <= i < name.len() ==> is_ident_char(#[trigger] name[i]),
    ensures
        count_char(query_spec(name, n), '$') == n,
{
    reveal_strlit("SELECT * FROM ");
    reveal_strlit("(");
    reveal_strlit(")");
    lemma_placeholders_count(n);
    assert(forall|i: int| 0 <= i < "SELECT * FROM "@.len() ==> #[trigger] "SELECT * FROM "@[i]
        != '$');
    lemma_count_char_absent("SELECT * FROM "@, '$');
    lemma_count_char_absent("("@, '$');
    lemma_count_char_absent(")"@, '$');
    lemma_count_char_absent(name, '$');
    lemma_count_char_concat("SELECT * FROM "@, name, '$');
    lemma_count_char_concat("SELECT * FROM "@ + name, "("@, '$');
    lemma_count_char_concat("SELECT * FROM "@ + name + "("@, placeholders(n), '$');
    lemma_count_char_concat("SELECT * FROM "@ + name + "("@ + placeholders(n), ")"@, '$');
}

} // verus!
