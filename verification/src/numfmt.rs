//! Decimal rendering of counters for the report table.

use vstd::prelude::*;

verus! {

/// The decimal digit character for `d` (0 through 9).
pub open spec fn dec_digit(d: int) -> char {
    if d == 0 {
        '0'
    } else if d == 1 {
        '1'
    } else if d == 2 {
        '2'
    } else if d == 3 {
        '3'
    } else if d == 4 {
        '4'
    } else if d == 5 {
        '5'
    } else if d == 6 {
        '6'
    } else if d == 7 {
        '7'
    } else if d == 8 {
        '8'
    } else {
        '9'
    }
}

/// The usual decimal rendering of `n`: no leading zeros, and `0` for zero.
pub open spec fn dec_chars(n: nat) -> Seq<char>
    decreases n,
{
    if n < 10 {
        seq![dec_digit(n as int)]
    } else {
        dec_chars(n / 10).push(dec_digit((n % 10) as int))
    }
}

/// Whether a string holds no line break: no `'\n'` and no `'\r'`.
pub open spec fn line_free(s: Seq<char>) -> bool {
    forall|j: int| 0 <= j < s.len() ==> s[j] != '\n' && s[j] != '\r'
}

/// A decimal rendering consists of digit characters alone, so it holds no
/// line break.
pub proof fn lemma_dec_chars_line_free(n: nat)
    ensures
        line_free(dec_chars(n)),
    decreases n,
{
    if n >= 10 {
        lemma_dec_chars_line_free(n / 10);
    }
}

/// A short string none of whose positions holds a line break holds no line
/// break: checks every position of a string of at most twelve characters,
/// the longest this crate states of a literal.
pub proof fn lemma_short_line_free(s: Seq<char>)
    requires
        s.len() <= 12,
        s.len() > 0 ==> s[0] != '\n' && s[0] != '\r',
        s.len() > 1 ==> s[1] != '\n' && s[1] != '\r',
        s.len() > 2 ==> s[2] != '\n' && s[2] != '\r',
        s.len() > 3 ==> s[3] != '\n' && s[3] != '\r',
        s.len() > 4 ==> s[4] != '\n' && s[4] != '\r',
        s.len() > 5 ==> s[5] != '\n' && s[5] != '\r',
        s.len() > 6 ==> s[6] != '\n' && s[6] != '\r',
        s.len() > 7 ==> s[7] != '\n' && s[7] != '\r',
        s.len() > 8 ==> s[8] != '\n' && s[8] != '\r',
        s.len() > 9 ==> s[9] != '\n' && s[9] != '\r',
        s.len() > 10 ==> s[10] != '\n' && s[10] != '\r',
        s.len() > 11 ==> s[11] != '\n' && s[11] != '\r',
    ensures
        line_free(s),
{
    assert forall|j: int| 0 <= j < s.len() implies s[j] != '\n' && s[j] != '\r' by {
        if j == 0 {
        } else if j == 1 {
        } else if j == 2 {
        } else if j == 3 {
        } else if j == 4 {
        } else if j == 5 {
        } else if j == 6 {
        } else if j == 7 {
        } else if j == 8 {
        } else if j == 9 {
        } else if j == 10 {
        } else {
        }
    }
}

/// The one-character string for the decimal digit `d`.
fn digit_str(d: u64) -> (r: &'static str)
    requires
        d < 10,
    ensures
        r@ == seq![dec_digit(d as int)],
{
    proof {
        reveal_strlit("0");
        reveal_strlit("1");
        reveal_strlit("2");
        reveal_strlit("3");
        reveal_strlit("4");
        reveal_strlit("5");
        reveal_strlit("6");
        reveal_strlit("7");
        reveal_strlit("8");
        reveal_strlit("9");
    }
    let r = match d {
        0 => "0",
        1 => "1",
        2 => "2",
        3 => "3",
        4 => "4",
        5 => "5",
        6 => "6",
        7 => "7",
        8 => "8",
        _ => "9",
    };
    proof {
        assert(r@ =~= seq![dec_digit(d as int)]);
    }
    r
}

/// Render `n` in decimal.
pub fn u64_to_string(n: u64) -> (r: String)
    ensures
        r@ == dec_chars(n as nat),
    decreases n,
{
    if n < 10 {
        digit_str(n).to_owned()
    } else {
        proof {
            assert(n / 10 < n) by (nonlinear_arith)
                requires
                    n >= 10,
            ;
        }
        let mut s = u64_to_string(n / 10);
        s.append(digit_str(n % 10));
        proof {
            assert(s@ =~= dec_chars((n / 10) as nat).push(dec_digit((n % 10) as int)));
        }
        s
    }
}

} // verus!
