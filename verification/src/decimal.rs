//! Decimal digits, signed decimal literals, and rendering integers as
//! decimal strings.  The literal grammar is the one `i64` parsing uses in
//! practice: an optional `+` or `-` sign followed by one or more ASCII
//! digits, with the resulting value required to fit in an `i64`.

use vstd::prelude::*;
use vstd::string::StrSliceExecFns;
use vstd::string::StringExecFns;

verus! {

/// `c` is an ASCII decimal digit.
pub open spec fn is_digit_char(c: char) -> bool {
    48 <= c as u32 <= 57
}

/// Numeric value of the digit `c`.
pub open spec fn digit_val(c: char) -> int {
    c as u32 - 48
}

/// The digit character for a value `d` between 0 and 9.
pub open spec fn digit_char(d: int) -> char {
    if d == 0 {
        '0'
    } else if d == 1 {
        '1'
    } else if d == 2 {
        '2'
    } else if d == 3 {
        '3'
    } else if d == 4 {
        '4'
    } else if d == 5 {
        '5'
    } else if d == 6 {
        '6'
    } else if d == 7 {
        '7'
    } else if d == 8 {
        '8'
    } else {
        '9'
    }
}

/// Value of a digit string read in base 10 (most significant digit first).
pub open spec fn digits_val(s: Seq<char>) -> int
    decreases s.len(),
{
    if s.len() == 0 {
        0
    } else {
        digits_val(s.drop_last()) * 10 + digit_val(s.last())
    }
}

/// Every character of `s` is an ASCII decimal digit.
pub open spec fn all_digits(s: Seq<char>) -> bool {
    forall|i: int| 0 <= i < s.len() ==> is_digit_char(#[trigger] s[i])
}

/// `s` starts with an explicit sign character.
pub open spec fn has_sign(s: Seq<char>) -> bool {
    s.len() > 0 && (s[0] == '+' || s[0] == '-')
}

/// The digits of `s`, with any leading sign removed.
pub open spec fn literal_body(s: Seq<char>) -> Seq<char> {
    if has_sign(s) {
        s.drop_first()
    } else {
        s
    }
}

/// -1 for a literal with a leading minus sign, +1 otherwise.
pub open spec fn literal_sign(s: Seq<char>) -> int {
    if s.len() > 0 && s[0] == '-' {
        -1
    } else {
        1
    }
}

/// `s` is a well-formed signed decimal literal (of any magnitude).
pub open spec fn is_int_literal(s: Seq<char>) -> bool {
    literal_body(s).len() > 0 && all_digits(literal_body(s))
}

/// The mathematical value of the literal `s`.
pub open spec fn int_literal_val(s: Seq<char>) -> int {
    literal_sign(s) * digits_val(literal_body(s))
}

/// `s` is a decimal literal whose value fits in an `i64`.
pub open spec fn is_i64_literal(s: Seq<char>) -> bool {
    &&& is_int_literal(s)
    &&& i64::MIN <= int_literal_val(s) <= i64::MAX
}

/// The decimal rendering of a non-negative integer, most significant digit
/// first and without leading zeros (`0` itself is rendered as "0").
pub open spec fn dec_str_nat(n: nat) -> Seq<char>
    decreases n,
{
    if n < 10 {
        seq![digit_char(n as int)]
    } else {
        dec_str_nat(n / 10) + seq![digit_char((n % 10) as int)]
    }
}

/// The decimal rendering of an integer, with a minus sign when negative.
pub open spec fn dec_str(n: int) -> Seq<char> {
    if n < 0 {
        seq!['-'] + dec_str_nat((-n) as nat)
    } else {
        dec_str_nat(n as nat)
    }
}

/// A digit string has a non-negative value.
proof fn lemma_digits_val_nonneg(s: Seq<char>)
    requires
        all_digits(s),
    ensures
        digits_val(s) >= 0,
    decreases s.len(),
{
    if s.len() > 0 {
        assert(forall|i: int| 0 <= i < s.drop_last().len() ==> is_digit_char(
            #[trigger] s.drop_last()[i],
        ));
        lemma_digits_val_nonneg(s.drop_last());
    }
}

/// Reading only a prefix of a digit string never overshoots its value.
proof fn lemma_digits_val_prefix(s: Seq<char>, i: int)
    requires
        all_digits(s),
        0 <= i <= s.len(),
    ensures
        digits_val(s.subrange(0, i)) <= digits_val(s),
    decreases s.len() - i,
{
    if i < s.len() {
        let p = s.subrange(0, i);
        let q = s.subrange(0, i + 1);
        assert(q.drop_last() =~= p);
        assert(q.last() == s[i]);
        assert(forall|j: int| 0 <= j < p.len() ==> is_digit_char(#[trigger] p[j]));
        lemma_digits_val_nonneg(p);
        assert(digits_val(q) == digits_val(p) * 10 + digit_val(s[i]));
        assert(digits_val(p) * 10 >= digits_val(p));
        lemma_digits_val_prefix(s, i + 1);
    } else {
        assert(s.subrange(0, i) =~= s);
    }
}

/// The single-character string for the digit `d`.
fn digit_str(d: u64) -> (r: &'static str)
    requires
        d < 10,
    ensures
        r@ == seq![digit_char(d as int)],
{
    match d {
        0 => {
            proof {
                reveal_strlit("0");
                assert("0"@ =~= seq![digit_char(0)]);
            }
            "0"
        },
        1 => {
            proof {
                reveal_strlit("1");
                assert("1"@ =~= seq![digit_char(1)]);
            }
            "1"
        },
        2 => {
            proof {
                reveal_strlit("2");
                assert("2"@ =~= seq![digit_char(2)]);
            }
            "2"
        },
        3 => {
            proof {
                reveal_strlit("3");
                assert("3"@ =~= seq![digit_char(3)]);
            }
            "3"
        },
        4 => {
            proof {
                reveal_strlit("4");
                assert("4"@ =~= seq![digit_char(4)]);
            }
            "4"
        },
        5 => {
            proof {
                reveal_strlit("5");
                assert("5"@ =~= seq![digit_char(5)]);
            }
            "5"
        },
        6 => {
            proof {
                reveal_strlit("6");
                assert("6"@ =~= seq![digit_char(6)]);
            }
            "6"
        },
        7 => {
            proof {
                reveal_strlit("7");
                assert("7"@ =~= seq![digit_char(7)]);
            }
            "7"
        },
        8 => {
            proof {
                reveal_strlit("8");
                assert("8"@ =~= seq![digit_char(8)]);
            }
            "8"
        },
        _ => {
            proof {
                reveal_strlit("9");
                assert("9"@ =~= seq![digit_char(9)]);
            }
            "9"
        },
    }
}

/// Render a non-negative integer in decimal.
fn u64_to_string(m: u64) -> (r: String)
    ensures
        r@ == dec_str_nat(m as nat),
    decreases m,
{
    if m < 10 {
        String::from_str(digit_str(m))
    } else {
        let q = m / 10;
        let d = m % 10;
        assert(q < m) by (nonlinear_arith)
            requires
                m >= 10,
                q == m / 10,
        ;
        let pre = u64_to_string(q);
        pre.concat(digit_str(d))
    }
}

/// Render an integer in decimal, with a minus sign when negative.
pub(crate) fn i64_to_string(n: i64) -> (r: String)
    ensures
        r@ == dec_str(n as int),
{
    if n >= 0 {
        u64_to_string(n as u64)
    } else {
        let mag: u64 = if n == i64::MIN {
            9223372036854775808u64
        } else {
            (-n) as u64
        };
        let digits = u64_to_string(mag);
        let r = String::from_str("-").concat(digits.as_str());
        proof {
            reveal_strlit("-");
            assert("-"@ =~= seq!['-']);
            assert(mag as nat == (-(n as int)) as nat);
        }
        r
    }
}

/// Parse a signed decimal literal into an `i64`, accepting exactly the
/// well-formed literals whose value fits.
pub(crate) fn parse_i64(s: &str) -> (r: Option<i64>)
    ensures
        r is Some <==> is_i64_literal(s@),
        r matches Some(v) ==> v == int_literal_val(s@),
{
    let n = s.unicode_len();
    if n == 0 {
        return None;
    }
    let c0 = s.get_char(0);
    let u0 = c0 as u32;
    let signed: bool = u0 == 43 || u0 == 45;  // '+' or '-'
    let neg: bool = u0 == 45;
    let start: usize = if signed {
        1
    } else {
        0
    };
    proof {
        if signed {
            assert(s@[0] == '+' || s@[0] == '-');
            assert(literal_body(s@) =~= s@.subrange(1, n as int));
        } else {
            assert(!has_sign(s@));
            assert(literal_body(s@) =~= s@.subrange(0, n as int));
        }
    }
    let ghost b = s@.subrange(start as int, n as int);
    if n == start {
        return None;
    }
    let mut mag: u64 = 0;
    let mut i: usize = start;
    while i < n
        invariant
            start <= i <= n,
            n == s@.len(),
            start == 0 || start == 1,
            b == s@.subrange(start as int, n as int),
            b == literal_body(s@),
            neg == (literal_sign(s@) == -1),
            b.len() > 0,
            all_digits(s@.subrange(start as int, i as int)),
            mag == digits_val(s@.subrange(start as int, i as int)),
        decreases n - i,
    {
        let c = s.get_char(i);
        let u = c as u32;
        if u < 48 || u > 57 {
            proof {
                assert(b[i - start] == s@[i as int]);
                assert(!is_digit_char(b[i - start]));
            }
            return None;
        }
        let d: u64 = (u - 48) as u64;
        let ghost p = s@.subrange(start as int, i as int);
        let ghost p1 = s@.subrange(start as int, i + 1);
        proof {
            assert(p1.drop_last() =~= p);
            assert(p1.last() == s@[i as int]);
            assert(forall|j: int| 0 <= j < p1.len() ==> is_digit_char(#[trigger] p1[j]));
            assert(digits_val(p1) == mag * 10 + d);
        }
        if mag > (u64::MAX - d) / 10 {
            proof {
                let cap = (u64::MAX - d) as int;
                assert(cap == cap / 10 * 10 + cap % 10 && 0 <= cap % 10 < 10) by (nonlinear_arith);
                assert(mag * 10 >= (cap / 10 + 1) * 10) by (nonlinear_arith)
                    requires
                        mag >= cap / 10 + 1,
                ;
                assert((cap / 10 + 1) * 10 == cap / 10 * 10 + 10) by (nonlinear_arith);
                assert(digits_val(p1) > u64::MAX);
                if all_digits(b) {
                    assert(p1 =~= b.subrange(0, i + 1 - start));
                    lemma_digits_val_prefix(b, i + 1 - start);
                    assert(digits_val(b) > u64::MAX);
                    assert(!is_i64_literal(s@));
                } else {
                    assert(!is_int_literal(s@));
                }
            }
            return None;
        }
        mag = mag * 10 + d;
        i += 1;
        proof {
            assert(s@.subrange(start as int, i as int) =~= p1);
        }
    }
    proof {
        assert(s@.subrange(start as int, n as int) =~= b);
        assert(is_int_literal(s@));
        assert(int_literal_val(s@) == literal_sign(s@) * digits_val(b));
        lemma_digits_val_nonneg(b);
    }
    if neg {
        if mag > 9223372036854775808u64 {
            proof {
                assert(int_literal_val(s@) == -1 * digits_val(b));
            }
            return None;
        }
        if mag == 9223372036854775808u64 {
            proof {
                assert(int_literal_val(s@) == -1 * digits_val(b));
            }
            Some(i64::MIN)
        } else {
            proof {
                assert(int_literal_val(s@) == -1 * digits_val(b));
            }
            Some(-(mag as i64))
        }
    } else {
        if mag > 9223372036854775807u64 {
            proof {
                assert(int_literal_val(s@) == 1 * digits_val(b));
            }
            return None;
        }
        proof {
            assert(int_literal_val(s@) == 1 * digits_val(b));
        }
        Some(mag as i64)
    }
}

} // verus!
