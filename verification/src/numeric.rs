//! Decimal numerals: reading a signed 32-bit integer out of raw bytes, and
//! printing one back as text.
//!
//! Both directions are specified against one mathematical model: a digit
//! sequence names the integer obtained by the usual base-ten fold. Parsing
//! accepts an optional leading sign, requires at least one digit, and fails
//! exactly when the text is not such a numeral or its value falls outside the
//! 32-bit range.

use vstd::prelude::*;

verus! {

/// Whether every byte of `s` is an ASCII decimal digit.
pub open spec fn all_digits(s: Seq<u8>) -> bool {
    forall|i: int| 0 <= i < s.len() ==> 48 <= #[trigger] s[i] <= 57
}

/// The integer named by a digit sequence, most significant digit first.
pub open spec fn digits_val(s: Seq<u8>) -> int
    decreases s.len(),
{
    if s.len() == 0 {
        0
    } else {
        digits_val(s.drop_last()) * 10 + (s.last() - 48)
    }
}

/// The digit part and sign of a numeral: a leading `-` or `+` is stripped and
/// only `-` negates.
pub open spec fn numeral_digits(s: Seq<u8>) -> Seq<u8> {
    if s.len() > 0 && (s[0] == 45 || s[0] == 43) {
        s.skip(1)
    } else {
        s
    }
}

pub open spec fn numeral_negative(s: Seq<u8>) -> bool {
    s.len() > 0 && s[0] == 45
}

/// The signed value a byte string names, before any range check.
pub open spec fn numeral_val(s: Seq<u8>) -> int {
    if numeral_negative(s) {
        -digits_val(numeral_digits(s))
    } else {
        digits_val(numeral_digits(s))
    }
}

/// Whether a byte string is a well-formed decimal numeral: an optional sign
/// followed by one or more digits.
pub open spec fn is_numeral(s: Seq<u8>) -> bool {
    numeral_digits(s).len() > 0 && all_digits(numeral_digits(s))
}

/// What parsing a byte string as an `i32` yields: the named value when the
/// string is a numeral in range, nothing otherwise.
pub open spec fn spec_parse_i32(s: Seq<u8>) -> Option<int> {
    if is_numeral(s) && -2147483648 <= numeral_val(s) <= 2147483647 {
        Some(numeral_val(s))
    } else {
        None
    }
}

/// A digit value never lowers the fold: appending digits grows the magnitude.
proof fn lemma_digits_val_nonneg(s: Seq<u8>)
    requires
        all_digits(s),
    ensures
        digits_val(s) >= 0,
    decreases s.len(),
{
    if s.len() > 0 {
        assert(all_digits(s.drop_last())) by {
            assert(forall|i: int|
                0 <= i < s.drop_last().len() ==> s.drop_last()[i] == s[i]);
        }
        lemma_digits_val_nonneg(s.drop_last());
    }
}

/// Extending a digit prefix can only grow the value.
proof fn lemma_digits_val_prefix_le(s: Seq<u8>, i: int)
    requires
        all_digits(s),
        0 <= i <= s.len(),
    ensures
        digits_val(s.take(i)) <= digits_val(s),
    decreases s.len() - i,
{
    assert(all_digits(s.take(i))) by {
        assert(forall|k: int| 0 <= k < s.take(i).len() ==> s.take(i)[k] == s[k]);
    }
    if i < s.len() {
        lemma_digits_val_prefix_le(s, i + 1);
        assert(s.take(i + 1).drop_last() =~= s.take(i));
        assert(digits_val(s.take(i + 1)) == digits_val(s.take(i)) * 10 + (s[i] - 48));
        lemma_digits_val_nonneg(s.take(i));
        assert(digits_val(s.take(i)) * 10 >= digits_val(s.take(i))) by (nonlinear_arith)
            requires digits_val(s.take(i)) >= 0;
    } else {
        assert(s.take(i) =~= s);
    }
}

/// Folds the digits of `s[from..]`, answering the value when every byte is a
/// digit and the fold stays within the 32-bit magnitude bound.
fn fold_digits(s: &[u8], from: usize, bound: u64) -> (r: Option<u64>)
    requires
        from <= s@.len(),
        2147483647 <= bound <= 2147483648,
    ensures
        match r {
            Some(v) => all_digits(s@.skip(from as int)) && v == digits_val(
                s@.skip(from as int),
            ) && v <= bound,
            None => !all_digits(s@.skip(from as int)) || digits_val(s@.skip(from as int))
                > bound,
        },
{
    let ghost d = s@.skip(from as int);
    let n = s.len();
    let mut i: usize = from;
    let mut acc: u64 = 0;
    while i < n
        invariant
            from <= i <= n,
            n == s@.len(),
            d == s@.skip(from as int),
            2147483647 <= bound <= 2147483648,
            all_digits(d.take(i - from)),
            acc == digits_val(d.take(i - from)),
            acc <= bound,
        decreases n - i,
    {
        let b = *vstd::slice::slice_index_get(s, i);
        if b < 48 || b > 57 {
            assert(d[i - from] == b);
            return None;
        }
        proof {
            assert(d.take(i + 1 - from).drop_last() =~= d.take(i - from));
            assert(d.take(i + 1 - from).last() == d[i - from] == b);
        }
        let next: u64 = acc * 10 + (b - 48) as u64;
        if next > bound {
            proof {
                assert(all_digits(d.take(i + 1 - from)));
                if all_digits(d) {
                    lemma_digits_val_prefix_le(d, i + 1 - from);
                }
            }
            return None;
        }
        acc = next;
        i = i + 1;
    }
    proof {
        assert(d.take(n - from) =~= d);
    }
    Some(acc)
}

/// Parses a byte string as a signed 32-bit decimal numeral.
pub fn parse_i32_bytes(s: &[u8]) -> (r: Option<i32>)
    ensures
        match r {
            Some(v) => spec_parse_i32(s@) == Some(v as int),
            None => spec_parse_i32(s@) is None,
        },
{
    let n = s.len();
    if n == 0 {
        return None;
    }
    let first = *vstd::slice::slice_index_get(s, 0);
    let neg = first == 45;
    let from: usize = if first == 45 || first == 43 {
        1
    } else {
        0
    };
    proof {
        assert(numeral_digits(s@) == s@.skip(from as int));
        assert(numeral_negative(s@) == neg);
    }
    if from == n {
        // a bare sign has no digits
        return None;
    }
    let bound: u64 = if neg {
        2147483648
    } else {
        2147483647
    };
    match fold_digits(s, from, bound) {
        None => {
            proof {
                if all_digits(numeral_digits(s@)) {
                    lemma_digits_val_nonneg(numeral_digits(s@));
                }
            }
            None
        },
        Some(v) => {
            proof {
                lemma_digits_val_nonneg(numeral_digits(s@));
            }
            if neg {
                if v == 2147483648 {
                    Some(i32::MIN)
                } else {
                    Some(-((v as i32)))
                }
            } else {
                Some(v as i32)
            }
        },
    }
}

/// The digit characters of a non-negative integer, most significant first.
pub open spec fn digit_char(d: int) -> char {
    (d + 48) as char
}

pub open spec fn nat_chars(n: int) -> Seq<char>
    decreases n,
{
    if n <= 0 {
        seq!['0']
    } else if n < 10 {
        seq![digit_char(n)]
    } else {
        nat_chars(n / 10).push(digit_char(n % 10))
    }
}

/// The decimal text of a signed integer.
pub open spec fn int_chars(n: int) -> Seq<char> {
    if n < 0 {
        seq!['-'] + nat_chars(-n)
    } else {
        nat_chars(n)
    }
}

/// A one-character string for each decimal digit.
fn digit_str(d: u8) -> (r: &'static str)
    requires
        d < 10,
    ensures
        r@ =~= seq![digit_char(d as int)],
{
    let r = match d {
        0 => "0",
        1 => "1",
        2 => "2",
        3 => "3",
        4 => "4",
        5 => "5",
        6 => "6",
        7 => "7",
        8 => "8",
        _ => "9",
    };
    proof {
        reveal_strlit("0");
        reveal_strlit("1");
        reveal_strlit("2");
        reveal_strlit("3");
        reveal_strlit("4");
        reveal_strlit("5");
        reveal_strlit("6");
        reveal_strlit("7");
        reveal_strlit("8");
        reveal_strlit("9");
    }
    r
}

/// Writes a non-negative integer after whatever `out` already holds.
fn push_nat_chars(out: &mut String, n: u32)
    ensures
        final(out)@ == old(out)@ + nat_chars(n as int),
    decreases n,
{
    if n < 10 {
        out.append(digit_str(n as u8));
    } else {
        push_nat_chars(out, n / 10);
        out.append(digit_str((n % 10) as u8));
        proof {
            assert(old(out)@ + nat_chars(n as int) =~= (old(out)@ + nat_chars(
                n as int / 10,
            )) + seq![digit_char(n as int % 10)]);
        }
    }
}

/// The decimal text of a signed 32-bit integer.
pub fn i32_to_string(n: i32) -> (r: String)
    ensures
        r@ == int_chars(n as int),
{
    let mut out = String::new();
    if n < 0 {
        out.append("-");
        proof {
            reveal_strlit("-");
        }
        let m: u32 = if n == i32::MIN {
            2147483648
        } else {
            (-n) as u32
        };
        push_nat_chars(&mut out, m);
        proof {
            assert(int_chars(n as int) =~= seq!['-'] + nat_chars(m as int));
        }
    } else {
        push_nat_chars(&mut out, n as u32);
    }
    out
}

} // verus!
