//! Small verified string utilities shared by the rendering and parsing
//! modules: equality of string slices and decimal rendering of integers.
use vstd::prelude::*;

verus! {

/// True exactly when the two slices hold the same characters.
pub fn str_eq(a: &str, b: &str) -> (r: bool)
    ensures
        r == (a@ == b@),
{
    let x: String = a.to_owned();
    let y: String = b.to_owned();
    x == y
}

/// The decimal digit character for a value below ten.
pub open spec fn digit_char(d: int) -> char {
    if d == 0 {
        '0'
    } else if d == 1 {
        '1'
    } else if d == 2 {
        '2'
    } else if d == 3 {
        '3'
    } else if d == 4 {
        '4'
    } else if d == 5 {
        '5'
    } else if d == 6 {
        '6'
    } else if d == 7 {
        '7'
    } else if d == 8 {
        '8'
    } else {
        '9'
    }
}

/// Decimal digits of a non-negative value, most significant first.
pub open spec fn dec_digits(n: int) -> Seq<char>
    decreases n,
{
    if n <= 0 {
        Seq::empty()
    } else {
        dec_digits(n / 10).push(digit_char(n % 10))
    }
}

/// Decimal rendering of a non-negative value: "0" for zero, otherwise its
/// digits with no leading zero.
pub open spec fn dec_str(n: int) -> Seq<char> {
    if n == 0 {
        seq!['0']
    } else {
        dec_digits(n)
    }
}

/// Decimal rendering of a possibly negative value, with a leading minus
/// sign when the value is below zero.
pub open spec fn int_str(n: int) -> Seq<char> {
    if n < 0 {
        seq!['-'] + dec_str(-n)
    } else {
        dec_str(n)
    }
}

/// Appends the digit character for `d` to `r`.
pub(crate) fn append_digit(r: &mut String, d: u64)
    requires
        d < 10,
    ensures
        final(r)@ == old(r)@.push(digit_char(d as int)),
{
    if d == 0 {
        r.append("0");
        proof {
            reveal_strlit("0");
            assert(final(r)@ =~= old(r)@.push('0'));
        }
    } else if d == 1 {
        r.append("1");
        proof {
            reveal_strlit("1");
            assert(final(r)@ =~= old(r)@.push('1'));
        }
    } else if d == 2 {
        r.append("2");
        proof {
            reveal_strlit("2");
            assert(final(r)@ =~= old(r)@.push('2'));
        }
    } else if d == 3 {
        r.append("3");
        proof {
            reveal_strlit("3");
            assert(final(r)@ =~= old(r)@.push('3'));
        }
    } else if d == 4 {
        r.append("4");
        proof {
            reveal_strlit("4");
            assert(final(r)@ =~= old(r)@.push('4'));
        }
    } else if d == 5 {
        r.append("5");
        proof {
            reveal_strlit("5");
            assert(final(r)@ =~= old(r)@.push('5'));
        }
    } else if d == 6 {
        r.append("6");
        proof {
            reveal_strlit("6");
            assert(final(r)@ =~= old(r)@.push('6'));
        }
    } else if d == 7 {
        r.append("7");
        proof {
            reveal_strlit("7");
            assert(final(r)@ =~= old(r)@.push('7'));
        }
    } else if d == 8 {
        r.append("8");
        proof {
            reveal_strlit("8");
            assert(final(r)@ =~= old(r)@.push('8'));
        }
    } else {
        r.append("9");
        proof {
            reveal_strlit("9");
            assert(final(r)@ =~= old(r)@.push('9'));
        }
    }
}

/// The digit characters for a sequence of values below ten.
pub open spec fn digit_chars(ds: Seq<u64>) -> Seq<char> {
    ds.map_values(|d: u64| digit_char(d as int))
}

/// Renders a non-negative value in decimal.
pub fn u64_to_string(n: u64) -> (r: String)
    ensures
        r@ == dec_str(n as int),
{
    if n == 0 {
        let r = "0".to_owned();
        proof {
            reveal_strlit("0");
            assert(r@ =~= seq!['0']);
        }
        return r;
    }
    // Remainders, least significant digit first.
    let mut ds: Vec<u64> = Vec::new();
    let mut m: u64 = n;
    proof {
        assert(dec_digits(n as int) =~= dec_digits(m as int) + digit_chars(ds@).reverse());
    }
    while m > 0
        invariant
            dec_digits(n as int) == dec_digits(m as int) + digit_chars(ds@).reverse(),
            forall|k: int| 0 <= k < ds@.len() ==> ds@[k] < 10,
        decreases m,
    {
        let d = m % 10;
        proof {
            let prev = ds@;
            assert(digit_chars(prev.push(d)).reverse() =~= seq![digit_char(d as int)]
                + digit_chars(prev).reverse());
            assert(dec_digits(m as int) == dec_digits(m as int / 10).push(digit_char(
                m as int % 10,
            )));
            assert(dec_digits(m as int / 10) + digit_chars(prev.push(d)).reverse()
                =~= dec_digits(m as int) + digit_chars(prev).reverse());
        }
        ds.push(d);
        m = m / 10;
    }
    proof {
        assert(dec_digits(n as int) =~= digit_chars(ds@).reverse());
    }
    let mut r = String::new();
    let n_digits = ds.len();
    let mut i: usize = 0;
    while i < n_digits
        invariant
            i <= n_digits,
            n_digits == ds@.len(),
            forall|k: int| 0 <= k < ds@.len() ==> ds@[k] < 10,
            r@ == digit_chars(ds@).reverse().take(i as int),
        decreases n_digits - i,
    {
        let d = ds[n_digits - 1 - i];
        append_digit(&mut r, d);
        proof {
            let rev = digit_chars(ds@).reverse();
            assert(rev[i as int] == digit_char(ds@[ds@.len() - 1 - i] as int));
            assert(rev.take(i + 1) =~= rev.take(i as int).push(rev[i as int]));
        }
        i = i + 1;
    }
    proof {
        assert(digit_chars(ds@).reverse().take(ds@.len() as int) =~= digit_chars(ds@).reverse());
    }
    r
}

/// Two decimal digits for a value below one hundred, zero-padded.
pub open spec fn two_digits(n: int) -> Seq<char> {
    seq![digit_char(n / 10), digit_char(n % 10)]
}

/// Renders a value below one hundred as exactly two digits.
pub fn u64_to_two_digits(n: u64) -> (r: String)
    requires
        n < 100,
    ensures
        r@ == two_digits(n as int),
{
    let mut r = String::new();
    append_digit(&mut r, n / 10);
    append_digit(&mut r, n % 10);
    proof {
        assert(r@ =~= two_digits(n as int));
    }
    r
}

/// Renders a value in decimal, with a minus sign when it is negative.
pub fn i64_to_string(n: i64) -> (r: String)
    ensures
        r@ == int_str(n as int),
{
    if n >= 0 {
        u64_to_string(n as u64)
    } else {
        // i64::MIN has no i64 negation; the magnitude is computed in u64.
        let mag: u64 = (-(n + 1)) as u64 + 1;
        let mut r = "-".to_owned();
        let d = u64_to_string(mag);
        r.append(d.as_str());
        proof {
            reveal_strlit("-");
            assert(r@ =~= seq!['-'] + dec_str(mag as int));
        }
        r
    }
}

} // verus!
