//! Decimal rendering of identifiers, for the error messages that name the
//! offending id.

use vstd::prelude::*;

use vstd::string::StringExecFns;

verus! {

/// The character for one decimal digit.
pub open spec fn digit_char(d: int) -> char {
    ((d + 48) as u8) as char
}

/// The decimal digits of `n`, most significant first.
pub open spec fn spec_dec_chars(n: u64) -> Seq<char>
    decreases n,
{
    if n < 10 {
        seq![digit_char(n as int)]
    } else {
        spec_dec_chars(n / 10).push(digit_char((n % 10) as int))
    }
}

/// Whether `e` is `NotFound` with a message that is exactly the given
/// prefix followed by the decimal rendering of the offending id.
pub open spec fn is_not_found_with_id(e: crate::Error, prefix: Seq<char>, id: u64) -> bool {
    match e {
        crate::Error::NotFound { msg } => msg@ == prefix + spec_dec_chars(id),
        _ => false,
    }
}

fn append_digit(out: &mut String, d: u64)
    requires
        d < 10,
    ensures
        final(out)@ == old(out)@ + seq![digit_char(d as int)],
{
    proof {
        reveal_strlit("0");
        reveal_strlit("1");
        reveal_strlit("2");
        reveal_strlit("3");
        reveal_strlit("4");
        reveal_strlit("5");
        reveal_strlit("6");
        reveal_strlit("7");
        reveal_strlit("8");
        reveal_strlit("9");
    }
    let s: &str = if d == 0 {
        "0"
    } else if d == 1 {
        "1"
    } else if d == 2 {
        "2"
    } else if d == 3 {
        "3"
    } else if d == 4 {
        "4"
    } else if d == 5 {
        "5"
    } else if d == 6 {
        "6"
    } else if d == 7 {
        "7"
    } else if d == 8 {
        "8"
    } else {
        "9"
    };
    proof {
        assert(s@ =~= seq![digit_char(d as int)]);
    }
    out.append(s);
}

fn append_dec(out: &mut String, n: u64)
    ensures
        final(out)@ == old(out)@ + spec_dec_chars(n),
    decreases n,
{
    if n >= 10 {
        proof {
            assert(n / 10 < n) by (nonlinear_arith)
                requires
                    n >= 10,
            ;
        }
        append_dec(out, n / 10);
        append_digit(out, n % 10);
        proof {
            assert(out@ =~= old(out)@ + spec_dec_chars(n));
        }
    } else {
        append_digit(out, n);
        proof {
            assert(out@ =~= old(out)@ + spec_dec_chars(n));
        }
    }
}

/// The message of a `NotFound` error: the operation's own prefix followed
/// by the offending identifier in decimal.
pub(crate) fn not_found_msg(prefix: &str, id: u64) -> (r: String)
    ensures
        r@ == prefix@ + spec_dec_chars(id),
{
    let mut msg = prefix.to_owned();
    append_dec(&mut msg, id);
    msg
}

} // verus!
