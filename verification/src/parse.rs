//! Decimal parsing of port numbers, with a descriptive error message.

use vstd::prelude::*;
use vstd::string::StrSliceExecFns;
use vstd::string::StringExecFns;

verus! {

/// A decimal digit character.
pub open spec fn is_digit(c: char) -> bool {
    48 <= c as u32 && c as u32 <= 57
}

/// The numeric value of a decimal digit character.
pub open spec fn digit_val(c: char) -> int {
    c as u32 - 48
}

/// Every character of the sequence is a decimal digit.
pub open spec fn all_digits(s: Seq<char>) -> bool {
    forall|i: int| 0 <= i < s.len() ==> is_digit(#[trigger] s[i])
}

/// The number that a sequence of digits denotes, most significant first.
pub open spec fn digits_val(s: Seq<char>) -> int
    decreases s.len(),
{
    if s.len() == 0 {
        0
    } else {
        digits_val(s.drop_last()) * 10 + digit_val(s.last())
    }
}

/// The digit part of a port literal: what follows an optional leading `+`.
pub open spec fn port_digits(s: Seq<char>) -> Seq<char> {
    if s.len() > 0 && s[0] == '+' {
        s.skip(1)
    } else {
        s
    }
}

/// A port literal: an optional `+`, then at least one decimal digit, denoting
/// a number of at most 65535.
pub open spec fn valid_port(s: Seq<char>) -> bool {
    &&& port_digits(s).len() > 0
    &&& all_digits(port_digits(s))
    &&& digits_val(port_digits(s)) <= 65535
}

/// A left-to-right scan overruns the range before it meets anything else:
/// some all-digit prefix already denotes a number beyond 65535.
pub open spec fn port_overflows(s: Seq<char>) -> bool {
    exists|i: int|
        0 <= i <= port_digits(s).len() && all_digits(#[trigger] port_digits(s).take(i))
            && digits_val(port_digits(s).take(i)) > 65535
}

/// What an invalid port literal is reproached with. The scan reads digits
/// and accumulates their value as it goes, so a range overrun that happens
/// before a bad character is met wins over that character.
pub open spec fn port_error_detail(s: Seq<char>) -> Seq<char> {
    if s.len() == 0 {
        "cannot parse integer from empty string"@
    } else if port_overflows(s) {
        "number too large to fit in target type"@
    } else {
        "invalid digit found in string"@
    }
}

/// The full error message for an invalid port literal.
pub open spec fn port_error_msg(s: Seq<char>) -> Seq<char> {
    "Invalid port '"@ + s + "': "@ + port_error_detail(s)
}

proof fn lemma_digits_val_nonneg(s: Seq<char>)
    requires
        all_digits(s),
    ensures
        digits_val(s) >= 0,
    decreases s.len(),
{
    if s.len() > 0 {
        assert(all_digits(s.drop_last()));
        lemma_digits_val_nonneg(s.drop_last());
    }
}

/// Reading further digits never shrinks the value.
proof fn lemma_digits_val_prefix(s: Seq<char>, i: int, j: int)
    requires
        0 <= i <= j <= s.len(),
        all_digits(s.take(j)),
    ensures
        digits_val(s.take(i)) <= digits_val(s.take(j)),
    decreases j - i,
{
    if i < j {
        assert(forall|m: int| 0 <= m < i + 1 ==> s.take(i + 1)[m] == #[trigger] s.take(j)[m]);
        assert(all_digits(s.take(i + 1)));
        assert(all_digits(s.take(i)));
        assert(s.take(i + 1).drop_last() =~= s.take(i));
        lemma_digits_val_nonneg(s.take(i));
        assert(digits_val(s.take(i)) <= digits_val(s.take(i + 1)));
        lemma_digits_val_prefix(s, i + 1, j);
    } else {
        assert(s.take(i) =~= s.take(j));
    }
}

/// Builds the message `"Invalid port '<s>': <detail>"`.
fn port_error_string(s: &str, detail: &str) -> (r: String)
    ensures
        r@ == "Invalid port '"@ + s@ + "': "@ + detail@,
{
    let mut r = String::from_str("Invalid port '");
    r.append(s);
    r.append("': ");
    r.append(detail);
    r
}

/// Parses a decimal port number, tolerating one leading `+`. Rejects the
/// empty string, any non-digit character, and values beyond 65535, naming
/// the offending condition in the error message.
pub fn parse_port(s: &str) -> (r: Result<u16, String>)
    ensures
        valid_port(s@) ==> (r matches Ok(v) && v == digits_val(port_digits(s@))),
        !valid_port(s@) ==> (r matches Err(e) && e@ == port_error_msg(s@)),
{
    let n = s.unicode_len();
    let start: usize = if n > 0 && s.get_char(0) == '+' {
        1
    } else {
        0
    };
    let ghost d: Seq<char> = port_digits(s@);
    proof {
        assert(d =~= s@.skip(start as int));
    }
    if n == start {
        proof {
            assert(d.take(0) =~= d);
        }
        if n == 0 {
            return Err(port_error_string(s, "cannot parse integer from empty string"));
        } else {
            return Err(port_error_string(s, "invalid digit found in string"));
        }
    }
    let mut val: u32 = 0;
    let mut i: usize = start;
    while i < n
        invariant
            start <= i <= n,
            n == s@.len(),
            start <= 1,
            n > start,
            d == port_digits(s@),
            d =~= s@.skip(start as int),
            all_digits(d.take(i - start)),
            val == digits_val(d.take(i - start)),
            val <= 65535,
        decreases n - i,
    {
        let c = s.get_char(i);
        let u = c as u32;
        let ghost idx: int = i - start;
        if u < 48 || u > 57 {
            proof {
                assert(!is_digit(d[idx]));
                assert forall|k: int|
                    0 <= k <= d.len() && all_digits(port_digits(s@).take(k)) implies digits_val(
                    port_digits(s@).take(k),
                ) <= 65535 by {
                    if k > idx {
                        assert(is_digit(d.take(k)[idx]));
                    } else {
                        lemma_digits_val_prefix(d, k, idx);
                    }
                }
                assert(!port_overflows(s@));
                assert(!valid_port(s@));
            }
            return Err(port_error_string(s, "invalid digit found in string"));
        }
        proof {
            assert(d.take(idx + 1).drop_last() =~= d.take(idx));
            assert(d.take(idx + 1).last() == c);
            assert(all_digits(d.take(idx + 1)));
        }
        val = val * 10 + (u - 48);
        i = i + 1;
        if val > 65535 {
            proof {
                assert(all_digits(port_digits(s@).take(idx + 1)) && digits_val(
                    port_digits(s@).take(idx + 1),
                ) > 65535);
                assert(port_overflows(s@));
                if all_digits(d) {
                    lemma_digits_val_prefix(d, idx + 1, d.len() as int);
                    assert(d.take(d.len() as int) =~= d);
                }
                assert(!valid_port(s@));
            }
            return Err(port_error_string(s, "number too large to fit in target type"));
        }
    }
    proof {
        assert(d.take(n - start) =~= d);
    }
    Ok(val as u16)
}

} // verus!
