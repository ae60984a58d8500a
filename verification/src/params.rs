//! Primitive parsers and formatters for path-parameter captures: a capture
//! is converted to its field's value type when a route value is composed,
//! and back to text when the route value is rendered.

use vstd::prelude::*;
use vstd::string::StringExecFns;
use crate::RouteParseErr;
use crate::ident::is_digit;
use crate::chars::{str_to_chars, chars_to_string};

verus! {

/// The numeric value of a decimal digit character.
pub open spec fn digit_val(c: char) -> nat {
    ((c as u32) - ('0' as u32)) as nat
}

/// Every character of `s` is a decimal digit.
pub open spec fn all_digits(s: Seq<char>) -> bool {
    forall|i: int| 0 <= i < s.len() ==> is_digit(#[trigger] s[i])
}

/// The value of `s` read as a decimal numeral, most significant digit first.
pub open spec fn dec_value(s: Seq<char>) -> nat
    decreases s.len(),
{
    if s.len() == 0 {
        0
    } else {
        dec_value(s.drop_last()) * 10 + digit_val(s.last())
    }
}

/// `s` is a decimal numeral whose value fits in a `u64`.
pub open spec fn is_u64_numeral(s: Seq<char>) -> bool {
    s.len() > 0 && all_digits(s) && dec_value(s) <= u64::MAX
}

proof fn lemma_dec_value_prefix_le(s: Seq<char>, i: int)
    requires
        0 <= i <= s.len(),
    ensures
        dec_value(s.take(i)) <= dec_value(s),
    decreases s.len() - i,
{
    if i == s.len() {
        assert(s.take(i) =~= s);
    } else {
        assert(s.take(i + 1).drop_last() =~= s.take(i));
        assert(s.take(i + 1).last() == s[i]);
        assert(dec_value(s.take(i + 1)) == dec_value(s.take(i)) * 10 + digit_val(s[i]));
        lemma_dec_value_prefix_le(s, i + 1);
    }
}

fn param_err() -> (r: RouteParseErr)
    ensures
        r matches RouteParseErr::ParamParseErr(d),
{
    RouteParseErr::ParamParseErr(String::from_str("not a decimal numeral in range"))
}

/// Parses a path capture as a decimal `u64`: the capture must be non-empty,
/// all digits, and in range, and anything else is a `ParamParseErr`.
#[verifier::loop_isolation(false)]
pub fn parse_u64_param(s: &str) -> (r: Result<u64, RouteParseErr>)
    ensures
        r matches Ok(v) ==> is_u64_numeral(s@) && v == dec_value(s@),
        r matches Err(e) ==> (!is_u64_numeral(s@) && e matches RouteParseErr::ParamParseErr(d)),
{
    let sv = str_to_chars(s);
    let n = sv.len();
    if n == 0 {
        return Err(param_err());
    }
    let mut acc: u64 = 0;
    let mut i: usize = 0;
    while i < n
        invariant
            i <= n,
            n == s@.len(),
            sv@ == s@,
            all_digits(s@.take(i as int)),
            acc == dec_value(s@.take(i as int)),
        decreases n - i,
    {
        let c = sv[i];
        if c < '0' || c > '9' {
            proof {
                assert(!is_digit(s@[i as int]));
            }
            return Err(param_err());
        }
        let d: u64 = ((c as u32) - ('0' as u32)) as u64;
        proof {
            assert(d == digit_val(s@[i as int]));
            assert(s@.take(i as int + 1).drop_last() =~= s@.take(i as int));
            assert(s@.take(i as int + 1).last() == s@[i as int]);
        }
        if acc > (u64::MAX - d) / 10 {
            proof {
                assert(dec_value(s@.take(i as int + 1)) == acc * 10 + d);
                assert(acc * 10 + d > u64::MAX);
                lemma_dec_value_prefix_le(s@, i as int + 1);
            }
            return Err(param_err());
        }
        acc = acc * 10 + d;
        i = i + 1;
    }
    proof {
        assert(s@.take(n as int) =~= s@);
    }
    Ok(acc)
}

/// Parses a path capture as a decimal `u32`.
pub fn parse_u32_param(s: &str) -> (r: Result<u32, RouteParseErr>)
    ensures
        r matches Ok(v) ==> (s@.len() > 0 && all_digits(s@) && dec_value(s@) <= u32::MAX && v
            == dec_value(s@)),
        r matches Err(e) ==> ((s@.len() == 0 || !all_digits(s@) || dec_value(s@) > u32::MAX)
            && e matches RouteParseErr::ParamParseErr(d)),
{
    match parse_u64_param(s) {
        Ok(v) => {
            if v <= u32::MAX as u64 {
                Ok(v as u32)
            } else {
                Err(param_err())
            }
        },
        Err(e) => Err(e),
    }
}

/// Parses a path capture as a decimal `u8`.
pub fn parse_u8_param(s: &str) -> (r: Result<u8, RouteParseErr>)
    ensures
        r matches Ok(v) ==> (s@.len() > 0 && all_digits(s@) && dec_value(s@) <= u8::MAX && v
            == dec_value(s@)),
        r matches Err(e) ==> ((s@.len() == 0 || !all_digits(s@) || dec_value(s@) > u8::MAX)
            && e matches RouteParseErr::ParamParseErr(d)),
{
    match parse_u64_param(s) {
        Ok(v) => {
            if v <= u8::MAX as u64 {
                Ok(v as u8)
            } else {
                Err(param_err())
            }
        },
        Err(e) => Err(e),
    }
}

/// Takes a path capture as a string value, unchanged.
pub fn parse_string_param(s: &str) -> (r: String)
    ensures
        r@ == s@,
{
    s.to_owned()
}

/// The value of `s` read least significant digit first.
pub open spec fn dec_value_lsf(s: Seq<char>) -> nat
    decreases s.len(),
{
    if s.len() == 0 {
        0
    } else {
        digit_val(s[0]) + 10 * dec_value_lsf(s.drop_first())
    }
}

/// Ten to the `k`.
pub open spec fn pow10(k: nat) -> nat
    decreases k,
{
    if k == 0 {
        1
    } else {
        10 * pow10((k - 1) as nat)
    }
}

proof fn lemma_lsf_snoc(s: Seq<char>, c: char)
    ensures
        dec_value_lsf(s.push(c)) == dec_value_lsf(s) + digit_val(c) * pow10(s.len()),
    decreases s.len(),
{
    if s.len() == 0 {
        assert(s.push(c)[0] == c);
        assert(s.push(c).drop_first() =~= Seq::<char>::empty());
        assert(dec_value_lsf(Seq::<char>::empty()) == 0);
        assert(digit_val(c) * 1 == digit_val(c));
    } else {
        assert(s.push(c)[0] == s[0]);
        assert(s.push(c).drop_first() =~= s.drop_first().push(c));
        lemma_lsf_snoc(s.drop_first(), c);
        assert(dec_value_lsf(s.push(c)) == digit_val(s[0]) + 10 * (dec_value_lsf(s.drop_first())
            + digit_val(c) * pow10((s.len() - 1) as nat)));
        assert(pow10(s.len()) == 10 * pow10((s.len() - 1) as nat));
        assert(10 * (dec_value_lsf(s.drop_first()) + digit_val(c) * pow10((s.len() - 1) as nat))
            == 10 * dec_value_lsf(s.drop_first()) + digit_val(c) * (10 * pow10(
            (s.len() - 1) as nat,
        ))) by (nonlinear_arith);
    }
}

proof fn lemma_dec_value_reverse(s: Seq<char>)
    ensures
        dec_value(s) == dec_value_lsf(s.reverse()),
    decreases s.len(),
{
    if s.len() == 0 {
    } else {
        assert(s.reverse()[0] == s.last());
        assert(s.reverse().drop_first() =~= s.drop_last().reverse());
        lemma_dec_value_reverse(s.drop_last());
        assert(dec_value_lsf(s.reverse()) == digit_val(s.last()) + 10 * dec_value(s.drop_last()));
    }
}

/// Renders `v` as its decimal numeral: non-empty, all digits, value `v`,
/// and no leading zero (except for the numeral `0` itself).
#[verifier::loop_isolation(false)]
pub fn format_u64_param(v: u64) -> (r: String)
    ensures
        r@.len() > 0,
        all_digits(r@),
        dec_value(r@) == v,
        r@.len() > 1 ==> r@[0] != '0',
{
    let mut digits: Vec<char> = Vec::new();
    let mut n: u64 = v;
    if n == 0 {
        digits.push('0');
        proof {
            assert(digits@.drop_last() =~= Seq::<char>::empty());
            assert(dec_value(Seq::<char>::empty()) == 0);
            assert(digit_val('0') == 0);
            assert(dec_value(digits@) == 0);
        }
        return chars_to_string(&digits);
    }
    proof {
        assert(digits@ =~= Seq::<char>::empty());
        assert(dec_value_lsf(digits@) == 0);
        assert(pow10(0) == 1);
        assert((n as nat) * 1 == n as nat);
    }
    while n > 0
        invariant
            dec_value_lsf(digits@) + (n as nat) * pow10(digits@.len()) == v as nat,
            all_digits(digits@),
            n == 0 ==> (digits@.len() > 0 && digit_val(digits@.last()) >= 1),
        decreases n,
    {
        let d: u64 = n % 10;
        let dc: char = match d {
            0 => '0',
            1 => '1',
            2 => '2',
            3 => '3',
            4 => '4',
            5 => '5',
            6 => '6',
            7 => '7',
            8 => '8',
            _ => '9',
        };
        let ghost old_digits = digits@;
        let ghost old_n = n as nat;
        proof {
            assert(digit_val(dc) == d as nat);
            assert(is_digit(dc));
            lemma_lsf_snoc(old_digits, dc);
        }
        digits.push(dc);
        n = n / 10;
        proof {
            assert(digits@ == old_digits.push(dc));
            assert(dec_value_lsf(digits@) == dec_value_lsf(old_digits) + (d as nat) * pow10(
                old_digits.len(),
            ));
            assert(pow10(old_digits.len() + 1) == 10 * pow10(old_digits.len()));
            assert((old_n / 10) * pow10(old_digits.len() + 1) + (d as nat) * pow10(
                old_digits.len(),
            ) == old_n * pow10(old_digits.len())) by (nonlinear_arith)
                requires
                    old_n == 10 * (old_n / 10) + old_n % 10,
                    d as nat == old_n % 10,
                    pow10(old_digits.len() + 1) == 10 * pow10(old_digits.len()),
            ;
        }
    }
    let mut out: Vec<char> = Vec::new();
    let mut k: usize = digits.len();
    while k > 0
        invariant
            k <= digits@.len(),
            out@ =~= digits@.subrange(k as int, digits@.len() as int).reverse(),
        decreases k,
    {
        k = k - 1;
        out.push(digits[k]);
        proof {
            assert(out@ =~= digits@.subrange(k as int, digits@.len() as int).reverse());
        }
    }
    proof {
        assert(digits@.subrange(0, digits@.len() as int) =~= digits@);
        assert(out@ == digits@.reverse());
        lemma_dec_value_reverse(out@);
        assert(out@.reverse() =~= digits@);
        assert(dec_value(out@) == dec_value_lsf(digits@));
        assert forall|i: int| 0 <= i < out@.len() implies is_digit(#[trigger] out@[i]) by {
            assert(out@[i] == digits@[digits@.len() - 1 - i]);
        }
        assert(out@[0] == digits@.last());
        assert(digit_val(digits@.last()) >= 1);
        assert(out@[0] != '0');
    }
    chars_to_string(&out)
}

} // verus!
