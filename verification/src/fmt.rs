//! Integer formatting in decimal and hexadecimal, and the debug form of text.

use vstd::prelude::*;
use vstd::string::StringExecFns;

use crate::text::push_char;

verus! {

/// The digit character for `d` (`0-9`, then `a-f`).
pub open spec fn digit_char(d: nat) -> char {
    if d < 10 {
        (('0' as u32) + d) as char
    } else {
        (('a' as u32) + d - 10) as char
    }
}

/// The digits of `v` in base `r`, most significant first, without leading zeros.
pub open spec fn radix_digits(v: nat, r: nat) -> Seq<char>
    decreases v,
{
    if r < 2 || v < r {
        seq![digit_char(v)]
    } else {
        proof {
            assert(v / r < v) by (nonlinear_arith)
                requires
                    r >= 2,
                    v >= r,
            ;
        }
        radix_digits(v / r, r).push(digit_char(v % r))
    }
}

/// The decimal text of a signed integer, with a leading `-` when negative.
pub open spec fn int_text(v: int) -> Seq<char> {
    if v < 0 {
        seq!['-'] + radix_digits((-v) as nat, 10)
    } else {
        radix_digits(v as nat, 10)
    }
}

fn digit_char_exec(d: u64) -> (r: char)
    requires
        d < 16,
    ensures
        r == digit_char(d as nat),
{
    if d < 10 {
        ((('0' as u32) + (d as u32)) as u8) as char
    } else {
        ((('a' as u32) + (d as u32) - 10) as u8) as char
    }
}

/// Appends the digits of `v` in base `r` to `out`.
pub fn push_radix(out: &mut String, v: u64, r: u64)
    requires
        r == 10 || r == 16,
    ensures
        final(out)@ == old(out)@ + radix_digits(v as nat, r as nat),
    decreases v,
{
    if v >= r {
        push_radix(out, v / r, r);
    }
    let d = digit_char_exec(v % r);
    push_char(out, d);
    assert(final(out)@ =~= old(out)@ + radix_digits(v as nat, r as nat));
}

/// The decimal text of `v`.
pub fn i64_text(v: i64) -> (r: String)
    ensures
        r@ == int_text(v as int),
{
    let mut out = String::new();
    if v < 0 {
        push_char(&mut out, '-');
        let m: u64 = ((-(v + 1)) as u64) + 1;
        push_radix(&mut out, m, 10);
    } else {
        push_radix(&mut out, v as u64, 10);
    }
    assert(out@ =~= int_text(v as int));
    out
}

/// The decimal text of `v`.
pub fn u64_text(v: u64) -> (r: String)
    ensures
        r@ == radix_digits(v as nat, 10),
{
    let mut out = String::new();
    push_radix(&mut out, v, 10);
    assert(out@ =~= radix_digits(v as nat, 10));
    out
}

/// What `{:?}` prints for a text: the text in double quotes with quotes,
/// backslashes and control characters escaped.
pub uninterp spec fn debug_text(s: Seq<char>) -> Seq<char>;

/// `<str as Debug>::fmt` from std, through `format!("{:?}")`.
#[verifier::external_body]
pub(crate) fn debug_string(s: &str) -> (r: String)
    ensures
        r@ == debug_text(s@),
{
    format!("{:?}", s)
}

} // verus!
