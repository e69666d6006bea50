//! Text primitives: what it means for a pattern to be part of a text, the
//! tests that decide it for strings, and the decimal rendering of a number.

use crate::encoding::{lemma_occurrence_in_bytes, lemma_prefix_in_bytes};
use vstd::prelude::*;

verus! {

/// The texts of a list of strings.
pub open spec fn string_views(strings: Seq<String>) -> Seq<Seq<char>> {
    strings.map_values(|string: String| string@)
}

/// `pattern` stands in `text` starting at offset `at`.
pub open spec fn occurs_at<A>(text: Seq<A>, pattern: Seq<A>, at: int) -> bool {
    &&& 0 <= at
    &&& at + pattern.len() <= text.len()
    &&& text.subrange(at, at + pattern.len()) == pattern
}

/// `pattern` is a contiguous part of `text`. The empty pattern is part of
/// every text.
pub open spec fn occurs_in<A>(text: Seq<A>, pattern: Seq<A>) -> bool {
    exists|at: int| occurs_at(text, pattern, at)
}

/// `text` begins with `prefix`.
pub open spec fn begins_with<A>(text: Seq<A>, prefix: Seq<A>) -> bool {
    occurs_at(text, prefix, 0)
}

/// The decimal digit `d` as a character, for `d` below ten.
pub open spec fn digit_char(d: nat) -> char {
    (48 + d) as char
}

/// The decimal rendering of `n`, most significant digit first, without
/// leading zeros; zero is rendered as the single digit `0`.
pub open spec fn decimal(n: nat) -> Seq<char>
    decreases n,
{
    if n < 10 {
        seq![digit_char(n)]
    } else {
        decimal(n / 10).push(digit_char(n % 10))
    }
}

/// The number that a list of decimal digits, most significant first, stands
/// for.
pub open spec fn decimal_value(digits: Seq<char>) -> nat
    decreases digits.len(),
{
    if digits.len() == 0 {
        0
    } else {
        let last = digits.last();
        let unit: nat = if '0' <= last <= '9' {
            (last as int - 48) as nat
        } else {
            0
        };
        decimal_value(digits.drop_last()) * 10 + unit
    }
}

/// The rendering of a number is a non-empty list of digits that stands for
/// that number and begins with a zero only where the number is zero.
pub proof fn law_decimal_reads_back(n: nat)
    ensures
        decimal(n).len() >= 1,
        forall|k: int| 0 <= k < decimal(n).len() ==> '0' <= #[trigger] decimal(n)[k] <= '9',
        decimal_value(decimal(n)) == n,
        decimal(n)[0] == '0' <==> n == 0,
    decreases n,
{
    if n < 10 {
        assert(decimal(n).drop_last() =~= Seq::<char>::empty());
        assert(decimal_value(decimal(n).drop_last()) == 0);
    } else {
        law_decimal_reads_back(n / 10);
        assert(decimal(n).drop_last() =~= decimal(n / 10));
        assert(decimal(n)[0] == decimal(n / 10)[0]);
    }
}

/// Two numbers with the same rendering are the same number.
pub proof fn law_decimal_is_injective(a: nat, b: nat)
    requires
        decimal(a) == decimal(b),
    ensures
        a == b,
{
    law_decimal_reads_back(a);
    law_decimal_reads_back(b);
}

/// Tests whether `pattern` is a contiguous part of `text`.
pub fn contains(text: &str, pattern: &str) -> (found: bool)
    ensures
        found == occurs_in(text@, pattern@),
{
    proof {
        lemma_occurrence_in_bytes(text@, pattern@);
    }
    crate::bytes::contains(text.as_bytes(), pattern.as_bytes())
}

/// Tests whether `text` begins with `prefix`.
pub fn has_prefix(text: &str, prefix: &str) -> (hit: bool)
    ensures
        hit == begins_with(text@, prefix@),
{
    proof {
        lemma_prefix_in_bytes(text@, prefix@);
    }
    crate::bytes::has_prefix(text.as_bytes(), prefix.as_bytes())
}

/// The text of one decimal digit.
fn digit_text(d: u32) -> (text: &'static str)
    requires
        d < 10,
    ensures
        text@ == seq![digit_char(d as nat)],
{
    proof {
        reveal_strlit("0");
        reveal_strlit("1");
        reveal_strlit("2");
        reveal_strlit("3");
        reveal_strlit("4");
        reveal_strlit("5");
        reveal_strlit("6");
        reveal_strlit("7");
        reveal_strlit("8");
        reveal_strlit("9");
    }
    let text = match d {
        0 => "0",
        1 => "1",
        2 => "2",
        3 => "3",
        4 => "4",
        5 => "5",
        6 => "6",
        7 => "7",
        8 => "8",
        _ => "9",
    };
    assert(text@ =~= seq![digit_char(d as nat)]);
    text
}

/// Appends the decimal rendering of `n` to `out`.
pub fn push_decimal(out: &mut String, n: u32)
    ensures
        final(out)@ == old(out)@ + decimal(n as nat),
    decreases n,
{
    if n >= 10 {
        push_decimal(out, n / 10);
    }
    out.append(digit_text(n % 10));
    assert(out@ =~= old(out)@ + decimal(n as nat));
}

} // verus!
