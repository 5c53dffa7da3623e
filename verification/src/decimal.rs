//! Unsigned integers as decimal text, in both directions.
//!
//! A time-to-live travels as a header value: the client writes it with
//! [`to_decimal`] and reads it back with [`parse_decimal`].

use vstd::prelude::*;

verus! {

/// The character that stands for the digit `d`, for `d` below ten.
pub open spec fn digit_char(d: nat) -> char {
    if d == 0 {
        '0'
    } else if d == 1 {
        '1'
    } else if d == 2 {
        '2'
    } else if d == 3 {
        '3'
    } else if d == 4 {
        '4'
    } else if d == 5 {
        '5'
    } else if d == 6 {
        '6'
    } else if d == 7 {
        '7'
    } else if d == 8 {
        '8'
    } else {
        '9'
    }
}

/// Whether `c` is one of the ten ASCII digits.
pub open spec fn is_digit(c: char) -> bool {
    '0' <= c <= '9'
}

/// The number that the ASCII digit `c` stands for.
pub open spec fn digit_value(c: char) -> nat {
    (c as u32 - '0' as u32) as nat
}

/// The decimal numeral of `n`: no sign, and no leading zero but for zero itself.
pub open spec fn decimal(n: nat) -> Seq<char>
    decreases n,
{
    if n < 10 {
        seq![digit_char(n)]
    } else {
        decimal(n / 10).push(digit_char(n % 10))
    }
}

/// Whether every character of `s` is an ASCII digit.
pub open spec fn all_digits(s: Seq<char>) -> bool {
    forall|i: int| 0 <= i < s.len() ==> is_digit(#[trigger] s[i])
}

/// The number that a run of ASCII digits denotes, the first digit weighing most.
pub open spec fn digits_value(s: Seq<char>) -> nat
    decreases s.len(),
{
    if s.len() == 0 {
        0
    } else {
        digits_value(s.drop_last()) * 10 + digit_value(s.last())
    }
}

/// What is left of `s` once one leading plus sign, if there is one, is set aside.
pub open spec fn unsigned_part(s: Seq<char>) -> Seq<char> {
    if s.len() > 0 && s[0] == '+' {
        s.subrange(1, s.len() as int)
    } else {
        s
    }
}

/// The number that `s` denotes as a `u64`: an optional plus sign, then one or
/// more ASCII digits and nothing else, the whole no greater than `u64::MAX`.
/// Any other text denotes nothing.
pub open spec fn parsed_u64(s: Seq<char>) -> Option<u64> {
    let digits = unsigned_part(s);
    if digits.len() > 0 && all_digits(digits) && digits_value(digits) <= u64::MAX {
        Some(digits_value(digits) as u64)
    } else {
        None
    }
}

/// The one-character text of the digit `d`.
fn digit_text(d: u64) -> (text: &'static str)
    requires
        d < 10,
    ensures
        text@ == seq![digit_char(d as nat)],
{
    proof {
        reveal_strlit("0");
        reveal_strlit("1");
        reveal_strlit("2");
        reveal_strlit("3");
        reveal_strlit("4");
        reveal_strlit("5");
        reveal_strlit("6");
        reveal_strlit("7");
        reveal_strlit("8");
        reveal_strlit("9");
    }
    let text = if d == 0 {
        "0"
    } else if d == 1 {
        "1"
    } else if d == 2 {
        "2"
    } else if d == 3 {
        "3"
    } else if d == 4 {
        "4"
    } else if d == 5 {
        "5"
    } else if d == 6 {
        "6"
    } else if d == 7 {
        "7"
    } else if d == 8 {
        "8"
    } else {
        "9"
    };
    assert(text@ =~= seq![digit_char(d as nat)]);
    text
}

/// Appends the decimal numeral of `n` to `out`.
fn push_decimal(out: &mut String, n: u64)
    ensures
        final(out)@ == old(out)@ + decimal(n as nat),
    decreases n,
{
    if n >= 10 {
        push_decimal(out, n / 10);
    }
    out.append(digit_text(n % 10));
    proof {
        if n >= 10 {
            assert(old(out)@ + decimal(n as nat / 10) + seq![digit_char(n as nat % 10)] =~= old(
                out,
            )@ + decimal(n as nat));
        }
    }
}

/// Writes `n` as a decimal numeral.
pub fn to_decimal(n: u64) -> (text: String)
    ensures
        text@ == decimal(n as nat),
{
    let mut text = String::new();
    push_decimal(&mut text, n);
    assert(Seq::<char>::empty() + decimal(n as nat) =~= decimal(n as nat));
    text
}

/// Appending one character to a run of digits multiplies what it denotes by ten
/// and adds the character's own value.
proof fn lemma_digits_value_push(s: Seq<char>, c: char)
    ensures
        digits_value(s.push(c)) == digits_value(s) * 10 + digit_value(c),
{
    assert(s.push(c).drop_last() =~= s);
}

/// A run of digits denotes at least what any of its prefixes denotes.
proof fn lemma_digits_value_prefix(s: Seq<char>, k: int)
    requires
        0 <= k <= s.len(),
        all_digits(s),
    ensures
        digits_value(s.subrange(0, k)) <= digits_value(s),
    decreases s.len() - k,
{
    if k == s.len() {
        assert(s.subrange(0, k) =~= s);
    } else {
        lemma_digits_value_prefix(s.drop_last(), k);
        assert(s.drop_last().subrange(0, k) =~= s.subrange(0, k));
        assert(is_digit(s[s.len() - 1]));
    }
}

/// Reads `text` as a `u64` written in decimal.
pub fn parse_decimal(text: &str) -> (value: Option<u64>)
    ensures
        value == parsed_u64(text@),
{
    let ghost start: int = if text@.len() > 0 && text@[0] == '+' {
        1
    } else {
        0
    };
    let ghost digits = unsigned_part(text@);
    let mut acc: u64 = 0;
    let mut any = false;
    let mut at_start = true;
    for c in it: text.chars()
        invariant
            it.seq() == text@,
            digits == unsigned_part(text@),
            start == text@.len() - digits.len(),
            0 <= start <= 1,
            start == 1 ==> text@.len() > 0 && text@[0] == '+',
            start == 0 ==> text@.len() == 0 || text@[0] != '+',
            at_start <==> it.index() == 0,
            any <==> it.index() > start,
            at_start ==> acc == 0,
            !at_start ==> it.index() >= start,
            !at_start ==> all_digits(digits.subrange(0, it.index() - start)),
            !at_start ==> acc == digits_value(digits.subrange(0, it.index() - start)),
    {
        let ghost i = it.index() as int;
        if at_start && c == '+' {
            at_start = false;
            assert(digits.subrange(0, 0) =~= Seq::<char>::empty());
        } else {
            at_start = false;
            let ghost before = digits.subrange(0, i - start);
            assert(digits[i - start] == c);
            assert(digits.subrange(0, i + 1 - start) =~= before.push(c));
            assert(before =~= Seq::<char>::empty() ==> digits_value(before) == 0);
            if !('0' <= c && c <= '9') {
                return None;
            }
            let d: u64 = c as u64 - 48;
            proof {
                lemma_digits_value_push(before, c);
                assert(all_digits(before.push(c))) by {
                    assert forall|j: int| 0 <= j < before.push(c).len() implies is_digit(
                        #[trigger] before.push(c)[j],
                    ) by {
                        if j < before.len() {
                            assert(before.push(c)[j] == before[j]);
                        }
                    }
                }
            }
            if acc > (u64::MAX - d) / 10 {
                proof {
                    if all_digits(digits) {
                        lemma_digits_value_prefix(digits, i + 1 - start);
                    }
                }
                return None;
            }
            acc = acc * 10 + d;
            any = true;
        }
    }
    proof {
        assert(digits.subrange(0, digits.len() as int) =~= digits);
    }
    if any {
        Some(acc)
    } else {
        None
    }
}

/// A decimal numeral is a run of one or more digits that denotes its number.
pub proof fn lemma_decimal_denotes(n: nat)
    ensures
        decimal(n).len() > 0,
        all_digits(decimal(n)),
        digits_value(decimal(n)) == n,
    decreases n,
{
    if n < 10 {
        let s = seq![digit_char(n)];
        assert(s.drop_last() =~= Seq::<char>::empty());
        assert(digits_value(s.drop_last()) == 0);
        assert(digit_value(digit_char(n)) == n);
    } else {
        lemma_decimal_denotes(n / 10);
        let head = decimal(n / 10);
        let c = digit_char(n % 10);
        lemma_digits_value_push(head, c);
        assert(digit_value(c) == n % 10);
        assert forall|j: int| 0 <= j < head.push(c).len() implies is_digit(
            #[trigger] head.push(c)[j],
        ) by {
            if j < head.len() {
                assert(head.push(c)[j] == head[j]);
            }
        }
    }
}

/// Reading back what [`to_decimal`] wrote gives the number that was written.
pub proof fn lemma_decimal_round_trip(n: u64)
    ensures
        parsed_u64(decimal(n as nat)) == Some(n),
{
    lemma_decimal_denotes(n as nat);
    assert(is_digit(decimal(n as nat)[0]));
}

} // verus!
