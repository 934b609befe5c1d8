use vstd::prelude::*;
use crate::util::Timestamp;

verus! {

/// A decimal digit.
pub open spec fn is_digit(c: char) -> bool {
    '0' <= c && c <= '9'
}

/// What a decimal digit counts for; any other character counts for nothing.
pub open spec fn digit_value(c: char) -> nat {
    if is_digit(c) {
        (c as u32 - '0' as u32) as nat
    } else {
        0
    }
}

/// Every character is a decimal digit.
pub open spec fn all_digits(text: Seq<char>) -> bool {
    forall|i: int| 0 <= i < text.len() ==> is_digit(#[trigger] text[i])
}

/// The number that a run of digits writes; the empty run writes zero.
pub open spec fn digits_value(text: Seq<char>) -> nat
    decreases text.len(),
{
    if text.len() == 0 {
        0
    } else {
        digits_value(text.drop_last()) * 10 + digit_value(text.last())
    }
}

/// The value of the digits after a decimal point where the first of them
/// counts `scale`, the next a tenth of that, and so on down to one; what
/// follows counts for nothing.
pub open spec fn fraction_value(text: Seq<char>, scale: nat) -> nat
    decreases text.len(),
{
    if text.len() == 0 || scale == 0 {
        0
    } else {
        digit_value(text.first()) * scale + fraction_value(text.drop_first(), scale / 10)
    }
}

/// Where the first decimal point stands, or the length of the text where it
/// has none.
pub open spec fn point_position(text: Seq<char>) -> int
    decreases text.len(),
{
    if text.len() == 0 || text.first() == '.' {
        0
    } else {
        1 + point_position(text.drop_first())
    }
}

/// The microseconds that a text of seconds stands for. The text is a run of
/// digits, a decimal point, and a run of digits; either run may be empty but
/// not both, and without the second run the point may be left out. Digits
/// after the sixth behind the point are cut off.
pub open spec fn seconds_micros(text: Seq<char>) -> Option<nat> {
    let p = point_position(text);
    let whole = text.take(p);
    let fraction = if p < text.len() {
        text.skip(p + 1)
    } else {
        Seq::empty()
    };
    if all_digits(whole) && all_digits(fraction) && whole.len() + fraction.len() >= 1 {
        Some(digits_value(whole) * 1_000_000 + fraction_value(fraction, 100_000))
    } else {
        None
    }
}

/// The timestamp that a text of seconds stands for, where it is one and fits.
pub open spec fn timestamp_of(text: Seq<char>) -> Option<Timestamp> {
    match seconds_micros(text) {
        Some(n) => if n <= u128::MAX {
            Some(n as Timestamp)
        } else {
            None
        },
        None => None,
    }
}

/// `point_position` is the place of the first decimal point.
pub proof fn lemma_point_position(text: Seq<char>)
    ensures
        0 <= point_position(text) <= text.len(),
        forall|i: int| 0 <= i < point_position(text) ==> text[i] != '.',
        point_position(text) < text.len() ==> text[point_position(text)] == '.',
    decreases text.len(),
{
    if text.len() > 0 && text.first() != '.' {
        let rest = text.drop_first();
        lemma_point_position(rest);
        assert forall|i: int| 0 < i <= rest.len() implies text[i] == rest[i - 1] by {}
    }
}

/// A run of digits writes at least what any of its beginnings writes.
pub proof fn lemma_digits_value_grows(text: Seq<char>, k: int)
    requires
        0 <= k <= text.len(),
    ensures
        digits_value(text.take(k)) <= digits_value(text),
    decreases text.len(),
{
    if k < text.len() {
        let shorter = text.drop_last();
        lemma_digits_value_grows(shorter, k);
        assert(shorter.take(k) =~= text.take(k));
    } else {
        assert(text.take(k) =~= text);
    }
}

fn digit_of(c: char) -> (r: Option<u8>)
    ensures
        r is Some == is_digit(c),
        r is Some ==> r.unwrap() as nat == digit_value(c) && r.unwrap() <= 9,
{
    if '0' <= c && c <= '9' {
        Some((c as u32 - '0' as u32) as u8)
    } else {
        None
    }
}

/// Reads a text of seconds, given as characters.
pub fn parse_seconds_chars(chars: &[char]) -> (r: Option<Timestamp>)
    ensures
        r == timestamp_of(chars@),
{
    let n: usize = chars.len();
    let ghost text = chars@;
    let ghost p = point_position(text);
    proof {
        lemma_point_position(text);
    }
    let mut whole: u128 = 0;
    let mut i: usize = 0;
    while i < n && chars[i] != '.'
        invariant
            n == text.len(),
            text == chars@,
            i <= n,
            p == point_position(text),
            0 <= p <= n,
            forall|j: int| 0 <= j < p ==> text[j] != '.',
            p < n ==> text[p] == '.',
            forall|j: int| 0 <= j < i ==> text[j] != '.' && is_digit(text[j]),
            whole == digits_value(text.take(i as int)),
        decreases n - i,
    {
        let d: u128 = match digit_of(chars[i]) {
            Some(d) => d as u128,
            None => {
                proof {
                    assert(p > i);
                    assert(text.take(p)[i as int] == text[i as int]);
                }
                return None;
            },
        };
        proof {
            let next = text.take(i + 1);
            assert(next.drop_last() =~= text.take(i as int));
            assert(next.last() == text[i as int]);
        }
        if whole > (u128::MAX - d) / 10 {
            proof {
                assert(p > i);
                assert(text.take(p).take(i + 1) =~= text.take(i + 1));
                lemma_digits_value_grows(text.take(p), i + 1);
                assert(digits_value(text.take(i + 1)) * 1_000_000 > u128::MAX) by (nonlinear_arith)
                    requires
                        digits_value(text.take(i + 1)) > u128::MAX,
                ;
                assert(digits_value(text.take(p)) * 1_000_000 >= digits_value(text.take(i + 1))
                    * 1_000_000) by (nonlinear_arith)
                    requires
                        digits_value(text.take(p)) >= digits_value(text.take(i + 1)),
                ;
            }
            return None;
        }
        whole = whole * 10 + d;
        i += 1;
    }
    assert(p == i);
    let ghost fraction = if p < text.len() {
        text.skip(p + 1)
    } else {
        Seq::empty()
    };
    assert(all_digits(text.take(p)));
    let mut micros: u128 = 0;
    let mut digits: usize = i;
    if i < n {
        let mut scale: u128 = 100_000;
        let mut j: usize = i + 1;
        proof {
            assert(fraction.skip(0) =~= fraction);
        }
        while j < n
            invariant
                n == text.len(),
                text == chars@,
                p == i,
                i < j <= n,
                p == point_position(text),
                fraction == text.skip(p + 1),
                forall|k: int| 0 <= k < j - i - 1 ==> is_digit(fraction[k]),
                micros + fraction_value(fraction.skip(j - i - 1), scale as nat) == fraction_value(
                    fraction,
                    100_000,
                ),
                micros + 10 * scale <= 1_000_000,
                scale <= 100_000,
            decreases n - j,
        {
            let d: u128 = match digit_of(chars[j]) {
                Some(d) => d as u128,
                None => {
                    proof {
                        assert(fraction[j - i - 1] == text[j as int]);
                        assert(!is_digit(fraction[j - i - 1]));
                        assert(p == point_position(text));
                    }
                    return None;
                },
            };
            proof {
                let rest = fraction.skip(j - i - 1);
                assert(rest.first() == text[j as int]);
                assert(rest.drop_first() =~= fraction.skip(j - i));
            }
            if scale > 0 {
                assert(d * scale <= 9 * scale) by (nonlinear_arith)
                    requires
                        d <= 9,
                        scale >= 0,
                ;
                micros = micros + d * scale;
                scale = scale / 10;
            }
            j += 1;
        }
        proof {
            assert(fraction.skip(n - i - 1).len() == 0);
        }
        digits = n - 1;
    }
    assert(micros == fraction_value(fraction, 100_000));
    assert(all_digits(fraction));
    assert(digits == text.take(p).len() + fraction.len());
    if digits == 0 {
        return None;
    }
    if whole > (u128::MAX - micros) / 1_000_000 {
        return None;
    }
    Some(whole * 1_000_000 + micros)
}

/// Reads a text of seconds: `12.345000` is 12 345 000 microseconds.
pub fn parse_seconds(text: &str) -> (r: Option<Timestamp>)
    ensures
        r == timestamp_of(text@),
{
    let mut chars: Vec<char> = Vec::new();
    for c in it: text.chars()
        invariant
            it.seq() == text@,
            chars@ == text@.take(it.index() as int),
    {
        chars.push(c);
        proof {
            assert(chars@ =~= text@.take(it.index() + 1));
        }
    }
    proof {
        assert(text@.take(text@.len() as int) =~= text@);
    }
    parse_seconds_chars(chars.as_slice())
}

} // verus!
