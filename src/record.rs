//! Text form of a stored highscore: each number as plain decimal digits.

use crate::scoring::Score;
use vstd::prelude::*;

verus! {

/// Whether byte `b` is an ASCII decimal digit.
pub open spec fn is_digit(b: u8) -> bool {
    48 <= b <= 57
}

/// Whether every byte of `s` is a decimal digit.
pub open spec fn all_digits(s: Seq<u8>) -> bool {
    forall|i: int| 0 <= i < s.len() ==> is_digit(#[trigger] s[i])
}

/// The number that the decimal digits `s` spell, most significant first.
pub open spec fn digits_value(s: Seq<u8>) -> nat
    decreases s.len(),
{
    if s.len() == 0 {
        0
    } else {
        digits_value(s.drop_last()) * 10 + (s.last() - 48) as nat
    }
}

/// The shortest decimal digits of `n`.
pub open spec fn decimal_text(n: nat) -> Seq<u8>
    decreases n,
{
    if n < 10 {
        seq![(48 + n) as u8]
    } else {
        decimal_text(n / 10).push((48 + n % 10) as u8)
    }
}

/// What `parse_count` reads from `s`: the number its digits spell, when `s`
/// is a nonempty run of digits whose number fits in 64 bits.
pub open spec fn count_of(s: Seq<u8>) -> Option<u64> {
    if s.len() > 0 && all_digits(s) && digits_value(s) <= u64::MAX {
        Some(digits_value(s) as u64)
    } else {
        None
    }
}

/// Digits never spell less than a prefix of them does.
pub proof fn lemma_prefix_value_le(s: Seq<u8>, i: int)
    requires
        all_digits(s),
        0 <= i <= s.len(),
    ensures
        digits_value(s.take(i)) <= digits_value(s),
    decreases s.len(),
{
    if i < s.len() {
        let d = s.drop_last();
        assert(d.take(i) =~= s.take(i));
        lemma_prefix_value_le(d, i);
    } else {
        assert(s.take(i) =~= s);
    }
}

/// The decimal text of `n` is a nonempty run of digits that spells `n`.
pub proof fn lemma_decimal_text_spells(n: nat)
    ensures
        decimal_text(n).len() > 0,
        all_digits(decimal_text(n)),
        digits_value(decimal_text(n)) == n,
    decreases n,
{
    if n >= 10 {
        lemma_decimal_text_spells(n / 10);
        let t = decimal_text(n);
        assert(t.drop_last() =~= decimal_text(n / 10));
        assert(t.last() == (48 + n % 10) as u8);
        assert((t.last() - 48) as nat == n % 10);
        assert(digits_value(t) == (n / 10) * 10 + n % 10);
    } else {
        let t = decimal_text(n);
        assert(t.drop_last() =~= Seq::<u8>::empty());
        assert(digits_value(t.drop_last()) == 0);
        assert((t.last() - 48) as nat == n);
    }
}

/// Writing a number and reading it back gives the number.
pub proof fn lemma_count_round_trip(n: u64)
    ensures
        count_of(decimal_text(n as nat)) == Some(n),
{
    lemma_decimal_text_spells(n as nat);
}

/// The decimal digits of `n`.
pub fn format_count(n: u64) -> (r: Vec<u8>)
    ensures
        r@ == decimal_text(n as nat),
    decreases n,
{
    if n < 10 {
        vec![48 + n as u8]
    } else {
        let mut r = format_count(n / 10);
        r.push(48 + (n % 10) as u8);
        r
    }
}

/// Reads a number written as decimal digits; `None` for empty text, a byte
/// that is not a digit, or a number beyond 64 bits.
pub fn parse_count(s: &[u8]) -> (r: Option<u64>)
    ensures
        r == count_of(s@),
{
    if s.len() == 0 {
        return None;
    }
    let mut v: u64 = 0;
    let mut i: usize = 0;
    while i < s.len()
        invariant
            i <= s@.len(),
            all_digits(s@.take(i as int)),
            v == digits_value(s@.take(i as int)),
        decreases s@.len() - i,
    {
        let b = s[i];
        if b < 48 || b > 57 {
            return None;
        }
        let d = (b - 48) as u64;
        proof {
            let next = s@.take(i + 1);
            assert(next.drop_last() =~= s@.take(i as int));
        }
        if v > (u64::MAX - d) / 10 {
            proof {
                if all_digits(s@) {
                    lemma_prefix_value_le(s@, i + 1);
                    assert(s@.take(i + 1).drop_last() =~= s@.take(i as int));
                }
            }
            return None;
        }
        v = v * 10 + d;
        i = i + 1;
    }
    assert(s@.take(s@.len() as int) =~= s@);
    Some(v)
}

/// What reading the stored total gave.
#[derive(Clone, Copy, Debug, PartialEq, Eq, Structural)]
pub enum StoredTotal {
    /// Nothing is stored.
    Absent,
    /// The stored total, in thousandths of a point.
    Total(u64),
    /// Something is stored but it could not be read.
    Unreadable,
}

/// Reads the stored total from its text, if there is one: `Absent` without
/// text, `Unreadable` when the text is not a number.
pub fn read_stored_total(text: Option<&[u8]>) -> (r: StoredTotal)
    ensures
        r == match text {
            None => StoredTotal::Absent,
            Some(t) => match count_of(t@) {
                Some(v) => StoredTotal::Total(v),
                None => StoredTotal::Unreadable,
            },
        },
{
    match text {
        None => StoredTotal::Absent,
        Some(t) => match parse_count(t) {
            Some(v) => StoredTotal::Total(v),
            None => StoredTotal::Unreadable,
        },
    }
}

/// Reads a stored highscore from the texts of its level and its total;
/// `None` when either is not a number.
pub fn parse_highscore(level: &[u8], total: &[u8]) -> (r: Option<Score>)
    ensures
        r == match (count_of(level@), count_of(total@)) {
            (Some(l), Some(t)) => Some(Score { level: l, total: t }),
            _ => None,
        },
{
    match (parse_count(level), parse_count(total)) {
        (Some(l), Some(t)) => Some(Score { level: l, total: t }),
        _ => None,
    }
}

} // verus!
