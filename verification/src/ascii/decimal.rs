//! Decimal numerals as ASCII bytes: writing them and reading them back.

use vstd::prelude::*;

verus! {

/// ASCII `0`.
pub const ZERO: u8 = 0x30;

/// ASCII `9`.
pub const NINE: u8 = 0x39;

/// Whether `b` is an ASCII decimal digit.
pub open spec fn is_digit(b: u8) -> bool {
    ZERO <= b <= NINE
}

/// Whether every byte of `s` is a decimal digit.
pub open spec fn all_digits(s: Seq<u8>) -> bool {
    forall|i: int| 0 <= i < s.len() ==> is_digit(#[trigger] s[i])
}

/// The shortest decimal numeral of `n`: no leading zero, `0` for zero.
pub open spec fn decimal(n: nat) -> Seq<u8>
    decreases n,
{
    if n < 10 {
        seq![(ZERO + n) as u8]
    } else {
        decimal(n / 10).push((ZERO + n % 10) as u8)
    }
}

/// The number that the digit string `s` denotes; leading zeros count for nothing.
pub open spec fn decimal_value(s: Seq<u8>) -> nat
    decreases s.len(),
{
    if s.len() == 0 {
        0
    } else {
        10 * decimal_value(s.drop_last()) + (s.last() - ZERO) as nat
    }
}

/// The number read from `s` where `s` is a non-empty digit string that
/// denotes at most `max`; nothing otherwise.
pub open spec fn number(s: Seq<u8>, max: nat) -> Option<nat> {
    if s.len() > 0 && all_digits(s) && decimal_value(s) <= max {
        Some(decimal_value(s))
    } else {
        None
    }
}

/// Whether `s` is the shortest numeral of some number.
pub open spec fn is_numeral(s: Seq<u8>) -> bool {
    s.len() > 0 && all_digits(s) && (s.len() == 1 || s[0] != ZERO)
}

/// The number of which `s` is the shortest numeral, if it is one.
pub open spec fn numeral_value(s: Seq<u8>) -> Option<nat> {
    if is_numeral(s) {
        Some(decimal_value(s))
    } else {
        None
    }
}

/// A numeral is a non-empty digit string without a leading zero, and it
/// denotes the number it was written for.
pub proof fn lemma_decimal(n: nat)
    ensures
        decimal(n).len() > 0,
        all_digits(decimal(n)),
        is_numeral(decimal(n)),
        decimal_value(decimal(n)) == n,
        n < 10 <==> decimal(n).len() == 1,
        n >= 10 ==> decimal(n)[0] != ZERO,
    decreases n,
{
    if n < 10 {
        assert(decimal(n).drop_last() =~= Seq::<u8>::empty());
        assert(decimal_value(decimal(n).drop_last()) == 0);
    } else {
        lemma_decimal(n / 10);
        let head = decimal(n / 10);
        let d = (ZERO + n % 10) as u8;
        assert(decimal(n) == head.push(d));
        assert(head.push(d).drop_last() =~= head);
        assert(head.push(d)[0] == head[0]);
        if n / 10 < 10 {
            assert(head[0] == (ZERO + n / 10) as u8);
        }
    }
}

/// A numeral is the shortest numeral of the number it denotes.
proof fn lemma_numeral_unique(s: Seq<u8>)
    requires
        is_numeral(s),
    ensures
        s == decimal(decimal_value(s)),
    decreases s.len(),
{
    if s.len() == 1 {
        assert(s.drop_last() =~= Seq::<u8>::empty());
        assert(decimal_value(s.drop_last()) == 0);
        assert(s =~= seq![s[0]]);
    } else {
        let head = s.drop_last();
        assert(head[0] == s[0]);
        lemma_numeral_unique(head);
        lemma_leading_digit(head);
        assert(s =~= head.push(s.last()));
    }
}

/// A string reads as the numeral of `n` exactly where it is the shortest
/// decimal numeral of `n`.
pub proof fn law_numeral(s: Seq<u8>, n: nat)
    ensures
        numeral_value(s) == Some(n) <==> s == decimal(n),
{
    lemma_decimal(n);
    if is_numeral(s) {
        lemma_numeral_unique(s);
    }
}

/// A digit string that starts with a digit other than zero denotes at least
/// one; a single digit denotes itself.
proof fn lemma_leading_digit(s: Seq<u8>)
    requires
        s.len() > 0,
        all_digits(s),
    ensures
        s[0] != ZERO ==> decimal_value(s) >= 1,
        s.len() == 1 ==> decimal_value(s) == s[0] - ZERO,
        s.len() >= 2 && s[0] != ZERO ==> decimal_value(s) >= 10,
    decreases s.len(),
{
    if s.len() == 1 {
        assert(s.drop_last() =~= Seq::<u8>::empty());
        assert(decimal_value(s.drop_last()) == 0);
    } else {
        let head = s.drop_last();
        assert(head[0] == s[0]);
        lemma_leading_digit(head);
    }
}

/// Appending a digit multiplies the value by ten and adds the digit.
pub proof fn lemma_value_push(s: Seq<u8>, d: u8)
    ensures
        decimal_value(s.push(d)) == 10 * decimal_value(s) + (d - ZERO) as nat,
{
    assert(s.push(d).drop_last() =~= s);
}

/// Appends the shortest decimal numeral of `n` to `buf`.
pub fn push_decimal(buf: &mut Vec<u8>, n: u32)
    ensures
        final(buf)@ == old(buf)@ + decimal(n as nat),
    decreases n,
{
    if n >= 10 {
        push_decimal(buf, n / 10);
    }
    let digit: u8 = ZERO + (n % 10) as u8;
    buf.push(digit);
    proof {
        if n >= 10 {
            assert(buf@ =~= old(buf)@ + decimal(n as nat / 10).push(digit));
        } else {
            assert(buf@ =~= old(buf)@ + seq![digit]);
        }
    }
}

/// A digit string denotes at least what any of its prefixes denotes.
pub proof fn lemma_value_prefix(s: Seq<u8>, k: int)
    requires
        0 <= k <= s.len(),
    ensures
        decimal_value(s.subrange(0, k)) <= decimal_value(s),
    decreases s.len() - k,
{
    if k == s.len() {
        assert(s.subrange(0, k) =~= s);
    } else {
        let head = s.drop_last();
        assert(head.subrange(0, k) =~= s.subrange(0, k));
        lemma_value_prefix(head, k);
    }
}

/// Reads the bytes of `bytes` from `from` up to `to` as a decimal number of
/// at most `max`. Leading zeros are read over; an empty range, a byte that
/// is no digit, and a number above `max` give nothing.
pub fn read_number(bytes: &[u8], from: usize, to: usize, max: u32) -> (r: Option<u32>)
    requires
        from <= to <= bytes@.len(),
    ensures
        match number(bytes@.subrange(from as int, to as int), max as nat) {
            Some(n) => r == Some(n as u32),
            None => r is None,
        },
{
    let ghost whole = bytes@.subrange(from as int, to as int);
    if from == to {
        return None;
    }
    let mut value: u32 = 0;
    let mut i: usize = from;
    proof {
        assert(bytes@.subrange(from as int, from as int) =~= Seq::<u8>::empty());
    }
    while i < to
        invariant
            from <= i <= to <= bytes@.len(),
            whole == bytes@.subrange(from as int, to as int),
            all_digits(bytes@.subrange(from as int, i as int)),
            value == decimal_value(bytes@.subrange(from as int, i as int)),
            value <= max,
        decreases to - i,
    {
        let b: u8 = bytes[i];
        if b < ZERO || b > NINE {
            proof {
                assert(whole[i - from] == b);
            }
            return None;
        }
        let next: u64 = 10 * (value as u64) + (b - ZERO) as u64;
        proof {
            let seen = bytes@.subrange(from as int, i as int);
            assert(bytes@.subrange(from as int, i as int + 1) =~= seen.push(b));
            lemma_value_push(seen, b);
        }
        if next > max as u64 {
            proof {
                assert(whole.subrange(0, i + 1 - from) =~= bytes@.subrange(
                    from as int,
                    i as int + 1,
                ));
                lemma_value_prefix(whole, i + 1 - from);
            }
            return None;
        }
        value = next as u32;
        i = i + 1;
    }
    Some(value)
}

/// Reads the bytes of `bytes` from `from` up to `to` as the shortest numeral
/// of a number: as `read_number` does, but a leading zero before another
/// digit gives nothing.
pub fn read_numeral(bytes: &[u8], from: usize, to: usize) -> (r: Option<u32>)
    requires
        from <= to <= bytes@.len(),
    ensures
        match numeral_value(bytes@.subrange(from as int, to as int)) {
            Some(n) => if n <= u32::MAX {
                r == Some(n as u32)
            } else {
                r is None
            },
            None => r is None,
        },
{
    if to - from >= 2 && bytes[from] == ZERO {
        return None;
    }
    read_number(bytes, from, to, u32::MAX)
}

} // verus!
