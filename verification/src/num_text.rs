//! Decimal text for unsigned and signed integers: the state file of a tailer
//! holds an offset as ASCII decimal, and the structured-event writer prints
//! integer fields the same way.

use vstd::prelude::*;

verus! {

/// The ASCII decimal digits of `n`, most significant first, with no sign and
/// no leading zeros (`0` is written as the single digit `0`).
pub open spec fn dec_digits(n: nat) -> Seq<u8>
    decreases n,
{
    if n < 10 {
        seq![(n + 48) as u8]
    } else {
        dec_digits(n / 10).push(((n % 10) + 48) as u8)
    }
}

/// The value of a digit string, read most significant first.
pub open spec fn dec_value(s: Seq<u8>) -> nat
    decreases s.len(),
{
    if s.len() == 0 {
        0
    } else {
        (dec_value(s.drop_last()) * 10 + (s.last() - 48)) as nat
    }
}

/// Whether every byte of `s` is an ASCII digit.
pub open spec fn all_dec_digits(s: Seq<u8>) -> bool {
    forall|i: int| 0 <= i < s.len() ==> 48 <= #[trigger] s[i] <= 57
}

proof fn lemma_dec_digits_len(n: nat)
    ensures
        dec_digits(n).len() >= 1,
        all_dec_digits(dec_digits(n)),
    decreases n,
{
    if n >= 10 {
        lemma_dec_digits_len(n / 10);
    }
}

/// Reading the digits of `n` back yields `n`.
proof fn lemma_dec_value_of_digits(n: nat)
    ensures
        dec_value(dec_digits(n)) == n,
    decreases n,
{
    if n < 10 {
        assert(dec_digits(n) =~= seq![(n + 48) as u8]);
        assert(dec_digits(n).drop_last() =~= Seq::<u8>::empty());
        assert(dec_digits(n).last() == (n + 48) as u8);
        assert(((n + 48) as u8) - 48 == n);
        assert(dec_value(Seq::<u8>::empty()) == 0);
        assert(dec_value(dec_digits(n)) == (dec_value(Seq::<u8>::empty()) * 10 + (((n + 48) as u8)
            - 48)) as nat);
    } else {
        lemma_dec_value_of_digits(n / 10);
        lemma_dec_digits_len(n / 10);
        assert(dec_digits(n).drop_last() =~= dec_digits(n / 10));
        assert(dec_digits(n).last() == ((n % 10) + 48) as u8);
        assert((((n % 10) + 48) as u8) - 48 == n % 10);
        assert(dec_value(dec_digits(n)) == (n / 10) * 10 + n % 10);
    }
}

/// The ASCII decimal form of `n`.
pub fn u64_to_dec_bytes(n: u64) -> (v: Vec<u8>)
    ensures
        v@ =~= dec_digits(n as nat),
{
    let mut rev: Vec<u8> = Vec::new();
    let mut m: u64 = n;
    loop
        invariant_except_break
            (rev@.len() == 0 && m == n) || (rev@.len() >= 1 && m > 0 && dec_digits(n as nat)
                =~= dec_digits(m as nat) + rev@.reverse()),
        ensures
            rev@.len() >= 1 && dec_digits(n as nat) =~= rev@.reverse(),
        decreases m + if rev@.len() == 0 { 1int } else { 0int },
    {
        let ghost old_rev = rev@;
        let ghost old_m = m as nat;
        rev.push((m % 10) as u8 + 48);
        m = m / 10;
        proof {
            assert(rev@.reverse() =~= seq![((old_m % 10) + 48) as u8] + old_rev.reverse());
            assert(dec_digits(old_m) =~= if old_m < 10 {
                seq![((old_m % 10) + 48) as u8]
            } else {
                dec_digits(old_m / 10).push(((old_m % 10) + 48) as u8)
            });
            if old_rev.len() == 0 {
                assert(dec_digits(n as nat) =~= dec_digits(old_m) + Seq::<u8>::empty());
                if old_m >= 10 {
                    assert(dec_digits(n as nat) =~= dec_digits(m as nat) + rev@.reverse());
                } else {
                    assert(dec_digits(n as nat) =~= rev@.reverse());
                }
            } else {
                assert(dec_digits(n as nat) =~= dec_digits(old_m) + old_rev.reverse());
                if old_m >= 10 {
                    assert(dec_digits(old_m) =~= dec_digits(m as nat).push(
                        ((old_m % 10) + 48) as u8,
                    ));
                    assert(dec_digits(n as nat) =~= dec_digits(m as nat) + rev@.reverse());
                } else {
                    assert(dec_digits(old_m) =~= seq![((old_m % 10) + 48) as u8]);
                    assert(dec_digits(n as nat) =~= rev@.reverse());
                }
            }
        }
        if m == 0 {
            break;
        }
    }
    let mut v: Vec<u8> = Vec::new();
    let mut i: usize = rev.len();
    while i > 0
        invariant
            i <= rev.len(),
            v@.len() == rev@.len() - i,
            forall|j: int| 0 <= j < v@.len() ==> v@[j] == rev@[rev@.len() - 1 - j],
        decreases i,
    {
        i = i - 1;
        let b = rev[i];
        v.push(b);
    }
    proof {
        assert(v@ =~= rev@.reverse());
    }
    v
}

/// The ASCII decimal form of a signed value: a leading `-` for negatives.
pub fn i64_to_dec_bytes(n: i64) -> (v: Vec<u8>)
    ensures
        n >= 0 ==> v@ =~= dec_digits(n as nat),
        n < 0 ==> v@ =~= seq![45u8] + dec_digits((-(n as int)) as nat),
{
    if n >= 0 {
        u64_to_dec_bytes(n as u64)
    } else {
        // widen through i128 so that i64::MIN negates without overflow
        let wide: i128 = -(n as i128);
        let mag: u64 = wide as u64;
        let digits = u64_to_dec_bytes(mag);
        let mut v: Vec<u8> = Vec::new();
        v.push(45u8);
        let mut k: usize = 0;
        while k < digits.len()
            invariant
                k <= digits.len(),
                v@ =~= seq![45u8] + digits@.subrange(0, k as int),
            decreases digits.len() - k,
        {
            let b = digits[k];
            v.push(b);
            k = k + 1;
            proof {
                assert(v@ =~= seq![45u8] + digits@.subrange(0, k as int));
            }
        }
        proof {
            assert(digits@.subrange(0, digits@.len() as int) =~= digits@);
        }
        v
    }
}

/// Parses an ASCII decimal digit string into a `u64`. Returns `None` on an
/// empty string, a non-digit byte, or a value above `u64::MAX`.
pub fn parse_dec_u64(s: &[u8]) -> (r: Option<u64>)
    ensures
        r is Some <==> s@.len() > 0 && all_dec_digits(s@) && dec_value(s@) <= u64::MAX,
        r matches Some(v) ==> v == dec_value(s@),
{
    if s.len() == 0 {
        return None;
    }
    let mut acc: u64 = 0;
    let mut i: usize = 0;
    while i < s.len()
        invariant
            i <= s@.len(),
            all_dec_digits(s@.subrange(0, i as int)),
            acc == dec_value(s@.subrange(0, i as int)),
        decreases s@.len() - i,
    {
        let b = s[i];
        if b < 48 || b > 57 {
            return None;
        }
        let d: u64 = (b - 48) as u64;
        let shifted = match acc.checked_mul(10) {
            Some(x) => x,
            None => {
                proof {
                    lemma_prefix_overflow(s@, i as int, u64::MAX as nat);
                }
                return None;
            },
        };
        let next = match shifted.checked_add(d) {
            Some(x) => x,
            None => {
                proof {
                    lemma_prefix_overflow(s@, i as int, u64::MAX as nat);
                }
                return None;
            },
        };
        acc = next;
        i = i + 1;
        proof {
            assert(s@.subrange(0, i as int).drop_last() =~= s@.subrange(0, i - 1));
            assert(s@.subrange(0, i as int).last() == s@[i - 1]);
        }
    }
    proof {
        assert(s@.subrange(0, s@.len() as int) =~= s@);
    }
    Some(acc)
}


/// Parses an ASCII decimal digit string into a `u128`, the widest count the
/// library reads. Returns `None` on an empty string, a non-digit byte, or a
/// value above `u128::MAX`.
pub fn parse_dec_u128(s: &[u8]) -> (r: Option<u128>)
    ensures
        r is Some <==> s@.len() > 0 && all_dec_digits(s@) && dec_value(s@) <= u128::MAX,
        r matches Some(v) ==> v == dec_value(s@),
{
    if s.len() == 0 {
        return None;
    }
    let mut acc: u128 = 0;
    let mut i: usize = 0;
    while i < s.len()
        invariant
            i <= s@.len(),
            all_dec_digits(s@.subrange(0, i as int)),
            acc == dec_value(s@.subrange(0, i as int)),
        decreases s@.len() - i,
    {
        let b = s[i];
        if b < 48 || b > 57 {
            return None;
        }
        let d: u128 = (b - 48) as u128;
        let shifted = match acc.checked_mul(10) {
            Some(x) => x,
            None => {
                proof {
                    lemma_prefix_overflow(s@, i as int, u128::MAX as nat);
                }
                return None;
            },
        };
        let next = match shifted.checked_add(d) {
            Some(x) => x,
            None => {
                proof {
                    lemma_prefix_overflow(s@, i as int, u128::MAX as nat);
                }
                return None;
            },
        };
        acc = next;
        i = i + 1;
        proof {
            assert(s@.subrange(0, i as int).drop_last() =~= s@.subrange(0, i - 1));
            assert(s@.subrange(0, i as int).last() == s@[i - 1]);
        }
    }
    proof {
        assert(s@.subrange(0, s@.len() as int) =~= s@);
    }
    Some(acc)
}

/// `dec_value` only grows as digits are appended, so a prefix that already
/// exceeds a bound dooms the whole string.
proof fn lemma_prefix_overflow(s: Seq<u8>, i: int, bound: nat)
    requires
        0 <= i < s.len(),
        48 <= s[i] <= 57,
        dec_value(s.subrange(0, i)) * 10 + (s[i] - 48) > bound,
    ensures
        all_dec_digits(s) ==> dec_value(s) > bound,
    decreases s.len() - i,
{
    if all_dec_digits(s) {
        assert(s.subrange(0, i + 1).drop_last() =~= s.subrange(0, i));
        assert(s.subrange(0, i + 1).last() == s[i]);
        assert(dec_value(s.subrange(0, i + 1)) == dec_value(s.subrange(0, i)) * 10 + (s[i] - 48));
        if i + 1 == s.len() {
            assert(s.subrange(0, i + 1) =~= s);
        } else {
            lemma_value_monotone(s, i + 1);
        }
    }
}

/// Extending a digit prefix never shrinks its value.
proof fn lemma_value_monotone(s: Seq<u8>, i: int)
    requires
        0 <= i < s.len(),
        all_dec_digits(s),
    ensures
        dec_value(s) >= dec_value(s.subrange(0, i)),
    decreases s.len() - i,
{
    assert(s.subrange(0, i + 1).drop_last() =~= s.subrange(0, i));
    assert(48 <= s[i] <= 57);
    assert(dec_value(s.subrange(0, i + 1)) == dec_value(s.subrange(0, i)) * 10 + (s.subrange(
        0,
        i + 1,
    ).last() - 48)) by {
        assert(s.subrange(0, i + 1).len() == i + 1);
        assert(s.subrange(0, i + 1).last() == s[i]);
    }
    assert(dec_value(s.subrange(0, i)) * 10 >= dec_value(s.subrange(0, i))) by (nonlinear_arith);
    if i + 1 == s.len() {
        assert(s.subrange(0, i + 1) =~= s);
    } else {
        lemma_value_monotone(s, i + 1);
        assert(dec_value(s) >= dec_value(s.subrange(0, i + 1)));
    }
}

/// Round-trip fact used by the tailer: the offset it writes is the offset a
/// restart reads back.
pub proof fn lemma_dec_round_trip(n: nat)
    ensures
        dec_value(dec_digits(n)) == n,
        dec_digits(n).len() >= 1,
        all_dec_digits(dec_digits(n)),
{
    lemma_dec_value_of_digits(n);
    lemma_dec_digits_len(n);
}

} // verus!
