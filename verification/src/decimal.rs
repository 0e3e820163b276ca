//! Parsing decimal strings into fixed-point amounts.
//!
//! The venue reports prices and volumes as decimal strings.  The
//! parser accepts `digits` optionally followed by `'.'` and more
//! digits, keeps the first eight fraction digits (the fixed-point
//! scale), and rejects anything else or any value above
//! [`MAX_AMOUNT`].

use vstd::prelude::*;

use crate::types::{MAX_AMOUNT, SCALE};
use vstd::string::StringSliceAdditionalSpecFns;

verus! {

/// ASCII digit.
pub open spec fn is_digit(b: u8) -> bool {
    48 <= b <= 57
}

pub open spec fn digit_val(b: u8) -> int {
    b - 48
}

pub open spec fn all_digits(s: Seq<u8>) -> bool {
    forall|i: int| 0 <= i < s.len() ==> is_digit(s[i])
}

/// The number a digit string denotes, most significant digit first.
pub open spec fn digits_value(s: Seq<u8>) -> int
    decreases s.len(),
{
    if s.len() == 0 {
        0
    } else {
        digits_value(s.drop_last()) * 10 + digit_val(s.last())
    }
}

pub open spec fn pow10(n: nat) -> int
    decreases n,
{
    if n == 0 {
        1
    } else {
        10 * pow10((n - 1) as nat)
    }
}

/// Index of the first `'.'`, or the length when there is none.
pub open spec fn dot_pos(s: Seq<u8>) -> int
    decreases s.len(),
{
    if s.len() == 0 {
        0
    } else if s[0] == 46 {
        0
    } else {
        1 + dot_pos(s.drop_first())
    }
}

pub open spec fn int_part(s: Seq<u8>) -> Seq<u8> {
    s.take(dot_pos(s))
}

pub open spec fn frac_part(s: Seq<u8>) -> Seq<u8> {
    if dot_pos(s) == s.len() {
        Seq::empty()
    } else {
        s.skip(dot_pos(s) + 1)
    }
}

/// The accepted shape: at least one integer digit, digits on both
/// sides of an optional single dot.
pub open spec fn wf_decimal(s: Seq<u8>) -> bool {
    &&& int_part(s).len() >= 1
    &&& all_digits(int_part(s))
    &&& all_digits(frac_part(s))
}

/// The fraction's contribution at fixed-point scale: the first eight
/// fraction digits, padded with zeros on the right.
pub open spec fn frac_scaled(f: Seq<u8>) -> int {
    let kept = if f.len() <= 8 {
        f
    } else {
        f.take(8)
    };
    digits_value(kept) * pow10((8 - kept.len()) as nat)
}

/// The denoted amount at fixed-point scale, fraction truncated past
/// eight digits.
pub open spec fn decimal_value(s: Seq<u8>) -> int {
    digits_value(int_part(s)) * SCALE + frac_scaled(frac_part(s))
}

/// What [`parse_fixed`] returns: the denoted amount when the string is
/// well formed and the amount is representable, nothing otherwise.
pub open spec fn parse_fixed_spec(s: Seq<u8>) -> Option<int> {
    if wf_decimal(s) && decimal_value(s) <= MAX_AMOUNT {
        Some(decimal_value(s))
    } else {
        None
    }
}

/// `dot_pos` is the first index holding a dot.
proof fn lemma_dot_pos_at(s: Seq<u8>, k: int)
    requires
        0 <= k <= s.len(),
        forall|i: int| 0 <= i < k ==> s[i] != 46,
        k == s.len() || s[k] == 46,
    ensures
        dot_pos(s) == k,
    decreases k,
{
    if k == 0 {
    } else {
        assert(s[0] != 46);
        assert forall|i: int| 0 <= i < k - 1 implies s.drop_first()[i] != 46 by {
            assert(s.drop_first()[i] == s[i + 1]);
        }
        if k < s.len() {
            assert(s.drop_first()[k - 1] == s[k]);
        }
        lemma_dot_pos_at(s.drop_first(), k - 1);
    }
}

/// Digit strings denote nonnegative numbers below `pow10` of their
/// length.
proof fn lemma_digits_value_bounds(s: Seq<u8>)
    requires
        all_digits(s),
    ensures
        0 <= digits_value(s) < pow10(s.len()),
    decreases s.len(),
{
    if s.len() > 0 {
        assert forall|i: int| 0 <= i < s.drop_last().len() implies is_digit(
            s.drop_last()[i],
        ) by {
            assert(s.drop_last()[i] == s[i]);
        }
        lemma_digits_value_bounds(s.drop_last());
        assert(pow10(s.len()) == 10 * pow10((s.len() - 1) as nat));
    }
}

/// `pow10` splits over addition.
proof fn lemma_pow10_add(a: nat, b: nat)
    ensures
        pow10(a) * pow10(b) == pow10(a + b),
    decreases a,
{
    if a == 0 {
    } else {
        lemma_pow10_add((a - 1) as nat, b);
        assert(pow10(a) * pow10(b) == 10 * pow10((a - 1) as nat) * pow10(b));
        assert(10 * pow10((a - 1) as nat) * pow10(b) == 10 * (pow10((a - 1) as nat) * pow10(b)))
            by (nonlinear_arith);
        assert(pow10(a + b) == 10 * pow10((a + b - 1) as nat));
    }
}

/// `pow10(n)` for `n` up to eight.
fn pow10_exec(n: usize) -> (r: i64)
    requires
        n <= 8,
    ensures
        r == pow10(n as nat),
        1 <= r <= 100_000_000,
{
    proof {
        reveal_with_fuel(pow10, 10);
    }
    if n == 0 {
        1
    } else if n == 1 {
        10
    } else if n == 2 {
        100
    } else if n == 3 {
        1_000
    } else if n == 4 {
        10_000
    } else if n == 5 {
        100_000
    } else if n == 6 {
        1_000_000
    } else if n == 7 {
        10_000_000
    } else {
        100_000_000
    }
}

/// `pow10` is monotone.
proof fn lemma_pow10_mono(a: nat, b: nat)
    requires
        a <= b,
    ensures
        pow10(a) <= pow10(b),
    decreases b,
{
    if a < b {
        lemma_pow10_mono(a, (b - 1) as nat);
        lemma_pow10_pos((b - 1) as nat);
        assert(pow10(b) == 10 * pow10((b - 1) as nat));
    }
}

/// `pow10` is positive.
proof fn lemma_pow10_pos(n: nat)
    ensures
        pow10(n) >= 1,
    decreases n,
{
    if n > 0 {
        lemma_pow10_pos((n - 1) as nat);
    }
}

/// Parses a decimal string into a fixed-point amount, exactly as
/// [`parse_fixed_spec`] describes.
pub fn parse_fixed(s: &str) -> (r: Option<i64>)
    ensures
        match r {
            Some(v) => parse_fixed_spec(s.spec_bytes()) == Some(v as int) && 0 <= v
                <= MAX_AMOUNT,
            None => parse_fixed_spec(s.spec_bytes()) is None,
        },
{
    let b = s.as_bytes();
    let n = b.len();
    let ghost bs = b@;
    // Find the dot, if any.
    let mut dp: usize = 0;
    while dp < n && b[dp] != 46
        invariant
            0 <= dp <= n,
            n == bs.len(),
            b@ == bs,
            bs == s.spec_bytes(),
            forall|i: int| 0 <= i < dp ==> bs[i] != 46,
        decreases n - dp,
    {
        dp += 1;
    }
    proof {
        lemma_dot_pos_at(bs, dp as int);
    }
    if dp == 0 {
        return None;
    }
    // Integer part.
    let mut acc: i64 = 0;
    let mut too_big = false;
    let mut i: usize = 0;
    while i < dp
        invariant
            0 <= i <= dp <= n,
            n == bs.len(),
            b@ == bs,
            bs == s.spec_bytes(),
            dot_pos(bs) == dp,
            forall|k: int| 0 <= k < i ==> is_digit(bs[k]),
            !too_big ==> 0 <= acc <= 1_000_000 && acc == digits_value(bs.take(i as int)),
            too_big ==> digits_value(bs.take(i as int)) > 1_000_000,
        decreases dp - i,
    {
        let c = b[i];
        if c < 48 || c > 57 {
            proof {
                assert(int_part(bs)[i as int] == bs[i as int]);
                assert(!is_digit(bs[i as int]));
                assert(!all_digits(int_part(bs)));
            }
            return None;
        }
        proof {
            assert(bs.take(i + 1).drop_last() =~= bs.take(i as int));
            assert(bs.take(i + 1).last() == bs[i as int]);
        }
        if too_big {
            proof {
                assert(digits_value(bs.take(i + 1)) == digits_value(bs.take(i as int)) * 10
                    + digit_val(bs[i as int]));
            }
        } else {
            let next: i64 = acc * 10 + ((c - 48) as i64);
            if next > 1_000_000 {
                too_big = true;
            } else {
                acc = next;
            }
        }
        i += 1;
    }
    proof {
        assert(bs.take(dp as int) == int_part(bs));
        assert forall|k: int| 0 <= k < int_part(bs).len() implies is_digit(
            int_part(bs)[k],
        ) by {
            assert(int_part(bs)[k] == bs[k]);
        }
    }
    // Fraction part: digits after the dot; the first eight carry value.
    let mut frac_acc: i64 = 0;
    let mut cnt: usize = 0;
    if dp < n {
        let mut j: usize = dp + 1;
        let ghost f = frac_part(bs);
        proof {
            assert(f =~= bs.skip(dp + 1));
        }
        while j < n
            invariant
                dp + 1 <= j <= n,
                n == bs.len(),
                b@ == bs,
                bs == s.spec_bytes(),
                dot_pos(bs) == dp,
                dp < n,
                f == frac_part(bs),
                f =~= bs.skip(dp + 1),
                cnt == if j - dp - 1 <= 8 {
                    j - dp - 1
                } else {
                    8
                },
                forall|k: int| 0 <= k < j - dp - 1 ==> is_digit(f[k]),
                0 <= frac_acc < pow10(cnt as nat),
                frac_acc == digits_value(f.take(cnt as int)),
            decreases n - j,
        {
            let c = b[j];
            proof {
                assert(f[j - dp - 1] == bs[j as int]);
            }
            if c < 48 || c > 57 {
                proof {
                    assert(!is_digit(f[j - dp - 1]));
                    assert(!all_digits(frac_part(bs)));
                }
                return None;
            }
            if cnt < 8 {
                proof {
                    assert(f.take(cnt + 1).drop_last() =~= f.take(cnt as int));
                    assert(f.take(cnt + 1).last() == f[cnt as int]);
                    assert(f[cnt as int] == bs[j as int]);
                    assert(pow10((cnt + 1) as nat) == 10 * pow10(cnt as nat));
                    lemma_pow10_mono(cnt as nat, 7);
                    reveal_with_fuel(pow10, 9);
                    assert(pow10(7) == 10_000_000);
                }
                frac_acc = frac_acc * 10 + ((c - 48) as i64);
                cnt += 1;
            }
            j += 1;
        }
        proof {
            assert(all_digits(f));
            if f.len() <= 8 {
                assert(f.take(cnt as int) =~= f);
            } else {
                assert(f.take(cnt as int) =~= f.take(8));
            }
        }
    } else {
        proof {
            assert(frac_part(bs) =~= Seq::<u8>::empty());
            assert(frac_part(bs).take(0) =~= Seq::<u8>::empty());
        }
    }
    // Combine.
    if too_big {
        proof {
            assert(digits_value(int_part(bs)) * SCALE >= 1_000_001 * (SCALE as int))
                by (nonlinear_arith)
                requires
                    digits_value(int_part(bs)) > 1_000_000,
            ;
            assert(frac_scaled(frac_part(bs)) >= 0) by {
                lemma_frac_scaled_bounds(frac_part(bs));
            }
        }
        return None;
    }
    let mult = pow10_exec(8 - cnt);
    proof {
        assert(0 <= frac_acc * (mult as int) < pow10(cnt as nat) * pow10((8 - cnt) as nat))
            by (nonlinear_arith)
            requires
                0 <= frac_acc < pow10(cnt as nat),
                mult == pow10((8 - cnt) as nat),
                mult >= 1,
        ;
        lemma_pow10_add(cnt as nat, (8 - cnt) as nat);
        reveal_with_fuel(pow10, 10);
        assert(pow10(8) == 100_000_000);
    }
    let scaled: i64 = frac_acc * mult;
    let value: i64 = acc * SCALE + scaled;
    proof {
        assert(0 <= (acc as int) * (SCALE as int) <= 1_000_000 * (SCALE as int))
            by (nonlinear_arith)
            requires
                0 <= acc <= 1_000_000,
        ;
        assert(decimal_value(bs) == acc * SCALE + scaled);
    }
    if value > MAX_AMOUNT {
        return None;
    }
    Some(value)
}

/// The fraction contribution is nonnegative and below one whole unit.
proof fn lemma_frac_scaled_bounds(f: Seq<u8>)
    requires
        all_digits(f),
    ensures
        0 <= frac_scaled(f) < SCALE,
{
    let kept = if f.len() <= 8 {
        f
    } else {
        f.take(8)
    };
    assert forall|i: int| 0 <= i < kept.len() implies is_digit(kept[i]) by {
        assert(kept[i] == f[i]);
    }
    lemma_digits_value_bounds(kept);
    lemma_pow10_pos((8 - kept.len()) as nat);
    assert(0 <= digits_value(kept) * pow10((8 - kept.len()) as nat) < pow10(kept.len()) * pow10(
        (8 - kept.len()) as nat,
    )) by (nonlinear_arith)
        requires
            0 <= digits_value(kept) < pow10(kept.len()),
            pow10((8 - kept.len()) as nat) >= 1,
    ;
    lemma_pow10_add(kept.len() as nat, (8 - kept.len()) as nat);
    reveal_with_fuel(pow10, 10);
    assert(pow10(8) == 100_000_000);
}

} // verus!
