//! The decisions of the control-flow walkthrough: which numbers it accepts,
//! how it describes them, and the sum it counts up to the chosen number.

use vstd::prelude::*;

verus! {

/// How a number is described: its sign, and for a nonzero one its parity.
#[derive(Clone, Copy, Debug, PartialEq, Eq, Structural)]
pub enum NumberClass {
    EvenPositive,
    OddPositive,
    EvenNegative,
    OddNegative,
    Zero,
}

/// The class of a number.
pub open spec fn class_of(num: int) -> NumberClass {
    if num > 0 {
        if num % 2 == 0 {
            NumberClass::EvenPositive
        } else {
            NumberClass::OddPositive
        }
    } else if num < 0 {
        if num % 2 == 0 {
            NumberClass::EvenNegative
        } else {
            NumberClass::OddNegative
        }
    } else {
        NumberClass::Zero
    }
}

/// Describes a number by its sign and parity.
pub fn classify(num: i64) -> (r: NumberClass)
    ensures
        r == class_of(num as int),
{
    if num > 0 {
        if num % 2 == 0 {
            NumberClass::EvenPositive
        } else {
            NumberClass::OddPositive
        }
    } else if num < 0 {
        if num % 2 == 0 {
            NumberClass::EvenNegative
        } else {
            NumberClass::OddNegative
        }
    } else {
        NumberClass::Zero
    }
}

/// Accepts every number but zero.
pub fn check_nonzero(num: i64) -> (r: bool)
    ensures
        r == (num != 0),
        r == (class_of(num as int) != NumberClass::Zero),
{
    let class = classify(num);
    class != NumberClass::Zero
}

/// The triangular number `0 + 1 + ... + m`.
pub open spec fn tri(m: nat) -> nat
    decreases m,
{
    if m == 0 {
        0
    } else {
        m + tri((m - 1) as nat)
    }
}

/// Sum of the digits one to nine: the weight of each step of the count.
pub const ROW_WEIGHT: i128 = 45;

/// The counted sum up to `n`: each number from zero to `n` (towards `n`'s
/// sign, both ends included) times `ROW_WEIGHT`.
pub open spec fn counted_total(n: int) -> int {
    if n >= 0 {
        ROW_WEIGHT * tri(n as nat)
    } else {
        -ROW_WEIGHT * tri((-n) as nat)
    }
}

proof fn lemma_tri_monotonic(a: nat, b: nat)
    requires
        a <= b,
    ensures
        tri(a) <= tri(b),
    decreases b,
{
    if a < b {
        lemma_tri_monotonic(a, (b - 1) as nat);
    }
}

proof fn lemma_tri_closed(m: nat)
    ensures
        2 * tri(m) == m * (m + 1),
    decreases m,
{
    if m > 0 {
        let p = (m - 1) as nat;
        lemma_tri_closed(p);
        assert(tri(m) == m + tri(p));
        assert(m * (m + 1) == p * (p + 1) + 2 * m) by (nonlinear_arith)
            requires
                p == m - 1,
        ;
        assert(2 * tri(m) == m * (m + 1));
    } else {
        assert(tri(m) == 0);
    }
}

/// A number whose counted sum fits in an `i128` lies well inside `i64`.
proof fn lemma_count_bound(m: nat)
    requires
        ROW_WEIGHT * tri(m) <= i128::MAX,
    ensures
        m < 0x4000_0000_0000_0000,
{
    lemma_tri_closed(m);
    if m >= 0x4000_0000_0000_0000 {
        assert(m * (m + 1) >= 0x4000_0000_0000_0000 * 0x4000_0000_0000_0000)
            by (nonlinear_arith)
            requires
                m >= 0x4000_0000_0000_0000,
        ;
    }
}

/// One step of the count: each digit from one to nine times `counter`.
fn row_total(counter: i64) -> (r: i128)
    ensures
        r == ROW_WEIGHT * counter,
{
    let digits: [i128; 9] = [1, 2, 3, 4, 5, 6, 7, 8, 9];
    let c = counter as i128;
    let mut total: i128 = 0;
    let mut k: usize = 0;
    let ghost mut w: int = 0;
    while k < 9
        invariant
            k <= 9,
            c == counter,
            forall|j: int| 0 <= j < 9 ==> #[trigger] digits@[j] == j + 1,
            2 * w == k * (k + 1),
            0 <= w <= 9 * k,
            total == c * w,
        decreases 9 - k,
    {
        assert(digits@[k as int] == k + 1);
        assert(-0x8000_0000_0000_0000 * 81 <= c * (w + k + 1) <= 0x7fff_ffff_ffff_ffff * 81
            && -0x8000_0000_0000_0000 * 9 <= (k + 1) * c <= 0x7fff_ffff_ffff_ffff * 9
            && total + (k + 1) * c == c * (w + k + 1) && 2 * (w + k + 1) == (k + 1) * (k + 2))
            by (nonlinear_arith)
            requires
                -0x8000_0000_0000_0000 <= c <= 0x7fff_ffff_ffff_ffff,
                0 <= w <= 9 * k,
                k < 9,
                total == c * w,
                2 * w == k * (k + 1),
        ;
        total = total + digits[k] * c;
        proof {
            w = w + k + 1;
        }
        k += 1;
    }
    assert(w == 45);
    total
}

/// The distance of a number from zero.
pub open spec fn magnitude(n: int) -> nat {
    if n >= 0 {
        n as nat
    } else {
        (-n) as nat
    }
}

/// Whether the counted sum up to `n` fits in an `i128`.
pub fn fits_counted_sum(n: i64) -> (r: bool)
    ensures
        r == (ROW_WEIGHT * tri(magnitude(n as int)) <= i128::MAX),
{
    let m: u128 = if n >= 0 {
        n as u128
    } else {
        (-(n as i128)) as u128
    };
    proof {
        lemma_tri_closed(m as nat);
        assert(m * (m + 1) <= 0x8000_0000_0000_0000 * 0x8000_0000_0000_0001) by (nonlinear_arith)
            requires
                m <= 0x8000_0000_0000_0000,
        ;
    }
    let t: u128 = m * (m + 1) / 2;
    t <= (i128::MAX as u128) / 45
}

/// The sum that the walkthrough counts up to `n`: for each number from zero to
/// `n` in turn, that number times each digit from one to nine.
pub fn counted_sum(n: i64) -> (r: i128)
    requires
        ROW_WEIGHT * tri(magnitude(n as int)) <= i128::MAX,
    ensures
        r == counted_total(n as int),
{
    let mut counter: i64 = 0;
    let mut sum: i128 = 0;
    if n < 0 {
        proof {
            lemma_count_bound((-n) as nat);
        }
        while counter >= n
            invariant
                n < 0,
                n - 1 <= counter <= 0,
                n > -0x4000_0000_0000_0000,
                ROW_WEIGHT * tri((-n) as nat) <= i128::MAX,
                sum == -ROW_WEIGHT * (tri((-counter) as nat) + counter),
            decreases counter - n + 1,
        {
            proof {
                lemma_tri_monotonic((-counter) as nat, (-n) as nat);
                assert(tri((1 - counter) as nat) == 1 - counter + tri((-counter) as nat));
            }
            let row = row_total(counter);
            let ghost t = tri((-counter) as nat);
            assert(sum + row == -ROW_WEIGHT * t) by (nonlinear_arith)
                requires
                    ROW_WEIGHT == 45,
                    sum == -ROW_WEIGHT * (t + counter),
                    row == ROW_WEIGHT * counter,
            ;
            sum = sum + row;
            counter -= 1;
        }
    } else {
        proof {
            lemma_count_bound(n as nat);
        }
        while counter <= n
            invariant
                n >= 0,
                0 <= counter <= n + 1,
                n < 0x4000_0000_0000_0000,
                ROW_WEIGHT * tri(n as nat) <= i128::MAX,
                sum == ROW_WEIGHT * (tri(counter as nat) - counter),
            decreases n + 1 - counter,
        {
            proof {
                lemma_tri_monotonic(counter as nat, n as nat);
                assert(tri((counter + 1) as nat) == counter + 1 + tri(counter as nat));
                assert(ROW_WEIGHT == 45);
            }
            sum = sum + row_total(counter);
            counter += 1;
        }
    }
    sum
}

} // verus!
