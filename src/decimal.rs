use vstd::prelude::*;

verus! {

/// The ASCII code of the digit `0`.
pub const ZERO_DIGIT: u8 = 48;

/// Decimal text of `n`, most significant digit first, without leading zeros.
pub open spec fn decimal(n: nat) -> Seq<u8>
    decreases n,
{
    if n < 10 {
        seq![(n + 48) as u8]
    } else {
        decimal(n / 10).push((n % 10 + 48) as u8)
    }
}

/// Whether a byte is an ASCII decimal digit.
pub open spec fn is_digit(b: u8) -> bool {
    48 <= b <= 57
}

/// Every byte of a decimal text is a digit, and the text is never empty.
pub proof fn lemma_decimal_digits(n: nat)
    ensures
        decimal(n).len() >= 1,
        n >= 10 ==> decimal(n).len() >= 2,
        forall|i: int| 0 <= i < decimal(n).len() ==> is_digit(#[trigger] decimal(n)[i]),
    decreases n,
{
    if n >= 10 {
        lemma_decimal_digits(n / 10);
    }
}

/// A number below `10^k` takes at most `k` digits; in particular any `u64`
/// takes at most twenty.
pub proof fn lemma_decimal_len_u64(n: nat)
    requires
        n <= u64::MAX,
    ensures
        decimal(n).len() <= 20,
{
    reveal_with_fuel(pow10, 21);
    lemma_decimal_len_bound(n, 20, 100000000000000000000);
}

proof fn lemma_decimal_len_bound(n: nat, k: nat, p: nat)
    requires
        n < p,
        p == pow10(k),
        k >= 1,
    ensures
        decimal(n).len() <= k,
    decreases k,
{
    if k == 1 {
        reveal_with_fuel(pow10, 2);
    } else {
        lemma_decimal_digits(n);
        if n >= 10 {
            assert(pow10(k) == 10 * pow10((k - 1) as nat));
            assert(n / 10 < pow10((k - 1) as nat)) by (nonlinear_arith)
                requires
                    n < p,
                    p == 10 * pow10((k - 1) as nat),
            ;
            lemma_decimal_len_bound(n / 10, (k - 1) as nat, pow10((k - 1) as nat));
        }
    }
}

spec fn pow10(k: nat) -> nat
    decreases k,
{
    if k == 0 {
        1
    } else {
        10 * pow10((k - 1) as nat)
    }
}

/// Distinct numbers have distinct decimal texts.
pub proof fn lemma_decimal_injective(a: nat, b: nat)
    requires
        decimal(a) == decimal(b),
    ensures
        a == b,
    decreases a,
{
    lemma_decimal_digits(a);
    lemma_decimal_digits(b);
    if a >= 10 && b >= 10 {
        let da = decimal(a / 10);
        let db = decimal(b / 10);
        let la = (a % 10 + 48) as u8;
        let lb = (b % 10 + 48) as u8;
        assert(decimal(a) == da.push(la));
        assert(decimal(b) == db.push(lb));
        assert(da =~= da.push(la).drop_last());
        assert(db =~= db.push(lb).drop_last());
        lemma_decimal_injective(a / 10, b / 10);
        assert(da.push(la).last() == la);
        assert(db.push(lb).last() == lb);
        assert(a % 10 == b % 10);
        assert(a == 10 * (a / 10) + a % 10) by (nonlinear_arith);
        assert(b == 10 * (b / 10) + b % 10) by (nonlinear_arith);
        assert(a == b);
    } else if a < 10 && b < 10 {
        assert(decimal(a) == seq![(a + 48) as u8]);
        assert(decimal(b) == seq![(b + 48) as u8]);
        assert(decimal(a)[0] == (a + 48) as u8);
        assert(decimal(b)[0] == (b + 48) as u8);
    } else {
        assert(decimal(a).len() != decimal(b).len());
    }
}

/// Appends the decimal text of `n` to `out`.
pub(crate) fn push_decimal(out: &mut Vec<u8>, n: u64)
    ensures
        final(out)@ == old(out)@ + decimal(n as nat),
    decreases n,
{
    if n < 10 {
        out.push(n as u8 + ZERO_DIGIT);
        assert(decimal(n as nat) == seq![(n + 48) as u8]);
    } else {
        push_decimal(out, n / 10);
        out.push((n % 10) as u8 + ZERO_DIGIT);
        assert(old(out)@ + decimal(n as nat) =~= old(out)@ + decimal((n / 10) as nat) + seq![
            ((n % 10) + 48) as u8,
        ]);
    }
}

} // verus!
