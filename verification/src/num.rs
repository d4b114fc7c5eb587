//! Numeric ordering over decimal digit runs.
//!
//! Ordering operators compare field text numerically. A token is numeric
//! exactly when it is a non-empty run of ASCII digits; any other text never
//! matches an ordering operator (evaluation fails closed). Comparison is
//! exact at any length: magnitudes are compared after stripping leading
//! zeros, by length and then lexicographically.

use vstd::prelude::*;
use vstd::string::StrSliceExecFns;

verus! {

pub open spec fn is_digit(c: char) -> bool {
    '0' <= c && c <= '9'
}

/// A non-empty run of ASCII digits: the numeric tokens.
pub open spec fn is_digits(s: Seq<char>) -> bool {
    s.len() > 0 && forall|k: int| 0 <= k < s.len() ==> is_digit(#[trigger] s[k])
}

pub open spec fn digit_val(c: char) -> int {
    c as int - '0' as int
}

pub open spec fn pow10(n: nat) -> int
    decreases n,
{
    if n == 0 {
        1
    } else {
        10 * pow10((n - 1) as nat)
    }
}

/// The number a digit run denotes.
pub open spec fn digits_val(s: Seq<char>) -> int
    decreases s.len(),
{
    if s.len() == 0 {
        0
    } else {
        digit_val(s[0]) * pow10((s.len() - 1) as nat) + digits_val(s.drop_first())
    }
}

/// Every character of `s` is a digit; the empty run is allowed.
pub open spec fn all_digit_chars(s: Seq<char>) -> bool {
    forall|k: int| 0 <= k < s.len() ==> is_digit(#[trigger] s[k])
}

pub proof fn lemma_pow10_pos(n: nat)
    ensures
        pow10(n) >= 1,
    decreases n,
{
    if n > 0 {
        lemma_pow10_pos((n - 1) as nat);
    }
}

pub proof fn lemma_pow10_mono(m: nat, n: nat)
    requires
        m <= n,
    ensures
        pow10(m) <= pow10(n),
    decreases n,
{
    if m < n {
        lemma_pow10_mono(m, (n - 1) as nat);
        lemma_pow10_pos((n - 1) as nat);
    }
}

/// A digit run of length `n` denotes a number in `[0, 10^n)`, and at least
/// `10^(n-1)` when it does not open with a zero.
pub proof fn lemma_digits_val_bounds(s: Seq<char>)
    requires
        all_digit_chars(s),
    ensures
        0 <= digits_val(s),
        digits_val(s) < pow10(s.len()),
        s.len() > 0 && s[0] != '0' ==> digits_val(s) >= pow10((s.len() - 1) as nat),
    decreases s.len(),
{
    if s.len() == 0 {
    } else {
        let d = digit_val(s[0]);
        let p = pow10((s.len() - 1) as nat);
        lemma_digits_val_bounds(s.drop_first());
        lemma_pow10_pos((s.len() - 1) as nat);
        assert(0 <= d <= 9);
        assert(d * p >= 0) by (nonlinear_arith)
            requires
                d >= 0,
                p >= 0,
        ;
        assert(d * p + p <= 10 * p) by (nonlinear_arith)
            requires
                d <= 9,
                p >= 0,
        ;
        if s[0] != '0' {
            assert(d >= 1);
            assert(d * p >= p) by (nonlinear_arith)
                requires
                    d >= 1,
                    p >= 0,
            ;
        }
    }
}

/// Leading zeros do not change the denoted number.
pub proof fn lemma_digits_val_skip_zeros(s: Seq<char>, z: int)
    requires
        0 <= z <= s.len(),
        forall|k: int| 0 <= k < z ==> s[k] == '0',
    ensures
        digits_val(s) == digits_val(s.skip(z)),
    decreases z,
{
    if z > 0 {
        assert(digit_val(s[0]) == 0);
        lemma_digits_val_skip_zeros(s.drop_first(), z - 1);
        assert(s.drop_first().skip(z - 1) =~= s.skip(z));
    } else {
        assert(s.skip(0) =~= s);
    }
}

/// Equal-length digit runs that agree up to `k` and differ at `k` order by
/// the digit at `k`.
pub proof fn lemma_digits_val_lex(a: Seq<char>, b: Seq<char>, k: int)
    requires
        all_digit_chars(a),
        all_digit_chars(b),
        a.len() == b.len(),
        0 <= k < a.len(),
        forall|m: int| 0 <= m < k ==> a[m] == b[m],
        a[k] < b[k],
    ensures
        digits_val(a) < digits_val(b),
    decreases k,
{
    let p = pow10((a.len() - 1) as nat);
    if k == 0 {
        let da = digit_val(a[0]);
        let db = digit_val(b[0]);
        lemma_digits_val_bounds(a.drop_first());
        lemma_digits_val_bounds(b.drop_first());
        assert(da + 1 <= db);
        assert(da * p + p <= db * p) by (nonlinear_arith)
            requires
                da + 1 <= db,
                p >= 0,
        ;
        assert(digits_val(a) == da * p + digits_val(a.drop_first()));
        assert(digits_val(a.drop_first()) < p);
        assert(digits_val(b.drop_first()) >= 0);
    } else {
        lemma_digits_val_lex(a.drop_first(), b.drop_first(), k - 1);
        assert(a[0] == b[0]);
    }
}

/// Numeric order of two digit runs: true when `a` denotes a smaller number
/// than `b`.
pub fn digits_lt(a: &str, b: &str) -> (r: bool)
    requires
        is_digits(a@),
        is_digits(b@),
    ensures
        r == (digits_val(a@) < digits_val(b@)),
{
    let na: usize = a.unicode_len();
    let nb: usize = b.unicode_len();
    let mut za: usize = 0;
    while za < na && a.get_char(za) == '0'
        invariant
            za <= na,
            na == a@.len(),
            forall|m: int| 0 <= m < za ==> a@[m] == '0',
        decreases na - za,
    {
        za = za + 1;
    }
    let mut zb: usize = 0;
    while zb < nb && b.get_char(zb) == '0'
        invariant
            zb <= nb,
            nb == b@.len(),
            forall|m: int| 0 <= m < zb ==> b@[m] == '0',
        decreases nb - zb,
    {
        zb = zb + 1;
    }
    let ghost sa = a@.skip(za as int);
    let ghost sb = b@.skip(zb as int);
    proof {
        lemma_digits_val_skip_zeros(a@, za as int);
        lemma_digits_val_skip_zeros(b@, zb as int);
        lemma_digits_val_bounds(sa);
        lemma_digits_val_bounds(sb);
    }
    let la: usize = na - za;
    let lb: usize = nb - zb;
    if la != lb {
        proof {
            if la < lb {
                lemma_pow10_mono(la as nat, (lb - 1) as nat);
            } else {
                lemma_pow10_mono(lb as nat, (la - 1) as nat);
            }
        }
        return la < lb;
    }
    let mut k: usize = 0;
    while k < la
        invariant
            k <= la,
            la == lb,
            za + la == na,
            zb + lb == nb,
            na == a@.len(),
            nb == b@.len(),
            sa == a@.skip(za as int),
            sb == b@.skip(zb as int),
            sa.len() == la,
            sb.len() == lb,
            all_digit_chars(sa),
            all_digit_chars(sb),
            digits_val(a@) == digits_val(sa),
            digits_val(b@) == digits_val(sb),
            forall|m: int| 0 <= m < k ==> sa[m] == sb[m],
        decreases la - k,
    {
        let ca = a.get_char(za + k);
        let cb = b.get_char(zb + k);
        if ca != cb {
            proof {
                if ca < cb {
                    lemma_digits_val_lex(sa, sb, k as int);
                } else {
                    lemma_digits_val_lex(sb, sa, k as int);
                }
            }
            return ca < cb;
        }
        k = k + 1;
    }
    proof {
        assert(sa =~= sb);
    }
    false
}

} // verus!
