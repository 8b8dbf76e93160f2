//! What the library reads from a number without computing with it: whether
//! it is below zero, whether it is above one half, and its whole part.
//!
//! A number is read as it is in single precision, that is as the nearest
//! number that has twenty-four binary digits, and of two that are equally
//! near the one whose last binary digit is zero. The readings follow the
//! decimal digits as written and compare them with the digits of the
//! middle between two such numbers, so they are exact.

use vstd::prelude::*;
use crate::number::{
    all_digits, decimal_value, digit_value, digits_end, is_decimal, is_digit, is_sign, is_word,
    skip_digits, spells, unsigned, value_of_digit, Number,
};
use crate::text::{append, chars_of, slice};

verus! {

/// A run of `n` zeros.
pub open spec fn zeros(n: nat) -> Seq<char> {
    Seq::new(n, |i: int| '0')
}

/// Where the digits before the point end.
pub open spec fn whole_end(b: Seq<char>) -> int {
    digits_end(b, 0)
}

/// Whether a point follows the digits.
pub open spec fn has_point(b: Seq<char>) -> bool {
    whole_end(b) < b.len() && b[whole_end(b)] == '.'
}

/// Where the digits around the point end.
pub open spec fn mantissa_end(b: Seq<char>) -> int {
    if has_point(b) {
        digits_end(b, whole_end(b) + 1)
    } else {
        whole_end(b)
    }
}

/// The digits before and behind the point.
pub open spec fn mantissa(b: Seq<char>) -> Seq<char> {
    if has_point(b) {
        b.subrange(0, whole_end(b)) + b.subrange(whole_end(b) + 1, mantissa_end(b))
    } else {
        b.subrange(0, whole_end(b))
    }
}

/// The number of digits behind the point.
pub open spec fn frac_len(b: Seq<char>) -> int {
    if has_point(b) {
        mantissa_end(b) - whole_end(b) - 1
    } else {
        0
    }
}

/// Where the digits of the exponent begin.
pub open spec fn exp_start(b: Seq<char>) -> int {
    let m = mantissa_end(b);
    if m + 1 < b.len() && is_sign(b[m + 1]) {
        m + 2
    } else {
        m + 1
    }
}

/// The exponent; zero where none is written.
pub open spec fn exponent(b: Seq<char>) -> int {
    let m = mantissa_end(b);
    if m >= b.len() {
        0
    } else {
        let size = decimal_value(b.subrange(exp_start(b), b.len() as int));
        if m + 1 < b.len() && b[m + 1] == '-' {
            -size
        } else {
            size as int
        }
    }
}

/// By how many places the digits of the mantissa stand left of the units:
/// the value of the decimal is its mantissa times ten to this power.
pub open spec fn shift(b: Seq<char>) -> int {
    exponent(b) - frac_len(b)
}

/// The digits before the point of the digits `m` times ten to the power `s`.
pub open spec fn digits_before_point(m: Seq<char>, s: int) -> Seq<char> {
    if s >= 0 {
        m + zeros(s as nat)
    } else if -s <= m.len() {
        m.subrange(0, m.len() + s)
    } else {
        Seq::empty()
    }
}

/// The digits behind the point of the digits `m` times ten to the power `s`.
pub open spec fn digits_behind_point(m: Seq<char>, s: int) -> Seq<char> {
    if s >= 0 {
        Seq::empty()
    } else if -s <= m.len() {
        m.subrange(m.len() + s, m.len() as int)
    } else {
        zeros((-s - m.len()) as nat) + m
    }
}

/// The digits of the decimal that stand before its point, once the exponent
/// is applied.
pub open spec fn integer_digits(b: Seq<char>) -> Seq<char> {
    digits_before_point(mantissa(b), shift(b))
}

/// The digits of the decimal that stand behind its point, once the exponent
/// is applied.
pub open spec fn fraction_digits(b: Seq<char>) -> Seq<char> {
    digits_behind_point(mantissa(b), shift(b))
}

/// The digit at the place `k` behind a point of the digits `f`: zero
/// behind their end.
pub open spec fn place(f: Seq<char>, k: int) -> nat {
    if 0 <= k < f.len() {
        digit_value(f[k])
    } else {
        0
    }
}

/// Whether the digits `f` behind a point make more than the digits `c`
/// behind a point: at the first place at which they differ, `f` has the
/// greater digit.
pub open spec fn exceeds(f: Seq<char>, c: Seq<char>) -> bool {
    exists|k: int|
        0 <= k < f.len() && #[trigger] place(f, k) > place(c, k) && forall|j: int|
            0 <= j < k ==> #[trigger] place(f, j) == place(c, j)
}

/// The digits behind the point of the middle between one half and the
/// number of single precision next above it, which is greater by the
/// twenty-fourth power of one half.
pub open spec fn half_mark() -> Seq<char> {
    "5000000298023223876953125"@
}

/// The digits of the hundred and fiftieth power of one half from its
/// first digit that is not zero, which stands at the forty-sixth place
/// behind the point.
pub open spec fn least_digits() -> Seq<char> {
    "700649232162408535461864791644958065640130970938257885878534141944895541342930300743319094181060791015625"@
}

/// The digits behind the point of the middle between zero and the least
/// number of single precision above it, which is the hundred and
/// forty-ninth power of one half.
pub open spec fn least_mark() -> Seq<char> {
    zeros(45) + least_digits()
}

/// Whether digits behind a point make a number that is above one half
/// when it is taken in single precision, that is as the nearest number
/// that has twenty-four binary digits: they make more than the middle
/// between one half and the next such number above it. What lies in that
/// middle goes to one half, whose last binary digit is zero.
pub open spec fn more_than_half(f: Seq<char>) -> bool {
    exceeds(f, half_mark())
}

/// Whether digits behind a point make a number that is above zero when it
/// is taken in single precision: they make more than the middle between
/// zero and the least such number above it. What lies in that middle goes
/// to zero.
pub open spec fn more_than_least(f: Seq<char>) -> bool {
    exceeds(f, least_mark())
}

/// The digits behind the point of the middle between the number of single
/// precision that is nearest to one thousandth and the one next below it.
pub open spec fn thousandth_mark() -> Seq<char> {
    "0009999999892897903919219970703125"@
}

/// Whether a decimal without a sign is in single precision at least the
/// number that is nearest to one thousandth. What lies in the middle
/// below that number goes to the one below it.
pub open spec fn reaches_thousandth(b: Seq<char>) -> bool {
    decimal_value(integer_digits(b)) >= 1 || exceeds(fraction_digits(b), thousandth_mark())
}

/// Whether a number without its sign is the word `nan`.
pub open spec fn is_nan_word(b: Seq<char>) -> bool {
    is_word(b, seq!['n', 'a', 'n'], seq!['N', 'A', 'N'])
}

/// Whether a number without its sign is the word `inf` or `infinity`.
pub open spec fn is_inf_word(b: Seq<char>) -> bool {
    is_word(b, seq!['i', 'n', 'f'], seq!['I', 'N', 'F']) || is_word(
        b,
        seq!['i', 'n', 'f', 'i', 'n', 'i', 't', 'y'],
        seq!['I', 'N', 'F', 'I', 'N', 'I', 'T', 'Y'],
    )
}

/// A natural number held to the range of `usize`.
pub open spec fn capped(n: nat) -> usize {
    if n > usize::MAX {
        usize::MAX
    } else {
        n as usize
    }
}

/// By how much the numbers of single precision step at the whole number
/// `i`: by one below the twenty-fourth power of two, and by twice as much
/// from each power of two on.
pub open spec fn step_at(i: nat) -> nat
    decreases i,
{
    if i < 16777216 {
        1
    } else {
        2 * step_at(i / 2)
    }
}

/// The whole number of single precision that is nearest to the whole
/// number `i`, at least the twenty-fourth power of two, and what stands
/// behind its point, of which `more` says whether it is above zero. In the
/// middle between two such numbers it is the one whose last binary digit
/// is zero.
pub open spec fn nearest_whole(i: nat, more: bool) -> nat {
    let u = step_at(i);
    let q = i / u;
    let rest = i % u;
    if 2 * rest > u || (2 * rest == u && (more || q % 2 == 1)) {
        (q + 1) * u
    } else {
        q * u
    }
}

/// The digits behind the point from which on a number with the whole part
/// `i`, below the twenty-third power of two, is in single precision the
/// next whole number: one less half the step of the numbers of single
/// precision just below that whole number.
pub open spec fn next_mark(i: nat) -> Seq<char> {
    if i < 1 {
        "9999999701976776123046875"@
    } else if i < 2 {
        "999999940395355224609375"@
    } else if i < 4 {
        "99999988079071044921875"@
    } else if i < 8 {
        "9999997615814208984375"@
    } else if i < 16 {
        "999999523162841796875"@
    } else if i < 32 {
        "99999904632568359375"@
    } else if i < 64 {
        "9999980926513671875"@
    } else if i < 128 {
        "999996185302734375"@
    } else if i < 256 {
        "99999237060546875"@
    } else if i < 512 {
        "9999847412109375"@
    } else if i < 1024 {
        "999969482421875"@
    } else if i < 2048 {
        "99993896484375"@
    } else if i < 4096 {
        "9998779296875"@
    } else if i < 8192 {
        "999755859375"@
    } else if i < 16384 {
        "99951171875"@
    } else if i < 32768 {
        "9990234375"@
    } else if i < 65536 {
        "998046875"@
    } else if i < 131072 {
        "99609375"@
    } else if i < 262144 {
        "9921875"@
    } else if i < 524288 {
        "984375"@
    } else if i < 1048576 {
        "96875"@
    } else if i < 2097152 {
        "9375"@
    } else if i < 4194304 {
        "875"@
    } else {
        "75"@
    }
}

/// Whether a number with the whole part `i`, below the twenty-fourth power
/// of two, and the digits `f` behind its point is in single precision the
/// next whole number or more. From the twenty-third power of two on the
/// numbers of single precision are the whole numbers, and one half goes to
/// the even one.
pub open spec fn goes_up(i: nat, f: Seq<char>) -> bool {
    if i < 8388608 {
        !exceeds(next_mark(i), f)
    } else if i % 2 == 1 {
        !exceeds("5"@, f)
    } else {
        exceeds(f, "5"@)
    }
}

/// The whole part in single precision of a number with the whole part `i`
/// and the digits `f` behind its point.
pub open spec fn single_whole(i: nat, f: Seq<char>) -> nat {
    if i < 16777216 {
        if goes_up(i, f) {
            i + 1
        } else {
            i
        }
    } else {
        nearest_whole(i, exceeds(f, Seq::empty()))
    }
}

/// The whole part in single precision of a number with the whole part `i`
/// and the digits `f` behind its point, held to the range of `usize`.
pub open spec fn whole_of(i: nat, f: Seq<char>) -> usize {
    if i >= usize::MAX {
        usize::MAX
    } else {
        capped(single_whole(i, f))
    }
}

/// The whole part of a number when it is taken in single precision,
/// without regard to its sign: as large as `usize` allows for what is
/// infinite or too large, zero for what is no number.
pub open spec fn whole_part(s: Seq<char>) -> usize {
    let b = unsigned(s);
    if is_nan_word(b) {
        0
    } else if is_inf_word(b) {
        usize::MAX
    } else {
        whole_of(decimal_value(integer_digits(b)), fraction_digits(b))
    }
}

/// Whether a number is above one half when it is taken in single
/// precision.
pub open spec fn above_half(s: Seq<char>) -> bool {
    let b = unsigned(s);
    !(s.len() > 0 && s[0] == '-') && !is_nan_word(b) && (is_inf_word(b) || decimal_value(
        integer_digits(b),
    ) >= 1 || more_than_half(fraction_digits(b)))
}

/// Whether a decimal without a sign is not zero when it is taken in single
/// precision.
pub open spec fn not_zero(b: Seq<char>) -> bool {
    decimal_value(integer_digits(b)) >= 1 || more_than_least(fraction_digits(b))
}

/// Whether a number is below zero when it is taken in single precision.
pub open spec fn below_zero(s: Seq<char>) -> bool {
    let b = unsigned(s);
    s.len() > 0 && s[0] == '-' && !is_nan_word(b) && (is_inf_word(b) || not_zero(b))
}

/// Whether a number is above zero when it is taken in single precision.
pub open spec fn above_zero(s: Seq<char>) -> bool {
    let b = unsigned(s);
    !(s.len() > 0 && s[0] == '-') && !is_nan_word(b) && (is_inf_word(b) || not_zero(b))
}

/// Whether a number is at least one thousandth when both are taken in
/// single precision.
pub open spec fn at_least_thousandth(s: Seq<char>) -> bool {
    let b = unsigned(s);
    !(s.len() > 0 && s[0] == '-') && !is_nan_word(b) && (is_inf_word(b) || reaches_thousandth(b))
}

/// The greater of a number and one thousandth: the number as it is
/// written where it is at least one thousandth, else one thousandth, also
/// for what is no number.
pub open spec fn raised_to_thousandth(s: Seq<char>) -> Seq<char> {
    if at_least_thousandth(s) {
        s
    } else {
        "0.001"@
    }
}

/// Ten to the power `k`.
pub open spec fn pow10(k: nat) -> nat
    decreases k,
{
    if k == 0 {
        1
    } else {
        10 * pow10((k - 1) as nat)
    }
}

/// Every character before the end of a run of digits is a digit.
pub proof fn lemma_digits_before_end(s: Seq<char>, i: int)
    requires
        0 <= i <= s.len(),
    ensures
        i <= digits_end(s, i) <= s.len(),
        forall|k: int| i <= k < digits_end(s, i) ==> is_digit(#[trigger] s[k]),
        digits_end(s, i) < s.len() ==> !is_digit(s[digits_end(s, i)]),
    decreases s.len() - i,
{
    if i < s.len() && is_digit(s[i]) {
        lemma_digits_before_end(s, i + 1);
    }
}

/// Zeros behind digits multiply their value by a power of ten.
pub proof fn lemma_zeros_value(a: Seq<char>, k: nat)
    ensures
        decimal_value(a + zeros(k)) == decimal_value(a) * pow10(k),
    decreases k,
{
    if k == 0 {
        assert(a + zeros(0) =~= a);
        assert(pow10(0) == 1);
        assert(decimal_value(a) * 1 == decimal_value(a));
    } else {
        let longer = a + zeros(k);
        let shorter = a + zeros((k - 1) as nat);
        assert(longer.drop_last() =~= shorter);
        assert(longer.last() == '0');
        lemma_zeros_value(a, (k - 1) as nat);
        let v = decimal_value(a);
        let p = pow10((k - 1) as nat);
        assert(decimal_value(longer) == decimal_value(shorter) * 10);
        assert(decimal_value(shorter) == v * p);
        assert(pow10(k) == 10 * p);
        assert((v * p) * 10 == v * (10 * p)) by (nonlinear_arith);
    }
}

/// Powers of ten grow with the exponent.
pub proof fn lemma_pow10_grows(j: nat, k: nat)
    requires
        j <= k,
    ensures
        1 <= pow10(j) <= pow10(k),
    decreases k,
{
    if k == 0 {
    } else if j == k {
        lemma_pow10_grows((j - 1) as nat, (k - 1) as nat);
    } else {
        lemma_pow10_grows(j, (k - 1) as nat);
    }
}

/// Ten to the power twenty is beyond 64 bits.
pub proof fn lemma_pow10_twenty()
    ensures
        pow10(20) > u64::MAX,
{
    assert(pow10(0) == 1);
    assert(pow10(1) == 10);
    assert(pow10(2) == 100);
    assert(pow10(3) == 1000);
    assert(pow10(4) == 10000);
    assert(pow10(5) == 100000);
    assert(pow10(6) == 1000000);
    assert(pow10(7) == 10000000);
    assert(pow10(8) == 100000000);
    assert(pow10(9) == 1000000000);
    assert(pow10(10) == 10000000000);
    assert(pow10(11) == 100000000000);
    assert(pow10(12) == 1000000000000);
    assert(pow10(13) == 10000000000000);
    assert(pow10(14) == 100000000000000);
    assert(pow10(15) == 1000000000000000);
    assert(pow10(16) == 10000000000000000);
    assert(pow10(17) == 100000000000000000);
    assert(pow10(18) == 1000000000000000000);
    assert(pow10(19) == 10000000000000000000);
    assert(pow10(20) == 100000000000000000000);
}

/// Twenty zeros or more behind digits that are not all zero make a value
/// beyond 64 bits.
pub proof fn lemma_many_zeros(a: Seq<char>, k: nat)
    requires
        decimal_value(a) >= 1,
        k >= 20,
    ensures
        decimal_value(a + zeros(k)) > u64::MAX,
{
    lemma_zeros_value(a, k);
    lemma_pow10_grows(20, k);
    lemma_pow10_twenty();
    assert(decimal_value(a) * pow10(k) >= pow10(k)) by (nonlinear_arith)
        requires
            decimal_value(a) >= 1,
    ;
}

/// The value of `digits[..n]`, held to the range of `usize`.
fn value_of_digits(digits: &Vec<char>, n: usize) -> (r: usize)
    requires
        n <= digits.len(),
        all_digits(digits@),
    ensures
        r == capped(decimal_value(digits@.subrange(0, n as int))),
{
    let mut acc: usize = 0;
    let mut i: usize = 0;
    assert(digits@.subrange(0, 0) =~= Seq::<char>::empty());
    while i < n
        invariant
            i <= n <= digits.len(),
            all_digits(digits@),
            acc == capped(decimal_value(digits@.subrange(0, i as int))),
        decreases n - i,
    {
        let c = digits[i];
        let ghost next = digits@.subrange(0, i + 1);
        assert(next.drop_last() =~= digits@.subrange(0, i as int));
        assert(next.last() == c);
        assert(is_digit(digits@[i as int]));
        let d: usize = value_of_digit(c) as usize;
        if acc > (usize::MAX - d) / 10 {
            acc = usize::MAX;
        } else {
            acc = acc * 10 + d;
        }
        i += 1;
    }
    acc
}

/// Ten times `acc` for each of `pad` zeros, held to the range of `usize`.
fn value_with_zeros(acc: usize, pad: u128, Ghost(a): Ghost<Seq<char>>) -> (r: usize)
    requires
        acc == capped(decimal_value(a)),
    ensures
        r == capped(decimal_value(a + zeros(pad as nat))),
{
    if acc == 0 {
        proof {
            lemma_zeros_value(a, pad as nat);
            assert(0 * pow10(pad as nat) == 0);
        }
        0
    } else if pad >= 20 {
        proof {
            lemma_many_zeros(a, pad as nat);
        }
        usize::MAX
    } else {
        let mut r: usize = acc;
        let mut j: u128 = 0;
        assert(a + zeros(0) =~= a);
        while j < pad
            invariant
                j <= pad < 20,
                r == capped(decimal_value(a + zeros(j as nat))),
            decreases pad - j,
        {
            let ghost longer = a + zeros((j + 1) as nat);
            assert(longer.drop_last() =~= a + zeros(j as nat));
            assert(longer.last() == '0');
            if r > usize::MAX / 10 {
                r = usize::MAX;
            } else {
                r = r * 10;
            }
            j += 1;
        }
        r
    }
}

/// Tests whether the digits `digits[from..]`, taken behind a point, make
/// more than the digits `mark` behind a point.
fn beyond_mark(digits: &Vec<char>, from: usize, mark: &Vec<char>) -> (r: bool)
    requires
        from <= digits.len(),
    ensures
        r == exceeds(digits@.subrange(from as int, digits.len() as int), mark@),
{
    let ghost f = digits@.subrange(from as int, digits.len() as int);
    let mut k: usize = from;
    while k < digits.len()
        invariant
            from <= k <= digits.len(),
            f == digits@.subrange(from as int, digits.len() as int),
            forall|j: int| 0 <= j < k - from ==> #[trigger] place(f, j) == place(mark@, j),
        decreases digits.len() - k,
    {
        let d = value_of_digit(digits[k]);
        let e = if k - from < mark.len() {
            value_of_digit(mark[k - from])
        } else {
            0
        };
        let ghost at = k - from;
        assert(f[at] == digits@[k as int]);
        assert(d == place(f, at));
        assert(e == place(mark@, at));
        if d != e {
            proof {
                if d < e && exceeds(f, mark@) {
                    let q = choose|q: int|
                        0 <= q < f.len() && #[trigger] place(f, q) > place(mark@, q) && forall|
                            j: int,
                        |
                            0 <= j < q ==> #[trigger] place(f, j) == place(mark@, j);
                    if q > at {
                        assert(place(f, at) == place(mark@, at));
                    }
                    assert(false);
                }
            }
            return d > e;
        }
        k += 1;
    }
    proof {
        if exceeds(f, mark@) {
            let q = choose|q: int|
                0 <= q < f.len() && #[trigger] place(f, q) > place(mark@, q) && forall|j: int|
                    0 <= j < q ==> #[trigger] place(f, j) == place(mark@, j);
            assert(place(f, q) == place(mark@, q));
        }
    }
    false
}

/// The digits of `half_mark()`.
fn half_mark_digits() -> (r: Vec<char>)
    ensures
        r@ == half_mark(),
{
    chars_of("5000000298023223876953125")
}

/// The digits of `least_mark()`.
fn least_mark_digits() -> (r: Vec<char>)
    ensures
        r@ == least_mark(),
{
    let mut mark: Vec<char> = Vec::new();
    let mut i: usize = 0;
    while i < 45
        invariant
            i <= 45,
            mark@ == zeros(i as nat),
        decreases 45 - i,
    {
        mark.push('0');
        assert(mark@ =~= zeros((i + 1) as nat));
        i += 1;
    }
    append(
        &mut mark,
        &chars_of(
            "700649232162408535461864791644958065640130970938257885878534141944895541342930300743319094181060791015625",
        ),
    );
    mark
}

/// Digits behind at least one zero behind a point do not make more than
/// the middle above one half.
proof fn lemma_below_half(f: Seq<char>)
    requires
        f.len() > 0,
        f[0] == '0',
    ensures
        !more_than_half(f),
{
    reveal_strlit("5000000298023223876953125");
    assert(place(half_mark(), 0) == 5);
    assert(place(f, 0) == 0);
    if exceeds(f, half_mark()) {
        let q = choose|q: int|
            0 <= q < f.len() && #[trigger] place(f, q) > place(half_mark(), q) && forall|j: int|
                0 <= j < q ==> #[trigger] place(f, j) == place(half_mark(), j);
        if q > 0 {
            assert(place(f, 0) == place(half_mark(), 0));
        }
        assert(false);
    }
}

/// A number below one tenth has the whole part zero in single precision.
proof fn lemma_stays_zero(f: Seq<char>)
    requires
        f.len() > 0,
        f[0] == '0',
    ensures
        !goes_up(0, f),
        single_whole(0, f) == 0,
{
    reveal_strlit("9999999701976776123046875");
    let c = next_mark(0);
    assert(place(c, 0) == 9);
    assert(place(f, 0) == 0);
    assert(exceeds(c, f));
}

/// Digits behind four zeros or more behind a point do not make more than
/// the middle below one thousandth.
proof fn lemma_below_thousandth(f: Seq<char>)
    requires
        f.len() > 3,
        forall|j: int| 0 <= j <= 3 ==> f[j] == '0',
    ensures
        !exceeds(f, thousandth_mark()),
{
    reveal_strlit("0009999999892897903919219970703125");
    let c = thousandth_mark();
    assert(place(c, 0) == 0 && place(c, 1) == 0 && place(c, 2) == 0);
    assert(place(c, 3) == 9);
    if exceeds(f, c) {
        let q = choose|q: int|
            0 <= q < f.len() && #[trigger] place(f, q) > place(c, q) && forall|j: int|
                0 <= j < q ==> #[trigger] place(f, j) == place(c, j);
        if q > 3 {
            assert(place(f, 3) == place(c, 3));
        } else {
            assert(place(f, q) == 0);
        }
        assert(false);
    }
}

/// Digits behind forty-six zeros or more behind a point do not make more
/// than the middle above zero.
proof fn lemma_below_least(f: Seq<char>)
    requires
        f.len() > 45,
        forall|j: int| 0 <= j <= 45 ==> f[j] == '0',
    ensures
        !more_than_least(f),
{
    reveal_strlit(
        "700649232162408535461864791644958065640130970938257885878534141944895541342930300743319094181060791015625",
    );
    let c = least_mark();
    assert(c[45] == least_digits()[0]);
    assert(place(c, 45) == 7);
    assert forall|j: int| 0 <= j < 45 implies place(c, j) == 0 by {
        assert(c[j] == zeros(45)[j]);
    }
    if exceeds(f, c) {
        let q = choose|q: int|
            0 <= q < f.len() && #[trigger] place(f, q) > place(c, q) && forall|j: int|
                0 <= j < q ==> #[trigger] place(f, j) == place(c, j);
        if q > 45 {
            assert(place(f, 45) == place(c, 45));
        } else {
            assert(place(f, q) == 0);
        }
        assert(false);
    }
}

/// The digits of `next_mark(i)`.
fn next_mark_digits(i: usize) -> (r: Vec<char>)
    ensures
        r@ == next_mark(i as nat),
{
    if i < 1 {
        chars_of("9999999701976776123046875")
    } else if i < 2 {
        chars_of("999999940395355224609375")
    } else if i < 4 {
        chars_of("99999988079071044921875")
    } else if i < 8 {
        chars_of("9999997615814208984375")
    } else if i < 16 {
        chars_of("999999523162841796875")
    } else if i < 32 {
        chars_of("99999904632568359375")
    } else if i < 64 {
        chars_of("9999980926513671875")
    } else if i < 128 {
        chars_of("999996185302734375")
    } else if i < 256 {
        chars_of("99999237060546875")
    } else if i < 512 {
        chars_of("9999847412109375")
    } else if i < 1024 {
        chars_of("999969482421875")
    } else if i < 2048 {
        chars_of("99993896484375")
    } else if i < 4096 {
        chars_of("9998779296875")
    } else if i < 8192 {
        chars_of("999755859375")
    } else if i < 16384 {
        chars_of("99951171875")
    } else if i < 32768 {
        chars_of("9990234375")
    } else if i < 65536 {
        chars_of("998046875")
    } else if i < 131072 {
        chars_of("99609375")
    } else if i < 262144 {
        chars_of("9921875")
    } else if i < 524288 {
        chars_of("984375")
    } else if i < 1048576 {
        chars_of("96875")
    } else if i < 2097152 {
        chars_of("9375")
    } else if i < 4194304 {
        chars_of("875")
    } else {
        chars_of("75")
    }
}

/// A product does not grow when a factor of at least two is halved and
/// the other factor is doubled, and it is at least twice the other factor.
proof fn lemma_twice(u: nat, t: nat)
    requires
        t >= 2,
    ensures
        2 * u <= u * t,
        (2 * u) * (t / 2) <= u * t,
{
    assert(2 * u <= u * t) by (nonlinear_arith)
        requires
            t >= 2,
    ;
    assert((2 * u) * (t / 2) <= u * t) by (nonlinear_arith)
        requires
            2 * (t / 2) <= t,
    ;
}

/// Whether a product goes beyond a bound is seen from the quotient of the
/// bound.
proof fn lemma_product_bound(a: nat, u: nat, max: nat)
    requires
        u >= 1,
    ensures
        a > max / u <==> a * u > max,
{
    assert(a > max / u <==> a * u > max) by (nonlinear_arith)
        requires
            u >= 1,
    ;
}

/// The whole part in single precision of a number with the whole part
/// `exact` and the digits `fraction` behind its point.
fn rounded_whole(exact: usize, fraction: &Vec<char>) -> (r: usize)
    requires
        exact < usize::MAX,
    ensures
        r == capped(single_whole(exact as nat, fraction@)),
{
    assert(fraction@.subrange(0, fraction.len() as int) =~= fraction@);
    if exact < 16777216 {
        let up = if exact < 8388608 {
            let mark = next_mark_digits(exact);
            assert(mark@.subrange(0, mark.len() as int) =~= mark@);
            !beyond_mark(&mark, 0, fraction)
        } else if exact % 2 == 1 {
            let mark = chars_of("5");
            assert(mark@.subrange(0, mark.len() as int) =~= mark@);
            !beyond_mark(&mark, 0, fraction)
        } else {
            beyond_mark(fraction, 0, &chars_of("5"))
        };
        if up {
            exact + 1
        } else {
            exact
        }
    } else {
        let nothing: Vec<char> = Vec::new();
        assert(nothing@ =~= Seq::<char>::empty());
        let more = beyond_mark(fraction, 0, &nothing);
        let mut u: usize = 1;
        let mut t: usize = exact;
        while t >= 16777216
            invariant
                u >= 1,
                u * t <= exact,
                step_at(exact as nat) == u * step_at(t as nat),
            decreases t,
        {
            proof {
                lemma_twice(u as nat, t as nat);
                assert(u * (2 * step_at((t / 2) as nat)) == (2 * u) * step_at((t / 2) as nat))
                    by (nonlinear_arith);
            }
            t = t / 2;
            u = u * 2;
        }
        assert(step_at(exact as nat) == u) by (nonlinear_arith)
            requires
                step_at(exact as nat) == u * step_at(t as nat),
                step_at(t as nat) == 1,
        ;
        let q = exact / u;
        let rest = exact % u;
        let up = rest > u - rest || (rest == u - rest && (more || q % 2 == 1));
        proof {
            lemma_product_bound((q + 1) as nat, u as nat, usize::MAX as nat);
            assert(q * u <= exact) by (nonlinear_arith)
                requires
                    q == exact / u,
                    u >= 1,
            ;
        }
        if up {
            if q + 1 > usize::MAX / u {
                usize::MAX
            } else {
                (q + 1) * u
            }
        } else {
            q * u
        }
    }
}

/// What is read from a decimal.
pub struct Readings {
    /// The whole part, held to the range of `usize`.
    pub whole: usize,
    /// Whether the decimal is above one half.
    pub above_half: bool,
    /// Whether the decimal is not zero.
    pub not_zero: bool,
    /// Whether the decimal is at least one thousandth.
    pub thousandth: bool,
}

/// The largest exponent that is told from larger ones.
pub open spec fn exponent_cap() -> nat {
    0x1_0000_0000_0000_0000_0000_0000
}

/// The value of the digits `b[from..]`, held to `exponent_cap()`.
fn exponent_size(b: &Vec<char>, from: usize) -> (r: u128)
    requires
        from <= b.len(),
        forall|k: int| from <= k < b.len() ==> is_digit(#[trigger] b@[k]),
    ensures
        r <= exponent_cap(),
        r < exponent_cap() ==> r == decimal_value(b@.subrange(from as int, b.len() as int)),
        r == exponent_cap() ==> decimal_value(b@.subrange(from as int, b.len() as int))
            >= exponent_cap(),
{
    let cap: u128 = 0x1_0000_0000_0000_0000_0000_0000;
    let mut acc: u128 = 0;
    let mut i: usize = from;
    assert(b@.subrange(from as int, from as int) =~= Seq::<char>::empty());
    while i < b.len()
        invariant
            from <= i <= b.len(),
            cap == exponent_cap(),
            forall|k: int| from <= k < b.len() ==> is_digit(#[trigger] b@[k]),
            acc <= cap,
            acc < cap ==> acc == decimal_value(b@.subrange(from as int, i as int)),
            acc == cap ==> decimal_value(b@.subrange(from as int, i as int)) >= cap,
        decreases b.len() - i,
    {
        let c = b[i];
        let ghost next = b@.subrange(from as int, i + 1);
        assert(next.drop_last() =~= b@.subrange(from as int, i as int));
        assert(next.last() == c);
        assert(is_digit(b@[i as int]));
        let d: u128 = value_of_digit(c) as u128;
        if acc < cap {
            acc = acc * 10 + d;
            if acc > cap {
                acc = cap;
            }
        }
        i += 1;
    }
    acc
}

/// The parts of a decimal: its digits, how many of them stand behind the
/// point, and its exponent by direction and size.
struct DecimalParts {
    digits: Vec<char>,
    behind: usize,
    up: bool,
    size: u128,
}

/// Whether an exponent given by direction and size, the size held to
/// `exponent_cap()`, stands for the exponent `e`.
pub open spec fn stands_for(up: bool, size: u128, e: int) -> bool {
    if size < exponent_cap() {
        e == if up {
            size as int
        } else {
            -(size as int)
        }
    } else {
        size == exponent_cap() && if up {
            e >= exponent_cap()
        } else {
            e <= -(exponent_cap() as int)
        }
    }
}

/// Takes a decimal apart.
fn take_apart(b: &Vec<char>) -> (r: DecimalParts)
    requires
        is_decimal(b@),
    ensures
        r.digits@ == mantissa(b@),
        all_digits(r.digits@),
        r.behind == frac_len(b@),
        r.behind <= r.digits.len(),
        stands_for(r.up, r.size, exponent(b@)),
{
    let n = b.len();
    proof {
        lemma_digits_before_end(b@, 0);
    }
    let we = skip_digits(b, 0);
    let point = we < n && b[we] == '.';
    proof {
        if point {
            lemma_digits_before_end(b@, we + 1);
        }
    }
    let me = if point {
        skip_digits(b, we + 1)
    } else {
        we
    };
    let mut m = slice(b, 0, we);
    if point {
        let behind = slice(b, we + 1, me);
        append(&mut m, &behind);
    }
    assert(m@ =~= mantissa(b@));
    let fl: usize = if point {
        me - we - 1
    } else {
        0
    };
    assert(all_digits(m@)) by {
        assert forall|k: int| 0 <= k < m@.len() implies is_digit(#[trigger] m@[k]) by {
            if k < we {
                assert(m@[k] == b@[k]);
            } else {
                assert(m@[k] == b@[k + 1]);
            }
        }
    }
    if me < n {
        let es: usize = if me + 1 < n && (b[me + 1] == '+' || b[me + 1] == '-') {
            me + 2
        } else {
            me + 1
        };
        proof {
            lemma_digits_before_end(b@, es as int);
        }
        let up = !(me + 1 < n && b[me + 1] == '-');
        let size = exponent_size(b, es);
        DecimalParts { digits: m, behind: fl, up, size }
    } else {
        DecimalParts { digits: m, behind: fl, up: true, size: 0 }
    }
}

/// Reads digits that stand `pad` places left of the units.
fn read_raised(m: &Vec<char>, pad: u128, Ghost(s): Ghost<int>) -> (r: Readings)
    requires
        all_digits(m@),
        s >= 0,
        pad == s || (pad >= 20 && s >= 20),
    ensures
        r.whole == whole_of(
            decimal_value(digits_before_point(m@, s)),
            digits_behind_point(m@, s),
        ),
        r.above_half == (decimal_value(digits_before_point(m@, s)) >= 1 || more_than_half(
            digits_behind_point(m@, s),
        )),
        r.not_zero == (decimal_value(digits_before_point(m@, s)) >= 1 || more_than_least(
            digits_behind_point(m@, s),
        )),
        r.thousandth == (decimal_value(digits_before_point(m@, s)) >= 1 || exceeds(
            digits_behind_point(m@, s),
            thousandth_mark(),
        )),
{
    let v = value_of_digits(m, m.len());
    assert(m@.subrange(0, m.len() as int) =~= m@);
    proof {
        lemma_zeros_value(m@, s as nat);
        lemma_zeros_value(m@, pad as nat);
        lemma_pow10_grows(0, s as nat);
        if decimal_value(m@) >= 1 {
            if pad != s {
                lemma_many_zeros(m@, s as nat);
                lemma_many_zeros(m@, pad as nat);
            }
            assert(decimal_value(m@) * pow10(s as nat) >= 1) by (nonlinear_arith)
                requires
                    decimal_value(m@) >= 1,
                    pow10(s as nat) >= 1,
            ;
        } else {
            assert(0 * pow10(s as nat) == 0);
            assert(0 * pow10(pad as nat) == 0);
        }
    }
    let exact = value_with_zeros(v, pad, Ghost(m@));
    let nothing: Vec<char> = Vec::new();
    assert(nothing@ =~= digits_behind_point(m@, s));
    let whole = if exact == usize::MAX {
        usize::MAX
    } else {
        rounded_whole(exact, &nothing)
    };
    Readings { whole, above_half: exact >= 1, not_zero: exact >= 1, thousandth: exact >= 1 }
}

/// Reads digits of which the last `back` stand behind the point.
fn read_lowered(m: &Vec<char>, back: u128, Ghost(s): Ghost<int>) -> (r: Readings)
    requires
        all_digits(m@),
        s < 0,
        back == -s || (-s >= back && back >= exponent_cap()),
    ensures
        r.whole == whole_of(
            decimal_value(digits_before_point(m@, s)),
            digits_behind_point(m@, s),
        ),
        r.above_half == (decimal_value(digits_before_point(m@, s)) >= 1 || more_than_half(
            digits_behind_point(m@, s),
        )),
        r.not_zero == (decimal_value(digits_before_point(m@, s)) >= 1 || more_than_least(
            digits_behind_point(m@, s),
        )),
        r.thousandth == (decimal_value(digits_before_point(m@, s)) >= 1 || exceeds(
            digits_behind_point(m@, s),
            thousandth_mark(),
        )),
{
    let ml = m.len();
    if back <= ml as u128 {
        let take: usize = ml - back as usize;
        let exact = value_of_digits(m, take);
        let above = if exact >= 1 {
            true
        } else {
            beyond_mark(m, take, &half_mark_digits())
        };
        let some = if exact >= 1 {
            true
        } else {
            beyond_mark(m, take, &least_mark_digits())
        };
        let enough = if exact >= 1 {
            true
        } else {
            beyond_mark(m, take, &chars_of("0009999999892897903919219970703125"))
        };
        let whole = if exact == usize::MAX {
            usize::MAX
        } else {
            rounded_whole(exact, &slice(m, take, ml))
        };
        Readings { whole, above_half: above, not_zero: some, thousandth: enough }
    } else {
        let ghost f = digits_behind_point(m@, s);
        assert(digits_before_point(m@, s) =~= Seq::<char>::empty());
        assert(f[0] == '0');
        proof {
            lemma_below_half(f);
            lemma_stays_zero(f);
        }
        let lead: u128 = back - ml as u128;
        if lead <= 45 {
            let mut all: Vec<char> = Vec::new();
            let mut i: usize = 0;
            while i < lead as usize
                invariant
                    i <= lead <= 45,
                    all@ == zeros(i as nat),
                decreases lead - i,
            {
                all.push('0');
                assert(all@ =~= zeros((i + 1) as nat));
                i += 1;
            }
            append(&mut all, m);
            assert(all@ == f);
            assert(all@.subrange(0, all.len() as int) =~= all@);
            let some = beyond_mark(&all, 0, &least_mark_digits());
            let enough = beyond_mark(&all, 0, &chars_of("0009999999892897903919219970703125"));
            Readings { whole: 0, above_half: false, not_zero: some, thousandth: enough }
        } else {
            proof {
                assert forall|j: int| 0 <= j <= 45 implies f[j] == '0' by {
                    assert(f[j] == zeros((-s - m.len()) as nat)[j]);
                }
                lemma_below_least(f);
                lemma_below_thousandth(f);
            }
            Readings { whole: 0, above_half: false, not_zero: false, thousandth: false }
        }
    }
}

/// Reads a decimal.
fn read_decimal(b: &Vec<char>) -> (r: Readings)
    requires
        is_decimal(b@),
    ensures
        r.whole == whole_of(decimal_value(integer_digits(b@)), fraction_digits(b@)),
        r.above_half == (decimal_value(integer_digits(b@)) >= 1 || more_than_half(
            fraction_digits(b@),
        )),
        r.not_zero == not_zero(b@),
        r.thousandth == reaches_thousandth(b@),
{
    let parts = take_apart(b);
    let ghost s = shift(b@);
    let up = parts.up || parts.size == 0;
    if up && parts.size >= parts.behind as u128 {
        read_raised(&parts.digits, parts.size - parts.behind as u128, Ghost(s))
    } else if up {
        read_lowered(&parts.digits, parts.behind as u128 - parts.size, Ghost(s))
    } else {
        read_lowered(&parts.digits, parts.behind as u128 + parts.size, Ghost(s))
    }
}

/// Tests whether a number without its sign is the word `nan`.
fn nan_word(b: &Vec<char>) -> (r: bool)
    ensures
        r == is_nan_word(b@),
{
    let lower = vec!['n', 'a', 'n'];
    let upper = vec!['N', 'A', 'N'];
    assert(lower@ == seq!['n', 'a', 'n']);
    assert(upper@ == seq!['N', 'A', 'N']);
    spells(b, &lower, &upper)
}

/// Tests whether a number without its sign is the word `inf` or `infinity`.
fn inf_word(b: &Vec<char>) -> (r: bool)
    ensures
        r == is_inf_word(b@),
{
    let inf = vec!['i', 'n', 'f'];
    let inf_up = vec!['I', 'N', 'F'];
    let infinity = vec!['i', 'n', 'f', 'i', 'n', 'i', 't', 'y'];
    let infinity_up = vec!['I', 'N', 'F', 'I', 'N', 'I', 'T', 'Y'];
    assert(inf@ == seq!['i', 'n', 'f']);
    assert(inf_up@ == seq!['I', 'N', 'F']);
    assert(infinity@ == seq!['i', 'n', 'f', 'i', 'n', 'i', 't', 'y']);
    assert(infinity_up@ == seq!['I', 'N', 'F', 'I', 'N', 'I', 'T', 'Y']);
    spells(b, &inf, &inf_up) || spells(b, &infinity, &infinity_up)
}

/// What the library reads from a number.
pub struct NumberReadings {
    /// The whole part without regard to the sign, held to the range of `usize`.
    pub whole: usize,
    /// Whether the number is above one half.
    pub above_half: bool,
    /// Whether the number is below zero.
    pub below_zero: bool,
    /// Whether the number is above zero.
    pub above_zero: bool,
    /// Whether the number is at least one thousandth.
    pub at_least_thousandth: bool,
}

impl Number {
    /// Reads the number.
    pub fn readings(&self) -> (r: NumberReadings)
        requires
            self.wf(),
        ensures
            r.whole == whole_part(self@),
            r.above_half == above_half(self@),
            r.below_zero == below_zero(self@),
            r.above_zero == above_zero(self@),
            r.at_least_thousandth == at_least_thousandth(self@),
    {
        let v = chars_of(self.text.as_str());
        let minus = v.len() > 0 && v[0] == '-';
        let b = if v.len() > 0 && (v[0] == '+' || v[0] == '-') {
            slice(&v, 1, v.len())
        } else {
            slice(&v, 0, v.len())
        };
        assert(v@.subrange(0, v.len() as int) == v@);
        assert(b@ == unsigned(v@));
        if nan_word(&b) {
            NumberReadings {
                whole: 0,
                above_half: false,
                below_zero: false,
                above_zero: false,
                at_least_thousandth: false,
            }
        } else if inf_word(&b) {
            NumberReadings {
                whole: usize::MAX,
                above_half: !minus,
                below_zero: minus,
                above_zero: !minus,
                at_least_thousandth: !minus,
            }
        } else {
            let r = read_decimal(&b);
            NumberReadings {
                whole: r.whole,
                above_half: !minus && r.above_half,
                below_zero: minus && r.not_zero,
                above_zero: !minus && r.not_zero,
                at_least_thousandth: !minus && r.thousandth,
            }
        }
    }

    /// The whole part of the number, without regard to its sign.
    pub fn magnitude(&self) -> (r: usize)
        requires
            self.wf(),
        ensures
            r == whole_part(self@),
    {
        self.readings().whole
    }

    /// The number as a count: its whole part, zero where it is written with
    /// a minus sign.
    pub fn truncated(&self) -> (r: usize)
        requires
            self.wf(),
        ensures
            r == if self.has_minus() {
                0
            } else {
                whole_part(self@)
            },
    {
        if self.is_minus() {
            0
        } else {
            self.readings().whole
        }
    }

    /// Whether the number is above one half.
    pub fn exceeds_half(&self) -> (r: bool)
        requires
            self.wf(),
        ensures
            r == above_half(self@),
    {
        self.readings().above_half
    }

    /// Whether the number is above zero.
    pub fn is_positive(&self) -> (r: bool)
        requires
            self.wf(),
        ensures
            r == above_zero(self@),
    {
        self.readings().above_zero
    }

    /// The greater of the number and one thousandth.
    pub fn raised_to_thousandth(&self) -> (r: Number)
        requires
            self.wf(),
        ensures
            r@ == raised_to_thousandth(self@),
            r.wf(),
    {
        if self.readings().at_least_thousandth {
            self.clone()
        } else {
            proof {
                reveal_strlit("0.001");
                assert("0.001"@ =~= seq!['0', '.', '0', '0', '1']);
                crate::number::lemma_point_is_number("0.001"@, 1);
            }
            Number::literal("0.001")
        }
    }

    /// Whether the number is below zero.
    pub fn is_negative(&self) -> (r: bool)
        requires
            self.wf(),
        ensures
            r == below_zero(self@),
    {
        self.readings().below_zero
    }
}

} // verus!
