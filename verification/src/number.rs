//! Numbers of the patch language.
//!
//! A number is kept as the text it was written with. The library decides
//! which tokens are numbers and carries them to the signal-processing side,
//! which reads their values.

use vstd::prelude::*;
use vstd::string::StringExecFns;
use crate::text::{chars_of, string_from};

verus! {

/// A decimal digit.
pub open spec fn is_digit(c: char) -> bool {
    c == '0' || c == '1' || c == '2' || c == '3' || c == '4' || c == '5' || c == '6' || c == '7'
        || c == '8' || c == '9'
}

/// The value of a decimal digit.
pub open spec fn digit_value(c: char) -> nat {
    if c == '1' {
        1
    } else if c == '2' {
        2
    } else if c == '3' {
        3
    } else if c == '4' {
        4
    } else if c == '5' {
        5
    } else if c == '6' {
        6
    } else if c == '7' {
        7
    } else if c == '8' {
        8
    } else if c == '9' {
        9
    } else {
        0
    }
}

/// The first position at or after `i` at which `s` holds no digit.
pub open spec fn digits_end(s: Seq<char>, i: int) -> int
    decreases s.len() - i,
{
    if 0 <= i < s.len() && is_digit(s[i]) {
        digits_end(s, i + 1)
    } else {
        i
    }
}

/// A plus or a minus sign.
pub open spec fn is_sign(c: char) -> bool {
    c == '+' || c == '-'
}

/// Whether `s` spells a word letter by letter, each letter in either case:
/// `lower` and `upper` are the word in lower and in upper case.
pub open spec fn is_word(s: Seq<char>, lower: Seq<char>, upper: Seq<char>) -> bool {
    s.len() == lower.len() && forall|i: int|
        0 <= i < s.len() ==> s[i] == lower[i] || s[i] == #[trigger] upper[i]
}

/// Digits with an optional point among them and an optional exponent:
/// at least one digit before the exponent, at least one in it.
pub open spec fn is_decimal(s: Seq<char>) -> bool {
    let whole_end = digits_end(s, 0);
    let has_point = whole_end < s.len() && s[whole_end] == '.';
    let mantissa_end = if has_point {
        digits_end(s, whole_end + 1)
    } else {
        whole_end
    };
    let digits = if has_point {
        mantissa_end - 1
    } else {
        mantissa_end
    };
    digits > 0 && (mantissa_end == s.len() || ((s[mantissa_end] == 'e' || s[mantissa_end] == 'E')
        && {
        let exp_start = if mantissa_end + 1 < s.len() && is_sign(s[mantissa_end + 1]) {
            mantissa_end + 2
        } else {
            mantissa_end + 1
        };
        let exp_end = digits_end(s, exp_start);
        exp_end > exp_start && exp_end == s.len()
    }))
}

/// `s` without its sign, if it begins with one.
pub open spec fn unsigned(s: Seq<char>) -> Seq<char> {
    if s.len() > 0 && is_sign(s[0]) {
        s.subrange(1, s.len() as int)
    } else {
        s
    }
}

/// The grammar of a number: an optional sign, then `inf`, `infinity` or `nan`
/// in any case, or a decimal.
pub open spec fn is_number(s: Seq<char>) -> bool {
    let body = unsigned(s);
    is_word(body, seq!['i', 'n', 'f'], seq!['I', 'N', 'F']) || is_word(
        body,
        seq!['i', 'n', 'f', 'i', 'n', 'i', 't', 'y'],
        seq!['I', 'N', 'F', 'I', 'N', 'I', 'T', 'Y'],
    ) || is_word(body, seq!['n', 'a', 'n'], seq!['N', 'A', 'N']) || is_decimal(body)
}

/// Tests a character for a decimal digit.
pub fn digit(c: char) -> (r: bool)
    ensures
        r == is_digit(c),
{
    c == '0' || c == '1' || c == '2' || c == '3' || c == '4' || c == '5' || c == '6' || c == '7'
        || c == '8' || c == '9'
}

/// The value of a decimal digit; zero for another character.
pub fn value_of_digit(c: char) -> (r: u8)
    ensures
        r == digit_value(c),
        r <= 9,
{
    if c == '1' {
        1
    } else if c == '2' {
        2
    } else if c == '3' {
        3
    } else if c == '4' {
        4
    } else if c == '5' {
        5
    } else if c == '6' {
        6
    } else if c == '7' {
        7
    } else if c == '8' {
        8
    } else if c == '9' {
        9
    } else {
        0
    }
}

/// Skips the digits of `v` from position `i` on.
pub fn skip_digits(v: &Vec<char>, i: usize) -> (r: usize)
    requires
        i <= v.len(),
    ensures
        i <= r <= v.len(),
        r == digits_end(v@, i as int),
{
    let mut k: usize = i;
    while k < v.len() && digit(v[k])
        invariant
            i <= k <= v.len(),
            digits_end(v@, i as int) == digits_end(v@, k as int),
        decreases v.len() - k,
    {
        k += 1;
    }
    k
}

/// Tests whether `v` spells the word given in lower and in upper case.
pub fn spells(v: &Vec<char>, lower: &Vec<char>, upper: &Vec<char>) -> (r: bool)
    requires
        lower.len() == upper.len(),
    ensures
        r == is_word(v@, lower@, upper@),
{
    if v.len() != lower.len() {
        return false;
    }
    let mut i: usize = 0;
    while i < v.len()
        invariant
            i <= v.len() == lower.len() == upper.len(),
            forall|k: int| 0 <= k < i ==> v@[k] == lower@[k] || v@[k] == #[trigger] upper@[k],
        decreases v.len() - i,
    {
        if v[i] != lower[i] && v[i] != upper[i] {
            return false;
        }
        i += 1;
    }
    true
}

/// Tests whether `v` is a decimal.
pub fn decimal(v: &Vec<char>) -> (r: bool)
    ensures
        r == is_decimal(v@),
{
    let n = v.len();
    let whole_end = skip_digits(v, 0);
    let has_point = whole_end < n && v[whole_end] == '.';
    let mantissa_end = if has_point {
        skip_digits(v, whole_end + 1)
    } else {
        whole_end
    };
    let digits = if has_point {
        mantissa_end - 1
    } else {
        mantissa_end
    };
    if digits == 0 {
        return false;
    }
    if mantissa_end == n {
        return true;
    }
    if v[mantissa_end] != 'e' && v[mantissa_end] != 'E' {
        return false;
    }
    let exp_start = if mantissa_end + 1 < n && (v[mantissa_end + 1] == '+' || v[mantissa_end + 1]
        == '-') {
        mantissa_end + 2
    } else {
        mantissa_end + 1
    };
    let exp_end = skip_digits(v, exp_start);
    exp_end > exp_start && exp_end == n
}

/// Tests whether `v` is written as a number.
pub fn number(v: &Vec<char>) -> (r: bool)
    ensures
        r == is_number(v@),
{
    let body = if v.len() > 0 && (v[0] == '+' || v[0] == '-') {
        crate::text::slice(v, 1, v.len())
    } else {
        crate::text::slice(v, 0, v.len())
    };
    assert(v@.subrange(0, v.len() as int) == v@);
    let inf = vec!['i', 'n', 'f'];
    let inf_up = vec!['I', 'N', 'F'];
    let infinity = vec!['i', 'n', 'f', 'i', 'n', 'i', 't', 'y'];
    let infinity_up = vec!['I', 'N', 'F', 'I', 'N', 'I', 'T', 'Y'];
    let nan = vec!['n', 'a', 'n'];
    let nan_up = vec!['N', 'A', 'N'];
    assert(inf@ == seq!['i', 'n', 'f']);
    assert(inf_up@ == seq!['I', 'N', 'F']);
    assert(infinity@ == seq!['i', 'n', 'f', 'i', 'n', 'i', 't', 'y']);
    assert(infinity_up@ == seq!['I', 'N', 'F', 'I', 'N', 'I', 'T', 'Y']);
    assert(nan@ == seq!['n', 'a', 'n']);
    assert(nan_up@ == seq!['N', 'A', 'N']);
    spells(&body, &inf, &inf_up) || spells(&body, &infinity, &infinity_up) || spells(
        &body,
        &nan,
        &nan_up,
    ) || decimal(&body)
}

/// A number as it was written.
#[derive(Debug)]
pub struct Number {
    pub text: String,
}

impl View for Number {
    type V = Seq<char>;

    open spec fn view(&self) -> Seq<char> {
        self.text@
    }
}

impl Clone for Number {
    fn clone(&self) -> (r: Self)
        ensures
            r@ == self@,
    {
        Number { text: self.text.clone() }
    }
}

impl Number {
    /// A number is valid when its text follows the grammar of numbers.
    pub open spec fn wf(&self) -> bool {
        is_number(self@)
    }

    /// Tests whether the text of the number follows the grammar of numbers.
    pub fn is_valid(&self) -> (r: bool)
        ensures
            r == self.wf(),
    {
        number(&chars_of(self.text.as_str()))
    }

    /// Reads a token as a number; `None` where it is not written as one.
    pub fn read(token: &Vec<char>) -> (r: Option<Number>)
        ensures
            r is Some == is_number(token@),
            r is Some ==> r->0@ == token@ && r->0.wf(),
    {
        if number(token) {
            Some(Number { text: string_from(token) })
        } else {
            None
        }
    }

    /// Reads a string as a number; `None` where it is not written as one.
    pub fn parse(token: &str) -> (r: Option<Number>)
        ensures
            r is Some == is_number(token@),
            r is Some ==> r->0@ == token@ && r->0.wf(),
    {
        let v = chars_of(token);
        Number::read(&v)
    }

    /// The text of the number.
    pub fn as_str(&self) -> (r: &str)
        ensures
            r@ == self@,
    {
        self.text.as_str()
    }

    /// Whether the number is written with a minus sign.
    pub open spec fn has_minus(&self) -> bool {
        self@.len() > 0 && self@[0] == '-'
    }

    /// Tests whether the number is written with a minus sign.
    pub fn is_minus(&self) -> (r: bool)
        ensures
            r == self.has_minus(),
    {
        let v = chars_of(self.text.as_str());
        v.len() > 0 && v[0] == '-'
    }
}

/// The value of a run of decimal digits.
pub open spec fn decimal_value(s: Seq<char>) -> nat
    decreases s.len(),
{
    if s.len() == 0 {
        0
    } else {
        decimal_value(s.drop_last()) * 10 + digit_value(s.last())
    }
}

/// Whether `s` holds digits only.
pub open spec fn all_digits(s: Seq<char>) -> bool {
    forall|i: int| 0 <= i < s.len() ==> is_digit(#[trigger] s[i])
}

/// `s` without a leading plus sign.
pub open spec fn without_plus(s: Seq<char>) -> Seq<char> {
    if s.len() > 0 && s[0] == '+' {
        s.subrange(1, s.len() as int)
    } else {
        s
    }
}

/// The unsigned integer up to `max` that `s` is written as: digits, one at
/// least, behind an optional plus sign, with a value that does not exceed `max`.
pub open spec fn unsigned_of(s: Seq<char>, max: nat) -> Option<nat> {
    let d = without_plus(s);
    if d.len() > 0 && all_digits(d) && decimal_value(d) <= max {
        Some(decimal_value(d))
    } else {
        None
    }
}

/// The unsigned 32-bit integer that `s` is written as.
pub open spec fn u32_of(s: Seq<char>) -> Option<u32> {
    match unsigned_of(s, u32::MAX as nat) {
        Some(n) => Some(n as u32),
        None => None,
    }
}

/// The index that `s` is written as.
pub open spec fn usize_of(s: Seq<char>) -> Option<usize> {
    match unsigned_of(s, usize::MAX as nat) {
        Some(n) => Some(n as usize),
        None => None,
    }
}

/// A longer run of digits has no smaller value than its beginning.
pub proof fn lemma_decimal_value_grows(s: Seq<char>, k: int)
    requires
        0 <= k <= s.len(),
    ensures
        decimal_value(s.subrange(0, k)) <= decimal_value(s),
    decreases s.len() - k,
{
    if k == s.len() {
        assert(s.subrange(0, k) == s);
    } else {
        let t = s.drop_last();
        assert(t.subrange(0, k) == s.subrange(0, k));
        lemma_decimal_value_grows(t, k);
    }
}

/// Reads an unsigned integer that does not exceed `max`.
pub fn read_unsigned(v: &Vec<char>, max: u64) -> (r: Option<u64>)
    ensures
        match r {
            Some(n) => unsigned_of(v@, max as nat) == Some(n as nat),
            None => unsigned_of(v@, max as nat) is None,
        },
{
    let start: usize = if v.len() > 0 && v[0] == '+' {
        1
    } else {
        0
    };
    let ghost d = without_plus(v@);
    assert(v@.subrange(0, v.len() as int) == v@);
    if start == v.len() {
        return None;
    }
    let mut value: u128 = 0;
    let mut i: usize = start;
    assert(d.subrange(0, 0) =~= Seq::<char>::empty());
    while i < v.len()
        invariant
            start <= i <= v.len(),
            d == without_plus(v@),
            d == v@.subrange(start as int, v.len() as int),
            all_digits(d.subrange(0, i - start)),
            value == decimal_value(d.subrange(0, i - start)),
            value <= max,
        decreases v.len() - i,
    {
        let c = v[i];
        let ghost next = d.subrange(0, i - start + 1);
        assert(next.drop_last() == d.subrange(0, i - start));
        assert(next.last() == c);
        if !digit(c) {
            assert(!is_digit(d[i - start]));
            return None;
        }
        assert(all_digits(next)) by {
            assert forall|k: int| 0 <= k < next.len() implies is_digit(#[trigger] next[k]) by {
                if k < next.len() - 1 {
                    assert(next[k] == d.subrange(0, i - start)[k]);
                }
            }
        }
        value = value * 10 + value_of_digit(c) as u128;
        if value > max as u128 {
            proof {
                lemma_decimal_value_grows(d, i - start + 1);
            }
            return None;
        }
        i += 1;
    }
    assert(d.subrange(0, d.len() as int) == d);
    Some(value as u64)
}

/// Reads an unsigned 32-bit integer.
pub fn read_u32(v: &Vec<char>) -> (r: Option<u32>)
    ensures
        r == u32_of(v@),
{
    match read_unsigned(v, u32::MAX as u64) {
        Some(n) => Some(n as u32),
        None => None,
    }
}

/// Reads an index.
pub fn read_usize(v: &Vec<char>) -> (r: Option<usize>)
    ensures
        r == usize_of(v@),
{
    match read_unsigned(v, usize::MAX as u64) {
        Some(n) => Some(n as usize),
        None => None,
    }
}

/// A number is not empty.
pub proof fn lemma_number_not_empty(s: Seq<char>)
    requires
        is_number(s),
    ensures
        s.len() > 0,
{
    if s.len() == 0 {
        assert(unsigned(s) == s);
        assert(digits_end(s, 0) == 0);
    }
}

/// A run of digits ends where the first character that is no digit stands.
pub proof fn lemma_digits_run(s: Seq<char>, i: int, j: int)
    requires
        0 <= i <= j <= s.len(),
        forall|k: int| i <= k < j ==> is_digit(#[trigger] s[k]),
        j == s.len() || !is_digit(s[j]),
    ensures
        digits_end(s, i) == j,
    decreases j - i,
{
    if i < j {
        lemma_digits_run(s, i + 1, j);
    }
}

/// Digits alone, one at least, are a number.
pub proof fn lemma_digits_are_number(s: Seq<char>)
    requires
        s.len() > 0,
        all_digits(s),
    ensures
        is_number(s),
{
    assert(is_digit(s[0]));
    assert(unsigned(s) == s);
    lemma_digits_run(s, 0, s.len() as int);
    assert(is_decimal(s));
}

/// Digits around one point, with a digit before it, are a number.
pub proof fn lemma_point_is_number(s: Seq<char>, p: int)
    requires
        0 < p < s.len(),
        s[p] == '.',
        forall|k: int| 0 <= k < s.len() && k != p ==> is_digit(#[trigger] s[k]),
    ensures
        is_number(s),
{
    assert(is_digit(s[0]));
    assert(unsigned(s) == s);
    lemma_digits_run(s, 0, p);
    lemma_digits_run(s, p + 1, s.len() as int);
    assert(is_decimal(s));
}

/// A sign followed by one digit is a number.
pub proof fn lemma_signed_digit(s: Seq<char>)
    requires
        s.len() == 2,
        is_sign(s[0]),
        is_digit(s[1]),
    ensures
        is_number(s),
{
    let body = unsigned(s);
    assert(body.len() == 1);
    assert(body[0] == s[1]);
    lemma_digits_run(body, 0, 1);
    assert(is_decimal(body));
}

/// The digit that stands for a value below ten.
pub open spec fn digit_of(d: nat) -> char {
    if d == 0 {
        '0'
    } else if d == 1 {
        '1'
    } else if d == 2 {
        '2'
    } else if d == 3 {
        '3'
    } else if d == 4 {
        '4'
    } else if d == 5 {
        '5'
    } else if d == 6 {
        '6'
    } else if d == 7 {
        '7'
    } else if d == 8 {
        '8'
    } else {
        '9'
    }
}

/// The decimal digits of `n`, without leading zeros; one zero for zero.
pub open spec fn decimal_text(n: nat) -> Seq<char>
    decreases n,
{
    if n < 10 {
        seq![digit_of(n)]
    } else {
        decimal_text(n / 10).push(digit_of(n % 10))
    }
}

/// The decimal digits of a number are digits, and have its value.
pub proof fn lemma_decimal_text(n: nat)
    ensures
        decimal_text(n).len() > 0,
        all_digits(decimal_text(n)),
        decimal_value(decimal_text(n)) == n,
    decreases n,
{
    let t = decimal_text(n);
    if n < 10 {
        assert(t.drop_last() =~= Seq::<char>::empty());
        assert(decimal_value(t.drop_last()) == 0);
        assert(t.last() == digit_of(n));
    } else {
        lemma_decimal_text(n / 10);
        let head = decimal_text(n / 10);
        assert(t.drop_last() =~= head);
        assert(t.last() == digit_of(n % 10));
        assert forall|i: int| 0 <= i < t.len() implies is_digit(#[trigger] t[i]) by {
            if i < head.len() {
                assert(t[i] == head[i]);
            }
        }
    }
}

/// Writes `n` in decimal digits.
pub fn decimal_digits(n: usize) -> (r: Vec<char>)
    ensures
        r@ == decimal_text(n as nat),
    decreases n,
{
    let last: u8 = (n % 10) as u8;
    let c = if last == 0 {
        '0'
    } else if last == 1 {
        '1'
    } else if last == 2 {
        '2'
    } else if last == 3 {
        '3'
    } else if last == 4 {
        '4'
    } else if last == 5 {
        '5'
    } else if last == 6 {
        '6'
    } else if last == 7 {
        '7'
    } else if last == 8 {
        '8'
    } else {
        '9'
    };
    if n < 10 {
        let r = vec![c];
        assert(r@ =~= seq![digit_of(n as nat)]);
        r
    } else {
        let mut r = decimal_digits(n / 10);
        r.push(c);
        r
    }
}

impl Number {
    /// The number written as `text`.
    pub fn literal(text: &str) -> (r: Number)
        requires
            is_number(text@),
        ensures
            r@ == text@,
            r.wf(),
    {
        Number { text: String::from_str(text) }
    }

    /// The whole number `n`.
    pub fn whole(n: usize) -> (r: Number)
        ensures
            r@ == decimal_text(n as nat),
            r.wf(),
    {
        let digits = decimal_digits(n);
        proof {
            lemma_decimal_text(n as nat);
            lemma_digits_are_number(digits@);
        }
        Number { text: string_from(&digits) }
    }

    /// The number of `k` tenths, for `k` below ten.
    pub fn tenths(k: usize) -> (r: Number)
        requires
            k < 10,
        ensures
            r@ == seq!['0', '.'] + decimal_text(k as nat),
            r.wf(),
    {
        let mut digits = vec!['0', '.'];
        let last = decimal_digits(k);
        crate::text::append(&mut digits, &last);
        proof {
            assert(last@ == seq![digit_of(k as nat)]);
            assert(digits@ =~= seq!['0', '.', digit_of(k as nat)]);
            lemma_point_is_number(digits@, 1);
        }
        Number { text: string_from(&digits) }
    }

    /// The number 0.
    pub fn zero() -> (r: Number)
        ensures
            r@ == "0"@,
            r.wf(),
    {
        proof {
            reveal_strlit("0");
            lemma_digits_are_number("0"@);
        }
        Number::literal("0")
    }

    /// The number 1.
    pub fn one() -> (r: Number)
        ensures
            r@ == "1"@,
            r.wf(),
    {
        proof {
            reveal_strlit("1");
            lemma_digits_are_number("1"@);
        }
        Number::literal("1")
    }
}

} // verus!
