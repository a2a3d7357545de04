//! Reading a single token as a value: decimal integers, booleans,
//! characters and strings, with the acceptance rules of the standard
//! `FromStr` implementations of those types.
use vstd::prelude::*;

use crate::text::chars_of;

verus! {

/// A type whose values can be read from one token.
pub trait FromToken: Sized + DeepView {
    /// The value that the token `t` denotes, or `None` where the token is rejected.
    spec fn token_value(t: Seq<char>) -> Option<<Self as DeepView>::V>;

    /// Reads the token `t` as a value of this type.
    fn from_token(t: &str) -> (r: Option<Self>)
        ensures
            r.deep_view() == Self::token_value(t@),
    ;
}

/// Whether `c` is one of the ASCII digits `0` to `9`.
pub open spec fn is_digit(c: char) -> bool {
    '0' <= c && c <= '9'
}

/// The number that the ASCII digit `c` stands for.
pub open spec fn digit_value(c: char) -> int {
    (c as int) - ('0' as int)
}

/// Whether every character of `s` is an ASCII digit.
pub open spec fn all_digits(s: Seq<char>) -> bool {
    forall|i: int| 0 <= i < s.len() ==> is_digit(#[trigger] s[i])
}

/// The number that the digit string `s` spells in base ten (0 for the empty string).
pub open spec fn digits_value(s: Seq<char>) -> int
    decreases s.len(),
{
    if s.len() == 0 {
        0
    } else {
        10 * digits_value(s.drop_last()) + digit_value(s.last())
    }
}

/// The value of a non-empty string of ASCII digits.
pub open spec fn unsigned_value(s: Seq<char>) -> Option<int> {
    if s.len() > 0 && all_digits(s) {
        Some(digits_value(s))
    } else {
        None
    }
}

/// The value of a decimal integer: an optional `+` (or, where `signed`
/// holds, `-`) followed by at least one ASCII digit; `None` for anything else.
pub open spec fn decimal_value(s: Seq<char>, signed: bool) -> Option<int> {
    if s.len() > 0 && s[0] == '+' {
        unsigned_value(s.drop_first())
    } else if signed && s.len() > 0 && s[0] == '-' {
        match unsigned_value(s.drop_first()) {
            Some(v) => Some(-v),
            None => None,
        }
    } else {
        unsigned_value(s)
    }
}

/// The value of the decimal integer `s` where it lies in `min..=max`; `None` otherwise.
pub open spec fn bounded_value(s: Seq<char>, signed: bool, min: int, max: int) -> Option<int> {
    match decimal_value(s, signed) {
        Some(v) => if min <= v && v <= max {
            Some(v)
        } else {
            None
        },
        None => None,
    }
}

/// A digit string never spells a negative number, and it spells at least
/// as much as any of its prefixes.
pub proof fn lemma_digits_prefix(s: Seq<char>, k: int)
    requires
        all_digits(s),
        0 <= k <= s.len(),
    ensures
        0 <= digits_value(s.take(k)) <= digits_value(s),
    decreases s.len(),
{
    if s.len() > 0 {
        let p = s.drop_last();
        assert(all_digits(p)) by {
            assert forall|i: int| 0 <= i < p.len() implies is_digit(#[trigger] p[i]) by {
                assert(p[i] == s[i]);
            }
        }
        assert(is_digit(s[s.len() - 1]));
        lemma_digits_prefix(p, p.len() as int);
        assert(p.take(p.len() as int) =~= p);
        if k < s.len() {
            lemma_digits_prefix(p, k);
            assert(p.take(k) =~= s.take(k));
        }
    }
    if k == s.len() {
        assert(s.take(k) =~= s);
    }
}

/// Reads the sign and the magnitude of a decimal integer. `None` where the
/// text is no decimal integer, or where its magnitude exceeds `u128::MAX`.
pub fn scan_decimal(cs: &Vec<char>, signed: bool) -> (r: Option<(bool, u128)>)
    ensures
        r matches Some((neg, m)) ==> {
            &&& decimal_value(cs@, signed) == Some(if neg { -(m as int) } else { m as int })
            &&& neg ==> signed
        },
        r is None ==> (decimal_value(cs@, signed) matches Some(v) ==> (v > u128::MAX || v
            < -(u128::MAX as int))),
{
    let n = cs.len();
    let mut start: usize = 0;
    let mut neg = false;
    if n > 0 && cs[0] == '+' {
        start = 1;
    } else if signed && n > 0 && cs[0] == '-' {
        start = 1;
        neg = true;
    }
    let ghost body = cs@.subrange(start as int, n as int);
    assert(start == 1 ==> body =~= cs@.drop_first());
    assert(start == 0 ==> body =~= cs@);
    assert(decimal_value(cs@, signed) == match unsigned_value(body) {
        Some(v) => Some(if neg { -v } else { v }),
        None => None,
    });
    if start == n {
        return None;
    }
    let mut acc: u128 = 0;
    let mut i: usize = start;
    while i < n
        invariant
            start <= i <= n == cs.len(),
            start < n,
            body == cs@.subrange(start as int, n as int),
            all_digits(cs@.subrange(start as int, i as int)),
            acc == digits_value(cs@.subrange(start as int, i as int)),
            decimal_value(cs@, signed) == match unsigned_value(body) {
                Some(v) => Some(if neg { -v } else { v }),
                None => None,
            },
            neg ==> signed,
        decreases n - i,
    {
        let c = cs[i];
        let ghost before = cs@.subrange(start as int, i as int);
        let ghost after = cs@.subrange(start as int, i + 1);
        assert(after.drop_last() =~= before);
        assert(after.last() == c);
        if !('0' <= c && c <= '9') {
            assert(body[i - start] == c);
            return None;
        }
        let d: u128 = (c as u32 - '0' as u32) as u128;
        assert(all_digits(after)) by {
            assert forall|k: int| 0 <= k < after.len() implies is_digit(#[trigger] after[k]) by {
                if k < before.len() {
                    assert(after[k] == before[k]);
                }
            }
        }
        if acc > (u128::MAX - d) / 10 {
            proof {
                assert(digits_value(after) == 10 * acc + d);
                assert(10 * acc + d > u128::MAX) by (nonlinear_arith)
                    requires
                        acc > (u128::MAX - d) / 10,
                        d <= 9,
                ;
                if all_digits(body) {
                    assert(body.take((i + 1 - start) as int) =~= after);
                    lemma_digits_prefix(body, (i + 1 - start) as int);
                }
            }
            return None;
        }
        assert(10 * acc + d <= u128::MAX) by (nonlinear_arith)
            requires
                acc <= (u128::MAX - d) / 10,
                d <= 9,
        ;
        acc = acc * 10 + d;
        i = i + 1;
    }
    assert(cs@.subrange(start as int, n as int) =~= body);
    Some((neg, acc))
}

/// The value of a signed integer with sign `neg` and magnitude `m`, where
/// it lies between `-min_mag` and `max`.
fn signed_within(neg: bool, m: u128, min_mag: u128, max: u128) -> (r: Option<i128>)
    requires
        min_mag <= 0x8000_0000_0000_0000_0000_0000_0000_0000u128,
        max < 0x8000_0000_0000_0000_0000_0000_0000_0000u128,
    ensures
        r matches Some(v) ==> v == (if neg { -(m as int) } else { m as int }),
        r is Some <==> (if neg { m <= min_mag } else { m <= max }),
{
    if neg {
        if m > min_mag {
            None
        } else if m == 0x8000_0000_0000_0000_0000_0000_0000_0000u128 {
            Some(i128::MIN)
        } else {
            Some(-(m as i128))
        }
    } else {
        if m > max {
            None
        } else {
            Some(m as i128)
        }
    }
}

/// Reads the token `t` as an integer in `-min_mag..=max`.
fn signed_token(t: &str, min_mag: u128, max: u128) -> (r: Option<i128>)
    requires
        min_mag <= 0x8000_0000_0000_0000_0000_0000_0000_0000u128,
        max < 0x8000_0000_0000_0000_0000_0000_0000_0000u128,
    ensures
        r matches Some(v) ==> bounded_value(t@, true, -(min_mag as int), max as int) == Some(
            v as int,
        ),
        r is None ==> bounded_value(t@, true, -(min_mag as int), max as int) is None,
{
    let cs = chars_of(t);
    match scan_decimal(&cs, true) {
        Some((neg, m)) => signed_within(neg, m, min_mag, max),
        None => None,
    }
}

/// Reads the token `t` as an integer in `0..=max`.
fn unsigned_token(t: &str, max: u128) -> (r: Option<u128>)
    ensures
        r matches Some(v) ==> bounded_value(t@, false, 0, max as int) == Some(v as int),
        r is None ==> bounded_value(t@, false, 0, max as int) is None,
{
    let cs = chars_of(t);
    match scan_decimal(&cs, false) {
        Some((_, m)) => if m <= max {
            Some(m)
        } else {
            None
        },
        None => None,
    }
}

impl FromToken for i8 {
    open spec fn token_value(t: Seq<char>) -> Option<i8> {
        match bounded_value(t, true, i8::MIN as int, i8::MAX as int) {
            Some(v) => Some(v as i8),
            None => None,
        }
    }

    fn from_token(t: &str) -> (r: Option<i8>) {
        match signed_token(t, 0x80, 0x7f) {
            Some(v) => Some(v as i8),
            None => None,
        }
    }
}

impl FromToken for i16 {
    open spec fn token_value(t: Seq<char>) -> Option<i16> {
        match bounded_value(t, true, i16::MIN as int, i16::MAX as int) {
            Some(v) => Some(v as i16),
            None => None,
        }
    }

    fn from_token(t: &str) -> (r: Option<i16>) {
        match signed_token(t, 0x8000, 0x7fff) {
            Some(v) => Some(v as i16),
            None => None,
        }
    }
}

impl FromToken for i32 {
    open spec fn token_value(t: Seq<char>) -> Option<i32> {
        match bounded_value(t, true, i32::MIN as int, i32::MAX as int) {
            Some(v) => Some(v as i32),
            None => None,
        }
    }

    fn from_token(t: &str) -> (r: Option<i32>) {
        match signed_token(t, 0x8000_0000, 0x7fff_ffff) {
            Some(v) => Some(v as i32),
            None => None,
        }
    }
}

impl FromToken for i64 {
    open spec fn token_value(t: Seq<char>) -> Option<i64> {
        match bounded_value(t, true, i64::MIN as int, i64::MAX as int) {
            Some(v) => Some(v as i64),
            None => None,
        }
    }

    fn from_token(t: &str) -> (r: Option<i64>) {
        match signed_token(t, 0x8000_0000_0000_0000, 0x7fff_ffff_ffff_ffff) {
            Some(v) => Some(v as i64),
            None => None,
        }
    }
}

impl FromToken for i128 {
    open spec fn token_value(t: Seq<char>) -> Option<i128> {
        match bounded_value(t, true, i128::MIN as int, i128::MAX as int) {
            Some(v) => Some(v as i128),
            None => None,
        }
    }

    fn from_token(t: &str) -> (r: Option<i128>) {
        signed_token(
            t,
            0x8000_0000_0000_0000_0000_0000_0000_0000,
            0x7fff_ffff_ffff_ffff_ffff_ffff_ffff_ffff,
        )
    }
}

impl FromToken for isize {
    open spec fn token_value(t: Seq<char>) -> Option<isize> {
        match bounded_value(t, true, isize::MIN as int, isize::MAX as int) {
            Some(v) => Some(v as isize),
            None => None,
        }
    }

    fn from_token(t: &str) -> (r: Option<isize>) {
        match signed_token(t, (isize::MAX as u128) + 1, isize::MAX as u128) {
            Some(v) => Some(v as isize),
            None => None,
        }
    }
}

impl FromToken for u8 {
    open spec fn token_value(t: Seq<char>) -> Option<u8> {
        match bounded_value(t, false, 0, u8::MAX as int) {
            Some(v) => Some(v as u8),
            None => None,
        }
    }

    fn from_token(t: &str) -> (r: Option<u8>) {
        match unsigned_token(t, 0xff) {
            Some(v) => Some(v as u8),
            None => None,
        }
    }
}

impl FromToken for u16 {
    open spec fn token_value(t: Seq<char>) -> Option<u16> {
        match bounded_value(t, false, 0, u16::MAX as int) {
            Some(v) => Some(v as u16),
            None => None,
        }
    }

    fn from_token(t: &str) -> (r: Option<u16>) {
        match unsigned_token(t, 0xffff) {
            Some(v) => Some(v as u16),
            None => None,
        }
    }
}

impl FromToken for u32 {
    open spec fn token_value(t: Seq<char>) -> Option<u32> {
        match bounded_value(t, false, 0, u32::MAX as int) {
            Some(v) => Some(v as u32),
            None => None,
        }
    }

    fn from_token(t: &str) -> (r: Option<u32>) {
        match unsigned_token(t, 0xffff_ffff) {
            Some(v) => Some(v as u32),
            None => None,
        }
    }
}

impl FromToken for u64 {
    open spec fn token_value(t: Seq<char>) -> Option<u64> {
        match bounded_value(t, false, 0, u64::MAX as int) {
            Some(v) => Some(v as u64),
            None => None,
        }
    }

    fn from_token(t: &str) -> (r: Option<u64>) {
        match unsigned_token(t, 0xffff_ffff_ffff_ffff) {
            Some(v) => Some(v as u64),
            None => None,
        }
    }
}

impl FromToken for u128 {
    open spec fn token_value(t: Seq<char>) -> Option<u128> {
        match bounded_value(t, false, 0, u128::MAX as int) {
            Some(v) => Some(v as u128),
            None => None,
        }
    }

    fn from_token(t: &str) -> (r: Option<u128>) {
        unsigned_token(t, u128::MAX)
    }
}

impl FromToken for usize {
    open spec fn token_value(t: Seq<char>) -> Option<usize> {
        match bounded_value(t, false, 0, usize::MAX as int) {
            Some(v) => Some(v as usize),
            None => None,
        }
    }

    fn from_token(t: &str) -> (r: Option<usize>) {
        match unsigned_token(t, usize::MAX as u128) {
            Some(v) => Some(v as usize),
            None => None,
        }
    }
}

/// The characters of the word `true`.
pub open spec fn true_word() -> Seq<char> {
    seq!['t', 'r', 'u', 'e']
}

/// The characters of the word `false`.
pub open spec fn false_word() -> Seq<char> {
    seq!['f', 'a', 'l', 's', 'e']
}

impl FromToken for bool {
    /// Exactly the words `true` and `false` are booleans.
    open spec fn token_value(t: Seq<char>) -> Option<bool> {
        if t == true_word() {
            Some(true)
        } else if t == false_word() {
            Some(false)
        } else {
            None
        }
    }

    fn from_token(t: &str) -> (r: Option<bool>) {
        let cs = chars_of(t);
        if cs.len() == 4 && cs[0] == 't' && cs[1] == 'r' && cs[2] == 'u' && cs[3] == 'e' {
            assert(cs@ =~= true_word());
            Some(true)
        } else if cs.len() == 5 && cs[0] == 'f' && cs[1] == 'a' && cs[2] == 'l' && cs[3] == 's'
            && cs[4] == 'e' {
            assert(cs@ =~= false_word());
            Some(false)
        } else {
            assert(cs@ != true_word()) by {
                if cs@ == true_word() {
                    assert(cs@[0] == 't' && cs@[1] == 'r' && cs@[2] == 'u' && cs@[3] == 'e');
                }
            }
            assert(cs@ != false_word()) by {
                if cs@ == false_word() {
                    assert(cs@[0] == 'f' && cs@[1] == 'a' && cs@[2] == 'l' && cs@[3] == 's'
                        && cs@[4] == 'e');
                }
            }
            None
        }
    }
}

impl FromToken for char {
    /// A character is a token of exactly one character.
    open spec fn token_value(t: Seq<char>) -> Option<char> {
        if t.len() == 1 {
            Some(t[0])
        } else {
            None
        }
    }

    fn from_token(t: &str) -> (r: Option<char>) {
        let cs = chars_of(t);
        if cs.len() == 1 {
            Some(cs[0])
        } else {
            None
        }
    }
}

impl FromToken for String {
    /// Every token is a string: itself.
    open spec fn token_value(t: Seq<char>) -> Option<Seq<char>> {
        Some(t)
    }

    fn from_token(t: &str) -> (r: Option<String>) {
        Some(t.to_owned())
    }
}

/// The ASCII digit for `d` (for `d` in `0..10`).
pub open spec fn digit_char(d: int) -> char {
    if d == 0 {
        '0'
    } else if d == 1 {
        '1'
    } else if d == 2 {
        '2'
    } else if d == 3 {
        '3'
    } else if d == 4 {
        '4'
    } else if d == 5 {
        '5'
    } else if d == 6 {
        '6'
    } else if d == 7 {
        '7'
    } else if d == 8 {
        '8'
    } else {
        '9'
    }
}

/// The base-ten digits of `n`, most significant first, without leading zeros.
pub open spec fn digits_of(n: nat) -> Seq<char>
    decreases n,
{
    if n < 10 {
        seq![digit_char(n as int)]
    } else {
        digits_of(n / 10).push(digit_char((n % 10) as int))
    }
}

/// How an integer is written out in base ten: a `-` for negative numbers, then its digits.
pub open spec fn written_int(v: int) -> Seq<char> {
    if v < 0 {
        seq!['-'] + digits_of((-v) as nat)
    } else {
        digits_of(v as nat)
    }
}

/// The digit for `d` is an ASCII digit that stands for `d`.
pub proof fn lemma_digit_char(d: int)
    requires
        0 <= d < 10,
    ensures
        is_digit(digit_char(d)),
        digit_value(digit_char(d)) == d,
{
    assert(('0' as int) == 48);
    assert(('9' as int) == 57);
}

/// The digits of `n` are a non-empty digit string that spells `n`.
pub proof fn lemma_digits_of(n: nat)
    ensures
        digits_of(n).len() > 0,
        all_digits(digits_of(n)),
        digits_value(digits_of(n)) == n,
    decreases n,
{
    if n < 10 {
        lemma_digit_char(n as int);
        let s = digits_of(n);
        assert(s.drop_last() =~= Seq::<char>::empty());
        assert(digits_value(s.drop_last()) == 0);
        assert(s.last() == digit_char(n as int));
    } else {
        lemma_digit_char((n % 10) as int);
        lemma_digits_of(n / 10);
        let p = digits_of(n / 10);
        let s = digits_of(n);
        assert(s.drop_last() =~= p);
        assert forall|i: int| 0 <= i < s.len() implies is_digit(#[trigger] s[i]) by {
            if i < p.len() {
                assert(s[i] == p[i]);
            }
        }
        assert(s.last() == digit_char((n % 10) as int));
        assert(digits_value(s) == 10 * digits_value(p) + (n % 10) as int);
        assert(n == 10 * (n / 10) + n % 10) by (nonlinear_arith);
    }
}

/// Reading back a written integer gives that integer: a decimal integer
/// token written out from `v` reads as `v`, and as `v` of any integer type
/// whose range holds `v`.
pub proof fn lemma_read_written_int(v: int, signed: bool, min: int, max: int)
    requires
        v < 0 ==> signed,
        min <= v <= max,
    ensures
        decimal_value(written_int(v), signed) == Some(v),
        bounded_value(written_int(v), signed, min, max) == Some(v),
{
    let w = written_int(v);
    if v < 0 {
        let d = digits_of((-v) as nat);
        lemma_digits_of((-v) as nat);
        assert(w.drop_first() =~= d);
        assert(w[0] == '-');
    } else {
        lemma_digits_of(v as nat);
        assert(is_digit(w[0]));
    }
}

/// A `i32` written out in base ten reads back as itself.
pub proof fn lemma_read_written_i32(v: i32)
    ensures
        <i32 as FromToken>::token_value(written_int(v as int)) == Some(v),
{
    lemma_read_written_int(v as int, true, i32::MIN as int, i32::MAX as int);
}

/// A `i64` written out in base ten reads back as itself.
pub proof fn lemma_read_written_i64(v: i64)
    ensures
        <i64 as FromToken>::token_value(written_int(v as int)) == Some(v),
{
    lemma_read_written_int(v as int, true, i64::MIN as int, i64::MAX as int);
}

/// A `u64` written out in base ten reads back as itself.
pub proof fn lemma_read_written_u64(v: u64)
    ensures
        <u64 as FromToken>::token_value(written_int(v as int)) == Some(v),
{
    lemma_read_written_int(v as int, false, 0, u64::MAX as int);
}

/// A `usize` written out in base ten reads back as itself.
pub proof fn lemma_read_written_usize(v: usize)
    ensures
        <usize as FromToken>::token_value(written_int(v as int)) == Some(v),
{
    lemma_read_written_int(v as int, false, 0, usize::MAX as int);
}

} // verus!
