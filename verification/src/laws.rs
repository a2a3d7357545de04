//! Laws of the library: what reading a value, splitting text, and the token
//! sources do, stated over every input.
use vstd::prelude::*;

use crate::marker::Usize1;
use crate::parse::{
    decimal_value,
    digits_of,
    digits_value,
    lemma_digits_of,
    lemma_read_written_int,
    written_int,
    FromToken,
};
use crate::source::{CheckedReadable, LineRead, LineSource, OnceSource, Readable, Source};
use crate::text::{is_ascii_ws, lemma_split_around_ws, lemma_split_token, split_ascii_ws};
use crate::StdinSource;

verus! {

/// Reading a `i8` accepts exactly the tokens that are decimal integers
/// (an optional sign, then digits) within the `i8` range and yields their
/// value; nothing is read where no token is left; and every `i8`, written out
/// in base ten, reads back as itself, alone, as an `Option<i8>`, or where the
/// tokens may run out.
pub proof fn law_read_i8(t: Seq<char>, v: i8)
    ensures
        <i8 as Readable>::accepts(Some(t)) <==> (decimal_value(t, true) is Some && i8::MIN as int
            <= decimal_value(t, true).unwrap() <= i8::MAX as int),
        <i8 as Readable>::accepts(Some(t)) ==> <i8 as Readable>::value_of(Some(t)) as int
            == decimal_value(t, true).unwrap(),
        !<i8 as Readable>::accepts(None),
        <i8 as Readable>::accepts(Some(written_int(v as int))),
        <i8 as Readable>::value_of(Some(written_int(v as int))) == v,
        <Option<i8> as Readable>::accepts(Some(written_int(v as int))),
        <Option<i8> as Readable>::value_of(Some(written_int(v as int))) == Some(v),
        <i8 as CheckedReadable>::checked_accepts(Some(written_int(v as int))),
        <i8 as CheckedReadable>::checked_value_of(Some(written_int(v as int))) == Some(v),
{
    lemma_read_written_int(v as int, true, i8::MIN as int, i8::MAX as int);
}

/// Reading a `i16` accepts exactly the tokens that are decimal integers
/// (an optional sign, then digits) within the `i16` range and yields their
/// value; nothing is read where no token is left; and every `i16`, written out
/// in base ten, reads back as itself, alone, as an `Option<i16>`, or where the
/// tokens may run out.
pub proof fn law_read_i16(t: Seq<char>, v: i16)
    ensures
        <i16 as Readable>::accepts(Some(t)) <==> (decimal_value(t, true) is Some && i16::MIN as int
            <= decimal_value(t, true).unwrap() <= i16::MAX as int),
        <i16 as Readable>::accepts(Some(t)) ==> <i16 as Readable>::value_of(Some(t)) as int
            == decimal_value(t, true).unwrap(),
        !<i16 as Readable>::accepts(None),
        <i16 as Readable>::accepts(Some(written_int(v as int))),
        <i16 as Readable>::value_of(Some(written_int(v as int))) == v,
        <Option<i16> as Readable>::accepts(Some(written_int(v as int))),
        <Option<i16> as Readable>::value_of(Some(written_int(v as int))) == Some(v),
        <i16 as CheckedReadable>::checked_accepts(Some(written_int(v as int))),
        <i16 as CheckedReadable>::checked_value_of(Some(written_int(v as int))) == Some(v),
{
    lemma_read_written_int(v as int, true, i16::MIN as int, i16::MAX as int);
}

/// Reading a `i32` accepts exactly the tokens that are decimal integers
/// (an optional sign, then digits) within the `i32` range and yields their
/// value; nothing is read where no token is left; and every `i32`, written out
/// in base ten, reads back as itself, alone, as an `Option<i32>`, or where the
/// tokens may run out.
pub proof fn law_read_i32(t: Seq<char>, v: i32)
    ensures
        <i32 as Readable>::accepts(Some(t)) <==> (decimal_value(t, true) is Some && i32::MIN as int
            <= decimal_value(t, true).unwrap() <= i32::MAX as int),
        <i32 as Readable>::accepts(Some(t)) ==> <i32 as Readable>::value_of(Some(t)) as int
            == decimal_value(t, true).unwrap(),
        !<i32 as Readable>::accepts(None),
        <i32 as Readable>::accepts(Some(written_int(v as int))),
        <i32 as Readable>::value_of(Some(written_int(v as int))) == v,
        <Option<i32> as Readable>::accepts(Some(written_int(v as int))),
        <Option<i32> as Readable>::value_of(Some(written_int(v as int))) == Some(v),
        <i32 as CheckedReadable>::checked_accepts(Some(written_int(v as int))),
        <i32 as CheckedReadable>::checked_value_of(Some(written_int(v as int))) == Some(v),
{
    lemma_read_written_int(v as int, true, i32::MIN as int, i32::MAX as int);
}

/// Reading a `i64` accepts exactly the tokens that are decimal integers
/// (an optional sign, then digits) within the `i64` range and yields their
/// value; nothing is read where no token is left; and every `i64`, written out
/// in base ten, reads back as itself, alone, as an `Option<i64>`, or where the
/// tokens may run out.
pub proof fn law_read_i64(t: Seq<char>, v: i64)
    ensures
        <i64 as Readable>::accepts(Some(t)) <==> (decimal_value(t, true) is Some && i64::MIN as int
            <= decimal_value(t, true).unwrap() <= i64::MAX as int),
        <i64 as Readable>::accepts(Some(t)) ==> <i64 as Readable>::value_of(Some(t)) as int
            == decimal_value(t, true).unwrap(),
        !<i64 as Readable>::accepts(None),
        <i64 as Readable>::accepts(Some(written_int(v as int))),
        <i64 as Readable>::value_of(Some(written_int(v as int))) == v,
        <Option<i64> as Readable>::accepts(Some(written_int(v as int))),
        <Option<i64> as Readable>::value_of(Some(written_int(v as int))) == Some(v),
        <i64 as CheckedReadable>::checked_accepts(Some(written_int(v as int))),
        <i64 as CheckedReadable>::checked_value_of(Some(written_int(v as int))) == Some(v),
{
    lemma_read_written_int(v as int, true, i64::MIN as int, i64::MAX as int);
}

/// Reading a `i128` accepts exactly the tokens that are decimal integers
/// (an optional sign, then digits) within the `i128` range and yields their
/// value; nothing is read where no token is left; and every `i128`, written out
/// in base ten, reads back as itself, alone, as an `Option<i128>`, or where the
/// tokens may run out.
pub proof fn law_read_i128(t: Seq<char>, v: i128)
    ensures
        <i128 as Readable>::accepts(Some(t)) <==> (decimal_value(t, true) is Some && i128::MIN as int
            <= decimal_value(t, true).unwrap() <= i128::MAX as int),
        <i128 as Readable>::accepts(Some(t)) ==> <i128 as Readable>::value_of(Some(t)) as int
            == decimal_value(t, true).unwrap(),
        !<i128 as Readable>::accepts(None),
        <i128 as Readable>::accepts(Some(written_int(v as int))),
        <i128 as Readable>::value_of(Some(written_int(v as int))) == v,
        <Option<i128> as Readable>::accepts(Some(written_int(v as int))),
        <Option<i128> as Readable>::value_of(Some(written_int(v as int))) == Some(v),
        <i128 as CheckedReadable>::checked_accepts(Some(written_int(v as int))),
        <i128 as CheckedReadable>::checked_value_of(Some(written_int(v as int))) == Some(v),
{
    lemma_read_written_int(v as int, true, i128::MIN as int, i128::MAX as int);
}

/// Reading a `isize` accepts exactly the tokens that are decimal integers
/// (an optional sign, then digits) within the `isize` range and yields their
/// value; nothing is read where no token is left; and every `isize`, written out
/// in base ten, reads back as itself, alone, as an `Option<isize>`, or where the
/// tokens may run out.
pub proof fn law_read_isize(t: Seq<char>, v: isize)
    ensures
        <isize as Readable>::accepts(Some(t)) <==> (decimal_value(t, true) is Some && isize::MIN as int
            <= decimal_value(t, true).unwrap() <= isize::MAX as int),
        <isize as Readable>::accepts(Some(t)) ==> <isize as Readable>::value_of(Some(t)) as int
            == decimal_value(t, true).unwrap(),
        !<isize as Readable>::accepts(None),
        <isize as Readable>::accepts(Some(written_int(v as int))),
        <isize as Readable>::value_of(Some(written_int(v as int))) == v,
        <Option<isize> as Readable>::accepts(Some(written_int(v as int))),
        <Option<isize> as Readable>::value_of(Some(written_int(v as int))) == Some(v),
        <isize as CheckedReadable>::checked_accepts(Some(written_int(v as int))),
        <isize as CheckedReadable>::checked_value_of(Some(written_int(v as int))) == Some(v),
{
    lemma_read_written_int(v as int, true, isize::MIN as int, isize::MAX as int);
}

/// Reading a `u8` accepts exactly the tokens that are decimal integers
/// (an optional sign, then digits) within the `u8` range and yields their
/// value; nothing is read where no token is left; and every `u8`, written out
/// in base ten, reads back as itself, alone, as an `Option<u8>`, or where the
/// tokens may run out.
pub proof fn law_read_u8(t: Seq<char>, v: u8)
    ensures
        <u8 as Readable>::accepts(Some(t)) <==> (decimal_value(t, false) is Some && 0int
            <= decimal_value(t, false).unwrap() <= u8::MAX as int),
        <u8 as Readable>::accepts(Some(t)) ==> <u8 as Readable>::value_of(Some(t)) as int
            == decimal_value(t, false).unwrap(),
        !<u8 as Readable>::accepts(None),
        <u8 as Readable>::accepts(Some(written_int(v as int))),
        <u8 as Readable>::value_of(Some(written_int(v as int))) == v,
        <Option<u8> as Readable>::accepts(Some(written_int(v as int))),
        <Option<u8> as Readable>::value_of(Some(written_int(v as int))) == Some(v),
        <u8 as CheckedReadable>::checked_accepts(Some(written_int(v as int))),
        <u8 as CheckedReadable>::checked_value_of(Some(written_int(v as int))) == Some(v),
{
    lemma_read_written_int(v as int, false, 0int, u8::MAX as int);
}

/// Reading a `u16` accepts exactly the tokens that are decimal integers
/// (an optional sign, then digits) within the `u16` range and yields their
/// value; nothing is read where no token is left; and every `u16`, written out
/// in base ten, reads back as itself, alone, as an `Option<u16>`, or where the
/// tokens may run out.
pub proof fn law_read_u16(t: Seq<char>, v: u16)
    ensures
        <u16 as Readable>::accepts(Some(t)) <==> (decimal_value(t, false) is Some && 0int
            <= decimal_value(t, false).unwrap() <= u16::MAX as int),
        <u16 as Readable>::accepts(Some(t)) ==> <u16 as Readable>::value_of(Some(t)) as int
            == decimal_value(t, false).unwrap(),
        !<u16 as Readable>::accepts(None),
        <u16 as Readable>::accepts(Some(written_int(v as int))),
        <u16 as Readable>::value_of(Some(written_int(v as int))) == v,
        <Option<u16> as Readable>::accepts(Some(written_int(v as int))),
        <Option<u16> as Readable>::value_of(Some(written_int(v as int))) == Some(v),
        <u16 as CheckedReadable>::checked_accepts(Some(written_int(v as int))),
        <u16 as CheckedReadable>::checked_value_of(Some(written_int(v as int))) == Some(v),
{
    lemma_read_written_int(v as int, false, 0int, u16::MAX as int);
}

/// Reading a `u32` accepts exactly the tokens that are decimal integers
/// (an optional sign, then digits) within the `u32` range and yields their
/// value; nothing is read where no token is left; and every `u32`, written out
/// in base ten, reads back as itself, alone, as an `Option<u32>`, or where the
/// tokens may run out.
pub proof fn law_read_u32(t: Seq<char>, v: u32)
    ensures
        <u32 as Readable>::accepts(Some(t)) <==> (decimal_value(t, false) is Some && 0int
            <= decimal_value(t, false).unwrap() <= u32::MAX as int),
        <u32 as Readable>::accepts(Some(t)) ==> <u32 as Readable>::value_of(Some(t)) as int
            == decimal_value(t, false).unwrap(),
        !<u32 as Readable>::accepts(None),
        <u32 as Readable>::accepts(Some(written_int(v as int))),
        <u32 as Readable>::value_of(Some(written_int(v as int))) == v,
        <Option<u32> as Readable>::accepts(Some(written_int(v as int))),
        <Option<u32> as Readable>::value_of(Some(written_int(v as int))) == Some(v),
        <u32 as CheckedReadable>::checked_accepts(Some(written_int(v as int))),
        <u32 as CheckedReadable>::checked_value_of(Some(written_int(v as int))) == Some(v),
{
    lemma_read_written_int(v as int, false, 0int, u32::MAX as int);
}

/// Reading a `u64` accepts exactly the tokens that are decimal integers
/// (an optional sign, then digits) within the `u64` range and yields their
/// value; nothing is read where no token is left; and every `u64`, written out
/// in base ten, reads back as itself, alone, as an `Option<u64>`, or where the
/// tokens may run out.
pub proof fn law_read_u64(t: Seq<char>, v: u64)
    ensures
        <u64 as Readable>::accepts(Some(t)) <==> (decimal_value(t, false) is Some && 0int
            <= decimal_value(t, false).unwrap() <= u64::MAX as int),
        <u64 as Readable>::accepts(Some(t)) ==> <u64 as Readable>::value_of(Some(t)) as int
            == decimal_value(t, false).unwrap(),
        !<u64 as Readable>::accepts(None),
        <u64 as Readable>::accepts(Some(written_int(v as int))),
        <u64 as Readable>::value_of(Some(written_int(v as int))) == v,
        <Option<u64> as Readable>::accepts(Some(written_int(v as int))),
        <Option<u64> as Readable>::value_of(Some(written_int(v as int))) == Some(v),
        <u64 as CheckedReadable>::checked_accepts(Some(written_int(v as int))),
        <u64 as CheckedReadable>::checked_value_of(Some(written_int(v as int))) == Some(v),
{
    lemma_read_written_int(v as int, false, 0int, u64::MAX as int);
}

/// Reading a `u128` accepts exactly the tokens that are decimal integers
/// (an optional sign, then digits) within the `u128` range and yields their
/// value; nothing is read where no token is left; and every `u128`, written out
/// in base ten, reads back as itself, alone, as an `Option<u128>`, or where the
/// tokens may run out.
pub proof fn law_read_u128(t: Seq<char>, v: u128)
    ensures
        <u128 as Readable>::accepts(Some(t)) <==> (decimal_value(t, false) is Some && 0int
            <= decimal_value(t, false).unwrap() <= u128::MAX as int),
        <u128 as Readable>::accepts(Some(t)) ==> <u128 as Readable>::value_of(Some(t)) as int
            == decimal_value(t, false).unwrap(),
        !<u128 as Readable>::accepts(None),
        <u128 as Readable>::accepts(Some(written_int(v as int))),
        <u128 as Readable>::value_of(Some(written_int(v as int))) == v,
        <Option<u128> as Readable>::accepts(Some(written_int(v as int))),
        <Option<u128> as Readable>::value_of(Some(written_int(v as int))) == Some(v),
        <u128 as CheckedReadable>::checked_accepts(Some(written_int(v as int))),
        <u128 as CheckedReadable>::checked_value_of(Some(written_int(v as int))) == Some(v),
{
    lemma_read_written_int(v as int, false, 0int, u128::MAX as int);
}

/// Reading a `usize` accepts exactly the tokens that are decimal integers
/// (an optional sign, then digits) within the `usize` range and yields their
/// value; nothing is read where no token is left; and every `usize`, written out
/// in base ten, reads back as itself, alone, as an `Option<usize>`, or where the
/// tokens may run out.
pub proof fn law_read_usize(t: Seq<char>, v: usize)
    ensures
        <usize as Readable>::accepts(Some(t)) <==> (decimal_value(t, false) is Some && 0int
            <= decimal_value(t, false).unwrap() <= usize::MAX as int),
        <usize as Readable>::accepts(Some(t)) ==> <usize as Readable>::value_of(Some(t)) as int
            == decimal_value(t, false).unwrap(),
        !<usize as Readable>::accepts(None),
        <usize as Readable>::accepts(Some(written_int(v as int))),
        <usize as Readable>::value_of(Some(written_int(v as int))) == v,
        <Option<usize> as Readable>::accepts(Some(written_int(v as int))),
        <Option<usize> as Readable>::value_of(Some(written_int(v as int))) == Some(v),
        <usize as CheckedReadable>::checked_accepts(Some(written_int(v as int))),
        <usize as CheckedReadable>::checked_value_of(Some(written_int(v as int))) == Some(v),
{
    lemma_read_written_int(v as int, false, 0int, usize::MAX as int);
}

/// A missing token reads as `None` where an optional value is read, and
/// ends a read where the tokens may run out, whatever the type.
pub proof fn law_read_optional_at_end<T: FromToken>()
    ensures
        <Option<T> as Readable>::accepts(None),
        <Option<T> as Readable>::value_of(None) == None::<<T as DeepView>::V>,
        <T as CheckedReadable>::checked_accepts(None),
        <T as CheckedReadable>::checked_value_of(None) == None::<<T as DeepView>::V>,
{
}

/// Reading a `bool` accepts exactly the words `true` and `false`, and yields
/// `true` for the first and `false` for the second.
pub proof fn law_read_bool(t: Seq<char>)
    ensures
        <bool as Readable>::accepts(Some(t)) <==> (t == seq!['t', 'r', 'u', 'e'] || t == seq![
            'f',
            'a',
            'l',
            's',
            'e',
        ]),
        <bool as Readable>::accepts(Some(seq!['t', 'r', 'u', 'e'])),
        <bool as Readable>::value_of(Some(seq!['t', 'r', 'u', 'e'])) == true,
        <bool as Readable>::accepts(Some(seq!['f', 'a', 'l', 's', 'e'])),
        <bool as Readable>::value_of(Some(seq!['f', 'a', 'l', 's', 'e'])) == false,
        !<bool as Readable>::accepts(None),
{
    assert(seq!['t', 'r', 'u', 'e'] != seq!['f', 'a', 'l', 's', 'e']) by {
        assert(seq!['t', 'r', 'u', 'e'].len() != seq!['f', 'a', 'l', 's', 'e'].len());
    }
}

/// Reading a `char` accepts exactly the tokens of one character and yields that character.
pub proof fn law_read_char(t: Seq<char>, c: char)
    ensures
        <char as Readable>::accepts(Some(t)) <==> t.len() == 1,
        <char as Readable>::accepts(Some(t)) ==> <char as Readable>::value_of(Some(t)) == t[0],
        <char as Readable>::accepts(Some(seq![c])),
        <char as Readable>::value_of(Some(seq![c])) == c,
        !<char as Readable>::accepts(None),
{
    assert(seq![c][0] == c);
}

/// Reading a `String` accepts every token and yields it unchanged.
pub proof fn law_read_string(t: Seq<char>)
    ensures
        <String as Readable>::accepts(Some(t)),
        <String as Readable>::value_of(Some(t)) == t,
        !<String as Readable>::accepts(None),
{
}

/// Reading a `Usize1` reads the 1-based index `k + 1` as `k`, and refuses the index 0.
pub proof fn law_read_usize1(k: usize)
    requires
        k < usize::MAX,
    ensures
        <Usize1 as Readable>::accepts(Some(written_int(k + 1))),
        <Usize1 as Readable>::value_of(Some(written_int(k + 1))) == k,
        !<Usize1 as Readable>::accepts(Some(seq!['0'])),
        !<Usize1 as Readable>::accepts(None),
{
    lemma_read_written_int(k + 1, false, 0, usize::MAX as int);
    lemma_read_written_int(0, false, 0, usize::MAX as int);
    assert(written_int(0) =~= seq!['0']);
}

/// The ASCII whitespace characters are exactly space, tab, line feed, form
/// feed and carriage return.
pub proof fn law_ascii_whitespace(c: char)
    ensures
        is_ascii_ws(c) <==> (c == ' ' || c == '\t' || c == '\n' || c == '\x0C' || c == '\r'),
{
}

/// A non-empty text with none of the five ASCII whitespace characters (space,
/// tab, line feed, form feed, carriage return) is one token: every other
/// character stays inside its token.
pub proof fn law_split_text_without_whitespace(s: Seq<char>)
    requires
        s.len() > 0,
        forall|i: int|
            0 <= i < s.len() ==> #[trigger] s[i] != ' ' && s[i] != '\t' && s[i] != '\n' && s[i]
                != '\x0C' && s[i] != '\r',
    ensures
        split_ascii_ws(s) == seq![s],
{
    assert forall|i: int| 0 <= i < s.len() implies !is_ascii_ws(#[trigger] s[i]) by {}
    lemma_split_token(s);
}

/// Each of the five ASCII whitespace characters separates the tokens on its
/// left from those on its right.
pub proof fn law_split_at_each_whitespace(a: Seq<char>, b: Seq<char>)
    ensures
        split_ascii_ws(a + seq![' '] + b) == split_ascii_ws(a) + split_ascii_ws(b),
        split_ascii_ws(a + seq!['\t'] + b) == split_ascii_ws(a) + split_ascii_ws(b),
        split_ascii_ws(a + seq!['\n'] + b) == split_ascii_ws(a) + split_ascii_ws(b),
        split_ascii_ws(a + seq!['\x0C'] + b) == split_ascii_ws(a) + split_ascii_ws(b),
        split_ascii_ws(a + seq!['\r'] + b) == split_ascii_ws(a) + split_ascii_ws(b),
{
    lemma_split_around_ws(a, ' ', b);
    lemma_split_around_ws(a, '\t', b);
    lemma_split_around_ws(a, '\n', b);
    lemma_split_around_ws(a, '\x0C', b);
    lemma_split_around_ws(a, '\r', b);
}

/// A source over the whole input can always answer; it hands out its first
/// remaining token, says it is empty exactly when none remains, and one
/// `next_token` drops exactly that token.
pub proof fn law_once_source(s: OnceSource, next: OnceSource)
    ensures
        s.ready(),
        s.remaining().len() > 0 ==> s.upcoming() == Some(s.remaining()[0]),
        s.remaining().len() == 0 ==> s.upcoming() is None,
        s.exhausted() <==> s.remaining().len() == 0,
        s.steps_to(next) && s.remaining().len() > 0 ==> next.remaining() == s.remaining().drop_first(),
        s.steps_to(next) && s.remaining().len() == 0 ==> next.remaining().len() == 0,
{
}

/// A line source can answer once a line outcome is pending. It hands out a
/// read line unchanged, whatever it holds (an empty line too); after a failed
/// read it hands out nothing yet is not at the end; it is empty exactly at the
/// end of the input; and after `next_token` it needs the next line.
pub proof fn law_line_source(s: LineSource, next: LineSource)
    ensures
        s.ready() <==> s.pending() is Some,
        s.pending() matches Some(LineRead::Line(l)) ==> s.upcoming() == Some(l@),
        s.pending() matches Some(LineRead::Failed) ==> s.upcoming() is None && !s.exhausted(),
        s.pending() matches Some(LineRead::End) ==> s.upcoming() is None && s.exhausted(),
        s.exhausted() <==> s.pending() matches Some(LineRead::End),
        s.steps_to(next) <==> next.pending() is None,
{
}

/// The stdin source answers exactly as the source it holds: it hands out the
/// same tokens, is ready and empty when that source is, and stays of the same kind.
pub proof fn law_stdin_source(s: StdinSource, next: StdinSource)
    ensures
        match s {
            StdinSource::Once(o) => {
                &&& s.ready() == o.ready()
                &&& s.upcoming() == o.upcoming()
                &&& s.exhausted() == o.exhausted()
                &&& (s.exhausted() <==> o.remaining().len() == 0)
                &&& (s.steps_to(next) <==> match next {
                    StdinSource::Once(n) => o.steps_to(n),
                    StdinSource::Line(_) => false,
                })
            },
            StdinSource::Line(l) => {
                &&& s.ready() == l.ready()
                &&& s.upcoming() == l.upcoming()
                &&& s.exhausted() == l.exhausted()
                &&& (s.exhausted() <==> (l.pending() matches Some(LineRead::End)))
                &&& (s.steps_to(next) <==> match next {
                    StdinSource::Line(n) => l.steps_to(n),
                    StdinSource::Once(_) => false,
                })
            },
        },
{
}

/// A zero in front of a digit string does not change what it spells.
proof fn lemma_leading_zero(d: Seq<char>)
    ensures
        digits_value(seq!['0'] + d) == digits_value(d),
    decreases d.len(),
{
    let z = seq!['0'] + d;
    if d.len() == 0 {
        assert(z.drop_last() =~= Seq::<char>::empty());
        assert(z.last() == '0');
        assert(digits_value(z) == 10 * digits_value(z.drop_last()) + crate::parse::digit_value(
            z.last(),
        ));
    } else {
        lemma_leading_zero(d.drop_last());
        assert(z.drop_last() =~= seq!['0'] + d.drop_last());
        assert(z.last() == d.last());
        assert(digits_value(z) == 10 * digits_value(z.drop_last()) + crate::parse::digit_value(
            z.last(),
        ));
    }
}

/// The forms of a decimal integer token: a number's digits read as the
/// number, also behind a `+` or behind leading zeros; behind a `-` they read
/// as its negation for signed types and are refused for unsigned ones; and a
/// token with any character that is neither a digit nor a leading sign is refused.
pub proof fn law_decimal_forms(n: nat, signed: bool, t: Seq<char>, i: int)
    ensures
        decimal_value(digits_of(n), signed) == Some(n as int),
        decimal_value(seq!['+'] + digits_of(n), signed) == Some(n as int),
        decimal_value(seq!['0'] + digits_of(n), signed) == Some(n as int),
        signed ==> decimal_value(seq!['-'] + digits_of(n), signed) == Some(-(n as int)),
        !signed ==> decimal_value(seq!['-'] + digits_of(n), signed) is None,
        0 < i < t.len() && !('0' <= t[i] && t[i] <= '9') ==> decimal_value(t, signed) is None,
        0 < t.len() && !('0' <= t[0] && t[0] <= '9') && t[0] != '+' && t[0] != '-'
            ==> decimal_value(t, signed) is None,
        decimal_value(Seq::<char>::empty(), signed) is None,
{
    let d = digits_of(n);
    lemma_digits_of(n);
    assert(('0' as int) == 48 && ('9' as int) == 57);
    assert((seq!['+'] + d).drop_first() =~= d);
    assert((seq!['-'] + d).drop_first() =~= d);
    assert((seq!['+'] + d)[0] == '+');
    assert((seq!['-'] + d)[0] == '-');
    assert((seq!['0'] + d)[0] == '0');
    assert((seq!['-'] + d)[0] == '-');
    lemma_leading_zero(d);
    let z = seq!['0'] + d;
    assert forall|k: int| 0 <= k < z.len() implies crate::parse::is_digit(#[trigger] z[k]) by {
        if k > 0 {
            assert(z[k] == d[k - 1]);
        }
    }
    if 0 < i < t.len() && !('0' <= t[i] && t[i] <= '9') {
        assert(t.drop_first()[i - 1] == t[i]);
    }
}

} // verus!
