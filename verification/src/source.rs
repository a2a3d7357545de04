//! Token sources and the traits for reading values from them.
use vstd::prelude::*;

use crate::parse::FromToken;
use crate::text::{
    chars_of,
    is_ascii_whitespace_char,
    is_ascii_ws,
    lemma_word_len_exact,
    split_ascii_ws,
};

verus! {

/// What a whitespace character at index `i` of `s` does to the tokens from
/// `i` on: nothing, since it only separates them.
proof fn lemma_skip_blank(s: Seq<char>, i: int)
    requires
        0 <= i < s.len(),
        is_ascii_ws(s[i]),
    ensures
        split_ascii_ws(s.skip(i)) == split_ascii_ws(s.skip(i + 1)),
{
    assert(s.skip(i)[0] == s[i]);
    assert(s.skip(i).drop_first() =~= s.skip(i + 1));
}

/// Where the text from `start` on begins with the word `s[start..end]`, the
/// tokens from `start` on are that word followed by the tokens from `end` on.
proof fn lemma_word_at(s: Seq<char>, start: int, end: int)
    requires
        0 <= start < end <= s.len(),
        forall|k: int| start <= k < end ==> !is_ascii_ws(#[trigger] s[k]),
        end == s.len() || is_ascii_ws(s[end]),
    ensures
        split_ascii_ws(s.skip(start)) == seq![s.subrange(start, end)] + split_ascii_ws(s.skip(end)),
{
    let t = s.skip(start);
    assert forall|k: int| 0 <= k < end - start implies !is_ascii_ws(#[trigger] t[k]) by {
        assert(t[k] == s[start + k]);
    }
    if end < s.len() {
        assert(t[end - start] == s[end]);
    }
    lemma_word_len_exact(t, end - start);
    assert(!is_ascii_ws(t[0]));
    assert(t.take(end - start) =~= s.subrange(start, end));
    assert(t.skip(end - start) =~= s.skip(end));
}

/// The whitespace-separated tokens of a text, handed out one at a time.
pub struct Tokens {
    chars: Vec<char>,
    pos: usize,
}

impl Tokens {
    #[verifier::type_invariant]
    spec fn inv(self) -> bool {
        self.pos <= self.chars.len()
    }

    /// The tokens not yet handed out.
    pub closed spec fn remaining(self) -> Seq<Seq<char>> {
        split_ascii_ws(self.chars@.skip(self.pos as int))
    }

    /// Splits `content` at ASCII whitespace.
    pub fn from(content: String) -> (t: Tokens)
        ensures
            t.remaining() == split_ascii_ws(content@),
    {
        let chars = chars_of(content.as_str());
        assert(chars@.skip(0) =~= chars@);
        Tokens { chars, pos: 0 }
    }

    /// The first index at or after `from` that holds no whitespace (or the
    /// length, where there is none).
    fn skip_blank(&self, from: usize) -> (i: usize)
        requires
            self.pos <= from <= self.chars.len(),
            split_ascii_ws(self.chars@.skip(from as int)) == self.remaining(),
        ensures
            from <= i <= self.chars.len(),
            i < self.chars.len() ==> !is_ascii_ws(self.chars@[i as int]),
            split_ascii_ws(self.chars@.skip(i as int)) == self.remaining(),
    {
        let n = self.chars.len();
        let mut i = from;
        while i < n && is_ascii_whitespace_char(self.chars[i])
            invariant
                from <= i <= n == self.chars.len(),
                split_ascii_ws(self.chars@.skip(i as int)) == self.remaining(),
            decreases n - i,
        {
            proof {
                lemma_skip_blank(self.chars@, i as int);
            }
            i = i + 1;
        }
        i
    }

    /// The word that starts at `start`, and the index just past it.
    fn scan_word(&self, start: usize) -> (r: (usize, String))
        requires
            start < self.chars.len(),
            !is_ascii_ws(self.chars@[start as int]),
        ensures
            start < r.0 <= self.chars.len(),
            r.1@ == self.chars@.subrange(start as int, r.0 as int),
            split_ascii_ws(self.chars@.skip(start as int)) == seq![r.1@] + split_ascii_ws(
                self.chars@.skip(r.0 as int),
            ),
    {
        let n = self.chars.len();
        let mut word = String::new();
        let mut i = start;
        while i < n && !is_ascii_whitespace_char(self.chars[i])
            invariant
                start <= i <= n == self.chars.len(),
                word@ == self.chars@.subrange(start as int, i as int),
                forall|k: int| start <= k < i ==> !is_ascii_ws(#[trigger] self.chars@[k]),
            decreases n - i,
        {
            word.push(self.chars[i]);
            i = i + 1;
            assert(word@ =~= self.chars@.subrange(start as int, i as int));
        }
        proof {
            lemma_word_at(self.chars@, start as int, i as int);
        }
        (i, word)
    }

    /// Hands out the next token, or `None` where none is left.
    pub fn next_token(&mut self) -> (tok: Option<String>)
        ensures
            match tok {
                Some(t) => {
                    &&& old(self).remaining().len() > 0
                    &&& t@ == old(self).remaining()[0]
                    &&& final(self).remaining() == old(self).remaining().drop_first()
                },
                None => {
                    &&& old(self).remaining().len() == 0
                    &&& final(self).remaining() == old(self).remaining()
                },
            },
    {
        proof {
            use_type_invariant(&*self);
        }
        let start = self.skip_blank(self.pos);
        if start == self.chars.len() {
            assert(self.chars@.skip(start as int) =~= Seq::<char>::empty());
            return None;
        }
        let (end, word) = self.scan_word(start);
        self.pos = end;
        Some(word)
    }

    /// Whether no token is left.
    pub fn is_empty(&mut self) -> (r: bool)
        ensures
            r == (old(self).remaining().len() == 0),
            *final(self) == *old(self),
    {
        proof {
            use_type_invariant(&*self);
        }
        let start = self.skip_blank(self.pos);
        if start == self.chars.len() {
            assert(self.chars@.skip(start as int) =~= Seq::<char>::empty());
            true
        } else {
            assert(self.chars@.skip(start as int)[0] == self.chars@[start as int]);
            false
        }
    }
}

/// A source of whitespace-separated tokens.
///
/// A source may depend on outside work (reading a line) before it can
/// answer: `ready` says whether it can answer now.
pub trait Source: Sized {
    /// Whether `next_token` and `is_empty` can be answered from what the source holds.
    spec fn ready(&self) -> bool;

    /// What the next call of `next_token` hands out.
    spec fn upcoming(&self) -> Option<Seq<char>>;

    /// What `is_empty` answers.
    spec fn exhausted(&self) -> bool;

    /// Whether `next` is what this source becomes through one call of `next_token`.
    spec fn steps_to(&self, next: Self) -> bool;

    /// Gets the next whitespace-separated token.
    fn next_token(&mut self) -> (tok: Option<String>)
        requires
            old(self).ready(),
        ensures
            tok.deep_view() == old(self).upcoming(),
            old(self).steps_to(*final(self)),
    ;

    /// Checks whether the tokens have run out.
    fn is_empty(&mut self) -> (r: bool)
        requires
            old(self).ready(),
        ensures
            r == old(self).exhausted(),
            *final(self) == *old(self),
    ;

    /// Gets the next token, which must be there.
    fn next_token_unwrap(&mut self) -> (tok: String)
        requires
            old(self).ready(),
            old(self).upcoming() is Some,
        ensures
            Some(tok@) == old(self).upcoming(),
            old(self).steps_to(*final(self)),
    {
        self.next_token().unwrap()
    }
}

/// A source that holds the whole input from the start and splits it into tokens.
pub struct OnceSource {
    tokens: Tokens,
}

impl OnceSource {
    /// The tokens not yet handed out.
    pub closed spec fn remaining(self) -> Seq<Seq<char>> {
        self.tokens.remaining()
    }

    /// A source over the whole input `content`.
    pub fn new(content: String) -> (s: OnceSource)
        ensures
            s.remaining() == split_ascii_ws(content@),
    {
        OnceSource { tokens: Tokens::from(content) }
    }
}

impl Source for OnceSource {
    open spec fn ready(&self) -> bool {
        true
    }

    open spec fn upcoming(&self) -> Option<Seq<char>> {
        if self.remaining().len() > 0 {
            Some(self.remaining()[0])
        } else {
            None
        }
    }

    open spec fn exhausted(&self) -> bool {
        self.remaining().len() == 0
    }

    open spec fn steps_to(&self, next: Self) -> bool {
        next.remaining() == if self.remaining().len() > 0 {
            self.remaining().drop_first()
        } else {
            self.remaining()
        }
    }

    fn next_token(&mut self) -> (tok: Option<String>) {
        self.tokens.next_token()
    }

    fn is_empty(&mut self) -> (r: bool) {
        self.tokens.is_empty()
    }
}

/// The outcome of reading one line: the line, a failed read, or the end of the input.
pub enum LineRead {
    Line(String),
    Failed,
    End,
}

/// A source that hands out whole lines, one per token, as they are read.
///
/// The lines are read outside: while `needs_line` holds, the reader must
/// `supply` what its next read gave before the source can answer.
pub struct LineSource {
    pending: Option<LineRead>,
}

impl LineSource {
    /// The line read ahead and not yet handed out, if any.
    pub closed spec fn pending(self) -> Option<LineRead> {
        self.pending
    }

    /// A source that has read nothing yet.
    pub fn new() -> (s: LineSource)
        ensures
            s.pending() is None,
    {
        LineSource { pending: None }
    }

    /// Whether the source needs the next line before it can answer.
    pub fn needs_line(&self) -> (r: bool)
        ensures
            r == self.pending() is None,
    {
        self.pending.is_none()
    }

    /// Hands the source the outcome of reading the next line.
    pub fn supply(&mut self, line: LineRead)
        requires
            old(self).pending() is None,
        ensures
            final(self).pending() == Some(line),
    {
        self.pending = Some(line);
    }
}

impl Source for LineSource {
    open spec fn ready(&self) -> bool {
        self.pending() is Some
    }

    open spec fn upcoming(&self) -> Option<Seq<char>> {
        match self.pending() {
            Some(LineRead::Line(line)) => Some(line@),
            _ => None,
        }
    }

    open spec fn exhausted(&self) -> bool {
        self.pending() matches Some(LineRead::End)
    }

    open spec fn steps_to(&self, next: Self) -> bool {
        next.pending() is None
    }

    fn next_token(&mut self) -> (tok: Option<String>) {
        match self.pending.take() {
            Some(LineRead::Line(line)) => Some(line),
            _ => None,
        }
    }

    fn is_empty(&mut self) -> (r: bool) {
        match &self.pending {
            Some(LineRead::End) => true,
            _ => false,
        }
    }
}

/// Why a value could not be read from a token.
#[derive(Debug, PartialEq, Eq, Structural)]
pub enum ReadError {
    /// No token was left.
    NoToken,
    /// The token does not denote a value of the type read.
    Unparsable,
    /// The token is the index 0, which has nothing before it.
    ZeroIndex,
}

/// A type that can be read from a source, one token at a time.
pub trait Readable {
    type Output: DeepView;

    /// Whether reading succeeds where the next token is `tok`.
    spec fn accepts(tok: Option<Seq<char>>) -> bool;

    /// The value read where the next token is `tok`.
    spec fn value_of(tok: Option<Seq<char>>) -> <Self::Output as DeepView>::V;

    /// Reads a value from `tok`, a token taken from a source (`None` where
    /// none was left).
    fn read_from(tok: Option<String>) -> (r: Result<Self::Output, ReadError>)
        ensures
            match r {
                Ok(v) => Self::accepts(tok.deep_view()) && v.deep_view() == Self::value_of(
                    tok.deep_view(),
                ),
                Err(e) => !Self::accepts(tok.deep_view()),
            },
    ;

    /// Reads a value from the next token of `source`.
    fn read<S: Source>(source: &mut S) -> (out: Self::Output)
        requires
            old(source).ready(),
            Self::accepts(old(source).upcoming()),
        ensures
            out.deep_view() == Self::value_of(old(source).upcoming()),
            old(source).steps_to(*final(source)),
    {
        let tok = source.next_token();
        Self::read_from(tok).unwrap()
    }
}

/// A type that can be read from a source where the tokens may have run out.
pub trait CheckedReadable {
    type Output: DeepView;

    /// Whether reading succeeds where the next token is `tok`.
    spec fn checked_accepts(tok: Option<Seq<char>>) -> bool;

    /// The value read where the next token is `tok` (`None` where no token is left).
    spec fn checked_value_of(tok: Option<Seq<char>>) -> Option<<Self::Output as DeepView>::V>;

    /// Reads a value from `tok`, a token taken from a source: `None` where
    /// no token was left, an error where the token does not read as a value.
    fn checked_read_from(tok: Option<String>) -> (r: Result<Option<Self::Output>, ReadError>)
        ensures
            r is Ok <==> Self::checked_accepts(tok.deep_view()),
            r matches Ok(v) ==> v.deep_view() == Self::checked_value_of(tok.deep_view()),
            r matches Err(e) ==> e == ReadError::Unparsable,
    ;

    /// Reads a value from the next token of `source`, or `None` where no token is left.
    fn checked_read<S: Source>(source: &mut S) -> (out: Option<Self::Output>)
        requires
            old(source).ready(),
            Self::checked_accepts(old(source).upcoming()),
        ensures
            out.deep_view() == Self::checked_value_of(old(source).upcoming()),
            old(source).steps_to(*final(source)),
    {
        let tok = source.next_token();
        Self::checked_read_from(tok).unwrap()
    }
}

/// Whether `tok` is a token that reads as a `T`.
pub open spec fn reads_as<T: FromToken>(tok: Option<Seq<char>>) -> bool {
    tok matches Some(t) && T::token_value(t) is Some
}

/// The `T` that the token `tok` reads as.
pub open spec fn read_value<T: FromToken>(tok: Option<Seq<char>>) -> <T as DeepView>::V {
    T::token_value(tok.unwrap()).unwrap()
}

/// Why `tok` does not read as a `T`.
pub open spec fn read_failure(tok: Option<Seq<char>>) -> ReadError {
    if tok is None {
        ReadError::NoToken
    } else {
        ReadError::Unparsable
    }
}

/// Reads the token `tok` as a `T`.
pub fn parse_next<T: FromToken>(tok: Option<String>) -> (r: Result<T, ReadError>)
    ensures
        r is Ok <==> reads_as::<T>(tok.deep_view()),
        r matches Ok(v) ==> v.deep_view() == read_value::<T>(tok.deep_view()),
        r matches Err(e) ==> e == read_failure(tok.deep_view()),
{
    match tok {
        Some(t) => match T::from_token(t.as_str()) {
            Some(v) => Ok(v),
            None => Err(ReadError::Unparsable),
        },
        None => Err(ReadError::NoToken),
    }
}

impl Readable for String {
    type Output = String;

    open spec fn accepts(tok: Option<Seq<char>>) -> bool {
        tok is Some
    }

    open spec fn value_of(tok: Option<Seq<char>>) -> Seq<char> {
        tok.unwrap()
    }

    fn read_from(tok: Option<String>) -> (r: Result<String, ReadError>)
        ensures
            r matches Err(e) ==> e == ReadError::NoToken,
    {
        match tok {
            Some(t) => Ok(t),
            None => Err(ReadError::NoToken),
        }
    }
}

impl<T: FromToken> Readable for Option<T> {
    type Output = Option<T>;

    open spec fn accepts(tok: Option<Seq<char>>) -> bool {
        tok matches Some(t) ==> T::token_value(t) is Some
    }

    open spec fn value_of(tok: Option<Seq<char>>) -> Option<<T as DeepView>::V> {
        match tok {
            Some(t) => T::token_value(t),
            None => None,
        }
    }

    fn read_from(tok: Option<String>) -> (r: Result<Option<T>, ReadError>)
        ensures
            r matches Err(e) ==> e == ReadError::Unparsable,
    {
        match tok {
            Some(t) => match T::from_token(t.as_str()) {
                Some(v) => Ok(Some(v)),
                None => Err(ReadError::Unparsable),
            },
            None => Ok(None),
        }
    }
}

impl<T: FromToken> CheckedReadable for T {
    type Output = T;

    open spec fn checked_accepts(tok: Option<Seq<char>>) -> bool {
        tok matches Some(t) ==> T::token_value(t) is Some
    }

    open spec fn checked_value_of(tok: Option<Seq<char>>) -> Option<<T as DeepView>::V> {
        match tok {
            Some(t) => T::token_value(t),
            None => None,
        }
    }

    fn checked_read_from(tok: Option<String>) -> (r: Result<Option<T>, ReadError>) {
        match tok {
            Some(t) => match T::from_token(t.as_str()) {
                Some(v) => Ok(Some(v)),
                None => Err(ReadError::Unparsable),
            },
            None => Ok(None),
        }
    }
}

impl Readable for bool {
    type Output = bool;

    open spec fn accepts(tok: Option<Seq<char>>) -> bool {
        reads_as::<bool>(tok)
    }

    open spec fn value_of(tok: Option<Seq<char>>) -> bool {
        read_value::<bool>(tok)
    }

    fn read_from(tok: Option<String>) -> (r: Result<bool, ReadError>)
        ensures
            r matches Err(e) ==> e == read_failure(tok.deep_view()),
    {
        parse_next::<bool>(tok)
    }
}

impl Readable for char {
    type Output = char;

    open spec fn accepts(tok: Option<Seq<char>>) -> bool {
        reads_as::<char>(tok)
    }

    open spec fn value_of(tok: Option<Seq<char>>) -> char {
        read_value::<char>(tok)
    }

    fn read_from(tok: Option<String>) -> (r: Result<char, ReadError>)
        ensures
            r matches Err(e) ==> e == read_failure(tok.deep_view()),
    {
        parse_next::<char>(tok)
    }
}

impl Readable for i8 {
    type Output = i8;

    open spec fn accepts(tok: Option<Seq<char>>) -> bool {
        reads_as::<i8>(tok)
    }

    open spec fn value_of(tok: Option<Seq<char>>) -> i8 {
        read_value::<i8>(tok)
    }

    fn read_from(tok: Option<String>) -> (r: Result<i8, ReadError>)
        ensures
            r matches Err(e) ==> e == read_failure(tok.deep_view()),
    {
        parse_next::<i8>(tok)
    }
}

impl Readable for i16 {
    type Output = i16;

    open spec fn accepts(tok: Option<Seq<char>>) -> bool {
        reads_as::<i16>(tok)
    }

    open spec fn value_of(tok: Option<Seq<char>>) -> i16 {
        read_value::<i16>(tok)
    }

    fn read_from(tok: Option<String>) -> (r: Result<i16, ReadError>)
        ensures
            r matches Err(e) ==> e == read_failure(tok.deep_view()),
    {
        parse_next::<i16>(tok)
    }
}

impl Readable for i32 {
    type Output = i32;

    open spec fn accepts(tok: Option<Seq<char>>) -> bool {
        reads_as::<i32>(tok)
    }

    open spec fn value_of(tok: Option<Seq<char>>) -> i32 {
        read_value::<i32>(tok)
    }

    fn read_from(tok: Option<String>) -> (r: Result<i32, ReadError>)
        ensures
            r matches Err(e) ==> e == read_failure(tok.deep_view()),
    {
        parse_next::<i32>(tok)
    }
}

impl Readable for i64 {
    type Output = i64;

    open spec fn accepts(tok: Option<Seq<char>>) -> bool {
        reads_as::<i64>(tok)
    }

    open spec fn value_of(tok: Option<Seq<char>>) -> i64 {
        read_value::<i64>(tok)
    }

    fn read_from(tok: Option<String>) -> (r: Result<i64, ReadError>)
        ensures
            r matches Err(e) ==> e == read_failure(tok.deep_view()),
    {
        parse_next::<i64>(tok)
    }
}

impl Readable for i128 {
    type Output = i128;

    open spec fn accepts(tok: Option<Seq<char>>) -> bool {
        reads_as::<i128>(tok)
    }

    open spec fn value_of(tok: Option<Seq<char>>) -> i128 {
        read_value::<i128>(tok)
    }

    fn read_from(tok: Option<String>) -> (r: Result<i128, ReadError>)
        ensures
            r matches Err(e) ==> e == read_failure(tok.deep_view()),
    {
        parse_next::<i128>(tok)
    }
}

impl Readable for isize {
    type Output = isize;

    open spec fn accepts(tok: Option<Seq<char>>) -> bool {
        reads_as::<isize>(tok)
    }

    open spec fn value_of(tok: Option<Seq<char>>) -> isize {
        read_value::<isize>(tok)
    }

    fn read_from(tok: Option<String>) -> (r: Result<isize, ReadError>)
        ensures
            r matches Err(e) ==> e == read_failure(tok.deep_view()),
    {
        parse_next::<isize>(tok)
    }
}

impl Readable for u8 {
    type Output = u8;

    open spec fn accepts(tok: Option<Seq<char>>) -> bool {
        reads_as::<u8>(tok)
    }

    open spec fn value_of(tok: Option<Seq<char>>) -> u8 {
        read_value::<u8>(tok)
    }

    fn read_from(tok: Option<String>) -> (r: Result<u8, ReadError>)
        ensures
            r matches Err(e) ==> e == read_failure(tok.deep_view()),
    {
        parse_next::<u8>(tok)
    }
}

impl Readable for u16 {
    type Output = u16;

    open spec fn accepts(tok: Option<Seq<char>>) -> bool {
        reads_as::<u16>(tok)
    }

    open spec fn value_of(tok: Option<Seq<char>>) -> u16 {
        read_value::<u16>(tok)
    }

    fn read_from(tok: Option<String>) -> (r: Result<u16, ReadError>)
        ensures
            r matches Err(e) ==> e == read_failure(tok.deep_view()),
    {
        parse_next::<u16>(tok)
    }
}

impl Readable for u32 {
    type Output = u32;

    open spec fn accepts(tok: Option<Seq<char>>) -> bool {
        reads_as::<u32>(tok)
    }

    open spec fn value_of(tok: Option<Seq<char>>) -> u32 {
        read_value::<u32>(tok)
    }

    fn read_from(tok: Option<String>) -> (r: Result<u32, ReadError>)
        ensures
            r matches Err(e) ==> e == read_failure(tok.deep_view()),
    {
        parse_next::<u32>(tok)
    }
}

impl Readable for u64 {
    type Output = u64;

    open spec fn accepts(tok: Option<Seq<char>>) -> bool {
        reads_as::<u64>(tok)
    }

    open spec fn value_of(tok: Option<Seq<char>>) -> u64 {
        read_value::<u64>(tok)
    }

    fn read_from(tok: Option<String>) -> (r: Result<u64, ReadError>)
        ensures
            r matches Err(e) ==> e == read_failure(tok.deep_view()),
    {
        parse_next::<u64>(tok)
    }
}

impl Readable for u128 {
    type Output = u128;

    open spec fn accepts(tok: Option<Seq<char>>) -> bool {
        reads_as::<u128>(tok)
    }

    open spec fn value_of(tok: Option<Seq<char>>) -> u128 {
        read_value::<u128>(tok)
    }

    fn read_from(tok: Option<String>) -> (r: Result<u128, ReadError>)
        ensures
            r matches Err(e) ==> e == read_failure(tok.deep_view()),
    {
        parse_next::<u128>(tok)
    }
}

impl Readable for usize {
    type Output = usize;

    open spec fn accepts(tok: Option<Seq<char>>) -> bool {
        reads_as::<usize>(tok)
    }

    open spec fn value_of(tok: Option<Seq<char>>) -> usize {
        read_value::<usize>(tok)
    }

    fn read_from(tok: Option<String>) -> (r: Result<usize, ReadError>)
        ensures
            r matches Err(e) ==> e == read_failure(tok.deep_view()),
    {
        parse_next::<usize>(tok)
    }
}

/// A source that holds its whole input says it is empty exactly when it has
/// no token left to hand out.
pub proof fn lemma_once_empty_iff_no_token(s: OnceSource)
    ensures
        s.exhausted() <==> s.upcoming() is None,
{
}

/// A source that reads lines says it is empty only when it has no line to
/// hand out (a failed read hands out nothing, yet is no end of the input).
pub proof fn lemma_line_empty_means_no_token(s: LineSource)
    requires
        s.ready(),
    ensures
        s.exhausted() ==> s.upcoming() is None,
{
}

/// Reading a `T` where the tokens may run out is reading an `Option<T>`:
/// both accept the same tokens and give the same value.
pub proof fn lemma_checked_read_is_optional_read<T: FromToken>(tok: Option<Seq<char>>)
    ensures
        <T as CheckedReadable>::checked_accepts(tok) == <Option<T> as Readable>::accepts(tok),
        <T as CheckedReadable>::checked_value_of(tok) == <Option<T> as Readable>::value_of(tok),
{
}

} // verus!
