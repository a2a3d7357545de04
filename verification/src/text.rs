//! Characters, whitespace, and the splitting of text into tokens.
use vstd::prelude::*;

verus! {

/// `String::push` appends one character at the end of the string.
pub assume_specification[ String::push ](s: &mut String, ch: char)
    ensures
        final(s)@ == old(s)@.push(ch),
;

/// Whether `c` is one of the five ASCII whitespace characters that
/// `char::is_ascii_whitespace` accepts: space, tab, line feed, form feed
/// and carriage return.
pub open spec fn is_ascii_ws(c: char) -> bool {
    c == ' ' || c == '\t' || c == '\n' || c == '\x0C' || c == '\r'
}

/// Executable test for ASCII whitespace.
pub fn is_ascii_whitespace_char(c: char) -> (r: bool)
    ensures
        r == is_ascii_ws(c),
{
    c == ' ' || c == '\t' || c == '\n' || c == '\x0C' || c == '\r'
}

/// Length of the longest prefix of `s` that holds no ASCII whitespace.
pub open spec fn word_len(s: Seq<char>) -> nat
    decreases s.len(),
{
    if s.len() == 0 || is_ascii_ws(s[0]) {
        0
    } else {
        1 + word_len(s.drop_first())
    }
}

/// The tokens of `s`: its maximal runs of characters that are not ASCII
/// whitespace, in order (what `str::split_ascii_whitespace` yields).
pub open spec fn split_ascii_ws(s: Seq<char>) -> Seq<Seq<char>>
    decreases s.len(),
{
    if s.len() == 0 {
        Seq::empty()
    } else if is_ascii_ws(s[0]) {
        split_ascii_ws(s.drop_first())
    } else {
        proof {
            lemma_word_len(s);
        }
        let n = word_len(s) as int;
        seq![s.take(n)] + split_ascii_ws(s.skip(n))
    }
}

/// A token: a non-empty sequence of characters none of which is ASCII whitespace.
pub open spec fn is_token(t: Seq<char>) -> bool {
    &&& t.len() > 0
    &&& forall|i: int| 0 <= i < t.len() ==> !is_ascii_ws(#[trigger] t[i])
}

/// The tokens joined by single spaces.
pub open spec fn join_with_spaces(ts: Seq<Seq<char>>) -> Seq<char>
    decreases ts.len(),
{
    if ts.len() == 0 {
        Seq::empty()
    } else if ts.len() == 1 {
        ts[0]
    } else {
        ts[0] + seq![' '] + join_with_spaces(ts.drop_first())
    }
}

/// The characters of `s`, in order.
pub fn chars_of(s: &str) -> (v: Vec<char>)
    ensures
        v@ == s@,
{
    broadcast use vstd::string::group_string_axioms;

    let mut v: Vec<char> = Vec::new();
    for c in it: s.chars()
        invariant
            v@ == it.seq().take(it.index()),
    {
        v.push(c);
    }
    v
}

/// `word_len` is at most the length, and the prefix it measures holds no whitespace.
pub proof fn lemma_word_len(s: Seq<char>)
    ensures
        word_len(s) <= s.len(),
        forall|i: int| 0 <= i < word_len(s) ==> !is_ascii_ws(#[trigger] s[i]),
        word_len(s) < s.len() ==> is_ascii_ws(s[word_len(s) as int]),
    decreases s.len(),
{
    if s.len() > 0 && !is_ascii_ws(s[0]) {
        lemma_word_len(s.drop_first());
        assert forall|i: int| 0 <= i < word_len(s) implies !is_ascii_ws(#[trigger] s[i]) by {
            if i > 0 {
                assert(s[i] == s.drop_first()[i - 1]);
            }
        }
    }
}

/// A prefix of `s` made of non-whitespace characters and followed by
/// whitespace (or by the end of `s`) is exactly what `word_len` measures.
pub proof fn lemma_word_len_exact(s: Seq<char>, n: int)
    requires
        0 <= n <= s.len(),
        forall|i: int| 0 <= i < n ==> !is_ascii_ws(#[trigger] s[i]),
        n == s.len() || is_ascii_ws(s[n]),
    ensures
        word_len(s) == n,
    decreases n,
{
    if n > 0 {
        let t = s.drop_first();
        assert forall|i: int| 0 <= i < n - 1 implies !is_ascii_ws(#[trigger] t[i]) by {
            assert(t[i] == s[i + 1]);
        }
        if n < s.len() {
            assert(t[n - 1] == s[n]);
        }
        lemma_word_len_exact(t, n - 1);
        assert(!is_ascii_ws(s[0]));
    }
}

/// Every piece that splitting yields is a token: non-empty and free of whitespace.
pub proof fn lemma_split_yields_tokens(s: Seq<char>)
    ensures
        forall|i: int| 0 <= i < split_ascii_ws(s).len() ==> is_token(#[trigger] split_ascii_ws(s)[i]),
    decreases s.len(),
{
    if s.len() > 0 {
        if is_ascii_ws(s[0]) {
            lemma_split_yields_tokens(s.drop_first());
            assert(split_ascii_ws(s) == split_ascii_ws(s.drop_first()));
        } else {
            lemma_word_len(s);
            let n = word_len(s) as int;
            lemma_split_yields_tokens(s.skip(n));
            assert(split_ascii_ws(s) == seq![s.take(n)] + split_ascii_ws(s.skip(n)));
            let rest = split_ascii_ws(s.skip(n));
            assert forall|i: int| 0 <= i < split_ascii_ws(s).len() implies is_token(
                #[trigger] split_ascii_ws(s)[i],
            ) by {
                if i == 0 {
                    let t = s.take(n);
                    assert(split_ascii_ws(s)[0] == t);
                    assert forall|k: int| 0 <= k < t.len() implies !is_ascii_ws(#[trigger] t[k]) by {
                        assert(t[k] == s[k]);
                    }
                } else {
                    assert(split_ascii_ws(s)[i] == rest[i - 1]);
                }
            }
        }
    }
}

/// A text splits into no token at all exactly when every character of it is whitespace.
pub proof fn lemma_split_empty_iff_blank(s: Seq<char>)
    ensures
        split_ascii_ws(s).len() == 0 <==> forall|i: int| 0 <= i < s.len() ==> is_ascii_ws(
            #[trigger] s[i],
        ),
    decreases s.len(),
{
    if s.len() > 0 {
        if is_ascii_ws(s[0]) {
            lemma_split_empty_iff_blank(s.drop_first());
            if split_ascii_ws(s).len() == 0 {
                assert forall|i: int| 0 <= i < s.len() implies is_ascii_ws(#[trigger] s[i]) by {
                    if i > 0 {
                        assert(s[i] == s.drop_first()[i - 1]);
                    }
                }
            } else {
                let t = s.drop_first();
                let j = choose|j: int| 0 <= j < t.len() && !is_ascii_ws(#[trigger] t[j]);
                assert(s[j + 1] == t[j]);
            }
        }
    }
}

/// One whitespace character separates the tokens on its left from those on
/// its right: splitting `a`, a whitespace character, then `b`, gives the
/// tokens of `a` followed by the tokens of `b`.
pub proof fn lemma_split_around_ws(a: Seq<char>, w: char, b: Seq<char>)
    requires
        is_ascii_ws(w),
    ensures
        split_ascii_ws(a + seq![w] + b) == split_ascii_ws(a) + split_ascii_ws(b),
    decreases a.len(),
{
    let s = a + seq![w] + b;
    if a.len() == 0 {
        assert(s.drop_first() =~= b);
        assert(split_ascii_ws(a) =~= Seq::<Seq<char>>::empty());
        assert(split_ascii_ws(a) + split_ascii_ws(b) =~= split_ascii_ws(b));
    } else if is_ascii_ws(a[0]) {
        assert(s.drop_first() =~= a.drop_first() + seq![w] + b);
        lemma_split_around_ws(a.drop_first(), w, b);
    } else {
        lemma_word_len(a);
        let n = word_len(a) as int;
        assert forall|i: int| 0 <= i < n implies !is_ascii_ws(#[trigger] s[i]) by {
            assert(s[i] == a[i]);
        }
        if n < a.len() {
            assert(s[n] == a[n]);
        } else {
            assert(s[n] == w);
        }
        lemma_word_len_exact(s, n);
        assert(s.take(n) =~= a.take(n));
        assert(s.skip(n) =~= a.skip(n) + seq![w] + b);
        lemma_split_around_ws(a.skip(n), w, b);
        assert(split_ascii_ws(a) + split_ascii_ws(b) =~= seq![a.take(n)] + (split_ascii_ws(
            a.skip(n),
        ) + split_ascii_ws(b)));
    }
}

/// A single token splits into itself.
pub proof fn lemma_split_token(t: Seq<char>)
    requires
        is_token(t),
    ensures
        split_ascii_ws(t) == seq![t],
{
    lemma_word_len_exact(t, t.len() as int);
    assert(t.take(t.len() as int) =~= t);
    assert(t.skip(t.len() as int) =~= Seq::<char>::empty());
    assert(split_ascii_ws(t.skip(t.len() as int)) =~= Seq::<Seq<char>>::empty());
    assert(seq![t] + Seq::<Seq<char>>::empty() =~= seq![t]);
}

/// Joining tokens with single spaces and splitting the result gives the tokens back.
pub proof fn lemma_split_join(ts: Seq<Seq<char>>)
    requires
        forall|i: int| 0 <= i < ts.len() ==> is_token(#[trigger] ts[i]),
    ensures
        split_ascii_ws(join_with_spaces(ts)) == ts,
    decreases ts.len(),
{
    if ts.len() == 0 {
        assert(split_ascii_ws(join_with_spaces(ts)) =~= ts);
    } else if ts.len() == 1 {
        assert(is_token(ts[0]));
        lemma_split_token(ts[0]);
        assert(seq![ts[0]] =~= ts);
    } else {
        let rest = ts.drop_first();
        assert forall|i: int| 0 <= i < rest.len() implies is_token(#[trigger] rest[i]) by {
            assert(rest[i] == ts[i + 1]);
        }
        lemma_split_join(rest);
        assert(is_token(ts[0]));
        lemma_split_token(ts[0]);
        lemma_split_around_ws(ts[0], ' ', join_with_spaces(rest));
        assert(seq![ts[0]] + rest =~= ts);
    }
}

} // verus!
