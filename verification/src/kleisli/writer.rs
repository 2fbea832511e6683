//! Composition of functions that return a value together with a log.
use vstd::prelude::*;
use vstd::string::*;

verus! {

/// A value together with the log of how it was made.
#[derive(Debug, PartialEq)]
pub struct Writer<T>(pub T, pub String);

impl<T> View for Writer<T> {
    type V = (T, Seq<char>);

    open spec fn view(&self) -> (T, Seq<char>) {
        (self.0, self.1@)
    }
}

/// `g` can follow `f` on `x`: `f` accepts `x`, and `g` accepts every value
/// that `f` may return for it.
pub open spec fn composable_at<F, G, T, U, V>(f: F, g: G, x: T) -> bool where
    F: Fn(T) -> Writer<U>,
    G: Fn(U) -> Writer<V>,
 {
    &&& call_requires(f, (x,))
    &&& forall|w: Writer<U>| call_ensures(f, (x,), w) ==> call_requires(g, (w.0,))
}

/// `r` is a result of `f` followed by `g` on `x`: the value is what `g` may
/// return for a value of `f`, and the log is the log of `f` followed by the
/// log of `g`.
pub open spec fn composed<F, G, T, U, V>(f: F, g: G, x: T, r: (V, Seq<char>)) -> bool where
    F: Fn(T) -> Writer<U>,
    G: Fn(U) -> Writer<V>,
 {
    exists|w1: Writer<U>, w2: Writer<V>|
        call_ensures(f, (x,), w1) && call_ensures(g, (w1.0,), w2) && r == (w2.0, w1.1@ + w2.1@)
}

/// The identity of the category: the value with an empty log.
pub fn identity_morphism<T>(v: T) -> (w: Writer<T>)
    ensures
        w@ == (v, Seq::<char>::empty()),
{
    Writer(v, String::new())
}

/// `g` after `f`, with the two logs joined in that order.
pub fn compose<T, U, V>(f: impl Fn(T) -> Writer<U>, g: impl Fn(U) -> Writer<V>) -> (h: impl Fn(
    T,
) -> Writer<V>)
    ensures
        forall|x: T| composable_at(f, g, x) ==> #[trigger] call_requires(h, (x,)),
        forall|x: T, w: Writer<V>| #[trigger] call_ensures(h, (x,), w) ==> composed(f, g, x, w@),
{
    move |x: T| -> (w: Writer<V>)
        requires
            composable_at(f, g, x),
        ensures
            composed(f, g, x, w@),
        {
            let Writer(y, s1) = f(x);
            let Writer(z, s2) = g(y);
            Writer(z, s1.concat(s2.as_str()))
        }
}

/// The ASCII upper case equivalent of `c`: the letters `a` to `z` become `A`
/// to `Z`, every other character stays as it is.
pub open spec fn ascii_uppercase(c: char) -> char {
    if 'a' <= c && c <= 'z' {
        ((c as u8) - 32) as char
    } else {
        c
    }
}

/// The ASCII whitespace characters: space, tab, line feed, form feed and
/// carriage return.
pub open spec fn is_ascii_whitespace(c: char) -> bool {
    c == ' ' || c == '\t' || c == '\n' || c == '\x0C' || c == '\r'
}

/// A word: a run of characters that is not empty and holds no whitespace.
pub open spec fn is_word(w: Seq<char>) -> bool {
    &&& w.len() > 0
    &&& forall|k: int| 0 <= k < w.len() ==> !is_ascii_whitespace(#[trigger] w[k])
}

/// The number of characters of `s` before its first whitespace character.
pub open spec fn word_len(s: Seq<char>) -> nat
    decreases s.len(),
{
    if s.len() == 0 || is_ascii_whitespace(s[0]) {
        0
    } else {
        1 + word_len(s.drop_first())
    }
}

/// The words of `s`: its maximal runs of characters that are not whitespace,
/// from left to right.
pub open spec fn split_words(s: Seq<char>) -> Seq<Seq<char>>
    decreases s.len(),
    via split_words_decreases
{
    if s.len() == 0 {
        Seq::empty()
    } else if is_ascii_whitespace(s[0]) {
        split_words(s.drop_first())
    } else {
        let n = word_len(s) as int;
        seq![s.take(n)] + split_words(s.skip(n))
    }
}

/// A word ends inside the text, and is not empty where the text starts with
/// a character that is not whitespace.
pub proof fn lemma_word_len_bounds(s: Seq<char>)
    ensures
        word_len(s) <= s.len(),
        s.len() > 0 && !is_ascii_whitespace(s[0]) ==> word_len(s) >= 1,
    decreases s.len(),
{
    if s.len() > 0 && !is_ascii_whitespace(s[0]) {
        lemma_word_len_bounds(s.drop_first());
    }
}

#[via_fn]
proof fn split_words_decreases(s: Seq<char>) {
    lemma_word_len_bounds(s);
}

/// A run of characters without whitespace that ends where the text ends, or
/// just before a whitespace character, is a word in full.
proof fn lemma_word_len_of_run(run: Seq<char>, rest: Seq<char>)
    requires
        forall|k: int| 0 <= k < run.len() ==> !is_ascii_whitespace(#[trigger] run[k]),
        rest.len() == 0 || is_ascii_whitespace(rest[0]),
    ensures
        word_len(run + rest) == run.len(),
    decreases run.len(),
{
    if run.len() > 0 {
        assert((run + rest).drop_first() == run.drop_first() + rest);
        lemma_word_len_of_run(run.drop_first(), rest);
    }
}

/// A word that ends where the text ends, or just before a whitespace
/// character, is the first word of the text, and the other words are those
/// of what follows it.
proof fn lemma_split_after_word(run: Seq<char>, rest: Seq<char>)
    requires
        is_word(run),
        rest.len() == 0 || is_ascii_whitespace(rest[0]),
    ensures
        split_words(run + rest) == seq![run] + split_words(rest),
{
    let s = run + rest;
    lemma_word_len_of_run(run, rest);
    assert(s.take(run.len() as int) == run);
    assert(s.skip(run.len() as int) == rest);
}

/// The first `word_len` characters hold no whitespace, and the text ends
/// after them or goes on with a whitespace character.
pub proof fn lemma_word_len_is_maximal(s: Seq<char>)
    ensures
        forall|k: int| 0 <= k < word_len(s) ==> !is_ascii_whitespace(#[trigger] s[k]),
        word_len(s) == s.len() || is_ascii_whitespace(s[word_len(s) as int]),
    decreases s.len(),
{
    if s.len() > 0 && !is_ascii_whitespace(s[0]) {
        let t = s.drop_first();
        lemma_word_len_is_maximal(t);
        lemma_word_len_bounds(t);
        assert forall|k: int| 0 <= k < word_len(s) implies !is_ascii_whitespace(
            #[trigger] s[k],
        ) by {
            if k > 0 {
                assert(s[k] == t[k - 1]);
            }
        }
    }
}

/// Splitting gives words only.
pub proof fn lemma_split_words_are_words(s: Seq<char>)
    ensures
        forall|i: int| 0 <= i < split_words(s).len() ==> is_word(#[trigger] split_words(s)[i]),
    decreases s.len(),
{
    if s.len() == 0 {
    } else if is_ascii_whitespace(s[0]) {
        lemma_split_words_are_words(s.drop_first());
        assert(split_words(s) == split_words(s.drop_first()));
    } else {
        let n = word_len(s) as int;
        lemma_word_len_bounds(s);
        lemma_word_len_is_maximal(s);
        lemma_split_words_are_words(s.skip(n));
        assert(split_words(s) == seq![s.take(n)] + split_words(s.skip(n)));
    }
}

/// Splitting loses nothing but whitespace: the words, one after the other,
/// are the characters of the text that are not whitespace.
pub proof fn lemma_split_words_keep_text(s: Seq<char>)
    ensures
        split_words(s).flatten() == s.filter(|c: char| !is_ascii_whitespace(c)),
    decreases s.len(),
{
    let keep = |c: char| !is_ascii_whitespace(c);
    if s.len() == 0 {
        reveal(Seq::filter);
    } else if is_ascii_whitespace(s[0]) {
        lemma_split_words_keep_text(s.drop_first());
        s.drop_first().lemma_filter_prepend(s[0], keep);
        assert(seq![s[0]] + s.drop_first() == s);
    } else {
        let n = word_len(s) as int;
        lemma_word_len_bounds(s);
        lemma_word_len_is_maximal(s);
        lemma_split_words_keep_text(s.skip(n));
        let word = s.take(n);
        let others = split_words(s.skip(n));
        assert(s == word + s.skip(n));
        Seq::filter_distributes_over_add(word, s.skip(n), keep);
        lemma_filter_keeps_word(word);
        assert((seq![word] + others).drop_first() == others);
    }
}

/// A run without whitespace is left whole when whitespace is taken out.
proof fn lemma_filter_keeps_word(w: Seq<char>)
    requires
        forall|k: int| 0 <= k < w.len() ==> !is_ascii_whitespace(#[trigger] w[k]),
    ensures
        w.filter(|c: char| !is_ascii_whitespace(c)) == w,
    decreases w.len(),
{
    reveal(Seq::filter);
    if w.len() > 0 {
        lemma_filter_keeps_word(w.drop_last());
    }
}

fn to_ascii_uppercase(c: char) -> (r: char)
    ensures
        r == ascii_uppercase(c),
{
    if 'a' <= c && c <= 'z' {
        ((c as u8) - 32) as char
    } else {
        c
    }
}

fn ascii_whitespace(c: char) -> (r: bool)
    ensures
        r == is_ascii_whitespace(c),
{
    c == ' ' || c == '\t' || c == '\n' || c == '\x0C' || c == '\r'
}

/// The characters of `s` in ASCII upper case, logged as `"upcase "`.
pub fn upcase(s: String) -> (w: Writer<Vec<char>>)
    ensures
        w.0@ == s@.map_values(|c: char| ascii_uppercase(c)),
        w.1@ == "upcase "@,
{
    let mut upper: Vec<char> = Vec::new();
    let text = s.as_str();
    let chars = text.chars();
    proof {
        axiom_spec_iter(text);
    }
    for c in it: chars
        invariant
            it.seq() == s@,
            upper@ == s@.take(it.index()).map_values(|c: char| ascii_uppercase(c)),
    {
        upper.push(to_ascii_uppercase(c));
    }
    Writer(upper, String::from_str("upcase "))
}

/// `String::push` of the standard library appends the one character to the
/// end of the string.
pub assume_specification[ String::push ](s: &mut String, c: char)
    ensures
        final(s)@ == old(s)@.push(c),
;

/// The words of the text `chars`, split at ASCII whitespace, logged as
/// `"to_words "`.
pub fn to_words(chars: Vec<char>) -> (w: Writer<Vec<String>>)
    ensures
        w.0.deep_view() == split_words(chars@),
        w.1@ == "to_words "@,
{
    let mut words: Vec<String> = Vec::new();
    let mut word = String::new();
    let mut i: usize = 0;
    assert(word@ + chars@.skip(0) == chars@);
    while i < chars.len()
        invariant
            i <= chars.len(),
            forall|k: int| 0 <= k < word@.len() ==> !is_ascii_whitespace(#[trigger] word@[k]),
            split_words(chars@) == words.deep_view() + split_words(word@ + chars@.skip(i as int)),
        decreases chars.len() - i,
    {
        let c = chars[i];
        let ghost rest = chars@.skip(i as int);
        let ghost done = words.deep_view();
        assert(rest.drop_first() == chars@.skip(i + 1));
        if ascii_whitespace(c) {
            if !word.as_str().is_empty() {
                proof {
                    lemma_split_after_word(word@, rest);
                }
                let ghost run = word@;
                words.push(word);
                word = String::new();
                assert(done + (seq![run] + split_words(rest)) == (done + seq![run]) + split_words(
                    rest,
                ));
            }
        } else {
            let ghost before = word@;
            word.push(c);
            assert(word@ + rest.drop_first() == before + rest);
        }
        i += 1;
    }
    if !word.as_str().is_empty() {
        proof {
            lemma_split_after_word(word@, Seq::empty());
        }
        words.push(word);
    }
    Writer(words, String::from_str("to_words "))
}

} // verus!
