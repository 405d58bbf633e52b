//! Splitting a line into its first word and the rest.

use crate::text::{
    is_space, is_whitespace, lemma_trim_idempotent, lemma_trim_is_trimmed, to_chars, trim,
    trim_bounds,
};
use vstd::prelude::*;

verus! {

/// The length of the word that leads `s`: the number of characters before
/// the first white space, or all of them where there is none.
pub open spec fn word_len(s: Seq<char>) -> nat
    decreases s.len(),
{
    if s.len() == 0 || is_space(s[0]) {
        0
    } else {
        1 + word_len(s.drop_first())
    }
}

/// The word that leads `s`: all before the first white space. It is empty
/// where `s` is empty or starts with white space.
pub open spec fn head(s: Seq<char>) -> Seq<char> {
    s.take(word_len(s) as int)
}

/// What follows the leading word of `s`, trimmed.
pub open spec fn tail(s: Seq<char>) -> Seq<char> {
    trim(s.skip(word_len(s) as int))
}

/// The leading word ends within `s`.
pub proof fn lemma_word_len_bound(s: Seq<char>)
    ensures
        word_len(s) <= s.len(),
    decreases s.len(),
{
    if s.len() > 0 && !is_space(s[0]) {
        lemma_word_len_bound(s.drop_first());
    }
}

/// `k` is the length of the leading word where no white space stands before
/// `k` and `s` ends or has white space at `k`.
pub proof fn lemma_word_len_is(s: Seq<char>, k: int)
    requires
        0 <= k <= s.len(),
        forall|i: int| 0 <= i < k ==> !is_space(#[trigger] s[i]),
        k < s.len() ==> is_space(s[k]),
    ensures
        word_len(s) == k,
    decreases k,
{
    if k > 0 {
        let t = s.drop_first();
        assert forall|i: int| 0 <= i < k - 1 implies !is_space(#[trigger] t[i]) by {
            assert(t[i] == s[i + 1]);
        }
        lemma_word_len_is(t, k - 1);
    }
}

/// The leading word holds no white space.
pub proof fn lemma_head_has_no_space(s: Seq<char>)
    ensures
        forall|i: int| 0 <= i < head(s).len() ==> !is_space(#[trigger] head(s)[i]),
    decreases s.len(),
{
    lemma_word_len_bound(s);
    if s.len() > 0 && !is_space(s[0]) {
        let t = s.drop_first();
        lemma_head_has_no_space(t);
        lemma_word_len_bound(t);
        assert forall|i: int| 0 <= i < head(s).len() implies !is_space(#[trigger] head(s)[i]) by {
            if i > 0 {
                assert(head(s)[i] == head(t)[i - 1]);
            }
        }
    }
}

/// Text without white space is one word, with nothing after it.
pub proof fn lemma_one_word(s: Seq<char>)
    requires
        forall|i: int| 0 <= i < s.len() ==> !is_space(#[trigger] s[i]),
    ensures
        head(s) == s,
        tail(s) == Seq::<char>::empty(),
{
    lemma_word_len_is(s, s.len() as int);
    assert(s.take(s.len() as int) =~= s);
    assert(s.skip(s.len() as int) =~= Seq::<char>::empty());
}

/// What follows the leading word neither starts nor ends with white space:
/// trimming it again changes nothing.
pub proof fn lemma_tail_is_trimmed(s: Seq<char>)
    ensures
        trim(tail(s)) == tail(s),
{
    lemma_trim_idempotent(s.skip(word_len(s) as int));
}

/// Text that is not empty and does not start with white space has a
/// leading word.
pub proof fn lemma_head_nonempty(s: Seq<char>)
    requires
        s.len() > 0,
        !is_space(s[0]),
    ensures
        head(s).len() > 0,
{
    lemma_word_len_bound(s);
}

/// Where there is a leading word, what follows it is shorter than the
/// text.
pub proof fn lemma_tail_shorter(s: Seq<char>)
    ensures
        tail(s).len() <= s.len(),
        head(s).len() > 0 ==> tail(s).len() < s.len(),
{
    lemma_word_len_bound(s);
    lemma_trim_is_trimmed(s.skip(word_len(s) as int));
}

/// Splits `input` at its first white space: the word before it, and what
/// follows it without surrounding white space. Where `input` holds no white
/// space the word is all of `input` and the rest is empty.
pub fn split_input(input: &str) -> (parts: (&str, &str))
    ensures
        parts.0@ == head(input@),
        parts.1@ == tail(input@),
{
    let v = to_chars(input);
    let mut n: usize = 0;
    while n < v.len() && !is_whitespace(v[n])
        invariant
            n <= v.len(),
            forall|i: int| 0 <= i < n ==> !is_space(#[trigger] v@[i]),
        decreases v.len() - n,
    {
        n += 1;
    }
    proof {
        lemma_word_len_is(v@, n as int);
    }
    let (start, end) = trim_bounds(&v, n);
    (input.substring_char(0, n), input.substring_char(start, end))
}

} // verus!
