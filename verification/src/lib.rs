//! Operations over borrowed text views: extracting the first word of a
//! string and selecting the longer of two strings by byte length.

use vstd::prelude::*;
use vstd::string::StringSliceAdditionalSpecFns;

verus! {

/// The longest leading part of `s` that contains no space character:
/// everything up to (not including) the first space, or all of `s`
/// if it has no space.
pub open spec fn first_word_spec(s: Seq<char>) -> Seq<char>
    decreases s.len(),
{
    if s.len() == 0 {
        s
    } else if s[0] == ' ' {
        Seq::empty()
    } else {
        seq![s[0]] + first_word_spec(s.skip(1))
    }
}

/// When the first `i` characters of `s` are not spaces and position `i`
/// is a space or the end of `s`, the first word is exactly `s[..i]`.
proof fn lemma_first_word_take(s: Seq<char>, i: int)
    requires
        0 <= i <= s.len(),
        forall|j: int| 0 <= j < i ==> s[j] != ' ',
        i < s.len() ==> s[i] == ' ',
    ensures
        first_word_spec(s) == s.subrange(0, i),
    decreases s.len(),
{
    if i == 0 {
        assert(first_word_spec(s) =~= s.subrange(0, 0));
    } else {
        assert(forall|j: int| 0 <= j < i - 1 ==> s.skip(1)[j] == s[j + 1]);
        lemma_first_word_take(s.skip(1), i - 1);
        assert(seq![s[0]] + s.skip(1).subrange(0, i - 1) =~= s.subrange(0, i));
    }
}

/// A text that contains no space is its own first word.
pub proof fn lemma_first_word_no_space(s: Seq<char>)
    requires
        forall|j: int| 0 <= j < s.len() ==> s[j] != ' ',
    ensures
        first_word_spec(s) == s,
{
    lemma_first_word_take(s, s.len() as int);
    assert(s.subrange(0, s.len() as int) =~= s);
}

/// For text of the form `<word> <rest>`, where the word holds no space,
/// the first word is exactly that word.
pub proof fn lemma_first_word_before_space(w: Seq<char>, rest: Seq<char>)
    requires
        forall|j: int| 0 <= j < w.len() ==> w[j] != ' ',
    ensures
        first_word_spec(w + seq![' '] + rest) == w,
{
    let s = w + seq![' '] + rest;
    assert forall|j: int| 0 <= j < w.len() implies s[j] != ' ' by {
        assert(s[j] == w[j]);
    }
    assert(s[w.len() as int] == ' ');
    lemma_first_word_take(s, w.len() as int);
    assert(s.subrange(0, w.len() as int) =~= w);
}

/// Returns the longest leading subview of `s` that contains no space.
pub fn first_word<'a>(s: &'a str) -> (r: &'a str)
    ensures
        r@ == first_word_spec(s@),
{
    let n: usize = s.unicode_len();
    let mut i: usize = 0;
    while i < n
        invariant
            i <= n,
            n as nat == s@.len(),
            forall|j: int| 0 <= j < i ==> s@[j] != ' ',
        decreases n - i,
    {
        let c: char = s.get_char(i);
        if c == ' ' {
            proof {
                lemma_first_word_take(s@, i as int);
            }
            return s.substring_char(0, i);
        }
        i = i + 1;
    }
    proof {
        lemma_first_word_take(s@, s@.len() as int);
        assert(s@.subrange(0, s@.len() as int) =~= s@);
    }
    s
}

/// Returns the longer of the two input views, measured in bytes.
/// On a tie, the second input is returned.
pub fn longest<'a>(x: &'a str, y: &'a str) -> (r: &'a str)
    ensures
        x.spec_bytes().len() > y.spec_bytes().len() ==> r@ == x@,
        x.spec_bytes().len() <= y.spec_bytes().len() ==> r@ == y@,
{
    let xb: &[u8] = x.as_bytes();
    let yb: &[u8] = y.as_bytes();
    if xb.len() > yb.len() {
        x
    } else {
        y
    }
}

} // verus!
