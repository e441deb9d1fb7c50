//! Byte strings read as ASCII text: case folding, whitespace, trimming.

use vstd::prelude::*;
use vstd::slice::slice_subrange;
use vstd::string::is_ascii_spec_bytes;
use vstd::utf8::{encode_utf8, is_ascii_chars};

verus! {

/// The bytes of a text whose characters are all ASCII.
pub open spec fn ascii(text: Seq<char>) -> Seq<u8> {
    Seq::new(text.len(), |i: int| text[i] as u8)
}

/// The lower-case form of an ASCII letter; any other byte is left as it is.
pub open spec fn lower(b: u8) -> u8 {
    if 'A' as u8 <= b && b <= 'Z' as u8 {
        (b + 32) as u8
    } else {
        b
    }
}

/// Two byte strings are equal up to the case of their ASCII letters.
pub open spec fn eq_ignore_case(a: Seq<u8>, b: Seq<u8>) -> bool {
    &&& a.len() == b.len()
    &&& forall|i: int| 0 <= i < a.len() ==> lower(#[trigger] a[i]) == lower(b[i])
}

/// ASCII whitespace: space, tab, line feed, form feed, carriage return.
pub open spec fn is_space(b: u8) -> bool {
    b == ' ' as u8 || b == '\t' as u8 || b == '\n' as u8 || b == 0x0c || b == '\r' as u8
}

/// `s` without its leading whitespace.
pub open spec fn trim_start(s: Seq<u8>) -> Seq<u8>
    decreases s.len(),
{
    if s.len() > 0 && is_space(s.first()) {
        trim_start(s.drop_first())
    } else {
        s
    }
}

/// `s` without its trailing whitespace.
pub open spec fn trim_end(s: Seq<u8>) -> Seq<u8>
    decreases s.len(),
{
    if s.len() > 0 && is_space(s.last()) {
        trim_end(s.drop_last())
    } else {
        s
    }
}

/// `s` without the whitespace at either end.
pub open spec fn trimmed(s: Seq<u8>) -> Seq<u8> {
    trim_end(trim_start(s))
}

/// The bytes of a text in UTF-8. For a text of ASCII characters they are
/// its characters, one byte each.
pub fn ascii_bytes(text: &str) -> (bytes: &[u8])
    ensures
        bytes@ == encode_utf8(text@),
        is_ascii_chars(text@) ==> bytes@ == ascii(text@),
{
    proof {
        is_ascii_spec_bytes(text);
    }
    text.as_bytes()
}

/// Compares two byte strings byte for byte.
pub fn eq_bytes(a: &[u8], b: &[u8]) -> (r: bool)
    ensures
        r == (a@ == b@),
{
    if a.len() != b.len() {
        return false;
    }
    let mut i: usize = 0;
    while i < a.len()
        invariant
            a@.len() == b@.len(),
            0 <= i <= a@.len(),
            forall|k: int| 0 <= k < i ==> a@[k] == b@[k],
        decreases a@.len() - i,
    {
        if a[i] != b[i] {
            return false;
        }
        i += 1;
    }
    assert(a@ =~= b@);
    true
}

/// Folds one byte to lower case.
pub fn to_lower(b: u8) -> (r: u8)
    ensures
        r == lower(b),
{
    if 'A' as u8 <= b && b <= 'Z' as u8 {
        b + 32
    } else {
        b
    }
}

/// Tells whether a byte is ASCII whitespace.
pub fn is_ascii_space(b: u8) -> (r: bool)
    ensures
        r == is_space(b),
{
    b == ' ' as u8 || b == '\t' as u8 || b == '\n' as u8 || b == 0x0c || b == '\r' as u8
}

/// Compares two byte strings without regard to the case of ASCII letters.
pub fn eq_ignore_ascii_case(a: &[u8], b: &[u8]) -> (r: bool)
    ensures
        r == eq_ignore_case(a@, b@),
{
    if a.len() != b.len() {
        return false;
    }
    let mut i: usize = 0;
    while i < a.len()
        invariant
            a@.len() == b@.len(),
            0 <= i <= a@.len(),
            forall|k: int| 0 <= k < i ==> lower(#[trigger] a@[k]) == lower(b@[k]),
        decreases a@.len() - i,
    {
        if to_lower(a[i]) != to_lower(b[i]) {
            return false;
        }
        i += 1;
    }
    true
}

/// Strips the whitespace at both ends of a byte string.
pub fn trim(s: &[u8]) -> (r: &[u8])
    ensures
        r@ == trimmed(s@),
{
    let mut start: usize = 0;
    assert(s@.skip(0) == s@);
    while start < s.len() && is_ascii_space(s[start])
        invariant
            0 <= start <= s@.len(),
            trim_start(s@) == trim_start(s@.skip(start as int)),
        decreases s@.len() - start,
    {
        assert(s@.skip(start as int).drop_first() == s@.skip(start + 1));
        start += 1;
    }
    let ghost rest = s@.skip(start as int);
    assert(rest == s@.subrange(start as int, s@.len() as int));
    let mut end: usize = s.len();
    while end > start && is_ascii_space(s[end - 1])
        invariant
            start <= end <= s@.len(),
            trim_end(rest) == trim_end(s@.subrange(start as int, end as int)),
        decreases end,
    {
        assert(s@.subrange(start as int, end as int).drop_last() == s@.subrange(
            start as int,
            end - 1,
        ));
        end -= 1;
    }
    slice_subrange(s, start, end)
}

/// Comparison without regard to case is an equivalence: every string
/// matches itself, matching goes both ways, and it carries over a middle
/// term.
pub proof fn lemma_eq_ignore_case_equivalence(a: Seq<u8>, b: Seq<u8>, c: Seq<u8>)
    ensures
        eq_ignore_case(a, a),
        eq_ignore_case(a, b) == eq_ignore_case(b, a),
        eq_ignore_case(a, b) && eq_ignore_case(b, c) ==> eq_ignore_case(a, c),
{
    if eq_ignore_case(a, b) {
        assert forall|i: int| 0 <= i < b.len() implies lower(#[trigger] b[i]) == lower(a[i]) by {
            assert(lower(a[i]) == lower(b[i]));
        }
        if eq_ignore_case(b, c) {
            assert forall|i: int| 0 <= i < a.len() implies lower(#[trigger] a[i]) == lower(
                c[i],
            ) by {
                assert(lower(a[i]) == lower(b[i]));
                assert(lower(b[i]) == lower(c[i]));
            }
        }
    }
    if eq_ignore_case(b, a) {
        assert forall|i: int| 0 <= i < a.len() implies lower(#[trigger] a[i]) == lower(b[i]) by {
            assert(lower(b[i]) == lower(a[i]));
        }
    }
}

/// Two strings that match without regard to case match the same strings.
pub proof fn lemma_eq_ignore_case_same_matches(a: Seq<u8>, b: Seq<u8>, word: Seq<u8>)
    requires
        eq_ignore_case(a, b),
    ensures
        eq_ignore_case(a, word) == eq_ignore_case(b, word),
{
    lemma_eq_ignore_case_equivalence(a, b, word);
    lemma_eq_ignore_case_equivalence(b, a, word);
}

/// Case folding touches letters only: two bytes with the same lower-case
/// form are both whitespace or neither, and both the same punctuation mark
/// or neither.
pub proof fn lemma_lower_keeps_class(a: u8, b: u8, mark: u8)
    requires
        lower(a) == lower(b),
        !('A' as u8 <= mark && mark <= 'Z' as u8),
        !('a' as u8 <= mark && mark <= 'z' as u8),
    ensures
        is_space(a) == is_space(b),
        (a == mark) == (b == mark),
{
}

/// Trimming commutes with changes of case: strings that match without
/// regard to case still do once they are trimmed.
pub proof fn lemma_trimmed_ignores_case(a: Seq<u8>, b: Seq<u8>)
    requires
        eq_ignore_case(a, b),
    ensures
        eq_ignore_case(trimmed(a), trimmed(b)),
{
    lemma_trim_start_ignores_case(a, b);
    lemma_trim_end_ignores_case(trim_start(a), trim_start(b));
}

proof fn lemma_trim_start_ignores_case(a: Seq<u8>, b: Seq<u8>)
    requires
        eq_ignore_case(a, b),
    ensures
        eq_ignore_case(trim_start(a), trim_start(b)),
    decreases a.len(),
{
    if a.len() > 0 {
        assert(lower(a[0]) == lower(b[0]));
        lemma_lower_keeps_class(a[0], b[0], 0);
        if is_space(a.first()) {
            assert forall|i: int| 0 <= i < a.drop_first().len() implies lower(
                #[trigger] a.drop_first()[i],
            ) == lower(b.drop_first()[i]) by {
                assert(lower(a[i + 1]) == lower(b[i + 1]));
            }
            lemma_trim_start_ignores_case(a.drop_first(), b.drop_first());
        }
    }
}

proof fn lemma_trim_end_ignores_case(a: Seq<u8>, b: Seq<u8>)
    requires
        eq_ignore_case(a, b),
    ensures
        eq_ignore_case(trim_end(a), trim_end(b)),
    decreases a.len(),
{
    if a.len() > 0 {
        assert(lower(a[a.len() - 1]) == lower(b[a.len() - 1]));
        lemma_lower_keeps_class(a[a.len() - 1], b[a.len() - 1], 0);
        if is_space(a.last()) {
            assert forall|i: int| 0 <= i < a.drop_last().len() implies lower(
                #[trigger] a.drop_last()[i],
            ) == lower(b.drop_last()[i]) by {
                assert(lower(a[i]) == lower(b[i]));
            }
            lemma_trim_end_ignores_case(a.drop_last(), b.drop_last());
        }
    }
}

} // verus!
