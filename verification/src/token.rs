//! Comma-separated header values and the items they list.

use vstd::prelude::*;
use vstd::slice::slice_subrange;
use crate::ascii::{
    eq_ignore_ascii_case, eq_ignore_case, lemma_eq_ignore_case_equivalence,
    lemma_eq_ignore_case_same_matches, lemma_lower_keeps_class, lemma_trimmed_ignores_case, lower,
    trim, trimmed,
};

verus! {

/// The byte that separates the items of a list.
pub open spec fn comma() -> u8 {
    ',' as u8
}

/// `value[i..j]` is one item of the list: it runs from the start of the value
/// or from just behind a comma up to the next comma or to the end.
pub open spec fn is_item(value: Seq<u8>, i: int, j: int) -> bool {
    &&& 0 <= i <= j <= value.len()
    &&& (i == 0 || value[i - 1] == comma())
    &&& (j == value.len() || value[j] == comma())
    &&& forall|k: int| i <= k < j ==> value[k] != comma()
}

/// `value[i..j]` is an item of the list that, once trimmed, reads `word` in
/// some mix of upper and lower case.
pub open spec fn item_reads(value: Seq<u8>, i: int, j: int, word: Seq<u8>) -> bool {
    is_item(value, i, j) && eq_ignore_case(trimmed(value.subrange(i, j)), word)
}

/// Some item of the comma-separated `value` reads `word`.
pub open spec fn has_token(value: Seq<u8>, word: Seq<u8>) -> bool {
    exists|i: int, j: int| item_reads(value, i, j, word)
}

/// Looks for `word` among the items of a comma-separated value. Items are
/// trimmed and compared without regard to case; empty items match nothing
/// but an empty word.
pub fn contains_token(value: &[u8], word: &[u8]) -> (found: bool)
    ensures
        found == has_token(value@, word@),
{
    let mut start: usize = 0;
    loop
        invariant
            0 <= start <= value@.len(),
            start == 0 || value@[start - 1] == comma(),
            forall|i: int, j: int| 0 <= i < start ==> !#[trigger] item_reads(value@, i, j, word@),
        decreases value@.len() - start,
    {
        let mut end: usize = start;
        while end < value.len() && value[end] != ',' as u8
            invariant
                start <= end <= value@.len(),
                forall|k: int| start <= k < end ==> value@[k] != comma(),
            decreases value@.len() - end,
        {
            end += 1;
        }
        assert(is_item(value@, start as int, end as int));
        let item = trim(slice_subrange(value, start, end));
        if eq_ignore_ascii_case(item, word) {
            assert(item_reads(value@, start as int, end as int, word@));
            return true;
        }
        assert forall|i: int, j: int| start <= i <= end implies !#[trigger] item_reads(
            value@,
            i,
            j,
            word@,
        ) by {
            if is_item(value@, i, j) {
                if i > start {
                    assert(value@[i - 1] == comma());
                } else if j < end {
                    assert(value@[j] == comma());
                } else if j > end {
                    assert(value@[end as int] == comma());
                }
            }
        }
        if end == value.len() {
            return false;
        }
        start = end + 1;
    }
}

/// A value that holds nothing but `word`, in any case and with whitespace
/// around it, lists `word`.
pub proof fn lemma_single_item(value: Seq<u8>, word: Seq<u8>)
    requires
        eq_ignore_case(trimmed(value), word),
        forall|k: int| 0 <= k < value.len() ==> value[k] != comma(),
    ensures
        has_token(value, word),
{
    assert(value.subrange(0, value.len() as int) == value);
    assert(item_reads(value, 0, value.len() as int, word));
}

/// An item stays an item when more items are put before and after it: if
/// `item` holds no comma and reads `word`, then `before , item , after`
/// lists `word`, whatever `before` and `after` hold.
pub proof fn lemma_item_among_others(
    before: Seq<u8>,
    item: Seq<u8>,
    after: Seq<u8>,
    word: Seq<u8>,
)
    requires
        eq_ignore_case(trimmed(item), word),
        forall|k: int| 0 <= k < item.len() ==> item[k] != comma(),
    ensures
        has_token(before + seq![comma()] + item + seq![comma()] + after, word),
        has_token(before + seq![comma()] + item, word),
        has_token(item + seq![comma()] + after, word),
        has_token(item, word),
{
    let i: int = before.len() as int + 1;
    let j: int = i + item.len();
    let both = before + seq![comma()] + item + seq![comma()] + after;
    assert(both.subrange(i, j) == item);
    assert(item_reads(both, i, j, word));
    let left = before + seq![comma()] + item;
    assert(left.subrange(i, j) == item);
    assert(item_reads(left, i, j, word));
    let right = item + seq![comma()] + after;
    assert(right.subrange(0, item.len() as int) == item);
    assert(item_reads(right, 0, item.len() as int, word));
    lemma_single_item(item, word);
}

/// Whether a value lists a word does not depend on the case of the value.
pub proof fn lemma_has_token_ignores_case(a: Seq<u8>, b: Seq<u8>, word: Seq<u8>)
    requires
        eq_ignore_case(a, b),
    ensures
        has_token(a, word) == has_token(b, word),
{
    lemma_eq_ignore_case_equivalence(a, b, b);
    lemma_has_token_carries_over(a, b, word);
    lemma_has_token_carries_over(b, a, word);
}

proof fn lemma_has_token_carries_over(a: Seq<u8>, b: Seq<u8>, word: Seq<u8>)
    requires
        eq_ignore_case(a, b),
    ensures
        has_token(a, word) ==> has_token(b, word),
{
    if has_token(a, word) {
        let (i, j) = choose|i: int, j: int| item_reads(a, i, j, word);
        assert forall|k: int|
            #![trigger a[k]]
            #![trigger b[k]]
            0 <= k < a.len() implies ((a[k] == comma()) == (b[k] == comma())) by {
            assert(lower(a[k]) == lower(b[k]));
            lemma_lower_keeps_class(a[k], b[k], comma());
        }
        assert(is_item(b, i, j));
        assert forall|k: int| 0 <= k < j - i implies lower(#[trigger] a.subrange(i, j)[k])
            == lower(b.subrange(i, j)[k]) by {
            assert(lower(a[i + k]) == lower(b[i + k]));
        }
        lemma_trimmed_ignores_case(a.subrange(i, j), b.subrange(i, j));
        lemma_eq_ignore_case_same_matches(
            trimmed(a.subrange(i, j)),
            trimmed(b.subrange(i, j)),
            word,
        );
        assert(item_reads(b, i, j, word));
    }
}

} // verus!
