//! Index lists as they are written on the command line: decimal numbers
//! with commas between them, such as `0,2`. The empty text is the empty list.

use vstd::prelude::*;
use crate::bytes::{each_view, pieces, split};

verus! {

/// The byte between two indices.
pub const COMMA: u8 = 44;

/// Whether `byte` is one of `0` to `9`.
pub open spec fn is_digit(byte: u8) -> bool {
    48 <= byte <= 57
}

/// Whether `text` holds digits only.
pub open spec fn all_digits(text: Seq<u8>) -> bool {
    forall|i: int| 0 <= i < text.len() ==> is_digit(#[trigger] text[i])
}

/// The number that the digits of `text` write.
pub open spec fn decimal(text: Seq<u8>) -> int
    decreases text.len(),
{
    if text.len() == 0 {
        0
    } else {
        decimal(text.drop_last()) * 10 + (text.last() - 48)
    }
}

/// Whether `text` writes an index: one digit or more, and a number that fits.
pub open spec fn is_index(text: Seq<u8>) -> bool {
    text.len() > 0 && all_digits(text) && decimal(text) <= usize::MAX
}

/// Whether `text` is an index list.
pub open spec fn is_index_list(text: Seq<u8>) -> bool {
    text.len() == 0 || forall|i: int| 0 <= i < pieces(text, COMMA).len() ==> is_index(#[trigger] pieces(text, COMMA)[i])
}

/// The indices that the index list `text` holds.
pub open spec fn indices_of(text: Seq<u8>) -> Seq<usize> {
    if text.len() == 0 {
        Seq::empty()
    } else {
        Seq::new(pieces(text, COMMA).len(), |i: int| decimal(pieces(text, COMMA)[i]) as usize)
    }
}

/// A number does not get smaller when digits are written behind it.
pub proof fn lemma_decimal_grows(text: Seq<u8>, k: int)
    requires
        0 <= k <= text.len(),
        all_digits(text),
    ensures
        0 <= decimal(text.subrange(0, k)) <= decimal(text),
    decreases text.len() - k,
{
    if k == text.len() {
        assert(text.subrange(0, k) =~= text);
        lemma_decimal_positive(text);
    } else {
        let front = text.drop_last();
        assert(front.subrange(0, k) =~= text.subrange(0, k));
        assert(is_digit(text[text.len() - 1]));
        lemma_decimal_grows(front, k);
    }
}

/// Digits write no negative number.
pub proof fn lemma_decimal_positive(text: Seq<u8>)
    requires
        all_digits(text),
    ensures
        0 <= decimal(text),
    decreases text.len(),
{
    if text.len() > 0 {
        assert(is_digit(text[text.len() - 1]));
        lemma_decimal_positive(text.drop_last());
    }
}

/// Reads one index.
pub fn parse_index(text: &[u8]) -> (index: Option<usize>)
    ensures
        is_index(text@) <==> index is Some,
        index is Some ==> index->Some_0 == decimal(text@),
{
    if text.len() == 0 {
        return None;
    }
    let mut value: usize = 0;
    let mut i: usize = 0;
    assert(text@.subrange(0, 0) =~= Seq::<u8>::empty());
    while i < text.len()
        invariant
            i <= text.len(),
            all_digits(text@.subrange(0, i as int)),
            value == decimal(text@.subrange(0, i as int)),
        decreases text.len() - i,
    {
        let byte: u8 = text[i];
        if byte < 48 || byte > 57 {
            assert(!is_digit(text@[i as int]));
            return None;
        }
        let digit: usize = (byte - 48) as usize;
        proof {
            let next = text@.subrange(0, i + 1);
            assert(next.drop_last() =~= text@.subrange(0, i as int));
            assert(next.last() == byte);
            assert forall|j: int| 0 <= j < next.len() implies is_digit(#[trigger] next[j]) by {
                if j < i {
                    assert(next[j] == text@.subrange(0, i as int)[j]);
                }
            }
        }
        if value > (usize::MAX - digit) / 10 {
            proof {
                if all_digits(text@) {
                    lemma_decimal_grows(text@, i + 1);
                }
            }
            return None;
        }
        value = value * 10 + digit;
        i += 1;
    }
    assert(text@.subrange(0, text.len() as int) =~= text@);
    Some(value)
}

/// Reads an index list. Gives nothing if `text` is not one.
pub fn parse_index_list(text: &[u8]) -> (indices: Option<Vec<usize>>)
    ensures
        is_index_list(text@) <==> indices is Some,
        indices is Some ==> indices->Some_0@ == indices_of(text@),
{
    let mut indices: Vec<usize> = Vec::new();
    if text.len() == 0 {
        assert(indices@ =~= indices_of(text@));
        return Some(indices);
    }
    let parts = split(text, COMMA);
    let ghost fields = pieces(text@, COMMA);
    let mut k: usize = 0;
    while k < parts.len()
        invariant
            k <= parts.len(),
            text@.len() > 0,
            fields == pieces(text@, COMMA),
            each_view(parts@) == fields,
            indices@.len() == k,
            forall|j: int| 0 <= j < k ==> is_index(#[trigger] fields[j]) && indices@[j] == decimal(fields[j]),
        decreases parts.len() - k,
    {
        assert(each_view(parts@)[k as int] == parts@[k as int]@);
        match parse_index(parts[k].as_slice()) {
            Some(index) => {
                indices.push(index);
            },
            None => {
                assert(!is_index(fields[k as int]));
                return None;
            },
        }
        k += 1;
    }
    assert(each_view(parts@).len() == parts@.len());
    assert(indices@ =~= indices_of(text@));
    Some(indices)
}

} // verus!
