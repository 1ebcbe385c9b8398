//! Byte strings cut at a marking byte.

use vstd::prelude::*;

verus! {

/// Whether `bytes` holds no `mark`.
pub open spec fn free_of(bytes: Seq<u8>, mark: u8) -> bool {
    forall|i: int| 0 <= i < bytes.len() ==> bytes[i] != mark
}

/// The position of the first `mark` in `bytes`, or its length if it holds none.
pub open spec fn first_mark(bytes: Seq<u8>, mark: u8) -> int
    decreases bytes.len(),
{
    if bytes.len() == 0 || bytes[0] == mark {
        0
    } else {
        1 + first_mark(bytes.skip(1), mark)
    }
}

/// `first_mark` is the first position that holds the mark.
pub proof fn lemma_first_mark(bytes: Seq<u8>, mark: u8, end: int)
    requires
        0 <= end <= bytes.len(),
        free_of(bytes.subrange(0, end), mark),
        end < bytes.len() ==> bytes[end] == mark,
    ensures
        first_mark(bytes, mark) == end,
    decreases end,
{
    if end == 0 {
    } else {
        assert(bytes.subrange(0, end)[0] != mark);
        let rest = bytes.skip(1);
        let head = rest.subrange(0, end - 1);
        assert forall|i: int| 0 <= i < head.len() implies #[trigger] head[i] != mark by {
            assert(head[i] == bytes.subrange(0, end)[i + 1]);
        }
        lemma_first_mark(rest, mark, end - 1);
    }
}

/// Before `first_mark` there is no mark, and at it there is one unless the
/// text has run out.
pub proof fn lemma_first_mark_finds(bytes: Seq<u8>, mark: u8)
    ensures
        0 <= first_mark(bytes, mark) <= bytes.len(),
        free_of(bytes.subrange(0, first_mark(bytes, mark)), mark),
        first_mark(bytes, mark) < bytes.len() ==> bytes[first_mark(bytes, mark)] == mark,
    decreases bytes.len(),
{
    if bytes.len() == 0 || bytes[0] == mark {
    } else {
        let rest = bytes.skip(1);
        lemma_first_mark_finds(rest, mark);
        let k = first_mark(rest, mark);
        let head = bytes.subrange(0, k + 1);
        assert forall|i: int| 0 <= i < head.len() implies #[trigger] head[i] != mark by {
            if i > 0 {
                assert(head[i] == rest.subrange(0, k)[i - 1]);
            }
        }
    }
}

/// The pieces of `bytes` between the `mark`s, in order. There is always at
/// least one piece: a text without a mark is one piece, even if empty.
pub open spec fn pieces(bytes: Seq<u8>, mark: u8) -> Seq<Seq<u8>>
    decreases bytes.len(),
{
    let end = first_mark(bytes, mark);
    if 0 <= end < bytes.len() {
        seq![bytes.subrange(0, end)] + pieces(bytes.skip(end + 1), mark)
    } else {
        seq![bytes]
    }
}

/// The views of a list of byte strings.
pub open spec fn each_view(list: Seq<Vec<u8>>) -> Seq<Seq<u8>> {
    Seq::new(list.len(), |i: int| list[i]@)
}

/// A copy of `bytes`.
pub fn copy_bytes(bytes: &[u8]) -> (copy: Vec<u8>)
    ensures
        copy@ == bytes@,
{
    let mut copy: Vec<u8> = Vec::new();
    let mut i: usize = 0;
    while i < bytes.len()
        invariant
            i <= bytes.len(),
            copy@ == bytes@.subrange(0, i as int),
        decreases bytes.len() - i,
    {
        copy.push(bytes[i]);
        i += 1;
        assert(copy@ =~= bytes@.subrange(0, i as int));
    }
    assert(bytes@.subrange(0, bytes.len() as int) =~= bytes@);
    copy
}

/// Cuts `text` at every `mark`.
pub fn split(text: &[u8], mark: u8) -> (parts: Vec<Vec<u8>>)
    ensures
        each_view(parts@) == pieces(text@, mark),
{
    let mut parts: Vec<Vec<u8>> = Vec::new();
    let mut part: Vec<u8> = Vec::new();
    let mut start: usize = 0;
    let mut i: usize = 0;
    assert(text@.skip(0) =~= text@);
    assert(each_view(parts@) =~= Seq::<Seq<u8>>::empty());
    assert(Seq::<Seq<u8>>::empty() + pieces(text@, mark) =~= pieces(text@, mark));
    while i < text.len()
        invariant
            start <= i <= text.len(),
            part@ == text@.subrange(start as int, i as int),
            free_of(part@, mark),
            pieces(text@, mark) == each_view(parts@) + pieces(text@.skip(start as int), mark),
        decreases text.len() - i,
    {
        let byte: u8 = text[i];
        if byte == mark {
            proof {
                let tail = text@.skip(start as int);
                let end = i - start;
                assert(tail.subrange(0, end) =~= part@);
                lemma_first_mark(tail, mark, end);
                assert(tail.skip(end + 1) =~= text@.skip(i + 1));
                assert(pieces(tail, mark) == seq![part@] + pieces(text@.skip(i + 1), mark));
                assert(each_view(parts@.push(part)) =~= each_view(parts@) + seq![part@]);
                assert(each_view(parts@) + (seq![part@] + pieces(text@.skip(i + 1), mark)) =~= each_view(
                    parts@.push(part),
                ) + pieces(text@.skip(i + 1), mark));
            }
            parts.push(part);
            part = Vec::new();
            start = i + 1;
            i += 1;
            assert(part@ =~= text@.subrange(start as int, i as int));
        } else {
            part.push(byte);
            i += 1;
            assert(part@ =~= text@.subrange(start as int, i as int));
        }
    }
    proof {
        let tail = text@.skip(start as int);
        assert(tail.subrange(0, tail.len() as int) =~= part@);
        assert(tail =~= part@);
        lemma_first_mark(tail, mark, tail.len() as int);
        assert(pieces(tail, mark) == seq![tail]);
        assert(each_view(parts@.push(part)) =~= each_view(parts@) + seq![part@]);
    }
    parts.push(part);
    parts
}

} // verus!
