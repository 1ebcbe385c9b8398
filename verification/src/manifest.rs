//! The manifest: one setup path per line, in index order.
//!
//! Every path is written followed by a line feed. When reading, a final
//! line without a line feed still counts, and an empty manifest holds no
//! entry. Paths are handled as the bytes of their UTF-8 text.

use vstd::prelude::*;
use crate::bytes::{each_view, first_mark, free_of, lemma_first_mark, lemma_first_mark_finds};

verus! {

/// The byte that ends a line.
pub const LINE_FEED: u8 = 10;

/// The views of a list of paths.
pub open spec fn paths_view(paths: Seq<Vec<u8>>) -> Seq<Seq<u8>> {
    each_view(paths)
}

/// Whether `path` can stand on one line of a manifest.
pub open spec fn single_line(path: Seq<u8>) -> bool {
    free_of(path, LINE_FEED)
}

/// Whether every one of `entries` can stand on one line of a manifest.
pub open spec fn all_single_line(entries: Seq<Seq<u8>>) -> bool {
    forall|i: int| 0 <= i < entries.len() ==> single_line(#[trigger] entries[i])
}

/// The manifest text of `entries`: each path, then a line feed.
pub open spec fn rendered(entries: Seq<Seq<u8>>) -> Seq<u8>
    decreases entries.len(),
{
    if entries.len() == 0 {
        Seq::empty()
    } else {
        rendered(entries.drop_last()) + entries.last().push(LINE_FEED)
    }
}

/// The lines of a manifest text, in order.
pub open spec fn parsed(bytes: Seq<u8>) -> Seq<Seq<u8>>
    decreases bytes.len(),
{
    if bytes.len() == 0 {
        Seq::empty()
    } else {
        let end = first_mark(bytes, LINE_FEED);
        if 0 <= end < bytes.len() {
            seq![bytes.subrange(0, end)] + parsed(bytes.skip(end + 1))
        } else {
            seq![bytes]
        }
    }
}

/// The manifest text of a non-empty list starts with its first path.
pub proof fn lemma_rendered_front(entries: Seq<Seq<u8>>)
    requires
        entries.len() > 0,
    ensures
        rendered(entries) == entries[0].push(LINE_FEED) + rendered(entries.skip(1)),
    decreases entries.len(),
{
    if entries.len() == 1 {
        assert(entries.drop_last() =~= Seq::<Seq<u8>>::empty());
        assert(entries.skip(1) =~= Seq::<Seq<u8>>::empty());
        assert(rendered(entries.drop_last()) =~= Seq::<u8>::empty());
        assert(rendered(entries) =~= entries[0].push(LINE_FEED) + rendered(entries.skip(1)));
    } else {
        let front = entries.drop_last();
        lemma_rendered_front(front);
        assert(front.skip(1) =~= entries.skip(1).drop_last());
        assert(entries.skip(1).last() == entries.last());
        assert(rendered(entries) =~= entries[0].push(LINE_FEED) + rendered(entries.skip(1)));
    }
}

/// Reading back what was written gives the same paths in the same order,
/// provided that no path holds a line feed.
pub proof fn lemma_parse_rendered(entries: Seq<Seq<u8>>)
    requires
        forall|i: int| 0 <= i < entries.len() ==> single_line(#[trigger] entries[i]),
    ensures
        parsed(rendered(entries)) == entries,
    decreases entries.len(),
{
    if entries.len() == 0 {
        assert(parsed(rendered(entries)) =~= entries);
    } else {
        let text = rendered(entries);
        let first = entries[0];
        let rest = entries.skip(1);
        lemma_rendered_front(entries);
        let end = first.len() as int;
        assert(text.subrange(0, end) =~= first);
        assert(single_line(first));
        assert(text[end] == LINE_FEED);
        lemma_first_mark(text, LINE_FEED, end);
        assert(text.skip(end + 1) =~= rendered(rest));
        assert forall|i: int| 0 <= i < rest.len() implies single_line(#[trigger] rest[i]) by {
            assert(rest[i] == entries[i + 1]);
        }
        lemma_parse_rendered(rest);
        assert(parsed(text) =~= seq![first] + rest);
        assert(seq![first] + rest =~= entries);
    }
}

/// Writing what was read gives the text back, provided that the text is
/// empty or ends with a line feed.
pub proof fn law_render_parsed(text: Seq<u8>)
    requires
        text.len() == 0 || text.last() == LINE_FEED,
    ensures
        rendered(parsed(text)) == text,
    decreases text.len(),
{
    if text.len() == 0 {
        assert(rendered(parsed(text)) =~= text);
    } else {
        lemma_first_mark_finds(text, LINE_FEED);
        let end = first_mark(text, LINE_FEED);
        if end >= text.len() {
            assert(text.subrange(0, end)[text.len() - 1] == text.last());
            assert(false);
        }
        let first = text.subrange(0, end);
        let rest = text.skip(end + 1);
        if rest.len() > 0 {
            assert(rest.last() == text.last());
        }
        law_render_parsed(rest);
        let entries = parsed(text);
        assert(entries =~= seq![first] + parsed(rest));
        lemma_rendered_front(entries);
        assert(entries.skip(1) =~= parsed(rest));
        assert(first.push(LINE_FEED) + rest =~= text);
    }
}

/// Every line that is read out of a manifest is a single line.
pub proof fn lemma_parsed_single_lines(text: Seq<u8>)
    ensures
        all_single_line(parsed(text)),
    decreases text.len(),
{
    if text.len() > 0 {
        lemma_first_mark_finds(text, LINE_FEED);
        let end = first_mark(text, LINE_FEED);
        if 0 <= end < text.len() {
            let rest = parsed(text.skip(end + 1));
            lemma_parsed_single_lines(text.skip(end + 1));
            let lines = seq![text.subrange(0, end)] + rest;
            assert forall|i: int| 0 <= i < lines.len() implies single_line(#[trigger] lines[i]) by {
                if i > 0 {
                    assert(lines[i] == rest[i - 1]);
                }
            }
        } else {
            assert(text.subrange(0, end) =~= text);
        }
    }
}

/// Whether `path` can stand on one line of a manifest: it holds no line feed.
pub fn is_single_line(path: &[u8]) -> (ok: bool)
    ensures
        ok == single_line(path@),
{
    let mut i: usize = 0;
    while i < path.len()
        invariant
            i <= path.len(),
            forall|j: int| 0 <= j < i ==> path@[j] != LINE_FEED,
        decreases path.len() - i,
    {
        if path[i] == LINE_FEED {
            return false;
        }
        i += 1;
    }
    true
}

/// Whether every one of `paths` can stand on one line of a manifest.
pub fn are_single_lines(paths: &Vec<Vec<u8>>) -> (ok: bool)
    ensures
        ok == all_single_line(paths_view(paths@)),
{
    let mut k: usize = 0;
    while k < paths.len()
        invariant
            k <= paths.len(),
            forall|j: int| 0 <= j < k ==> single_line(#[trigger] paths_view(paths@)[j]),
        decreases paths.len() - k,
    {
        if !is_single_line(paths[k].as_slice()) {
            assert(!single_line(paths_view(paths@)[k as int]));
            return false;
        }
        k += 1;
    }
    true
}

/// Writes `entries` as manifest text.
pub fn render_manifest(entries: &Vec<Vec<u8>>) -> (text: Vec<u8>)
    ensures
        text@ == rendered(paths_view(entries@)),
{
    let mut text: Vec<u8> = Vec::new();
    let mut i: usize = 0;
    assert(paths_view(entries@).subrange(0, 0) =~= Seq::<Seq<u8>>::empty());
    while i < entries.len()
        invariant
            i <= entries.len(),
            text@ == rendered(paths_view(entries@).subrange(0, i as int)),
        decreases entries.len() - i,
    {
        let entry = &entries[i];
        let ghost before = text@;
        let mut j: usize = 0;
        while j < entry.len()
            invariant
                j <= entry.len(),
                text@ == before + entry@.subrange(0, j as int),
            decreases entry.len() - j,
        {
            text.push(entry[j]);
            j += 1;
            assert(text@ =~= before + entry@.subrange(0, j as int));
        }
        text.push(LINE_FEED);
        proof {
            let all = paths_view(entries@);
            let next = all.subrange(0, i + 1);
            assert(next.drop_last() =~= all.subrange(0, i as int));
            assert(next.last() == entry@);
            assert(entry@.subrange(0, entry.len() as int) =~= entry@);
            assert(text@ =~= before + entry@.push(LINE_FEED));
        }
        i += 1;
    }
    assert(paths_view(entries@).subrange(0, entries.len() as int) =~= paths_view(entries@));
    text
}

/// Reads the paths out of manifest text.
pub fn parse_manifest(text: &[u8]) -> (entries: Vec<Vec<u8>>)
    ensures
        paths_view(entries@) == parsed(text@),
{
    let mut entries: Vec<Vec<u8>> = Vec::new();
    let mut line: Vec<u8> = Vec::new();
    let mut start: usize = 0;
    let mut i: usize = 0;
    assert(text@.skip(0) =~= text@);
    assert(paths_view(entries@) =~= Seq::<Seq<u8>>::empty());
    while i < text.len()
        invariant
            start <= i <= text.len(),
            line@ == text@.subrange(start as int, i as int),
            single_line(line@),
            parsed(text@) == paths_view(entries@) + parsed(text@.skip(start as int)),
        decreases text.len() - i,
    {
        let byte: u8 = text[i];
        if byte == LINE_FEED {
            proof {
                let tail = text@.skip(start as int);
                let end = i - start;
                assert(tail.subrange(0, end) =~= line@);
                lemma_first_mark(tail, LINE_FEED, end);
                assert(tail.skip(end + 1) =~= text@.skip(i + 1));
                assert(parsed(tail) == seq![line@] + parsed(text@.skip(i + 1)));
                assert(paths_view(entries@.push(line)) =~= paths_view(entries@) + seq![line@]);
                assert(paths_view(entries@) + (seq![line@] + parsed(text@.skip(i + 1)))
                    =~= paths_view(entries@.push(line)) + parsed(text@.skip(i + 1)));
            }
            entries.push(line);
            line = Vec::new();
            start = i + 1;
            i += 1;
            assert(line@ =~= text@.subrange(start as int, i as int));
        } else {
            line.push(byte);
            i += 1;
            assert(line@ =~= text@.subrange(start as int, i as int));
        }
    }
    if start < text.len() {
        proof {
            let tail = text@.skip(start as int);
            assert(tail.subrange(0, tail.len() as int) =~= line@);
            assert(tail =~= line@);
            lemma_first_mark(tail, LINE_FEED, tail.len() as int);
            assert(parsed(tail) == seq![tail]);
            assert(paths_view(entries@.push(line)) =~= paths_view(entries@) + seq![line@]);
        }
        entries.push(line);
    } else {
        proof {
            assert(text@.skip(start as int) =~= Seq::<u8>::empty());
            assert(parsed(text@.skip(start as int)) =~= Seq::<Seq<u8>>::empty());
            assert(paths_view(entries@) + Seq::<Seq<u8>>::empty() =~= paths_view(entries@));
        }
    }
    entries
}

} // verus!
