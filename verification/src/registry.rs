//! The registry of setups: an ordered list of setup paths.
//!
//! The position of a path in the list is its index. Indices are only stable
//! between mutations: removing an entry moves every later entry down by one.

use vstd::prelude::*;
use crate::error::HcError;
use crate::bytes::copy_bytes;
use crate::manifest::{all_single_line, lemma_parse_rendered, lemma_parsed_single_lines, parse_manifest,
    parsed, paths_view, render_manifest, rendered, single_line};

verus! {

/// What reading the manifest file gave.
#[derive(Clone, Debug, PartialEq, Eq)]
pub enum ManifestSource {
    /// There is no manifest.
    Missing,
    /// There is one, and it could not be read as text.
    Unreadable,
    /// Its contents.
    Text(Vec<u8>),
}

/// The ordered list of known setups. Every path in it can stand on one
/// line of the manifest.
#[derive(Clone, Debug, PartialEq, Eq)]
pub struct Registry {
    entries: Vec<Vec<u8>>,
}

/// The set of positions that `indices` names.
pub open spec fn index_set(indices: Seq<usize>) -> Set<int> {
    Set::new(|i: int| exists|k: int| 0 <= k < indices.len() && #[trigger] indices[k] == i)
}

/// `entries` without the positions in `dropped`, the others in their old order.
pub open spec fn without<T>(entries: Seq<T>, dropped: Set<int>) -> Seq<T>
    decreases entries.len(),
{
    if entries.len() == 0 {
        Seq::empty()
    } else {
        let front = without(entries.drop_last(), dropped);
        if dropped.contains(entries.len() - 1) {
            front
        } else {
            front.push(entries.last())
        }
    }
}

/// Whether position `k` of `indices` is the first that names no entry among `len`.
pub open spec fn first_invalid_at(indices: Seq<usize>, len: nat, k: int) -> bool {
    &&& 0 <= k < indices.len()
    &&& indices[k] >= len
    &&& forall|j: int| 0 <= j < k ==> indices[j] < len
}

/// Whether every one of `indices` names an entry among `len`.
pub open spec fn all_valid(indices: Seq<usize>, len: nat) -> bool {
    forall|k: int| 0 <= k < indices.len() ==> indices[k] < len
}

/// Dropping the single position `i` is `Seq::remove`.
pub proof fn lemma_without_one<T>(entries: Seq<T>, dropped: Set<int>, i: int)
    requires
        0 <= i < entries.len(),
        forall|x: int| dropped.contains(x) <==> x == i,
    ensures
        without(entries, dropped) == entries.remove(i),
    decreases entries.len(),
{
    let front = entries.drop_last();
    if i == entries.len() - 1 {
        lemma_without_none(front, dropped);
        assert(front =~= entries.remove(i));
    } else {
        lemma_without_one(front, dropped, i);
        assert(front.remove(i).push(entries.last()) =~= entries.remove(i));
    }
}

/// Dropping positions that lie beyond the list changes nothing.
pub proof fn lemma_without_none<T>(entries: Seq<T>, dropped: Set<int>)
    requires
        forall|x: int| 0 <= x < entries.len() ==> !dropped.contains(x),
    ensures
        without(entries, dropped) == entries,
    decreases entries.len(),
{
    if entries.len() > 0 {
        lemma_without_none(entries.drop_last(), dropped);
        assert(entries.drop_last().push(entries.last()) =~= entries);
    }
}

/// Dropping every position leaves nothing.
pub proof fn lemma_without_all<T>(entries: Seq<T>, dropped: Set<int>)
    requires
        forall|x: int| 0 <= x < entries.len() ==> dropped.contains(x),
    ensures
        without(entries, dropped) == Seq::<T>::empty(),
    decreases entries.len(),
{
    if entries.len() > 0 {
        lemma_without_all(entries.drop_last(), dropped);
    }
}

/// Removing the entry at `i` leaves the entries before it where they were
/// and moves every later entry down by one.
pub proof fn law_remove_shifts_later_entries(entries: Seq<Seq<u8>>, i: usize)
    requires
        i < entries.len(),
    ensures
        without(entries, index_set(seq![i])).len() == entries.len() - 1,
        forall|j: int| 0 <= j < i ==> without(entries, index_set(seq![i]))[j] == entries[j],
        forall|j: int| i < j < entries.len() ==> without(entries, index_set(seq![i]))[j - 1] == entries[j],
{
    let dropped = index_set(seq![i]);
    assert forall|x: int| dropped.contains(x) <==> x == i by {
        if x == i {
            assert(seq![i][0] == x);
        }
    }
    lemma_without_one(entries, dropped, i as int);
}

/// What is left of a list of single lines is a list of single lines.
pub proof fn lemma_without_single_lines(entries: Seq<Seq<u8>>, dropped: Set<int>)
    requires
        all_single_line(entries),
    ensures
        all_single_line(without(entries, dropped)),
    decreases entries.len(),
{
    if entries.len() > 0 {
        let front = entries.drop_last();
        assert forall|i: int| 0 <= i < front.len() implies single_line(#[trigger] front[i]) by {
            assert(front[i] == entries[i]);
        }
        lemma_without_single_lines(front, dropped);
        assert(single_line(entries[entries.len() - 1]));
    }
}

/// After an append the new path stands at the highest index, and the
/// written manifest reads back as the same list: the paths of a registry
/// are single lines, and so is the path that may be appended.
pub proof fn law_append_round_trip(entries: Seq<Seq<u8>>, path: Seq<u8>)
    requires
        all_single_line(entries),
        single_line(path),
    ensures
        parsed(rendered(entries.push(path))) == entries.push(path),
        parsed(rendered(entries.push(path)))[entries.len() as int] == path,
        parsed(rendered(entries.push(path))).len() == entries.len() + 1,
{
    lemma_parse_rendered(entries.push(path));
}

/// Whether `index` occurs in `indices`.
pub fn names_index(indices: &[usize], index: usize) -> (found: bool)
    ensures
        found == index_set(indices@).contains(index as int),
{
    let mut k: usize = 0;
    while k < indices.len()
        invariant
            k <= indices.len(),
            forall|j: int| 0 <= j < k ==> indices@[j] != index,
        decreases indices.len() - k,
    {
        if indices[k] == index {
            return true;
        }
        k += 1;
    }
    false
}

/// The first of `indices` that names no entry among `len`, if there is one.
pub fn first_invalid(indices: &[usize], len: usize) -> (found: Option<usize>)
    ensures
        found is None <==> all_valid(indices@, len as nat),
        found is Some ==> exists|k: int|
            #[trigger] first_invalid_at(indices@, len as nat, k) && indices@[k] == found->Some_0,
{
    let mut k: usize = 0;
    while k < indices.len()
        invariant
            k <= indices.len(),
            forall|j: int| 0 <= j < k ==> indices@[j] < len,
        decreases indices.len() - k,
    {
        if indices[k] >= len {
            assert(first_invalid_at(indices@, len as nat, k as int));
            return Some(indices[k]);
        }
        k += 1;
    }
    None
}

impl View for Registry {
    type V = Seq<Seq<u8>>;

    /// The paths, in index order.
    closed spec fn view(&self) -> Seq<Seq<u8>> {
        paths_view(self.entries@)
    }
}

impl Registry {
    /// The registry is in order: every path is a single line, so that the
    /// manifest holds one path per line.
    pub open spec fn wf(&self) -> bool {
        all_single_line(self@)
    }

    /// A registry without entries.
    pub fn new() -> (registry: Registry)
        ensures
            registry@ == Seq::<Seq<u8>>::empty(),
            registry.wf(),
    {
        let registry = Registry { entries: Vec::new() };
        assert(registry@ =~= Seq::<Seq<u8>>::empty());
        registry
    }

    /// The registry that manifest text describes.
    pub fn from_manifest(text: &[u8]) -> (registry: Registry)
        ensures
            registry@ == parsed(text@),
            registry.wf(),
    {
        proof {
            lemma_parsed_single_lines(text@);
        }
        Registry { entries: parse_manifest(text) }
    }

    /// The registry behind what reading the manifest gave. A missing
    /// manifest is an empty registry; an unreadable one is an error.
    pub fn open(source: &ManifestSource) -> (opened: Result<Registry, HcError>)
        ensures
            *source is Missing ==> opened is Ok && opened->Ok_0@ == Seq::<Seq<u8>>::empty(),
            *source is Unreadable ==> opened == Err::<Registry, HcError>(HcError::Io),
            *source is Text ==> opened is Ok && opened->Ok_0@ == parsed(source->Text_0@),
            opened is Ok ==> opened->Ok_0.wf(),
    {
        match source {
            ManifestSource::Missing => Ok(Registry::new()),
            ManifestSource::Unreadable => Err(HcError::Io),
            ManifestSource::Text(text) => Ok(Registry::from_manifest(text.as_slice())),
        }
    }

    /// The manifest text that persists this registry. Read again, it gives
    /// the same paths in the same order.
    pub fn to_manifest(&self) -> (text: Vec<u8>)
        requires
            self.wf(),
        ensures
            text@ == rendered(self@),
            parsed(text@) == self@,
    {
        proof {
            lemma_parse_rendered(self@);
        }
        render_manifest(&self.entries)
    }

    /// The number of entries.
    pub fn len(&self) -> (len: usize)
        ensures
            len == self@.len(),
    {
        self.entries.len()
    }

    /// Whether there is no entry.
    pub fn is_empty(&self) -> (empty: bool)
        ensures
            empty == (self@.len() == 0),
    {
        self.entries.len() == 0
    }

    /// The path at `index`, if there is one.
    pub fn get(&self, index: usize) -> (path: Option<Vec<u8>>)
        ensures
            index < self@.len() ==> path is Some && path->Some_0@ == self@[index as int],
            index >= self@.len() ==> path is None,
    {
        if index < self.entries.len() {
            Some(copy_bytes(self.entries[index].as_slice()))
        } else {
            None
        }
    }

    /// Every entry with its index, in index order.
    pub fn list(&self) -> (listing: Vec<(usize, Vec<u8>)>)
        ensures
            listing@.len() == self@.len(),
            forall|i: int| 0 <= i < listing@.len() ==> (#[trigger] listing@[i]).0 == i && listing@[i].1@ == self@[i],
    {
        let mut listing: Vec<(usize, Vec<u8>)> = Vec::new();
        let mut i: usize = 0;
        while i < self.entries.len()
            invariant
                i <= self.entries.len(),
                listing@.len() == i,
                forall|j: int| 0 <= j < i ==> (#[trigger] listing@[j]).0 == j && listing@[j].1@ == self.entries@[j]@,
            decreases self.entries.len() - i,
        {
            let path = copy_bytes(self.entries[i].as_slice());
            listing.push((i, path));
            i += 1;
        }
        listing
    }

    /// Adds `path` as the new last entry and returns its index. A path that
    /// the registry already holds gets a second entry. The path has to be a
    /// single line, which `is_single_line` tests.
    pub fn append(&mut self, path: Vec<u8>) -> (index: usize)
        requires
            old(self).wf(),
            single_line(path@),
        ensures
            final(self)@ == old(self)@.push(path@),
            index == old(self)@.len(),
            final(self).wf(),
    {
        let index: usize = self.entries.len();
        self.entries.push(path);
        assert(self@ =~= old(self)@.push(path@));
        index
    }

    /// Removes the entries that `indices` names, all of them or none: if
    /// one of `indices` names no entry, the registry stays as it was and the
    /// first such index is reported.
    pub fn remove(&mut self, indices: &[usize]) -> (removed: Result<(), HcError>)
        requires
            old(self).wf(),
        ensures
            final(self).wf(),
            removed is Ok <==> all_valid(indices@, old(self)@.len()),
            removed is Ok ==> final(self)@ == without(
                old(self)@,
                index_set(indices@),
            ),
            removed is Err ==> *final(self) == *old(self) && final(self)@ == old(self)@ && exists|k: int|
                #[trigger] first_invalid_at(indices@, old(self)@.len(), k) && removed->Err_0 == (HcError::InvalidIndex {
                    index: indices@[k],
                }),
    {
        match first_invalid(indices, self.entries.len()) {
            Some(index) => {
                proof {
                    let len = self.entries@.len();
                    let k = choose|k: int| #[trigger] first_invalid_at(indices@, len, k) && indices@[k] == index;
                    assert(old(self)@.len() == len);
                    assert(first_invalid_at(indices@, old(self)@.len(), k));
                }
                Err(HcError::InvalidIndex { index })
            },
            None => {
                let mut kept: Vec<Vec<u8>> = Vec::new();
                let mut j: usize = 0;
                let ghost all = paths_view(self.entries@);
                let ghost dropped = index_set(indices@);
                assert(paths_view(kept@) =~= without(all.subrange(0, 0), dropped));
                while j < self.entries.len()
                    invariant
                        j <= self.entries.len(),
                        *self == *old(self),
                        all == paths_view(self.entries@),
                        dropped == index_set(indices@),
                        paths_view(kept@) == without(all.subrange(0, j as int), dropped),
                    decreases self.entries.len() - j,
                {
                    proof {
                        let next = all.subrange(0, j + 1);
                        assert(next.drop_last() =~= all.subrange(0, j as int));
                        assert(next.last() == self.entries@[j as int]@);
                    }
                    if !names_index(indices, j) {
                        let path = copy_bytes(self.entries[j].as_slice());
                        assert(paths_view(kept@.push(path)) =~= paths_view(kept@).push(path@));
                        kept.push(path);
                    }
                    j += 1;
                }
                assert(all.subrange(0, self.entries.len() as int) =~= all);
                proof {
                    lemma_without_single_lines(all, dropped);
                }
                self.entries = kept;
                Ok(())
            },
        }
    }

    /// Removes every entry.
    pub fn remove_all(&mut self)
        ensures
            final(self)@ == Seq::<Seq<u8>>::empty(),
            final(self).wf(),
    {
        self.entries = Vec::new();
        assert(self@ =~= Seq::<Seq<u8>>::empty());
    }
}

} // verus!
