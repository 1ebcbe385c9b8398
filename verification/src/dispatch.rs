//! The commands of the tool, as far as they decide: which setups a command
//! works on, and what it does to the registry.
//!
//! A selection is a list of indices into the registry as it stands. An
//! empty selection means every setup for `run`, `list` and `clean`, and the
//! only setup there is for `call`. A selection that names a missing entry
//! fails as a whole.

use vstd::prelude::*;
use crate::bytes::copy_bytes;
use crate::error::HcError;
use crate::manifest::{all_single_line, paths_view, single_line};
use crate::registry::{all_valid, first_invalid, first_invalid_at, index_set, lemma_without_all,
    lemma_without_none, names_index, without, Registry};

verus! {

/// The indices `0..len`, in order.
pub open spec fn every_index(len: nat) -> Seq<usize> {
    Seq::new(len, |i: int| i as usize)
}

/// The entries at the positions in `picked`, in their old order.
pub open spec fn only<T>(entries: Seq<T>, picked: Set<int>) -> Seq<T> {
    without(entries, picked.complement())
}

/// The indices `0..len`, in order.
pub fn all_indices(len: usize) -> (indices: Vec<usize>)
    ensures
        indices@ == every_index(len as nat),
{
    let mut indices: Vec<usize> = Vec::new();
    let mut i: usize = 0;
    while i < len
        invariant
            i <= len,
            indices@ == every_index(i as nat),
        decreases len - i,
    {
        indices.push(i);
        i += 1;
        assert(indices@ =~= every_index(i as nat));
    }
    indices
}

/// `indices` with every index named once, at the place where it first stood.
pub open spec fn first_occurrences(indices: Seq<usize>) -> Seq<usize>
    decreases indices.len(),
{
    if indices.len() == 0 {
        Seq::empty()
    } else {
        let front = first_occurrences(indices.drop_last());
        if index_set(indices.drop_last()).contains(indices.last() as int) {
            front
        } else {
            front.push(indices.last())
        }
    }
}

/// A list with one more index names what it named before, and that index.
pub proof fn lemma_index_set_push(indices: Seq<usize>, index: usize)
    ensures
        forall|i: int| #[trigger]
            index_set(indices.push(index)).contains(i) <==> index_set(indices).contains(i) || i == index,
{
    let longer = indices.push(index);
    assert forall|i: int| #[trigger]
        index_set(longer).contains(i) <==> index_set(indices).contains(i) || i == index by {
        if index_set(longer).contains(i) {
            let k = choose|k: int| 0 <= k < longer.len() && #[trigger] longer[k] == i;
            if k < indices.len() {
                assert(indices[k] == i);
            }
        }
        if index_set(indices).contains(i) {
            let k = choose|k: int| 0 <= k < indices.len() && #[trigger] indices[k] == i;
            assert(longer[k] == i);
        }
        if i == index {
            assert(longer[indices.len() as int] == i);
        }
    }
}

/// `first_occurrences` names the same setups as the list it is made from,
/// and each of them once.
pub proof fn lemma_first_occurrences(indices: Seq<usize>)
    ensures
        forall|i: int| #[trigger]
            index_set(first_occurrences(indices)).contains(i) <==> index_set(indices).contains(i),
        forall|j: int, k: int|
            0 <= j < k < first_occurrences(indices).len() ==> first_occurrences(indices)[j]
                != first_occurrences(indices)[k],
        first_occurrences(indices).len() <= indices.len(),
    decreases indices.len(),
{
    if indices.len() > 0 {
        let front = indices.drop_last();
        let last = indices.last();
        let kept = first_occurrences(front);
        lemma_first_occurrences(front);
        assert(front.push(last) =~= indices);
        lemma_index_set_push(front, last);
        if !index_set(front).contains(last as int) {
            lemma_index_set_push(kept, last);
            assert forall|j: int, k: int| 0 <= j < k < kept.push(last).len() implies kept.push(last)[j]
                != kept.push(last)[k] by {
                if k == kept.len() {
                    if kept[j] == last {
                        assert(index_set(kept).contains(last as int));
                    }
                }
            }
        }
    }
}

/// Where every index of a list names an entry, so does every first occurrence.
pub proof fn lemma_first_occurrences_valid(indices: Seq<usize>, len: nat)
    requires
        all_valid(indices, len),
    ensures
        all_valid(first_occurrences(indices), len),
{
    let kept = first_occurrences(indices);
    lemma_first_occurrences(indices);
    assert forall|k: int| 0 <= k < kept.len() implies kept[k] < len by {
        assert(index_set(kept).contains(kept[k] as int));
        assert(index_set(indices).contains(kept[k] as int));
        let j = choose|j: int| 0 <= j < indices.len() && #[trigger] indices[j] == kept[k] as int;
        assert(indices[j] < len);
    }
}

/// `indices` with every index named once, at the place where it first stood.
pub fn distinct_indices(indices: &[usize]) -> (kept: Vec<usize>)
    ensures
        kept@ == first_occurrences(indices@),
{
    let mut kept: Vec<usize> = Vec::new();
    let mut k: usize = 0;
    assert(indices@.subrange(0, 0) =~= Seq::<usize>::empty());
    while k < indices.len()
        invariant
            k <= indices.len(),
            kept@ == first_occurrences(indices@.subrange(0, k as int)),
        decreases indices.len() - k,
    {
        let index: usize = indices[k];
        proof {
            let next = indices@.subrange(0, k + 1);
            assert(next.drop_last() =~= indices@.subrange(0, k as int));
            assert(next.last() == index);
            lemma_first_occurrences(indices@.subrange(0, k as int));
        }
        if !names_index(kept.as_slice(), index) {
            kept.push(index);
        }
        k += 1;
    }
    assert(indices@.subrange(0, indices.len() as int) =~= indices@);
    kept
}

/// The setups that `run`, `list` and `clean` work on: those selected, or
/// all of the `len` there are if none is selected. A selection is a set: an
/// index that is named more than once is chosen once, where it first stands.
pub fn select_or_all(len: usize, indices: &[usize]) -> (chosen: Result<Vec<usize>, HcError>)
    ensures
        all_valid(indices@, len as nat) && indices@.len() == 0 ==> chosen is Ok && chosen->Ok_0@ == every_index(
            len as nat,
        ),
        all_valid(indices@, len as nat) && indices@.len() > 0 ==> chosen is Ok && chosen->Ok_0@
            == first_occurrences(indices@),
        chosen is Ok ==> all_valid(chosen->Ok_0@, len as nat),
        !all_valid(indices@, len as nat) ==> chosen is Err && exists|k: int|
            #[trigger] first_invalid_at(indices@, len as nat, k) && chosen->Err_0 == (HcError::InvalidIndex {
                index: indices@[k],
            }),
{
    match first_invalid(indices, len) {
        Some(index) => {
            proof {
                let k = choose|k: int| #[trigger]
                    first_invalid_at(indices@, len as nat, k) && indices@[k] == index;
                assert(first_invalid_at(indices@, len as nat, k));
            }
            Err(HcError::InvalidIndex { index })
        },
        None => {
            if indices.len() == 0 {
                Ok(all_indices(len))
            } else {
                proof {
                    lemma_first_occurrences_valid(indices@, len as nat);
                }
                Ok(distinct_indices(indices))
            }
        },
    }
}

/// The setup that `call` works on: those selected, each once, or the only
/// one there is. With nothing selected, more than one setup is an
/// ambiguity, and none at all leaves index 0 without an entry.
pub fn select_or_sole(len: usize, indices: &[usize]) -> (chosen: Result<Vec<usize>, HcError>)
    ensures
        indices@.len() == 0 && len == 1 ==> chosen is Ok && chosen->Ok_0@ == seq![0usize],
        indices@.len() == 0 && len > 1 ==> chosen == Err::<Vec<usize>, HcError>(
            HcError::AmbiguousSelection { count: len },
        ),
        indices@.len() == 0 && len == 0 ==> chosen == Err::<Vec<usize>, HcError>(
            HcError::InvalidIndex { index: 0 },
        ),
        indices@.len() > 0 && all_valid(indices@, len as nat) ==> chosen is Ok && chosen->Ok_0@
            == first_occurrences(indices@),
        chosen is Ok ==> all_valid(chosen->Ok_0@, len as nat),
        indices@.len() > 0 && !all_valid(indices@, len as nat) ==> chosen is Err && exists|k: int|
            #[trigger] first_invalid_at(indices@, len as nat, k) && chosen->Err_0 == (HcError::InvalidIndex {
                index: indices@[k],
            }),
{
    if indices.len() == 0 {
        if len == 1 {
            let mut sole: Vec<usize> = Vec::new();
            sole.push(0);
            assert(sole@ =~= seq![0usize]);
            Ok(sole)
        } else if len == 0 {
            Err(HcError::InvalidIndex { index: 0 })
        } else {
            Err(HcError::AmbiguousSelection { count: len })
        }
    } else {
        select_or_all(len, indices)
    }
}

/// The index and path of each of the `chosen` setups, in the order chosen,
/// or the first of them that names no entry.
pub fn targets(registry: &Registry, chosen: &[usize]) -> (found: Result<Vec<(usize, Vec<u8>)>, HcError>)
    ensures
        all_valid(chosen@, registry@.len()) ==> found is Ok && found->Ok_0@.len() == chosen@.len() && forall|k: int|
            0 <= k < chosen@.len() ==> (#[trigger] found->Ok_0@[k]).0 == chosen@[k] && found->Ok_0@[k].1@
                == registry@[chosen@[k] as int],
        !all_valid(chosen@, registry@.len()) ==> found is Err && exists|k: int|
            #[trigger] first_invalid_at(chosen@, registry@.len(), k) && found->Err_0 == (HcError::InvalidIndex {
                index: chosen@[k],
            }),
{
    let mut found: Vec<(usize, Vec<u8>)> = Vec::new();
    let mut k: usize = 0;
    while k < chosen.len()
        invariant
            k <= chosen.len(),
            found@.len() == k,
            forall|j: int| 0 <= j < k ==> chosen@[j] < registry@.len(),
            forall|j: int| 0 <= j < k ==> (#[trigger] found@[j]).0 == chosen@[j] && found@[j].1@ == registry@[chosen@[j] as int],
        decreases chosen.len() - k,
    {
        let index: usize = chosen[k];
        match registry.get(index) {
            Some(path) => {
                found.push((index, path));
            },
            None => {
                assert(first_invalid_at(chosen@, registry@.len(), k as int));
                return Err(HcError::InvalidIndex { index });
            },
        }
        k += 1;
    }
    Ok(found)
}

/// `run`: the setups to launch, each with its index and each once, however
/// often the selection names it. Nothing selected means all of them.
pub fn run(registry: &Registry, indices: &[usize]) -> (plan: Result<Vec<(usize, Vec<u8>)>, HcError>)
    ensures
        all_valid(indices@, registry@.len()) && indices@.len() == 0 ==> plan is Ok && plan->Ok_0@.len()
            == registry@.len() && forall|k: int| 0 <= k < registry@.len() ==> (#[trigger] plan->Ok_0@[k]).0 == k
                && plan->Ok_0@[k].1@ == registry@[k],
        all_valid(indices@, registry@.len()) && indices@.len() > 0 ==> plan is Ok && plan->Ok_0@.len()
            == first_occurrences(indices@).len() && forall|k: int|
            0 <= k < first_occurrences(indices@).len() ==> (#[trigger] plan->Ok_0@[k]).0 == first_occurrences(
                indices@,
            )[k] && plan->Ok_0@[k].1@ == registry@[first_occurrences(indices@)[k] as int],
        !all_valid(indices@, registry@.len()) ==> plan is Err && exists|k: int|
            #[trigger] first_invalid_at(indices@, registry@.len(), k) && plan->Err_0 == (HcError::InvalidIndex {
                index: indices@[k],
            }),
{
    match select_or_all(registry.len(), indices) {
        Ok(chosen) => {
            let found = targets(registry, chosen.as_slice());
            proof {
                if indices@.len() == 0 {
                    assert forall|k: int| 0 <= k < registry@.len() implies (#[trigger] found->Ok_0@[k]).0 == k
                        && found->Ok_0@[k].1@ == registry@[k] by {
                        assert(chosen@[k] == k);
                    }
                }
            }
            found
        },
        Err(error) => Err(error),
    }
}

/// `call`: the setups to send the request to, each with its index and each
/// once. Nothing selected means the only setup there is.
pub fn call(registry: &Registry, indices: &[usize]) -> (plan: Result<Vec<(usize, Vec<u8>)>, HcError>)
    ensures
        indices@.len() == 0 && registry@.len() == 1 ==> plan is Ok && plan->Ok_0@.len() == 1 && plan->Ok_0@[0].0 == 0
            && plan->Ok_0@[0].1@ == registry@[0],
        indices@.len() == 0 && registry@.len() > 1 ==> plan is Err && plan->Err_0 == (HcError::AmbiguousSelection {
            count: registry@.len() as usize,
        }),
        indices@.len() == 0 && registry@.len() == 0 ==> plan is Err && plan->Err_0 == (HcError::InvalidIndex {
            index: 0,
        }),
        indices@.len() > 0 && all_valid(indices@, registry@.len()) ==> plan is Ok && plan->Ok_0@.len()
            == first_occurrences(indices@).len() && forall|k: int|
            0 <= k < first_occurrences(indices@).len() ==> (#[trigger] plan->Ok_0@[k]).0 == first_occurrences(
                indices@,
            )[k] && plan->Ok_0@[k].1@ == registry@[first_occurrences(indices@)[k] as int],
        indices@.len() > 0 && !all_valid(indices@, registry@.len()) ==> plan is Err && exists|k: int|
            #[trigger] first_invalid_at(indices@, registry@.len(), k) && plan->Err_0 == (HcError::InvalidIndex {
                index: indices@[k],
            }),
{
    match select_or_sole(registry.len(), indices) {
        Ok(chosen) => {
            let found = targets(registry, chosen.as_slice());
            proof {
                if indices@.len() == 0 {
                    assert(chosen@[0] == 0);
                    assert(found->Ok_0@[0].0 == chosen@[0]);
                }
            }
            found
        },
        Err(error) => Err(error),
    }
}

/// `generate`: registers the new setups at `paths` and returns the index
/// that each of them got. Every path has to be a single line, which
/// `are_single_lines` tests.
pub fn generate(registry: &mut Registry, paths: Vec<Vec<u8>>) -> (indices: Vec<usize>)
    requires
        old(registry).wf(),
        all_single_line(paths_view(paths@)),
    ensures
        final(registry).wf(),
        final(registry)@ == old(registry)@ + paths_view(paths@),
        indices@.len() == paths@.len(),
        forall|k: int| 0 <= k < indices@.len() ==> #[trigger] indices@[k] == old(registry)@.len() + k,
{
    let mut indices: Vec<usize> = Vec::new();
    let mut k: usize = 0;
    let ghost all = paths_view(paths@);
    assert(registry@ =~= old(registry)@ + all.subrange(0, 0));
    while k < paths.len()
        invariant
            k <= paths.len(),
            all == paths_view(paths@),
            all_single_line(all),
            registry.wf(),
            registry@ == old(registry)@ + all.subrange(0, k as int),
            indices@.len() == k,
            forall|j: int| 0 <= j < k ==> #[trigger] indices@[j] == old(registry)@.len() + j,
        decreases paths.len() - k,
    {
        let path = copy_bytes(paths[k].as_slice());
        assert(single_line(all[k as int]));
        let ghost before = registry@;
        let index: usize = registry.append(path);
        indices.push(index);
        assert(before.push(path@) =~= old(registry)@ + all.subrange(0, k + 1));
        k += 1;
    }
    assert(all.subrange(0, paths.len() as int) =~= all);
    indices
}

/// `clean`: drops the selected setups from the registry, or all of them if
/// none is selected, and returns the directories to delete, in registry
/// order. A selection that names a missing entry changes nothing.
pub fn clean(registry: &mut Registry, indices: &[usize]) -> (doomed: Result<Vec<Vec<u8>>, HcError>)
    requires
        old(registry).wf(),
    ensures
        final(registry).wf(),
        all_valid(indices@, old(registry)@.len()) && indices@.len() == 0 ==> doomed is Ok
            && paths_view(doomed->Ok_0@) == old(registry)@
            && final(registry)@ == Seq::<Seq<u8>>::empty(),
        all_valid(indices@, old(registry)@.len()) && indices@.len() > 0 ==> doomed is Ok
            && paths_view(doomed->Ok_0@) == only(old(registry)@, index_set(indices@))
            && final(registry)@ == without(old(registry)@, index_set(indices@)),
        !all_valid(indices@, old(registry)@.len()) ==> doomed is Err && final(registry)@ == old(registry)@
            && exists|k: int| #[trigger] first_invalid_at(indices@, old(registry)@.len(), k)
                && doomed->Err_0 == (HcError::InvalidIndex { index: indices@[k] }),
{
    let len: usize = registry.len();
    match select_or_all(len, indices) {
        Err(error) => Err(error),
        Ok(chosen) => {
            let ghost all = registry@;
            let ghost picked = index_set(chosen@);
            let mut doomed: Vec<Vec<u8>> = Vec::new();
            let mut j: usize = 0;
            assert(paths_view(doomed@) =~= only(all.subrange(0, 0), picked));
            while j < len
                invariant
                    j <= len,
                    len == all.len(),
                    all == registry@,
                    *registry == *old(registry),
                    picked == index_set(chosen@),
                    paths_view(doomed@) == only(all.subrange(0, j as int), picked),
                decreases len - j,
            {
                proof {
                    let next = all.subrange(0, j + 1);
                    assert(next.drop_last() =~= all.subrange(0, j as int));
                    assert(next.last() == all[j as int]);
                }
                if names_index(chosen.as_slice(), j) {
                    match registry.get(j) {
                        Some(path) => {
                            assert(paths_view(doomed@.push(path))
                                =~= paths_view(doomed@).push(path@));
                            doomed.push(path);
                        },
                        None => {
                            assert(false);
                        },
                    }
                }
                j += 1;
            }
            assert(all.subrange(0, len as int) =~= all);
            let removed = registry.remove(chosen.as_slice());
            proof {
                if indices@.len() > 0 {
                    lemma_first_occurrences(indices@);
                    assert(picked =~= index_set(indices@));
                }
                if indices@.len() == 0 {
                    assert forall|x: int| 0 <= x < all.len() implies picked.contains(x) by {
                        assert(chosen@[x] == x);
                    }
                    lemma_without_all(all, picked);
                    lemma_without_none(all, picked.complement());
                }
            }
            Ok(doomed)
        },
    }
}

} // verus!
