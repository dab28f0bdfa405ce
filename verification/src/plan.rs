//! Which crates a release raises, and by how much. A crate with a changed
//! file is raised; so is every crate that consumes a raised crate, however
//! many steps away, so that it takes the new version in.

use crate::release::Bump;
use crate::text::{listed, views};
use vstd::prelude::*;

verus! {

/// Whether `text` begins with `prefix`.
pub fn starts_with(text: &[u8], prefix: &[u8]) -> (starts: bool)
    ensures
        starts == prefix@.is_prefix_of(text@),
{
    if prefix.len() > text.len() {
        return false;
    }
    let mut at: usize = 0;
    while at < prefix.len()
        invariant
            at <= prefix@.len() <= text@.len(),
            forall|i: int| 0 <= i < at ==> prefix@[i] == text@[i],
        decreases prefix@.len() - at,
    {
        if prefix[at] != text[at] {
            return false;
        }
        at += 1;
    }
    proof {
        assert(prefix@ =~= text@.subrange(0, prefix@.len() as int));
    }
    true
}

/// The word that the description of a commit begins with where the commit
/// adds a feature: `feat`.
pub open spec fn feature_mark() -> Seq<u8> {
    seq![102u8, 101u8, 97u8, 116u8]
}

/// Whether the description of a commit says that it adds a feature.
pub fn is_feature(description: &[u8]) -> (feature: bool)
    ensures
        feature == feature_mark().is_prefix_of(description@),
{
    let feature = description.len() >= 4 && description[0] == 102 && description[1] == 101
        && description[2] == 97 && description[3] == 116;
    proof {
        if feature {
            assert(feature_mark() =~= description@.subrange(0, 4));
        } else if description@.len() >= 4 {
            let head = description@.subrange(0, 4);
            assert(head[0] == description@[0] && head[1] == description@[1] && head[2]
                == description@[2] && head[3] == description@[3]);
        }
    }
    feature
}

/// Whether one of `files` lies below `path`: whether its name begins with
/// `path`.
pub open spec fn touched(path: Seq<u8>, files: Seq<Seq<u8>>) -> bool {
    exists|i: int| 0 <= i < files.len() && path.is_prefix_of(#[trigger] files[i])
}

/// Whether one of `files` lies below `path`.
pub fn is_touched(path: &[u8], files: &[&[u8]]) -> (found: bool)
    ensures
        found == touched(path@, views(files@)),
{
    let mut at: usize = 0;
    while at < files.len()
        invariant
            at <= files@.len(),
            forall|i: int| 0 <= i < at ==> !path@.is_prefix_of(#[trigger] views(files@)[i]),
        decreases files@.len() - at,
    {
        if starts_with(files[at], path) {
            proof {
                assert(path@.is_prefix_of(views(files@)[at as int]));
            }
            return true;
        }
        at += 1;
    }
    false
}

/// What the changes alone ask of the crate at `path`: a minor bump where a
/// commit that adds a feature changed a file of it, a patch bump where
/// anything else changed one, and nothing where none changed.
pub open spec fn first_bump(path: Seq<u8>, changed: Seq<Seq<u8>>, featured: Seq<Seq<u8>>) -> Option<
    Bump,
> {
    if touched(path, featured) {
        Some(Bump::MINOR)
    } else if touched(path, changed) {
        Some(Bump::PATCH)
    } else {
        None
    }
}

/// What the changes alone ask of each crate of `crates`: `changed` are the
/// files changed since the last release, `featured` those changed by
/// commits that add a feature.
pub fn first_bumps(crates: &[&[u8]], changed: &[&[u8]], featured: &[&[u8]]) -> (bumps: Vec<
    Option<Bump>,
>)
    ensures
        bumps@.len() == crates@.len(),
        forall|i: int|
            0 <= i < crates@.len() ==> #[trigger] bumps@[i] == first_bump(
                crates@[i]@,
                views(changed@),
                views(featured@),
            ),
{
    let mut bumps: Vec<Option<Bump>> = Vec::new();
    let mut at: usize = 0;
    while at < crates.len()
        invariant
            at <= crates@.len(),
            bumps@.len() == at,
            forall|i: int|
                0 <= i < at ==> #[trigger] bumps@[i] == first_bump(
                    crates@[i]@,
                    views(changed@),
                    views(featured@),
                ),
        decreases crates@.len() - at,
    {
        let bump = if is_touched(crates[at], featured) {
            Some(Bump::MINOR)
        } else if is_touched(crates[at], changed) {
            Some(Bump::PATCH)
        } else {
            None
        };
        bumps.push(bump);
        at += 1;
    }
    bumps
}

/// Whether the crate with index `j` names `name` among its dependencies.
pub open spec fn consumes(dependencies: Seq<Vec<&[u8]>>, j: int, name: Seq<u8>) -> bool {
    0 <= j < dependencies.len() && views(dependencies[j]@).contains(name)
}

/// The consumers of each crate: the row of the crate with index `i` holds
/// the indices of the crates that name `names[i]` among their
/// dependencies, each once and in rising order.
pub fn consumer_graph(names: &[&[u8]], dependencies: &[Vec<&[u8]>]) -> (graph: Vec<Vec<usize>>)
    ensures
        graph@.len() == names@.len(),
        forall|i: int, j: usize|
            0 <= i < names@.len() ==> (#[trigger] graph@[i]@.contains(j) <==> consumes(
                dependencies@,
                j as int,
                names@[i]@,
            )),
        forall|i: int, a: int, b: int|
            0 <= i < names@.len() && 0 <= a < b < graph@[i]@.len() ==> graph@[i]@[a]
                < graph@[i]@[b],
{
    let mut graph: Vec<Vec<usize>> = Vec::new();
    let mut at: usize = 0;
    while at < names.len()
        invariant
            at <= names@.len(),
            graph@.len() == at,
            forall|i: int, j: usize|
                0 <= i < at ==> (#[trigger] graph@[i]@.contains(j) <==> consumes(
                    dependencies@,
                    j as int,
                    names@[i]@,
                )),
            forall|i: int, a: int, b: int|
                0 <= i < at && 0 <= a < b < graph@[i]@.len() ==> graph@[i]@[a] < graph@[i]@[b],
        decreases names@.len() - at,
    {
        let row = consumers_of(names[at], dependencies);
        graph.push(row);
        at += 1;
    }
    graph
}

/// The indices of the crates that name `name` among their dependencies, in
/// rising order.
fn consumers_of(name: &[u8], dependencies: &[Vec<&[u8]>]) -> (row: Vec<usize>)
    ensures
        forall|j: usize| #[trigger] row@.contains(j) <==> consumes(dependencies@, j as int, name@),
        forall|a: int, b: int| 0 <= a < b < row@.len() ==> row@[a] < row@[b],
{
    let mut row: Vec<usize> = Vec::new();
    let mut at: usize = 0;
    while at < dependencies.len()
        invariant
            at <= dependencies@.len(),
            forall|j: usize|
                #[trigger] row@.contains(j) <==> j < at && consumes(dependencies@, j as int, name@),
            forall|a: int, b: int| 0 <= a < b < row@.len() ==> row@[a] < row@[b],
        decreases dependencies@.len() - at,
    {
        let ghost before = row@;
        if listed(dependencies[at].as_slice(), name) {
            row.push(at);
            proof {
                assert(row@[before.len() as int] == at);
                assert forall|a: int, b: int| 0 <= a < b < row@.len() implies row@[a] < row@[b] by {
                    if b == before.len() {
                        assert(before.contains(before[a]));
                    }
                }
                assert forall|j: usize| #[trigger] row@.contains(j) implies j < at + 1 && consumes(
                    dependencies@,
                    j as int,
                    name@,
                ) by {
                    let k = choose|k: int| 0 <= k < row@.len() && row@[k] == j;
                    if k < before.len() {
                        assert(before.contains(j));
                    }
                }
                assert forall|j: usize|
                    j < at + 1 && consumes(dependencies@, j as int, name@) implies row@.contains(
                    j,
                ) by {
                    if j < at {
                        assert(before.contains(j));
                        let k = choose|k: int| 0 <= k < before.len() && before[k] == j;
                        assert(row@[k] == j);
                    }
                }
            }
        }
        at += 1;
    }
    row
}

/// Whether the crate with index `j` is a consumer of the crate with index
/// `i`: whether the row of `i` in `consumers` holds `j`.
pub open spec fn feeds(consumers: Seq<Vec<usize>>, i: int, j: int) -> bool {
    0 <= i < consumers.len() && exists|k: int|
        0 <= k < consumers[i]@.len() && #[trigger] consumers[i]@[k] == j
}

/// Whether no bump is missing: whether every consumer of a raised crate is
/// raised too.
pub open spec fn settled(bumps: Seq<Option<Bump>>, consumers: Seq<Vec<usize>>) -> bool {
    forall|i: int, j: int|
        0 <= i < bumps.len() && 0 <= j < bumps.len() && bumps[i] is Some && #[trigger] feeds(
            consumers,
            i,
            j,
        ) ==> bumps[j] is Some
}

/// Whether `set` holds the index of every raised crate.
pub open spec fn covers(set: Set<int>, bumps: Seq<Option<Bump>>) -> bool {
    forall|j: int| 0 <= j < bumps.len() && (#[trigger] bumps[j]) is Some ==> set.contains(j)
}

/// Whether `set` holds, with a crate, all its consumers.
pub open spec fn closed_under(set: Set<int>, consumers: Seq<Vec<usize>>) -> bool {
    forall|i: int, j: int| set.contains(i) && #[trigger] feeds(consumers, i, j) ==> set.contains(j)
}

/// The number of crates without a bump.
pub closed spec fn unraised(bumps: Seq<Option<Bump>>) -> nat
    decreases bumps.len(),
{
    if bumps.len() == 0 {
        0
    } else {
        unraised(bumps.drop_last()) + if bumps.last() is None {
            1nat
        } else {
            0nat
        }
    }
}

/// A bump for a crate that had none leaves one crate less without a bump.
proof fn lemma_raise(bumps: Seq<Option<Bump>>, j: int, bump: Bump)
    requires
        0 <= j < bumps.len(),
        bumps[j] is None,
    ensures
        unraised(bumps.update(j, Some(bump))) + 1 == unraised(bumps),
    decreases bumps.len(),
{
    let after = bumps.update(j, Some(bump));
    if j == bumps.len() - 1 {
        assert(after.drop_last() =~= bumps.drop_last());
    } else {
        assert(after.drop_last() =~= bumps.drop_last().update(j, Some(bump)));
        lemma_raise(bumps.drop_last(), j, bump);
    }
}

/// Carries the bumps `first` on to the consumers: a crate that has a bump
/// keeps it, and a crate without one gets a patch bump exactly where it
/// consumes, over any number of steps, a crate that had one. A row of
/// `consumers` for which `first` has no crate, and an index in a row that
/// names no crate, count for nothing.
pub fn cascade(first: Vec<Option<Bump>>, consumers: &[Vec<usize>]) -> (bumps: Vec<Option<Bump>>)
    ensures
        bumps@.len() == first@.len(),
        forall|j: int| 0 <= j < first@.len() && first@[j] is Some ==> bumps@[j] == first@[j],
        forall|j: int|
            0 <= j < first@.len() && first@[j] is None ==> bumps@[j] is None || bumps@[j] == Some(
                Bump::PATCH,
            ),
        settled(bumps@, consumers@),
        forall|set: Set<int>|
            covers(set, first@) && #[trigger] closed_under(set, consumers@) ==> covers(
                set,
                bumps@,
            ),
{
    let ghost initial = first@;
    let mut bumps = first;
    let n = bumps.len();
    let mut change = true;
    while change
        invariant
            bumps@.len() == n == initial.len(),
            forall|j: int| 0 <= j < n && initial[j] is Some ==> bumps@[j] == initial[j],
            forall|j: int|
                0 <= j < n && initial[j] is None ==> bumps@[j] is None || bumps@[j] == Some(
                    Bump::PATCH,
                ),
            forall|set: Set<int>|
                covers(set, initial) && #[trigger] closed_under(set, consumers@) ==> covers(
                    set,
                    bumps@,
                ),
            !change ==> settled(bumps@, consumers@),
        decreases
                unraised(bumps@) + if change {
                    1nat
                } else {
                    0nat
                },
    {
        change = false;
        let ghost start = bumps@;
        let mut i: usize = 0;
        while i < n
            invariant
                i <= n,
                bumps@.len() == n == initial.len(),
                forall|j: int| 0 <= j < n && initial[j] is Some ==> bumps@[j] == initial[j],
                forall|j: int|
                    0 <= j < n && initial[j] is None ==> bumps@[j] is None || bumps@[j] == Some(
                        Bump::PATCH,
                    ),
                forall|set: Set<int>|
                    covers(set, initial) && #[trigger] closed_under(set, consumers@) ==> covers(
                        set,
                        bumps@,
                    ),
                change ==> unraised(bumps@) < unraised(start),
                !change ==> bumps@ == start,
                !change ==> forall|a: int, k: int|
                    0 <= a < i && a < consumers@.len() && bumps@[a] is Some && 0 <= k
                        < consumers@[a]@.len() && (#[trigger] consumers@[a]@[k]) < n
                        ==> bumps@[consumers@[a]@[k] as int] is Some,
            decreases n - i,
        {
            if i < consumers.len() && bumps[i].is_some() {
                let row = &consumers[i];
                let mut k: usize = 0;
                while k < row.len()
                    invariant
                        i < n,
                        i < consumers@.len(),
                        *row == consumers@[i as int],
                        k <= row@.len(),
                        bumps@.len() == n == initial.len(),
                        bumps@[i as int] is Some,
                        forall|j: int| 0 <= j < n && initial[j] is Some ==> bumps@[j] == initial[j],
                        forall|j: int|
                            0 <= j < n && initial[j] is None ==> bumps@[j] is None || bumps@[j]
                                == Some(Bump::PATCH),
                        forall|set: Set<int>|
                            covers(set, initial) && #[trigger] closed_under(set, consumers@)
                                ==> covers(set, bumps@),
                        change ==> unraised(bumps@) < unraised(start),
                        !change ==> bumps@ == start,
                        !change ==> forall|a: int, k: int|
                            0 <= a < i && a < consumers@.len() && bumps@[a] is Some && 0 <= k
                                < consumers@[a]@.len() && (#[trigger] consumers@[a]@[k]) < n
                                ==> bumps@[consumers@[a]@[k] as int] is Some,
                        !change ==> forall|b: int|
                            0 <= b < k && (#[trigger] row@[b]) < n ==> bumps@[row@[b] as int]
                                is Some,
                    decreases row@.len() - k,
                {
                    let consumer = row[k];
                    if consumer < n && bumps[consumer].is_none() {
                        let ghost held = bumps@;
                        proof {
                            lemma_raise(held, consumer as int, Bump::PATCH);
                        }
                        bumps.set(consumer, Some(Bump::PATCH));
                        change = true;
                        proof {
                            assert forall|set: Set<int>|
                                covers(set, initial) && #[trigger] closed_under(
                                    set,
                                    consumers@,
                                ) implies covers(set, bumps@) by {
                                assert(covers(set, held));
                                assert(held[i as int] is Some);
                                assert(set.contains(i as int));
                                assert(consumers@[i as int]@[k as int] == consumer);
                                assert(feeds(consumers@, i as int, consumer as int));
                                assert(set.contains(consumer as int));
                            }
                        }
                    }
                    k += 1;
                }
            }
            i += 1;
        }
        proof {
            if !change {
                assert forall|i: int, j: int|
                    0 <= i < bumps@.len() && 0 <= j < bumps@.len() && bumps@[i] is Some
                        && #[trigger] feeds(consumers@, i, j) implies bumps@[j] is Some by {
                    let k = choose|k: int|
                        0 <= k < consumers@[i]@.len() && #[trigger] consumers@[i]@[k] == j;
                    assert(consumers@[i]@[k] < n);
                }
            }
        }
    }
    bumps
}

} // verus!
