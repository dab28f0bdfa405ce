//! What `cargo tree` and `git log` print, read line by line: the direct
//! dependencies of a crate, and the commits since a release.

use crate::text::{
    before, behind, find, index_of, lines, lines_of, listed, number, parse_number, views, SPACE,
};
use vstd::prelude::*;

verus! {

/// Whether a name may begin with `byte`: whether it is a letter of the
/// Latin alphabet, or a byte of a character beyond ASCII.
pub open spec fn is_letter(byte: u8) -> bool {
    (65 <= byte <= 90) || (97 <= byte <= 122) || byte >= 128
}

/// The index of the first byte in `line` that a name may begin with, or
/// the length of `line` where it has none.
pub open spec fn first_letter(line: Seq<u8>) -> int
    decreases line.len(),
{
    if line.len() == 0 || is_letter(line[0]) {
        0
    } else {
        1 + first_letter(line.drop_first())
    }
}

/// `first_letter` is the one index before which no such byte stands and
/// at which one does, or the line ends.
proof fn lemma_first_letter(line: Seq<u8>, at: int)
    requires
        0 <= at <= line.len(),
        forall|i: int| 0 <= i < at ==> !is_letter(line[i]),
        at < line.len() ==> is_letter(line[at]),
    ensures
        first_letter(line) == at,
    decreases line.len(),
{
    if line.len() != 0 && !is_letter(line[0]) {
        let rest = line.drop_first();
        assert forall|i: int| 0 <= i < at - 1 implies !is_letter(rest[i]) by {
            assert(rest[i] == line[i + 1]);
        }
        lemma_first_letter(rest, at - 1);
    }
}

/// What a line of a dependency tree says, where the depth is printed
/// before each name: the depth and the name of the crate. The depth is the
/// number before the first byte that a name may begin with, and the name
/// runs from that byte to the first space. A line without such a byte,
/// without a space behind it or without a depth of at most 255 says
/// nothing.
pub open spec fn dependency_of(line: Seq<u8>) -> Option<(u8, Seq<u8>)> {
    let letter = first_letter(line);
    let space = index_of(line, SPACE);
    if letter < line.len() && letter <= space < line.len() {
        match number(line.take(letter)) {
            Some(depth) => if depth <= u8::MAX {
                Some((depth as u8, line.subrange(letter, space)))
            } else {
                None
            },
            None => None,
        }
    } else {
        None
    }
}

/// Reads a line of a dependency tree as `dependency_of` says.
pub fn parse_dependency(line: &[u8]) -> (entry: Option<(u8, &[u8])>)
    ensures
        match entry {
            Some((depth, name)) => dependency_of(line@) == Some((depth, name@)),
            None => dependency_of(line@) is None,
        },
{
    let len = line.len();
    let mut letter: usize = 0;
    while letter < len && !((65 <= line[letter] && line[letter] <= 90) || (97 <= line[letter]
        && line[letter] <= 122) || line[letter] >= 128)
        invariant
            letter <= len == line@.len(),
            forall|i: int| 0 <= i < letter ==> !is_letter(line@[i]),
        decreases len - letter,
    {
        letter += 1;
    }
    let space = find(line, SPACE, 0);
    proof {
        lemma_first_letter(line@, letter as int);
        assert(line@.skip(0) =~= line@);
        assert(line@.subrange(0, letter as int) =~= line@.take(letter as int));
    }
    if letter == len || space == len || space < letter {
        return None;
    }
    match parse_number(&line[0..letter]) {
        Some(depth) => if depth <= 255 {
            Some((depth as u8, &line[letter..space]))
        } else {
            None
        },
        None => None,
    }
}

/// The names, among those of `interest`, of the crates at depth one in the
/// lines `lines` of a dependency tree, in their order; nothing where a
/// line says nothing.
pub open spec fn direct(lines: Seq<Seq<u8>>, interest: Seq<Seq<u8>>) -> Option<Seq<Seq<u8>>>
    decreases lines.len(),
{
    if lines.len() == 0 {
        Some(Seq::empty())
    } else {
        match (direct(lines.drop_last(), interest), dependency_of(lines.last())) {
            (Some(found), Some((depth, name))) => Some(
                if depth == 1 && interest.contains(name) {
                    found.push(name)
                } else {
                    found
                },
            ),
            _ => None,
        }
    }
}

/// The direct dependencies of a crate, among the crates of
/// `interest_list`, from what `cargo tree --prefix depth` has printed for
/// it.
pub fn direct_dependencies<'a>(output: &'a [u8], interest_list: &[&[u8]]) -> (names: Option<
    Vec<&'a [u8]>,
>)
    ensures
        match names {
            Some(names) => direct(lines_of(output@), views(interest_list@)) == Some(
                views(names@),
            ),
            None => direct(lines_of(output@), views(interest_list@)) is None,
        },
{
    let all = lines(output);
    let ghost interest = views(interest_list@);
    let mut names: Vec<&'a [u8]> = Vec::new();
    let mut at: usize = 0;
    proof {
        assert(views(all@).take(0) =~= Seq::<Seq<u8>>::empty());
        assert(views(names@) =~= Seq::<Seq<u8>>::empty());
    }
    while at < all.len()
        invariant
            at <= all@.len(),
            interest == views(interest_list@),
            views(all@) == lines_of(output@),
            direct(views(all@).take(at as int), interest) == Some(views(names@)),
        decreases all@.len() - at,
    {
        let ghost seen = views(all@).take(at as int);
        let ghost more = views(all@).take(at + 1);
        let ghost found = views(names@);
        proof {
            assert(more.drop_last() =~= seen);
            assert(more.last() == all@[at as int]@);
        }
        match parse_dependency(all[at]) {
            Some((depth, name)) => {
                if depth == 1 && listed(interest_list, name) {
                    names.push(name);
                    proof {
                        assert(views(names@) =~= found.push(name@));
                    }
                }
            },
            None => {
                proof {
                    lemma_direct_fails(views(all@), at + 1, interest);
                }
                return None;
            },
        }
        at += 1;
    }
    proof {
        assert(views(all@).take(at as int) =~= views(all@));
    }
    Some(names)
}

/// Where the first lines of a tree say nothing, the whole tree says
/// nothing.
proof fn lemma_direct_fails(lines: Seq<Seq<u8>>, upto: int, interest: Seq<Seq<u8>>)
    requires
        0 <= upto <= lines.len(),
        direct(lines.take(upto), interest) is None,
    ensures
        direct(lines, interest) is None,
    decreases lines.len() - upto,
{
    if upto == lines.len() {
        assert(lines.take(upto) =~= lines);
    } else {
        assert(lines.take(upto + 1).drop_last() =~= lines.take(upto));
        lemma_direct_fails(lines, upto + 1, interest);
    }
}

/// What a line of `git log --oneline` says: the hash of a commit, before
/// the first space, and its description behind it. A line without a space
/// says nothing.
pub open spec fn commit_of(line: Seq<u8>) -> Option<(Seq<u8>, Seq<u8>)> {
    match behind(line, SPACE) {
        Some(description) => Some((before(line, SPACE), description)),
        None => None,
    }
}

/// Reads a line of `git log --oneline` as `commit_of` says.
pub fn parse_commit(line: &[u8]) -> (commit: Option<(&[u8], &[u8])>)
    ensures
        match commit {
            Some((hash, description)) => commit_of(line@) == Some((hash@, description@)),
            None => commit_of(line@) is None,
        },
{
    let len = line.len();
    let space = find(line, SPACE, 0);
    proof {
        assert(line@.skip(0) =~= line@);
        assert(line@.subrange(0, space as int) =~= line@.take(space as int));
    }
    if space == len {
        None
    } else {
        proof {
            assert(line@.subrange(space + 1, len as int) =~= line@.skip(space + 1));
        }
        Some((&line[0..space], &line[space + 1..len]))
    }
}

/// The commits that `git log --oneline` has printed, each with its hash
/// and its description; nothing where a line has no space.
pub fn commits(output: &[u8]) -> (commits: Option<Vec<(&[u8], &[u8])>>)
    ensures
        match commits {
            Some(commits) => {
                &&& commits@.len() == lines_of(output@).len()
                &&& forall|i: int|
                    0 <= i < commits@.len() ==> commit_of(#[trigger] lines_of(output@)[i]) == Some(
                        (commits@[i].0@, commits@[i].1@),
                    )
            },
            None => exists|i: int|
                0 <= i < lines_of(output@).len() && commit_of(#[trigger] lines_of(output@)[i])
                    is None,
        },
{
    let all = lines(output);
    let mut commits: Vec<(&[u8], &[u8])> = Vec::new();
    let mut at: usize = 0;
    while at < all.len()
        invariant
            at <= all@.len(),
            views(all@) == lines_of(output@),
            commits@.len() == at,
            forall|i: int|
                0 <= i < at ==> commit_of(#[trigger] lines_of(output@)[i]) == Some(
                    (commits@[i].0@, commits@[i].1@),
                ),
        decreases all@.len() - at,
    {
        proof {
            assert(views(all@)[at as int] == all@[at as int]@);
        }
        match parse_commit(all[at]) {
            Some(commit) => {
                commits.push(commit);
            },
            None => {
                return None;
            },
        }
        at += 1;
    }
    Some(commits)
}

} // verus!
