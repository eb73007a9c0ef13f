//! From two references to the ordered sequence of commits between them.
//!
//! The repository service resolves each reference and walks the history;
//! this module says what it is asked and what its answers mean.

use std::collections::HashSet;
use vstd::prelude::*;
use vstd::string::*;

use crate::commit::{prefix_of, CommitId};

verus! {

/// The text that names the commits after `start` up to and including `end`
/// to the repository service: the two references with two dots between them.
pub open spec fn range_text(start: Seq<char>, end: Seq<char>) -> Seq<char> {
    start + seq!['.', '.'] + end
}

/// A revision range: the ancestors of `end` that are not ancestors of
/// `start`. Either bound is anything the repository can resolve: a tag, a
/// branch, a commit identifier.
#[derive(Debug, PartialEq, Eq)]
pub struct Range {
    /// The reference whose ancestors are left out, itself included.
    pub start: String,
    /// The reference whose ancestors are meant, itself included.
    pub end: String,
}

impl Range {
    /// The range from `start` (exclusive) to `end` (inclusive).
    pub fn new(start: &str, end: &str) -> (range: Range)
        ensures
            range.start@ == start@,
            range.end@ == end@,
    {
        Range { start: String::from_str(start), end: String::from_str(end) }
    }

    /// The range in the notation of the repository service.
    pub fn notation(&self) -> (text: String)
        ensures
            text@ == range_text(self.start@, self.end@),
    {
        proof {
            reveal_strlit("..");
        }
        let mut text = String::from_str(self.start.as_str());
        text.append("..");
        text.append(self.end.as_str());
        text
    }
}

/// The mathematical values of a list of identifiers.
pub open spec fn ids_of(commits: Seq<CommitId>) -> Seq<Seq<u8>> {
    commits.map_values(|c: CommitId| c@)
}

/// `ids` with every repeated identifier dropped: each one stays where it
/// first occurs.
pub open spec fn first_occurrences(ids: Seq<Seq<u8>>) -> Seq<Seq<u8>>
    decreases ids.len(),
{
    if ids.len() == 0 {
        Seq::empty()
    } else {
        let before = first_occurrences(ids.drop_last());
        if before.contains(ids.last()) {
            before
        } else {
            before.push(ids.last())
        }
    }
}

/// What `first_occurrences` keeps: exactly the identifiers of `ids`, each
/// once.
pub proof fn lemma_first_occurrences(ids: Seq<Seq<u8>>)
    ensures
        first_occurrences(ids).no_duplicates(),
        first_occurrences(ids).len() <= ids.len(),
        forall|id: Seq<u8>| first_occurrences(ids).contains(id) <==> ids.contains(id),
    decreases ids.len(),
{
    if ids.len() > 0 {
        let init = ids.drop_last();
        let before = first_occurrences(init);
        lemma_first_occurrences(init);
        assert forall|id: Seq<u8>| first_occurrences(ids).contains(id) <==> ids.contains(
            id,
        ) by {
            if ids.contains(id) {
                let k = choose|k: int| 0 <= k < ids.len() && ids[k] == id;
                if k < init.len() {
                    assert(init[k] == id);
                    assert(init.contains(id));
                    let j = choose|j: int| 0 <= j < before.len() && before[j] == id;
                    assert(first_occurrences(ids)[j] == id);
                } else if !before.contains(id) {
                    assert(first_occurrences(ids)[before.len() as int] == id);
                }
            }
            if first_occurrences(ids).contains(id) {
                let j = choose|j: int|
                    0 <= j < first_occurrences(ids).len() && first_occurrences(ids)[j] == id;
                if j < before.len() {
                    assert(init.contains(id));
                }
            }
        }
    }
}

/// A list without repetition is kept as it is.
pub proof fn lemma_first_occurrences_of_distinct(ids: Seq<Seq<u8>>)
    requires
        ids.no_duplicates(),
    ensures
        first_occurrences(ids) == ids,
    decreases ids.len(),
{
    if ids.len() > 0 {
        let init = ids.drop_last();
        lemma_first_occurrences_of_distinct(init);
    }
}

/// Why a range could not be resolved.
#[derive(Clone, Copy, Debug, PartialEq, Eq, Structural)]
pub enum RefError {
    /// The start reference names no commit.
    StartNotFound,
    /// The end reference names no commit.
    EndNotFound,
}

/// The commits of a range, oldest first, each once.
#[derive(Debug)]
pub struct CommitSequence {
    ids: Vec<CommitId>,
}

impl View for CommitSequence {
    type V = Seq<Seq<u8>>;

    closed spec fn view(&self) -> Seq<Seq<u8>> {
        ids_of(self.ids@)
    }
}

impl CommitSequence {
    #[verifier::type_invariant]
    spec fn distinct(&self) -> bool {
        ids_of(self.ids@).no_duplicates()
    }

    /// The sequence without commits.
    pub fn empty() -> (sequence: CommitSequence)
        ensures
            sequence@ == Seq::<Seq<u8>>::empty(),
            sequence@.no_duplicates(),
    {
        let ids: Vec<CommitId> = Vec::new();
        CommitSequence { ids }
    }

    /// The sequence that a history walk stands for. `walk` lists the commits
    /// oldest first, as the repository service yields them; one that the walk
    /// names again stays where it first stood.
    pub fn from_walk(walk: &[CommitId]) -> (sequence: CommitSequence)
        ensures
            sequence@ == first_occurrences(ids_of(walk@)),
            sequence@.no_duplicates(),
            ids_of(walk@).no_duplicates() ==> sequence@ == ids_of(walk@),
    {
        broadcast use vstd::std_specs::hash::group_hash_axioms;

        let mut ids: Vec<CommitId> = Vec::new();
        let mut prefixes: HashSet<u64> = HashSet::new();
        let mut i: usize = 0;
        while i < walk.len()
            invariant
                i <= walk@.len(),
                ids_of(ids@) == first_occurrences(ids_of(walk@).take(i as int)),
                forall|k: int|
                    0 <= k < ids@.len() ==> prefixes@.contains(
                        prefix_of(#[trigger] ids_of(ids@)[k]) as u64,
                    ),
            decreases walk@.len() - i,
        {
            let candidate: CommitId = walk[i];
            let ghost seen = ids_of(walk@).take(i as int);
            let ghost next = ids_of(walk@).take(i as int + 1);
            assert(next.drop_last() =~= seen);
            let prefix = candidate.prefix();
            // Only a commit whose prefix was met before can have been met before.
            let known = prefixes.contains(&prefix) && contains_id(&ids, &candidate);
            if !known {
                let ghost before = ids_of(ids@);
                ids.push(candidate);
                prefixes.insert(prefix);
                assert(ids_of(ids@) =~= before.push(candidate@));
            }
            i += 1;
        }
        assert(ids_of(walk@).take(walk@.len() as int) =~= ids_of(walk@));
        proof {
            lemma_first_occurrences(ids_of(walk@));
            if ids_of(walk@).no_duplicates() {
                lemma_first_occurrences_of_distinct(ids_of(walk@));
            }
        }
        CommitSequence { ids }
    }

    /// The number of commits.
    pub fn len(&self) -> (n: usize)
        ensures
            n == self@.len(),
    {
        self.ids.len()
    }

    /// Whether the range holds no commit at all.
    pub fn is_empty(&self) -> (empty: bool)
        ensures
            empty == (self@.len() == 0),
    {
        self.ids.len() == 0
    }

    /// The commit at `index`, counted from the oldest.
    pub fn get(&self, index: usize) -> (commit: Option<CommitId>)
        ensures
            commit is Some <==> index < self@.len(),
            commit matches Some(c) ==> c@ == self@[index as int],
    {
        if index < self.ids.len() {
            Some(self.ids[index])
        } else {
            None
        }
    }
}

fn contains_id(ids: &Vec<CommitId>, wanted: &CommitId) -> (found: bool)
    ensures
        found == ids_of(ids@).contains(wanted@),
{
    let mut i: usize = 0;
    while i < ids.len()
        invariant
            i <= ids@.len(),
            forall|k: int| 0 <= k < i ==> ids_of(ids@)[k] != wanted@,
        decreases ids@.len() - i,
    {
        if ids[i] == *wanted {
            assert(ids_of(ids@)[i as int] == wanted@);
            return true;
        }
        i += 1;
    }
    false
}

/// The commit sequence of a range. `start` and `end` are what the two
/// references resolved to, `None` for one that names no commit; `walk` is the
/// history between them, oldest first.
///
/// A reference that names no commit fails the resolution, the start
/// reference first. Where both name the same commit the range is empty,
/// whatever the walk holds.
pub fn resolve(start: Option<CommitId>, end: Option<CommitId>, walk: &[CommitId]) -> (resolved:
    Result<CommitSequence, RefError>)
    ensures
        start is None ==> resolved == Err::<CommitSequence, RefError>(RefError::StartNotFound),
        start is Some && end is None ==> resolved == Err::<CommitSequence, RefError>(
            RefError::EndNotFound,
        ),
        start is Some && end is Some ==> resolved is Ok && resolved->Ok_0@.no_duplicates(),
        start is Some && end is Some && start->0@ == end->0@ ==> resolved->Ok_0@
            == Seq::<Seq<u8>>::empty(),
        start is Some && end is Some && start->0@ != end->0@ ==> resolved->Ok_0@
            == first_occurrences(ids_of(walk@)),
        start is Some && end is Some && start->0@ != end->0@ && ids_of(walk@).no_duplicates()
            ==> resolved->Ok_0@ == ids_of(walk@),
{
    match start {
        None => Err(RefError::StartNotFound),
        Some(from) => match end {
            None => Err(RefError::EndNotFound),
            Some(to) => {
                if from == to {
                    Ok(CommitSequence::empty())
                } else {
                    Ok(CommitSequence::from_walk(walk))
                }
            },
        },
    }
}

} // verus!
