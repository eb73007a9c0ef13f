use commit_runner::commit::CommitId;
use commit_runner::range::{resolve, CommitSequence, Range, RefError};

fn id(seed: u8) -> CommitId {
    CommitId::from_bytes(&[seed; 20]).unwrap()
}

fn ids(sequence: &CommitSequence) -> Vec<CommitId> {
    (0..sequence.len()).map(|i| sequence.get(i).unwrap()).collect()
}

#[test]
fn notation_puts_two_dots_between_the_references() {
    assert_eq!(Range::new("v1.0", "main").notation(), "v1.0..main");
    assert_eq!(Range::new("HEAD~3", "HEAD").notation(), "HEAD~3..HEAD");
    assert_eq!(Range::new("", "").notation(), "..");
    assert_eq!(Range::new("a..b", "c").notation(), "a..b..c");
    assert_eq!(
        Range::new("\u{e9}t\u{e9}", "feature/\u{4e2d}").notation(),
        "\u{e9}t\u{e9}..feature/\u{4e2d}"
    );
}

#[test]
fn range_keeps_its_bounds() {
    let range = Range::new("v1.0", "v2.0");
    assert_eq!(range.start, "v1.0");
    assert_eq!(range.end, "v2.0");
    assert_eq!(range, Range { start: String::from("v1.0"), end: String::from("v2.0") });
    assert_eq!(range.notation(), "v1.0..v2.0");
}

#[test]
fn resolve_keeps_the_walk_in_its_order() {
    let walk = vec![id(3), id(1), id(2)];
    let sequence = resolve(Some(id(9)), Some(id(2)), &walk).unwrap();
    assert_eq!(sequence.len(), 3);
    assert!(!sequence.is_empty());
    assert_eq!(ids(&sequence), walk);
}

#[test]
fn resolve_returns_exactly_as_many_commits_as_the_walk_holds() {
    for k in 0..40u8 {
        let walk: Vec<CommitId> = (0..k).map(|i| id(i + 1)).collect();
        let sequence = resolve(Some(id(0)), Some(id(200)), &walk).unwrap();
        assert_eq!(sequence.len(), k as usize);
        assert_eq!(ids(&sequence), walk);
    }
}

#[test]
fn resolve_is_the_same_on_the_same_input() {
    let walk = vec![id(5), id(6), id(7), id(8)];
    let first = resolve(Some(id(1)), Some(id(8)), &walk).unwrap();
    let second = resolve(Some(id(1)), Some(id(8)), &walk).unwrap();
    assert_eq!(ids(&first), ids(&second));
}

#[test]
fn resolve_fails_on_a_reference_that_names_no_commit() {
    let walk = vec![id(1)];
    assert_eq!(resolve(None, Some(id(1)), &walk).unwrap_err(), RefError::StartNotFound);
    assert_eq!(resolve(Some(id(1)), None, &walk).unwrap_err(), RefError::EndNotFound);
    assert_eq!(resolve(None, None, &walk).unwrap_err(), RefError::StartNotFound);
    assert_eq!(resolve(None, None, &[]).unwrap_err(), RefError::StartNotFound);
}

#[test]
fn same_start_and_end_is_an_empty_range() {
    let sequence = resolve(Some(id(4)), Some(id(4)), &[]).unwrap();
    assert_eq!(sequence.len(), 0);
    assert!(sequence.is_empty());
    assert!(sequence.get(0).is_none());
    let whatever_the_walk = resolve(Some(id(4)), Some(id(4)), &[id(1), id(2)]).unwrap();
    assert!(whatever_the_walk.is_empty());
}

#[test]
fn empty_walk_is_an_empty_range_and_no_error() {
    let sequence = resolve(Some(id(1)), Some(id(2)), &[]).unwrap();
    assert!(sequence.is_empty());
    assert_eq!(sequence.len(), 0);
}

#[test]
fn repeated_commit_stays_where_it_first_stood() {
    let walk = vec![id(1), id(2), id(1), id(3), id(2), id(2), id(4), id(1)];
    let sequence = CommitSequence::from_walk(&walk);
    assert_eq!(ids(&sequence), vec![id(1), id(2), id(3), id(4)]);
    let all_same = CommitSequence::from_walk(&[id(7), id(7), id(7)]);
    assert_eq!(ids(&all_same), vec![id(7)]);
}

#[test]
fn get_is_none_beyond_the_end() {
    let sequence = CommitSequence::from_walk(&[id(1), id(2)]);
    assert_eq!(sequence.get(0), Some(id(1)));
    assert_eq!(sequence.get(1), Some(id(2)));
    assert_eq!(sequence.get(2), None);
    assert_eq!(sequence.get(usize::MAX), None);
    assert!(CommitSequence::empty().get(0).is_none());
    assert_eq!(CommitSequence::empty().len(), 0);
}

#[test]
fn commits_that_begin_alike_are_still_told_apart() {
    let mut bytes = [7u8; 20];
    let a = CommitId::from_bytes(&bytes).unwrap();
    bytes[8] = 8;
    let b = CommitId::from_bytes(&bytes).unwrap();
    bytes[19] = 9;
    let c = CommitId::from_bytes(&bytes).unwrap();
    let sequence = CommitSequence::from_walk(&[a, b, a, c, b, c, a]);
    assert_eq!(ids(&sequence), vec![a, b, c]);
}

#[test]
fn long_walk_without_repetition_is_kept_whole() {
    let walk: Vec<CommitId> = (0..5000u32)
        .map(|n| {
            let mut bytes = [0u8; 20];
            bytes[..4].copy_from_slice(&n.to_be_bytes());
            bytes[16..].copy_from_slice(&n.wrapping_mul(2654435761).to_le_bytes());
            CommitId::from_bytes(&bytes).unwrap()
        })
        .collect();
    let sequence = CommitSequence::from_walk(&walk);
    assert_eq!(sequence.len(), 5000);
    assert_eq!(ids(&sequence), walk);
    let mut twice = walk.clone();
    twice.extend(walk.iter().rev().copied());
    assert_eq!(ids(&CommitSequence::from_walk(&twice)), walk);
}
