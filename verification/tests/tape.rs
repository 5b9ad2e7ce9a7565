use mushin::Tape;

#[test]
fn merge_tapes() {
    let mut first = Tape::default();
    let mut second = Tape::default();

    first.push(0);
    first.push(1);
    second.push(1);
    second.push(2);

    let result = first.merge(&second);
    assert_eq!(result.len(), 3);

    for (i, k) in result.nodes().iter().enumerate() {
        assert_eq!(i, *k);
    }
}

#[test]
fn push_keeps_the_tape_ordered() {
    let mut tape = Tape::new();
    tape.push(5);
    tape.push(1);
    tape.push(3);
    tape.push(9);
    tape.push(0);
    assert_eq!(*tape.nodes(), vec![0, 1, 3, 5, 9]);
}

#[test]
fn push_adds_no_node_twice() {
    let mut tape = Tape::new();
    tape.push(2);
    tape.push(4);
    tape.push(2);
    tape.push(4);
    assert_eq!(*tape.nodes(), vec![2, 4]);
    assert_eq!(tape.len(), 2);
}

#[test]
fn merge_with_itself_changes_nothing() {
    let mut tape = Tape::new();
    tape.push(1);
    tape.push(4);
    tape.push(6);
    let merged = tape.merge(&tape);
    assert_eq!(*merged.nodes(), vec![1, 4, 6]);
}

#[test]
fn merge_interleaves_disjoint_tapes() {
    let mut odd = Tape::new();
    let mut even = Tape::new();
    for i in 0..5usize {
        odd.push(2 * i + 1);
        even.push(2 * i);
    }
    let merged = odd.merge(&even);
    assert_eq!(*merged.nodes(), (0..10usize).collect::<Vec<usize>>());
    let other_way = even.merge(&odd);
    assert_eq!(*other_way.nodes(), *merged.nodes());
}

#[test]
fn merge_with_the_empty_tape() {
    let empty = Tape::new();
    let mut tape = Tape::new();
    tape.push(3);
    tape.push(8);
    assert_eq!(*empty.merge(&tape).nodes(), vec![3, 8]);
    assert_eq!(*tape.merge(&empty).nodes(), vec![3, 8]);
    assert_eq!(empty.merge(&empty).len(), 0);
}

#[test]
fn contains_finds_exactly_the_pushed_nodes() {
    let mut tape = Tape::new();
    for id in [10usize, 2, 7, 4] {
        tape.push(id);
    }
    for id in 0..12usize {
        assert_eq!(tape.contains(id), [2usize, 4, 7, 10].contains(&id));
    }
    assert!(!Tape::new().contains(0));
}

#[test]
fn clone_copies_the_tape() {
    let mut tape = Tape::new();
    tape.push(1);
    let mut copy = tape.clone();
    copy.push(2);
    assert_eq!(*tape.nodes(), vec![1]);
    assert_eq!(*copy.nodes(), vec![1, 2]);
}
