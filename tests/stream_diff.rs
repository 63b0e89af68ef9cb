use std::collections::HashSet;
use stream_diff::{Action, DiffEngine, Step, StreamDiff, StreamDiffExt, Upstream};

/// An upstream that is always ready: each poll yields the next snapshot, then the end.
type Ready = std::vec::IntoIter<Vec<i32>>;

/// One pull, run to its end against an always-ready upstream.
fn next(sd: &mut StreamDiff<Ready, i32>) -> Option<Action<i32>> {
    let mut step = sd.pull();
    loop {
        match step {
            Step::Ready(action) => return Some(action),
            Step::Finished => return None,
            Step::Pending => panic!("an always-ready upstream never suspends"),
            Step::PollUpstream => {
                let event = match sd.upstream_mut().next() {
                    Some(snapshot) => Upstream::Snapshot(snapshot),
                    None => Upstream::Finished,
                };
                step = sd.on_upstream(event);
            }
        }
    }
}

/// Drains every queued action of the engine.
fn drain(engine: &mut DiffEngine<i32>) -> Vec<Action<i32>> {
    let mut out = Vec::new();
    while let Some(a) = engine.next_from_queue() {
        out.push(a);
    }
    out
}

fn replay(set: &mut HashSet<i32>, actions: &[Action<i32>]) {
    for a in actions {
        match a {
            Action::Add(x) => {
                set.insert(*x);
            }
            Action::Remove(x) => {
                set.remove(x);
            }
        }
    }
}

#[test]
fn test() {
    let states = vec![
        vec![],
        vec![1],
        vec![1],
        vec![1, 2],
        vec![1, 2, 3],
        vec![1, 3],
        vec![1, 2, 3, 4],
        vec![],
    ];
    let mut stream_diff: StreamDiff<Ready, i32> = states.into_iter().diff();

    assert_eq!(next(&mut stream_diff), Some(Action::Add(1)));
    assert_eq!(next(&mut stream_diff), Some(Action::Add(2)));
    assert_eq!(next(&mut stream_diff), Some(Action::Add(3)));
    assert_eq!(next(&mut stream_diff), Some(Action::Remove(2)));

    let take_2 = [next(&mut stream_diff), next(&mut stream_diff)];
    assert_eq!(take_2.len(), 2);
    assert!(take_2.contains(&Some(Action::Add(2))));
    assert!(take_2.contains(&Some(Action::Add(4))));

    let take_4 = [
        next(&mut stream_diff),
        next(&mut stream_diff),
        next(&mut stream_diff),
        next(&mut stream_diff),
    ];
    assert_eq!(take_4.len(), 4);
    assert!(take_4.contains(&Some(Action::Remove(1))));
    assert!(take_4.contains(&Some(Action::Remove(2))));
    assert!(take_4.contains(&Some(Action::Remove(3))));
    assert!(take_4.contains(&Some(Action::Remove(4))));

    assert_eq!(next(&mut stream_diff), None);
}

#[test]
fn batches_by_set() {
    let states = vec![
        vec![],
        vec![1],
        vec![1],
        vec![1, 2],
        vec![1, 2, 3],
        vec![1, 3],
        vec![1, 2, 3, 4],
        vec![],
    ];
    let expected: Vec<Vec<Action<i32>>> = vec![
        vec![],
        vec![Action::Add(1)],
        vec![],
        vec![Action::Add(2)],
        vec![Action::Add(3)],
        vec![Action::Remove(2)],
        vec![Action::Add(2), Action::Add(4)],
        vec![Action::Remove(1), Action::Remove(2), Action::Remove(3), Action::Remove(4)],
    ];
    let mut engine: DiffEngine<i32> = DiffEngine::new();
    for (snapshot, want) in states.into_iter().zip(expected) {
        engine.update(snapshot);
        let got: HashSet<Action<i32>> = drain(&mut engine).into_iter().collect();
        let want: HashSet<Action<i32>> = want.into_iter().collect();
        assert_eq!(got, want);
    }
}

#[test]
fn finished_upstream_finishes_at_once() {
    let mut sd: StreamDiff<Ready, i32> = StreamDiff::new(Vec::new().into_iter());
    assert_eq!(next(&mut sd), None);
    assert_eq!(next(&mut sd), None);
}

#[test]
fn finished_stays_finished() {
    let mut sd: StreamDiff<(), i32> = StreamDiff::new(());
    assert!(matches!(sd.pull(), Step::PollUpstream));
    assert!(matches!(sd.on_upstream(Upstream::Finished), Step::Finished));
    assert!(!sd.wants_upstream());
    assert!(matches!(sd.pull(), Step::Finished));
    assert!(matches!(sd.pull(), Step::Finished));
}

#[test]
fn ended_upstream_drops_residual_membership() {
    let mut sd: StreamDiff<Ready, i32> = StreamDiff::new(vec![vec![7, 8]].into_iter());
    let first = [next(&mut sd), next(&mut sd)];
    assert!(first.contains(&Some(Action::Add(7))));
    assert!(first.contains(&Some(Action::Add(8))));
    assert_eq!(next(&mut sd), None);
}

#[test]
fn repeated_element_gives_one_add() {
    let mut sd: StreamDiff<Ready, i32> = StreamDiff::new(vec![vec![5, 5, 5]].into_iter());
    assert_eq!(next(&mut sd), Some(Action::Add(5)));
    assert_eq!(next(&mut sd), None);
}

#[test]
fn suspended_upstream_suspends_forever() {
    let mut sd: StreamDiff<(), i32> = StreamDiff::new(());
    assert!(matches!(sd.pull(), Step::PollUpstream));
    let mut got = Vec::new();
    match sd.on_upstream(Upstream::Snapshot(vec![1, 2])) {
        Step::Ready(a) => got.push(a),
        _ => panic!("a new snapshot with two elements gives an action"),
    }
    match sd.pull() {
        Step::Ready(a) => got.push(a),
        _ => panic!("the batch holds a second action"),
    }
    assert!(got.contains(&Action::Add(1)));
    assert!(got.contains(&Action::Add(2)));
    for _ in 0..5 {
        assert!(matches!(sd.pull(), Step::PollUpstream));
        assert!(sd.wants_upstream());
        assert!(matches!(sd.on_upstream(Upstream::Pending), Step::Pending));
    }
}

#[test]
fn empty_diffs_keep_polling() {
    let mut sd: StreamDiff<(), i32> = StreamDiff::new(());
    assert!(matches!(sd.pull(), Step::PollUpstream));
    assert!(matches!(sd.on_upstream(Upstream::Snapshot(vec![])), Step::PollUpstream));
    assert!(matches!(sd.on_upstream(Upstream::Snapshot(vec![3])), Step::Ready(Action::Add(3))));
    assert!(matches!(sd.pull(), Step::PollUpstream));
    assert!(matches!(sd.on_upstream(Upstream::Snapshot(vec![3, 3])), Step::PollUpstream));
}

#[test]
fn first_update_only_adds() {
    let mut engine: DiffEngine<i32> = DiffEngine::new();
    engine.update(vec![4, 2, 4, 9]);
    let got = drain(&mut engine);
    assert_eq!(got.len(), 3);
    assert!(got.iter().all(|a| matches!(a, Action::Add(_))));
    assert!(got.contains(&Action::Add(2)));
    assert!(got.contains(&Action::Add(4)));
    assert!(got.contains(&Action::Add(9)));
}

#[test]
fn same_set_queues_nothing() {
    let mut engine: DiffEngine<i32> = DiffEngine::new();
    engine.update(vec![1, 2, 3]);
    drain(&mut engine);
    engine.update(vec![3, 2, 1, 1]);
    assert!(engine.pending_is_empty());
    assert_eq!(engine.next_from_queue(), None);
}

#[test]
fn removals_come_before_additions() {
    let mut engine: DiffEngine<i32> = DiffEngine::new();
    engine.update(vec![1, 2, 3]);
    drain(&mut engine);
    engine.update(vec![3, 4, 5]);
    let got = drain(&mut engine);
    assert_eq!(got.len(), 4);
    assert!(matches!(got[0], Action::Remove(_)));
    assert!(matches!(got[1], Action::Remove(_)));
    assert!(matches!(got[2], Action::Add(_)));
    assert!(matches!(got[3], Action::Add(_)));
}

#[test]
fn no_element_both_added_and_removed() {
    let snaps = vec![vec![1, 2], vec![2, 3], vec![1, 3, 2], vec![], vec![4, 1]];
    let mut engine: DiffEngine<i32> = DiffEngine::new();
    for s in snaps {
        engine.update(s);
        let got = drain(&mut engine);
        for a in &got {
            if let Action::Add(x) = a {
                assert!(!got.contains(&Action::Remove(*x)));
            }
        }
    }
}

#[test]
fn replay_rebuilds_each_snapshot() {
    let snaps = vec![vec![1, 2, 2], vec![2, 3], vec![], vec![5, 1, 5], vec![1, 5, 6, 7]];
    let mut engine: DiffEngine<i32> = DiffEngine::new();
    let mut rebuilt: HashSet<i32> = HashSet::new();
    for s in snaps {
        let want: HashSet<i32> = s.iter().copied().collect();
        engine.update(s);
        replay(&mut rebuilt, &drain(&mut engine));
        assert_eq!(rebuilt, want);
    }
}

#[test]
fn reordering_keeps_the_batch() {
    let mut a: DiffEngine<i32> = DiffEngine::new();
    let mut b: DiffEngine<i32> = DiffEngine::new();
    a.update(vec![1, 2, 3]);
    b.update(vec![1, 2, 3]);
    drain(&mut a);
    drain(&mut b);
    a.update(vec![2, 4, 5, 4]);
    b.update(vec![4, 5, 4, 2]);
    let got_a: HashSet<Action<i32>> = drain(&mut a).into_iter().collect();
    let got_b: HashSet<Action<i32>> = drain(&mut b).into_iter().collect();
    assert_eq!(got_a, got_b);
    let want: HashSet<Action<i32>> =
        vec![Action::Remove(1), Action::Remove(3), Action::Add(4), Action::Add(5)].into_iter().collect();
    assert_eq!(got_a, want);
}
