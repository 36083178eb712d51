use distinct::gate::{filter_stream, should_emit};
use distinct::shared::AsyncDistinct;
use distinct::tracker::{Processed, SyncDistinct};

fn item(id: u8) -> Processed {
    Processed { key: Some(vec![id]) }
}

fn keyless() -> Processed {
    Processed { key: None }
}

#[test]
fn first_check_unseen_then_seen() {
    let mut t = SyncDistinct::new(true).unwrap();
    assert!(!t.check_and_mark(&vec![1, 2, 3]));
    assert!(t.check_and_mark(&vec![1, 2, 3]));
    assert!(t.check_and_mark(&vec![1, 2, 3]));
}

#[test]
fn repeated_key_suppressed_after_other_keys() {
    let mut t = SyncDistinct::default();
    assert!(!t.check_and_mark(&vec![9]));
    assert!(!t.check_and_mark(&vec![8]));
    assert!(!t.check_and_mark(&vec![9, 0]));
    assert!(t.check_and_mark(&vec![9]));
}

#[test]
fn keys_are_independent() {
    let mut t = SyncDistinct::new(true).unwrap();
    assert!(!t.check_and_mark(&vec![1]));
    assert!(!t.check_and_mark(&vec![2]));
    assert!(!t.check_and_mark(&vec![1, 0]));
    assert!(!t.check_and_mark(&vec![]));
    assert!(t.check_and_mark(&vec![]));
}

#[test]
fn prefix_keys_are_distinct() {
    let mut t = SyncDistinct::new(true).unwrap();
    assert!(!t.check_and_mark(&vec![1, 2]));
    assert!(!t.check_and_mark(&vec![1]));
    assert!(!t.check_and_mark(&vec![1, 2, 3]));
    assert!(t.check_and_mark(&vec![1, 2]));
    assert!(t.check_and_mark(&vec![1]));
}

#[test]
fn no_tracker_when_not_required() {
    assert!(SyncDistinct::new(false).is_none());
    assert!(AsyncDistinct::new(false).is_none());
    assert!(AsyncDistinct::new(true).is_some());
}

#[test]
fn keyless_item_never_suppressed() {
    let mut t = SyncDistinct::new(true).unwrap();
    for _ in 0..5 {
        assert!(!t.check_already_processed(&keyless()));
    }
    assert!(!t.check_already_processed(&item(4)));
    assert!(t.check_already_processed(&item(4)));
}

#[test]
fn should_emit_without_gate_accepts_all() {
    let mut gate = SyncDistinct::new(false);
    assert!(should_emit(&mut gate, &item(1)));
    assert!(should_emit(&mut gate, &item(1)));
    assert!(gate.is_none());
}

#[test]
fn scenario_not_required_emits_all() {
    let mut gate = SyncDistinct::new(false);
    let items = vec![item(1), item(1), item(2)];
    assert_eq!(filter_stream(&mut gate, &items), vec![true, true, true]);
}

#[test]
fn scenario_required_suppresses_repeats() {
    let mut gate = SyncDistinct::new(true);
    let items = vec![item(1), item(2), item(1), item(3), item(2)];
    assert_eq!(filter_stream(&mut gate, &items), vec![true, true, false, true, false]);
}

#[test]
fn scenario_keyless_item_among_repeats() {
    let mut gate = SyncDistinct::new(true);
    let items = vec![item(1), keyless(), item(1), keyless(), item(1)];
    assert_eq!(filter_stream(&mut gate, &items), vec![true, true, false, true, false]);
}

#[test]
fn filter_stream_continues_from_gate_state() {
    let mut gate = SyncDistinct::new(true);
    assert_eq!(filter_stream(&mut gate, &vec![item(5)]), vec![true]);
    assert_eq!(filter_stream(&mut gate, &vec![item(6), item(5)]), vec![true, false]);
}

#[test]
fn filter_empty_stream() {
    let mut gate = SyncDistinct::new(true);
    assert!(filter_stream(&mut gate, &vec![]).is_empty());
    assert!(gate.is_some());
}

#[test]
fn serialised_callers_let_each_key_through_once() {
    let mut gate = SyncDistinct::new(true);
    let items = vec![item(3), item(3), item(4), item(3), item(4), item(4)];
    let out = filter_stream(&mut gate, &items);
    assert_eq!(out.iter().filter(|e| **e).count(), 2);
    assert_eq!(out, vec![true, false, true, false, false, false]);
}

fn race_once(rt: &tokio::runtime::Runtime, n: usize) -> usize {
    let gate = AsyncDistinct::new(true).unwrap();
    rt.block_on(async move {
        let mut handles = Vec::new();
        for _ in 0..n {
            let branch = gate.clone();
            handles.push(tokio::spawn(async move {
                let seen = branch.tracker().lock().await.check_already_processed(&item(7));
                seen
            }));
        }
        let mut unseen: usize = 0;
        for h in handles {
            if !h.await.unwrap() {
                unseen += 1;
            }
        }
        unseen
    })
}

#[test]
fn concurrent_branches_race_for_one_key() {
    let rt = tokio::runtime::Builder::new_multi_thread().worker_threads(2).build().unwrap();
    for _ in 0..200 {
        assert_eq!(race_once(&rt, 2), 1);
    }
}

#[test]
fn many_concurrent_callers_exactly_one_wins() {
    let rt = tokio::runtime::Builder::new_multi_thread().worker_threads(4).build().unwrap();
    for _ in 0..20 {
        assert_eq!(race_once(&rt, 16), 1);
    }
}
