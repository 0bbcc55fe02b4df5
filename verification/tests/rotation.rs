use aura::rotation::{merge_with_existing_remote_candidates, RotationManager};
use aura::sources::{ImageCandidate, Origin};
use aura::state::PersistedState;
use std::collections::HashSet;

fn candidate(id: &str) -> ImageCandidate {
    ImageCandidate::local(id.to_string(), Origin::Directory, format!("{id}.jpg"), None)
}

#[test]
fn no_repeat_before_cycle_reset() {
    let mut rotation = RotationManager::new();
    rotation.rebuild_pool(vec![candidate("a"), candidate("b"), candidate("c")]);
    let mut seen = HashSet::new();

    for _ in 0..3 {
        let next = rotation.next().unwrap();
        assert!(seen.insert(next.id));
    }
}

#[test]
fn every_cycle_shows_each_image_once() {
    let mut rotation = RotationManager::new();
    rotation.rebuild_pool(vec![candidate("a"), candidate("b"), candidate("c"), candidate("d")]);
    for _ in 0..3 {
        let mut seen = HashSet::new();
        for _ in 0..4 {
            assert!(seen.insert(rotation.next().unwrap().id));
        }
        assert_eq!(seen.len(), 4);
    }
}

#[test]
fn empty_pool_yields_nothing() {
    let mut rotation = RotationManager::new();
    assert!(rotation.next().is_none());
    assert!(rotation.peek_next().is_none());
    assert_eq!(rotation.pool_size(), 0);
}

#[test]
fn pool_keeps_last_candidate_per_id() {
    let mut rotation = RotationManager::new();
    let first = ImageCandidate::local("x".to_string(), Origin::File, "first.jpg".to_string(), None);
    let second = ImageCandidate::local("x".to_string(), Origin::File, "second.jpg".to_string(), None);
    rotation.rebuild_pool(vec![first, second]);
    assert_eq!(rotation.pool_size(), 1);
    assert_eq!(rotation.next().unwrap().display_source(), "second.jpg");
}

#[test]
fn restored_queue_is_followed_and_exported() {
    let mut rotation = RotationManager::new();
    rotation.rebuild_pool(vec![candidate("a"), candidate("b"), candidate("c")]);
    rotation.restore_state(&PersistedState {
        remaining_queue: vec!["c".to_string(), "gone".to_string(), "a".to_string()],
        shown_ids: vec!["b".to_string(), "b".to_string()],
        last_image_id: None,
    });
    let state = rotation.export_state();
    assert_eq!(state.remaining_queue, vec!["c".to_string(), "a".to_string()]);
    assert_eq!(state.shown_ids, vec!["b".to_string()]);
    assert!(state.last_image_id.is_none());
    assert_eq!(rotation.peek_next().unwrap().id, "c");
    assert_eq!(rotation.next().unwrap().id, "c");
    assert_eq!(rotation.next().unwrap().id, "a");
    assert_eq!(rotation.export_state().shown_ids.len(), 3);
}

#[test]
fn merge_keeps_remote_candidates_not_refreshed_locally() {
    let mut rotation = RotationManager::new();
    let remote = ImageCandidate::rss("r1".to_string(), "https://x/a.jpg".to_string(), "/tmp/d".to_string(), None);
    rotation.rebuild_pool(vec![candidate("a"), remote]);
    let merged = merge_with_existing_remote_candidates(&rotation, vec![candidate("b")]);
    let ids: Vec<String> = merged.into_iter().map(|c| c.id).collect();
    assert_eq!(ids, vec!["b".to_string(), "r1".to_string()]);
}
