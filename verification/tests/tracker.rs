use storm::tracker::{IndexTracker, TokenError};

#[test]
fn fresh_tokens_get_consecutive_indices() {
    let mut tracker = IndexTracker::new();
    let a = tracker.add();
    let b = tracker.add();
    let c = tracker.add();
    assert_eq!(tracker.get(&a), Ok(0));
    assert_eq!(tracker.get(&b), Ok(1));
    assert_eq!(tracker.get(&c), Ok(2));
    assert_ne!(a, b);
    assert_ne!(b, c);
    assert_ne!(a, c);
}

#[test]
fn remove_returns_the_index_of_the_token() {
    let mut tracker = IndexTracker::new();
    let a = tracker.add();
    let b = tracker.add();
    assert_eq!(tracker.remove(b), Ok(1));
    assert_eq!(tracker.remove(a), Ok(0));
}

#[test]
fn removed_token_is_invalid_for_get_and_remove() {
    let mut tracker = IndexTracker::new();
    let a = tracker.add();
    assert_eq!(tracker.remove(a), Ok(0));
    assert_eq!(tracker.get(&a), Err(TokenError::InvalidToken));
    assert_eq!(tracker.remove(a), Err(TokenError::InvalidToken));
    // Further insertions do not bring it back.
    let b = tracker.add();
    let c = tracker.add();
    assert_eq!(tracker.get(&a), Err(TokenError::InvalidToken));
    assert_eq!(tracker.remove(a), Err(TokenError::InvalidToken));
    assert_eq!(tracker.get(&b), Ok(0));
    assert_eq!(tracker.get(&c), Ok(1));
}

#[test]
fn failed_remove_changes_nothing() {
    let mut tracker = IndexTracker::new();
    let a = tracker.add();
    let b = tracker.add();
    assert_eq!(tracker.remove(a), Ok(0));
    assert_eq!(tracker.remove(a), Err(TokenError::InvalidToken));
    // Index 0 is free exactly once: the next two insertions get 0 and 2.
    let c = tracker.add();
    let d = tracker.add();
    assert_eq!(tracker.get(&b), Ok(1));
    assert_eq!(tracker.get(&c), Ok(0));
    assert_eq!(tracker.get(&d), Ok(2));
}

#[test]
fn add_after_remove_reuses_index_under_a_new_token() {
    let mut tracker = IndexTracker::new();
    let _a = tracker.add();
    let b = tracker.add();
    let _c = tracker.add();
    assert_eq!(tracker.remove(b), Ok(1));
    let d = tracker.add();
    assert_ne!(d, b);
    assert_eq!(tracker.get(&d), Ok(1));
    assert_eq!(tracker.get(&b), Err(TokenError::InvalidToken));
}

#[test]
fn freed_indices_are_reused_most_recent_first() {
    let mut tracker = IndexTracker::new();
    let a = tracker.add();
    let b = tracker.add();
    let c = tracker.add();
    assert_eq!(tracker.remove(a), Ok(0));
    assert_eq!(tracker.remove(c), Ok(2));
    let d = tracker.add();
    let e = tracker.add();
    let f = tracker.add();
    assert_eq!(tracker.get(&d), Ok(2));
    assert_eq!(tracker.get(&e), Ok(0));
    assert_eq!(tracker.get(&f), Ok(3));
    assert_eq!(tracker.get(&b), Ok(1));
}

#[test]
fn live_indices_are_pairwise_distinct() {
    let mut tracker = IndexTracker::new();
    let mut live = Vec::new();
    for round in 0..40usize {
        live.push(tracker.add());
        live.push(tracker.add());
        if round % 3 != 0 {
            let victim = live.remove((round * 7) % live.len());
            assert!(tracker.remove(victim).is_ok());
        }
        let indices: Vec<usize> = live.iter().map(|t| tracker.get(t).unwrap()).collect();
        for i in 0..indices.len() {
            for j in (i + 1)..indices.len() {
                assert_ne!(indices[i], indices[j]);
            }
        }
    }
}

#[test]
fn live_and_free_indices_stay_dense() {
    let mut tracker = IndexTracker::new();
    let tokens: Vec<_> = (0..5).map(|_| tracker.add()).collect();
    assert_eq!(tracker.remove(tokens[1]), Ok(1));
    assert_eq!(tracker.remove(tokens[3]), Ok(3));
    let x = tracker.add();
    let y = tracker.add();
    let mut indices = vec![
        tracker.get(&tokens[0]).unwrap(),
        tracker.get(&tokens[2]).unwrap(),
        tracker.get(&tokens[4]).unwrap(),
        tracker.get(&x).unwrap(),
        tracker.get(&y).unwrap(),
    ];
    indices.sort();
    assert_eq!(indices, vec![0, 1, 2, 3, 4]);
}

#[test]
fn token_never_issued_is_invalid() {
    let mut issuer = IndexTracker::new();
    let _first = issuer.add();
    let second = issuer.add();
    let mut other = IndexTracker::new();
    let _only = other.add();
    assert_eq!(other.get(&second), Err(TokenError::InvalidToken));
    assert_eq!(other.remove(second), Err(TokenError::InvalidToken));
}

#[test]
fn token_of_another_namespace_is_invalid() {
    let mut quads = IndexTracker::with_namespace(0);
    let mut triangles = IndexTracker::with_namespace(1);
    let q = quads.add();
    let t = triangles.add();
    assert_ne!(q, t);
    assert_eq!(quads.get(&q), Ok(0));
    assert_eq!(triangles.get(&t), Ok(0));
    assert_eq!(quads.get(&t), Err(TokenError::InvalidToken));
    assert_eq!(triangles.get(&q), Err(TokenError::InvalidToken));
    assert_eq!(triangles.remove(q), Err(TokenError::InvalidToken));
    assert_eq!(triangles.get(&t), Ok(0));
}

#[test]
fn count_is_the_number_of_tokens_issued() {
    let mut tracker = IndexTracker::new();
    assert_eq!(tracker.count(), 0);
    let a = tracker.add();
    let _b = tracker.add();
    assert_eq!(tracker.count(), 2);
    assert_eq!(tracker.remove(a), Ok(0));
    assert_eq!(tracker.count(), 2);
    let _c = tracker.add();
    assert_eq!(tracker.count(), 3);
}
