use solana_vanity::shared::SearchState;

#[test]
fn fresh_state_has_nothing_found_and_no_attempts() {
    let shared = SearchState::new();
    assert!(!shared.stop_requested());
    assert_eq!(shared.total_attempts(), 0);
}

#[test]
fn only_the_first_claim_wins() {
    let shared = SearchState::new();
    assert!(shared.claim_win());
    assert!(shared.stop_requested());
    assert!(!shared.claim_win());
    assert!(!shared.claim_win());
    assert!(shared.stop_requested());
}

#[test]
fn attempts_add_up() {
    let shared = SearchState::new();
    assert_eq!(shared.add_attempts(5), 5);
    assert_eq!(shared.add_attempts(0), 5);
    assert_eq!(shared.add_attempts(50_000), 50_005);
    assert_eq!(shared.total_attempts(), 50_005);
}

#[test]
fn total_never_decreases() {
    let shared = SearchState::new();
    let mut last = shared.total_attempts();
    for step in 0..100u64 {
        let now = shared.add_attempts(step % 7);
        assert!(now >= last);
        last = now;
    }
    assert_eq!(shared.total_attempts(), last);
}

#[test]
fn searches_do_not_share_state() {
    let one = SearchState::new();
    let other = SearchState::new();
    assert!(one.claim_win());
    one.add_attempts(10);
    assert!(!other.stop_requested());
    assert_eq!(other.total_attempts(), 0);
    assert!(other.claim_win());
}

#[test]
fn elapsed_does_not_run_backwards() {
    let shared = SearchState::new();
    let first = shared.elapsed();
    let second = shared.elapsed();
    assert!(second >= first);
}
