use uwupm::claims::ClaimSet;
use uwupm::pool::worker_count;

#[test]
fn worker_count_is_capped_by_queue_length() {
    assert_eq!(worker_count(5, 3), 3);
    assert_eq!(worker_count(5, 9), 5);
    assert_eq!(worker_count(5, 0), 0);
    assert_eq!(worker_count(1, 1), 1);
}

#[test]
fn claim_next_hands_out_each_position_once() {
    let mut claims = ClaimSet::new(5);
    assert_eq!(claims.len(), 5);
    assert_eq!(claims.claim_next(0), Some(0));
    assert_eq!(claims.claim_next(0), Some(1));
    assert_eq!(claims.claim_next(3), Some(3));
    assert_eq!(claims.claim_next(0), Some(2));
    assert_eq!(claims.claim_next(0), Some(4));
    assert_eq!(claims.claim_next(0), None);
    assert_eq!(claims.claim_next(5), None);
}

#[test]
fn claim_next_on_empty_queue_finds_nothing() {
    let mut claims = ClaimSet::new(0);
    assert_eq!(claims.claim_next(0), None);
}

/// Drives a full pool of `workers` cursors over a queue of `m` entries,
/// interleaving the workers round-robin, and counts how often each position
/// is handed out.
fn run_pool(m: usize, workers: usize) -> Vec<u32> {
    let mut claims = ClaimSet::new(m);
    let mut cursors: Vec<usize> = (0..workers).map(|w| w.min(m)).collect();
    let mut done: Vec<bool> = vec![false; workers];
    let mut counts: Vec<u32> = vec![0; m];
    while done.iter().any(|d| !d) {
        for w in 0..workers {
            if done[w] {
                continue;
            }
            match claims.claim_next(cursors[w]) {
                Some(i) => {
                    counts[i] += 1;
                    cursors[w] = i + 1;
                }
                None => {
                    done[w] = true;
                }
            }
        }
    }
    counts
}

#[test]
fn every_position_is_processed_exactly_once_for_any_worker_count() {
    for workers in 1..=5 {
        for m in 0..=7 {
            let counts = run_pool(m, workers);
            assert_eq!(counts.len(), m);
            for c in counts.iter() {
                assert_eq!(*c, 1);
            }
        }
    }
}
