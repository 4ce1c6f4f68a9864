use web_link::throttle::{ProgressUpdate, Throttler, run_throttle};

fn descending_raws(total: u32) -> Vec<u32> {
    let mut raws = Vec::new();
    let mut r = total;
    loop {
        raws.push(r);
        if r == 0 {
            break;
        }
        r -= 1;
    }
    raws
}

#[test]
fn throttle_first_callback_notifies() {
    let mut t = Throttler::new(100);
    let first = t.note(100);
    assert_eq!(first, Some(ProgressUpdate { remaining: 100, total: 100 }));
}

#[test]
fn throttle_window_suppresses_five_of_six() {
    let mut t = Throttler::new(12);
    let mut emitted = Vec::new();
    let mut remaining = 12u32;
    for _ in 0..12 {
        if let Some(u) = t.note(remaining) {
            emitted.push(u);
        }
        remaining -= 1;
    }
    // Calls 0 and 6 of the two windows are let through, nothing else.
    assert_eq!(
        emitted,
        vec![
            ProgressUpdate { remaining: 12, total: 12 },
            ProgressUpdate { remaining: 6, total: 12 },
        ]
    );
}

#[test]
fn throttle_terminal_always_notifies() {
    let mut t = Throttler::new(5);
    assert_eq!(t.note(5), Some(ProgressUpdate { remaining: 5, total: 5 }));
    assert_eq!(t.note(4), None);
    assert_eq!(t.note(3), None);
    assert_eq!(t.note(2), None);
    assert_eq!(t.note(1), None);
    // Mid-window, yet the terminal callback is let through.
    assert_eq!(t.note(0), Some(ProgressUpdate { remaining: 0, total: 5 }));
}

#[test]
fn throttle_descending_transfer_of_1000() {
    let raws = descending_raws(1000);
    assert_eq!(raws.len(), 1001);
    let out = run_throttle(1000, &raws);
    // First notification at the first callback.
    assert_eq!(out[0], ProgressUpdate { remaining: 1000, total: 1000 });
    // Terminal notification exactly once, and last.
    assert_eq!(out.last(), Some(&ProgressUpdate { remaining: 0, total: 1000 }));
    assert_eq!(out.iter().filter(|u| u.remaining == 0).count(), 1);
    // Every notification carries the fixed total.
    assert!(out.iter().all(|u| u.total == 1000));
    // One per window of six plus the terminal one: no more than
    // ceil(1001 / 6) + 1.
    assert!(out.len() <= 168);
    assert_eq!(out.len(), 168);
}

#[test]
fn throttle_empty_transfer_still_notifies_once() {
    let out = run_throttle(0, &vec![0]);
    assert_eq!(out, vec![ProgressUpdate { remaining: 0, total: 0 }]);
}

#[test]
fn throttle_no_zero_callback_no_terminal() {
    // A transfer that is never completed: remaining never reaches zero.
    let raws: Vec<u32> = (1..=10).rev().collect();
    let out = run_throttle(10, &raws);
    assert!(out.iter().all(|u| u.remaining != 0));
    assert_eq!(
        out,
        vec![
            ProgressUpdate { remaining: 10, total: 10 },
            ProgressUpdate { remaining: 4, total: 10 },
        ]
    );
}

#[test]
fn throttle_exact_window_boundary() {
    let raws = descending_raws(5);
    let out = run_throttle(5, &raws);
    assert_eq!(
        out,
        vec![
            ProgressUpdate { remaining: 5, total: 5 },
            ProgressUpdate { remaining: 0, total: 5 },
        ]
    );
}
