use swapcore::{
    all_done, build_report, effective_free, next_move, pick_largest_that_fits, run_dry, FileEntry,
    NextMove, RunError, Scheduler, SwapConfig,
};

const GB: u64 = 1024 * 1024 * 1024;

fn entry(rel: &str, size: u64) -> FileEntry {
    FileEntry { abs: format!("/src/{rel}"), rel: rel.to_string(), size }
}

fn cfg(reserve_bytes: u64) -> SwapConfig {
    SwapConfig {
        a_root: "/a".to_string(),
        b_root: "/b".to_string(),
        a_dest: "/b/a_dest".to_string(),
        b_dest: "/a/b_dest".to_string(),
        reserve_bytes,
        buffer_bytes: 8 * 1024 * 1024,
        verbose: false,
    }
}

#[test]
fn dry_run_completes_and_counts_everything() {
    // A = 10 GB with one 6 GB file, B = 10 GB of 2 GB files, C free 5 GB,
    // D free 11 GB: the interleaved greedy order finishes both trees.
    let a = vec![entry("big", 6 * GB), entry("a1", 2 * GB), entry("a2", 2 * GB)];
    let b = vec![
        entry("b1", 2 * GB),
        entry("b2", 2 * GB),
        entry("b3", 2 * GB),
        entry("b4", 2 * GB),
        entry("b5", 2 * GB),
    ];
    let report = run_dry(&cfg(0), a, b, 5 * GB, 11 * GB).expect("swap should complete");
    assert_eq!(report.moved_a_files, 3);
    assert_eq!(report.moved_b_files, 5);
    assert_eq!(report.moved_a_bytes, 10 * GB);
    assert_eq!(report.moved_b_bytes, 10 * GB);
    assert!(report.summary.contains("DRY-RUN complete."));
    assert!(report.summary.contains("Moved B->C: "));
    assert!(report.summary.contains("Moved A->D: "));
    assert!(report.summary.contains("5 files"));
    assert!(report.summary.contains("3 files"));
}

#[test]
fn dry_run_deadlocks_on_pathological_distribution() {
    // B = [9 GB], A = [9 GB], C free = 1 GB, D free = 1 GB, reserve 0:
    // aggregates are fine, yet no first move fits either pool.
    let a = vec![entry("a1", 9 * GB)];
    let b = vec![entry("b1", 9 * GB)];
    match run_dry(&cfg(0), a, b, 1 * GB, 1 * GB) {
        Err(RunError::DeadlockBoth { free_c_eff, free_d_eff }) => {
            assert_eq!(free_c_eff, 1 * GB);
            assert_eq!(free_d_eff, 1 * GB);
        },
        other => panic!("expected a two-sided deadlock, got {other:?}"),
    }
}

#[test]
fn dry_run_deadlocks_after_b_finishes() {
    // B drains fine, then the remaining A file cannot fit on D.
    let a = vec![entry("a1", 50 * GB)];
    let b = vec![entry("b1", 1 * GB)];
    match run_dry(&cfg(0), a, b, 10 * GB, 1 * GB) {
        Err(RunError::DeadlockTailA { free_d_eff }) => {
            // D gained B's vacated gigabyte: 1 GB + 1 GB.
            assert_eq!(free_d_eff, 2 * GB);
        },
        other => panic!("expected a tail deadlock on A, got {other:?}"),
    }
}

#[test]
fn deadlock_messages_name_the_stuck_pools() {
    let both = RunError::DeadlockBoth { free_c_eff: 1 * GB, free_d_eff: 2 * GB };
    let msg = both.message();
    assert!(msg.contains("DEADLOCK"));
    assert!(msg.contains("free_C_eff="));
    assert!(msg.contains(&bytesize::ByteSize(1 * GB).to_string()));
    assert!(msg.contains(&bytesize::ByteSize(2 * GB).to_string()));

    let tail = RunError::DeadlockTailA { free_d_eff: 3 * GB };
    let tail_msg = tail.message();
    assert!(tail_msg.contains("B finished but remaining A file doesn't fit on D"));
    assert!(tail_msg.contains(&bytesize::ByteSize(3 * GB).to_string()));
}

#[test]
fn reserve_margin_excludes_an_otherwise_fitting_file() {
    // Reserve 2 GB with raw free 3 GB: effective free is 1 GB, so a 2 GB
    // file no longer fits even though raw space would admit it.
    assert_eq!(effective_free(3 * GB, 2 * GB), 1 * GB);
    assert_eq!(effective_free(1 * GB, 2 * GB), 0);

    let b = vec![entry("b1", 2 * GB)];
    let done = vec![false];
    assert_eq!(pick_largest_that_fits(&b, &done, effective_free(3 * GB, 2 * GB)), None);
    assert_eq!(pick_largest_that_fits(&b, &done, effective_free(3 * GB, 0)), Some(0));

    // The same margin turns a movable run into a deadlock.
    let a: Vec<FileEntry> = Vec::new();
    match run_dry(&cfg(2 * GB), a, b, 3 * GB, 10 * GB) {
        Err(RunError::DeadlockBoth { free_c_eff, .. }) => assert_eq!(free_c_eff, 1 * GB),
        other => panic!("expected a deadlock under the reserve margin, got {other:?}"),
    }
}

#[test]
fn selection_takes_the_first_fitting_file_in_descending_order() {
    let files = vec![entry("big", 8), entry("mid", 5), entry("small", 2)];
    let none_done = vec![false, false, false];
    assert_eq!(pick_largest_that_fits(&files, &none_done, 9), Some(0));
    assert_eq!(pick_largest_that_fits(&files, &none_done, 6), Some(1));
    assert_eq!(pick_largest_that_fits(&files, &none_done, 2), Some(2));
    assert_eq!(pick_largest_that_fits(&files, &none_done, 1), None);
    // A done file is never revisited: with the head done, the next fit wins.
    let head_done = vec![true, false, false];
    assert_eq!(pick_largest_that_fits(&files, &head_done, 9), Some(1));
}

#[test]
fn next_move_prefers_draining_b() {
    let a = vec![entry("a1", 1)];
    let b = vec![entry("b1", 1)];
    let m = next_move(&a, &b, &vec![false], &vec![false], 10, 10, 0);
    assert_eq!(m, NextMove::BToC { idx: 0 });
    // With B blocked, a fitting A file moves instead to free space on C.
    let m2 = next_move(&a, &b, &vec![false], &vec![false], 0, 10, 0);
    assert_eq!(m2, NextMove::AToD { idx: 0 });
    // Both trees done: finished.
    let m3 = next_move(&a, &b, &vec![true], &vec![true], 10, 10, 0);
    assert_eq!(m3, NextMove::Finished);
}

#[test]
fn scheduler_commit_is_monotonic_and_counts_once() {
    let a = vec![entry("a1", 4)];
    let b = vec![entry("b1", 7), entry("b2", 3)];
    let mut s = Scheduler::new(a, b, 0);
    assert_eq!(s.moved_b_files, 0);

    let first = s.decide(100, 100);
    assert_eq!(first, NextMove::BToC { idx: 0 });
    s.commit(first);
    assert!(s.done_b[0]);
    assert_eq!(s.moved_b_files, 1);
    assert_eq!(s.moved_b_bytes, 7);

    // The committed file is never chosen again.
    let second = s.decide(100, 100);
    assert_eq!(second, NextMove::BToC { idx: 1 });
    s.commit(second);
    assert!(s.done_b[0] && s.done_b[1]);
    assert_eq!(s.moved_b_files, 2);
    assert_eq!(s.moved_b_bytes, 10);

    let third = s.decide(100, 100);
    assert_eq!(third, NextMove::AToD { idx: 0 });
    s.commit(third);
    assert_eq!(s.decide(100, 100), NextMove::Finished);
    assert_eq!(s.moved_a_files, 1);
    assert_eq!(s.moved_a_bytes, 4);
}

#[test]
fn dry_run_decisions_match_a_replayed_real_run() {
    // Drive the scheduler by hand the way a real run would — probing the
    // "live" free space, which here evolves exactly as the simulation's —
    // and compare against run_dry on the same inputs.
    let a = vec![entry("big", 6 * GB), entry("a1", 2 * GB), entry("a2", 2 * GB)];
    let b = vec![
        entry("b1", 2 * GB),
        entry("b2", 2 * GB),
        entry("b3", 2 * GB),
        entry("b4", 2 * GB),
        entry("b5", 2 * GB),
    ];
    let mut s = Scheduler::new(a.clone(), b.clone(), 0);
    let mut free_c = 5 * GB;
    let mut free_d = 11 * GB;
    let mut live_decisions = Vec::new();
    loop {
        let m = s.decide(free_c, free_d);
        match m {
            NextMove::BToC { idx } => {
                let sz = s.b_files[idx].size;
                free_c -= sz;
                free_d += sz;
                live_decisions.push(('B', idx));
                s.commit(m);
            },
            NextMove::AToD { idx } => {
                let sz = s.a_files[idx].size;
                free_d -= sz;
                free_c += sz;
                live_decisions.push(('A', idx));
                s.commit(m);
            },
            NextMove::Finished => break,
            other => panic!("unexpected deadlock {other:?}"),
        }
    }
    let report = run_dry(&cfg(0), a, b, 5 * GB, 11 * GB).expect("completes");
    assert_eq!(report.moved_a_files, live_decisions.iter().filter(|d| d.0 == 'A').count() as u64);
    assert_eq!(report.moved_b_files, live_decisions.iter().filter(|d| d.0 == 'B').count() as u64);
    // Every file moved exactly once.
    let mut b_indices: Vec<usize> =
        live_decisions.iter().filter(|d| d.0 == 'B').map(|d| d.1).collect();
    b_indices.sort();
    assert_eq!(b_indices, vec![0, 1, 2, 3, 4]);
    let mut a_indices: Vec<usize> =
        live_decisions.iter().filter(|d| d.0 == 'A').map(|d| d.1).collect();
    a_indices.sort();
    assert_eq!(a_indices, vec![0, 1, 2]);
}

#[test]
fn conservation_of_raw_free_space_during_a_simulated_run() {
    // Replay a run step by step: each move keeps free_c + free_d constant.
    let a = vec![entry("a1", 3 * GB), entry("a2", 1 * GB)];
    let b = vec![entry("b1", 2 * GB), entry("b2", 2 * GB)];
    let mut s = Scheduler::new(a, b, 0);
    let mut free_c = 4 * GB;
    let mut free_d = 5 * GB;
    let total = free_c + free_d;
    loop {
        match s.decide(free_c, free_d) {
            m @ NextMove::BToC { idx } => {
                let sz = s.b_files[idx].size;
                free_c -= sz;
                free_d += sz;
                s.commit(m);
            },
            m @ NextMove::AToD { idx } => {
                let sz = s.a_files[idx].size;
                free_d -= sz;
                free_c += sz;
                s.commit(m);
            },
            _ => break,
        }
        assert_eq!(free_c + free_d, total);
    }
    assert!(all_done(&s.done_a) && all_done(&s.done_b));
}

#[test]
fn empty_trees_finish_immediately() {
    let report = run_dry(&cfg(0), Vec::new(), Vec::new(), 0, 0).expect("nothing to move");
    assert_eq!(report.moved_a_files, 0);
    assert_eq!(report.moved_b_files, 0);
    assert_eq!(report.moved_a_bytes, 0);
    assert_eq!(report.moved_b_bytes, 0);
}

#[test]
fn build_report_carries_counters_and_units() {
    let r = build_report(false, 3 * GB, 4 * GB, 2, 5, 3 * GB, 4 * GB);
    assert_eq!(r.moved_a_bytes, 3 * GB);
    assert_eq!(r.moved_b_bytes, 4 * GB);
    assert_eq!(r.moved_a_files, 2);
    assert_eq!(r.moved_b_files, 5);
    assert!(r.summary.contains("REAL-RUN complete."));
    assert!(r.summary.contains("(5 files)"));
    assert!(r.summary.contains("(2 files)"));
    assert!(r.summary.contains(&bytesize::ByteSize(4 * GB).to_string()));
}
