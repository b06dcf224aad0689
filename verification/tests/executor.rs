use batch_exec::plan::Step;
use batch_exec::Batch;
use std::sync::atomic::AtomicUsize;
use std::sync::atomic::Ordering;

fn func() {}

#[test]
fn batch_size() {
    let mut batch: Batch<fn()> = Batch::new();

    for _ in 0..50 {
        batch.add_func(func);
    }

    batch.set_size(10);

    assert_eq!(batch.size, 10);
}

#[test]
fn equal_batch_clone() {
    let mut batch: Batch<fn()> = Batch::new();

    for _ in 0..50 {
        batch.add_func(func);
    }

    assert_eq!(batch.length(), 50);
}

#[test]
fn new_registry_is_empty() {
    let batch: Batch<fn()> = Batch::new();
    assert_eq!(batch.length(), 0);
    assert_eq!(batch.size, 0);
    assert_eq!(batch.batch_wait_dur, 0);
    assert!(!batch.stats);
}

#[test]
fn count_ignores_configuration_order() {
    let mut batch: Batch<fn()> = Batch::new();
    batch.set_size(4);
    for i in 0..7 {
        batch.add_func(func);
        if i % 2 == 0 {
            batch.set_stats(true);
            batch.set_batch_wait_dur(i);
        }
    }
    batch.set_size(2);
    assert_eq!(batch.length(), 7);
}

#[test]
fn linear_schedule_is_one_group_of_all() {
    let mut batch: Batch<u32> = Batch::new();
    for job in 0..5 {
        batch.add_func(job);
    }
    let steps = batch.linear_schedule();
    assert_eq!(steps, vec![Step::Run { start: 0, end: 5 }]);
}

#[test]
fn zero_batch_size_is_rejected() {
    let mut batch: Batch<fn()> = Batch::new();
    batch.add_func(func);
    assert!(batch.batched_schedule().is_none());
    batch.set_size(3);
    assert!(batch.batched_schedule().is_some());
}

#[test]
fn empty_registry_gives_empty_schedule() {
    let mut batch: Batch<fn()> = Batch::new();
    batch.set_size(3);
    assert_eq!(batch.batched_schedule(), Some(vec![]));
}

#[test]
fn ten_jobs_by_three_make_four_groups() {
    let mut batch: Batch<usize> = Batch::new();
    for job in 0..10 {
        batch.add_func(job);
    }
    batch.set_size(3);
    let steps = batch.batched_schedule().unwrap();
    assert_eq!(
        steps,
        vec![
            Step::Run { start: 0, end: 3 },
            Step::Run { start: 3, end: 6 },
            Step::Run { start: 6, end: 9 },
            Step::Run { start: 9, end: 10 },
        ]
    );
}

#[test]
fn each_job_runs_exactly_once() {
    let counter = AtomicUsize::new(0);
    let mut batch: Batch<usize> = Batch::new();
    for job in 0..10 {
        batch.add_func(job);
    }
    batch.set_size(3);

    let mut seen = [0usize; 10];
    let mut groups = Vec::new();
    for step in batch.batched_schedule().unwrap() {
        match step {
            Step::Run { start, end } => {
                groups.push(end - start);
                for i in start..end {
                    seen[batch.functions[i]] += 1;
                    counter.fetch_add(1, Ordering::SeqCst);
                }
            }
            Step::Pause { .. } => panic!("no pause was configured"),
        }
    }
    assert_eq!(counter.load(Ordering::SeqCst), 10);
    assert_eq!(groups, vec![3, 3, 3, 1]);
    assert!(seen.iter().all(|&c| c == 1));
}

#[test]
fn job_index_decides_its_group() {
    let mut batch: Batch<usize> = Batch::new();
    for job in 0..10 {
        batch.add_func(job);
    }
    batch.set_size(3);
    let steps = batch.batched_schedule().unwrap();
    for i in 0..10 {
        match steps[i / 3] {
            Step::Run { start, end } => assert!(start <= i && i < end),
            Step::Pause { .. } => panic!("no pause was configured"),
        }
    }
}

#[test]
fn pauses_stand_between_groups() {
    let mut batch: Batch<fn()> = Batch::new();
    for _ in 0..5 {
        batch.add_func(func);
    }
    batch.set_size(2);
    batch.set_batch_wait_dur(7);
    let steps = batch.batched_schedule().unwrap();
    assert_eq!(
        steps,
        vec![
            Step::Run { start: 0, end: 2 },
            Step::Pause { ms: 7 },
            Step::Run { start: 2, end: 4 },
            Step::Pause { ms: 7 },
            Step::Run { start: 4, end: 5 },
        ]
    );
}

#[test]
fn zero_wait_means_no_pause() {
    let mut batch: Batch<fn()> = Batch::new();
    for _ in 0..9 {
        batch.add_func(func);
    }
    batch.set_size(2);
    batch.set_batch_wait_dur(0);
    let steps = batch.batched_schedule().unwrap();
    assert_eq!(steps.len(), 5);
    assert!(steps.iter().all(|s| matches!(s, Step::Run { .. })));
}

#[test]
fn full_groups_when_count_divides() {
    let mut batch: Batch<fn()> = Batch::new();
    for _ in 0..6 {
        batch.add_func(func);
    }
    batch.set_size(3);
    let steps = batch.batched_schedule().unwrap();
    assert_eq!(
        steps,
        vec![Step::Run { start: 0, end: 3 }, Step::Run { start: 3, end: 6 }]
    );
}

#[test]
fn clock_reads_past_the_epoch() {
    let batch: Batch<fn()> = Batch::new();
    assert!(batch.get_time_in_ms() > 0);
}
