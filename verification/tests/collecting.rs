use box2epub::collector::{ChapterFailure, CollectorError, IndexedResult, OrderedCollector};
use box2epub::extractor::{Chapter, ExtractionError};
use box2epub::scheduler::{concurrency_cap, default_concurrency, Action, FetchScheduler, MAX_PARALLEL};

fn chapter(i: usize) -> Result<Chapter, ChapterFailure> {
    Ok(Chapter { title: format!("t{}", i), content: format!("body {}", i) })
}

fn indices(released: &[IndexedResult]) -> Vec<usize> {
    released.iter().map(|r| r.index).collect()
}

fn permutations(n: usize) -> Vec<Vec<usize>> {
    if n == 0 {
        return vec![vec![]];
    }
    let mut all = Vec::new();
    for shorter in permutations(n - 1) {
        for at in 0..n {
            let mut longer = shorter.clone();
            longer.insert(at, n - 1);
            all.push(longer);
        }
    }
    all
}

#[test]
fn collector_releases_in_order_when_fed_in_order() {
    let mut collector = OrderedCollector::new(3);
    for i in 0..3 {
        let released = collector.accept(i, chapter(i)).unwrap();
        assert_eq!(indices(&released), vec![i]);
        assert_eq!(collector.next_index(), i + 1);
    }
    assert!(collector.is_complete());
    assert_eq!(collector.finish(), Ok(()));
}

#[test]
fn collector_buffers_until_the_cursor_arrives() {
    let mut collector = OrderedCollector::new(4);
    assert!(collector.accept(2, chapter(2)).unwrap().is_empty());
    assert!(collector.accept(1, chapter(1)).unwrap().is_empty());
    assert_eq!(collector.next_index(), 0);
    let released = collector.accept(0, chapter(0)).unwrap();
    assert_eq!(indices(&released), vec![0, 1, 2]);
    assert_eq!(released[1].chapter.as_ref().unwrap().title, "t1");
    assert_eq!(released[2].chapter.as_ref().unwrap().content, "body 2");
    assert_eq!(collector.next_index(), 3);
    assert!(!collector.is_complete());
    assert_eq!(collector.finish(), Err(3));
    assert_eq!(indices(&collector.accept(3, chapter(3)).unwrap()), vec![3]);
    assert_eq!(collector.finish(), Ok(()));
}

#[test]
fn collector_emits_every_index_once_for_every_arrival_order() {
    for n in 0..6 {
        for order in permutations(n) {
            let mut collector = OrderedCollector::new(n);
            let mut out: Vec<IndexedResult> = Vec::new();
            for &i in &order {
                out.extend(collector.accept(i, chapter(i)).unwrap());
            }
            assert_eq!(indices(&out), (0..n).collect::<Vec<usize>>());
            for (i, r) in out.iter().enumerate() {
                assert_eq!(r.chapter.as_ref().unwrap().title, format!("t{}", i));
            }
            assert_eq!(collector.total(), n);
            assert!(collector.is_complete());
        }
    }
}

#[test]
fn collector_refuses_duplicates_and_indices_out_of_range() {
    let mut collector = OrderedCollector::new(3);
    assert_eq!(collector.accept(3, chapter(3)).unwrap_err(), CollectorError::OutOfRange);
    assert_eq!(collector.accept(usize::MAX, chapter(0)).unwrap_err(), CollectorError::OutOfRange);
    assert!(collector.accept(2, chapter(2)).unwrap().is_empty());
    assert_eq!(collector.accept(2, chapter(2)).unwrap_err(), CollectorError::Duplicate);
    assert_eq!(indices(&collector.accept(0, chapter(0)).unwrap()), vec![0]);
    assert_eq!(collector.accept(0, chapter(0)).unwrap_err(), CollectorError::Duplicate);
    assert_eq!(collector.next_index(), 1);
    assert_eq!(indices(&collector.accept(1, chapter(1)).unwrap()), vec![1, 2]);
    let mut empty = OrderedCollector::new(0);
    assert!(empty.is_complete());
    assert_eq!(empty.accept(0, chapter(0)).unwrap_err(), CollectorError::OutOfRange);
}

#[test]
fn collector_carries_failures_at_their_index() {
    let mut collector = OrderedCollector::new(3);
    assert!(collector
        .accept(1, Err(ChapterFailure::Extraction(ExtractionError::MissingContent)))
        .unwrap()
        .is_empty());
    assert!(collector.accept(2, Err(ChapterFailure::Fetch)).unwrap().is_empty());
    let released = collector.accept(0, Err(ChapterFailure::Sanitize)).unwrap();
    assert_eq!(indices(&released), vec![0, 1, 2]);
    assert_eq!(released[0].chapter.as_ref().unwrap_err(), &ChapterFailure::Sanitize);
    assert_eq!(
        released[1].chapter.as_ref().unwrap_err(),
        &ChapterFailure::Extraction(ExtractionError::MissingContent)
    );
    assert_eq!(released[2].chapter.as_ref().unwrap_err(), &ChapterFailure::Fetch);
}

#[test]
fn scheduler_dispatches_in_order_up_to_the_cap() {
    let mut scheduler = FetchScheduler::new(5, 2);
    assert_eq!(scheduler.next_action(), Action::Dispatch(0));
    assert_eq!(scheduler.next_action(), Action::Dispatch(1));
    assert_eq!(scheduler.in_flight(), 2);
    assert_eq!(scheduler.next_action(), Action::Wait);
    assert_eq!(scheduler.next_action(), Action::Wait);
    assert!(scheduler.complete());
    assert_eq!(scheduler.in_flight(), 1);
    assert_eq!(scheduler.next_action(), Action::Dispatch(2));
    assert_eq!(scheduler.next_action(), Action::Wait);
    assert!(scheduler.complete());
    assert!(scheduler.complete());
    assert_eq!(scheduler.next_action(), Action::Dispatch(3));
    assert_eq!(scheduler.next_action(), Action::Dispatch(4));
    assert_eq!(scheduler.submitted(), 5);
    assert_eq!(scheduler.next_action(), Action::Wait);
    assert!(scheduler.complete());
    assert_eq!(scheduler.next_action(), Action::Wait);
    assert!(scheduler.complete());
    assert_eq!(scheduler.completed(), 5);
    assert_eq!(scheduler.next_action(), Action::Done);
    assert!(!scheduler.complete());
    assert_eq!(scheduler.next_action(), Action::Done);
}

#[test]
fn scheduler_with_nothing_to_do_is_done() {
    let mut scheduler = FetchScheduler::new(0, 4);
    assert_eq!(scheduler.next_action(), Action::Done);
    assert!(!scheduler.complete());
    assert_eq!(scheduler.in_flight(), 0);
}

#[test]
fn scheduler_and_collector_restore_order_under_jitter() {
    for n in 1..9usize {
        for k in 1..=n {
            for seed in 0..5usize {
                let mut scheduler = FetchScheduler::new(n, k);
                let mut collector = OrderedCollector::new(n);
                let mut flying: Vec<usize> = Vec::new();
                let mut dispatched: Vec<usize> = Vec::new();
                let mut out: Vec<usize> = Vec::new();
                let mut step = seed;
                loop {
                    match scheduler.next_action() {
                        Action::Dispatch(i) => {
                            flying.push(i);
                            dispatched.push(i);
                            assert!(flying.len() <= k);
                        }
                        Action::Wait => {
                            step = step * 31 + 7;
                            let i = flying.remove(step % flying.len());
                            assert!(scheduler.complete());
                            out.extend(indices(&collector.accept(i, chapter(i)).unwrap()));
                        }
                        Action::Done => break,
                    }
                }
                assert!(flying.is_empty());
                assert_eq!(dispatched, (0..n).collect::<Vec<usize>>());
                assert_eq!(out, (0..n).collect::<Vec<usize>>());
                assert_eq!(collector.finish(), Ok(()));
            }
        }
    }
}

#[test]
fn concurrency_cap_is_between_one_and_eight() {
    assert_eq!(MAX_PARALLEL, 8);
    assert_eq!(concurrency_cap(0), 1);
    assert_eq!(concurrency_cap(1), 1);
    assert_eq!(concurrency_cap(4), 4);
    assert_eq!(concurrency_cap(7), 7);
    assert_eq!(concurrency_cap(8), 8);
    assert_eq!(concurrency_cap(64), 8);
    assert_eq!(concurrency_cap(usize::MAX), 8);
    let k = default_concurrency();
    assert!(1 <= k && k <= 8);
}
