use rayon::iter::{IndexedParallelIterator, ParallelIterator};
use yield_iter::{Counter, Replay, YieldIter};

#[test]
fn parallel_path_holds_the_items_in_order() {
    let par = YieldIter::new(Counter::new(0, 1000)).into_par_iter();
    assert_eq!(par.len(), 1000);
    let seen: Vec<u64> = par.collect();
    let drained = YieldIter::new(Counter::new(0, 1000)).into_vec();
    assert_eq!(seen, drained);
    assert_eq!(seen, (0..1000).collect::<Vec<u64>>());
}

#[test]
fn parallel_path_of_nothing_is_empty() {
    let par = YieldIter::new(Replay::new(Vec::<u64>::new())).into_par_iter();
    assert_eq!(par.len(), 0);
    assert_eq!(par.collect::<Vec<u64>>(), Vec::<u64>::new());
}

#[test]
fn parallel_path_keeps_repeated_items() {
    let items: Vec<u64> = vec![4, 4, 1, 9, 4, 1];
    let par = YieldIter::new(Replay::new(items.clone())).into_par_iter();
    let mut seen: Vec<u64> = par.map(|x| x + 1).collect();
    seen.sort();
    assert_eq!(seen, vec![2, 2, 5, 5, 5, 10]);
    let total: u64 = YieldIter::new(Replay::new(items)).into_par_iter().sum();
    assert_eq!(total, 23);
}

#[test]
fn parallel_path_is_the_same_on_one_worker_and_on_four() {
    let one = rayon::ThreadPoolBuilder::new().num_threads(1).build().unwrap();
    let four = rayon::ThreadPoolBuilder::new().num_threads(4).build().unwrap();
    let a: Vec<u64> = one.install(|| YieldIter::new(Counter::new(10, 500)).into_par_iter().collect());
    let b: Vec<u64> = four.install(|| YieldIter::new(Counter::new(10, 500)).into_par_iter().collect());
    assert_eq!(a, b);
    assert_eq!(a, (10..500).collect::<Vec<u64>>());
}
