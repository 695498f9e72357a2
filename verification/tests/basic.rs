use yield_iter::{generator, Counter, Fuse, Generator, GeneratorState, Replay, YieldIter};

/// Pull-based view of a latched adapter, for the combinators of `Iterator`.
struct Pull<G: Generator>(Fuse<G>);

impl<G: Generator> Iterator for Pull<G> {
    type Item = G::Yield;

    fn next(&mut self) -> Option<G::Yield> {
        self.0.next()
    }
}

#[test]
fn range() {
    let a = Pull(generator(Counter::new(0, 10)));
    let b = 0..10;

    assert!(a.eq(b));
}

#[test]
fn after_completion() {
    let mut iter = generator(Replay::new(vec![1, 2]));
    assert_eq!(iter.next(), Some(1));
    assert_eq!(iter.next(), Some(2));
    assert_eq!(iter.next(), None);
    // ...
    assert_eq!(iter.next(), None);
}

#[test]
fn end_stays_for_many_calls() {
    let mut iter = generator(Replay::new(vec![1, 2]));
    assert_eq!(iter.next(), Some(1));
    assert_eq!(iter.next(), Some(2));
    for _ in 0..100 {
        assert_eq!(iter.next(), None);
    }
}

#[test]
fn replay_yields_every_item_in_order() {
    let items = vec!["a".to_string(), "b".to_string(), "c".to_string(), "a".to_string()];
    let it = YieldIter::new(Replay::new(items.clone()));
    assert_eq!(it.into_vec(), items);
}

#[test]
fn replay_of_nothing_completes_at_once() {
    let mut it = YieldIter::new(Replay::new(Vec::<u8>::new()));
    assert_eq!(it.next(), None);
    let it = YieldIter::new(Replay::new(Vec::<u8>::new()));
    assert_eq!(it.into_vec(), Vec::<u8>::new());
}

#[test]
fn replay_resumes_step_by_step() {
    let mut g = Replay::new(vec![7u8, 9]);
    assert!(matches!(g.resume(), GeneratorState::Yielded(7)));
    assert!(matches!(g.resume(), GeneratorState::Yielded(9)));
    assert!(matches!(g.resume(), GeneratorState::Complete(())));
}

#[test]
fn counter_yields_the_half_open_range() {
    assert_eq!(YieldIter::new(Counter::new(5, 8)).into_vec(), vec![5, 6, 7]);
    assert_eq!(YieldIter::new(Counter::new(8, 8)).into_vec(), Vec::<u64>::new());
    assert_eq!(YieldIter::new(Counter::new(9, 8)).into_vec(), Vec::<u64>::new());
    assert_eq!(
        YieldIter::new(Counter::new(u64::MAX - 2, u64::MAX)).into_vec(),
        vec![u64::MAX - 2, u64::MAX - 1]
    );
}

#[test]
fn bare_adapter_hands_out_items_then_end() {
    let mut it = YieldIter::new(Counter::new(3, 5));
    assert_eq!(it.next(), Some(3));
    assert_eq!(it.next(), Some(4));
    assert_eq!(it.next(), None);
}

#[test]
fn both_constructors_wrap_alike() {
    let a = YieldIter::new(Counter::new(0, 4)).into_vec();
    let b = YieldIter::new_unchecked(Counter::new(0, 4)).into_vec();
    assert_eq!(a, vec![0, 1, 2, 3]);
    assert_eq!(a, b);
}

#[test]
fn latched_adapter_drains_what_is_left() {
    let mut it = Fuse::new(YieldIter::new(Counter::new(0, 5)));
    assert_eq!(it.next(), Some(0));
    assert_eq!(it.next(), Some(1));
    assert_eq!(it.into_vec(), vec![2, 3, 4]);

    let mut done = generator(Counter::new(0, 1));
    assert_eq!(done.next(), Some(0));
    assert_eq!(done.next(), None);
    assert_eq!(done.into_vec(), Vec::<u64>::new());
}

#[test]
fn combinators_see_the_same_items() {
    let total: u64 = Pull(generator(Counter::new(1, 101))).filter(|x| x % 2 == 0).map(|x| x * 2).sum();
    assert_eq!(total, 5100);
}
