use std::cell::Cell;
use std::rc::Rc;
use yield_iter::{generator, Fuse, Repeat, Replay, Scaled, YieldIter};

#[test]
fn captured_reference_is_read_at_every_resumption() {
    let x = 10;
    let mut iter = generator(Scaled::new(&x, 5));
    assert_eq!(iter.next(), Some(0));
    assert_eq!(iter.next(), Some(10));
    assert_eq!(iter.next(), Some(20));
    assert_eq!(iter.next(), Some(30));
    assert_eq!(iter.next(), Some(40));
    assert_eq!(iter.next(), None);
    assert_eq!(x, 10);
}

#[test]
fn scaled_products_do_not_wrap() {
    let x = u32::MAX;
    let all = YieldIter::new(Scaled::new(&x, 3)).into_vec();
    assert_eq!(all, vec![0, 4294967295, 8589934590]);
    let none = YieldIter::new(Scaled::new(&x, 0)).into_vec();
    assert_eq!(none, Vec::<u64>::new());
}

/// Counts how often a value of it is dropped.
struct Guarded {
    drops: Rc<Cell<u32>>,
}

impl Drop for Guarded {
    fn drop(&mut self) {
        self.drops.set(self.drops.get() + 1);
    }
}

#[test]
fn dropping_the_adapter_drops_the_computation_once() {
    let drops = Rc::new(Cell::new(0));
    let held = vec![
        Guarded { drops: drops.clone() },
        Guarded { drops: drops.clone() },
        Guarded { drops: drops.clone() },
    ];
    let mut it = YieldIter::new(Replay::new(held));
    assert_eq!(drops.get(), 0);
    let first = it.next();
    assert!(first.is_some());
    assert_eq!(drops.get(), 0);
    drop(it);
    assert_eq!(drops.get(), 2);
    drop(first);
    assert_eq!(drops.get(), 3);
}

#[test]
fn dropping_the_latched_adapter_drops_the_computation_once() {
    let drops = Rc::new(Cell::new(0));
    let fused = generator(Replay::new(vec![Guarded { drops: drops.clone() }]));
    assert_eq!(drops.get(), 0);
    drop(fused);
    assert_eq!(drops.get(), 1);
}

#[test]
fn endless_computation_never_signals_the_end() {
    let mut it = Fuse::new(YieldIter::new(Repeat::new(7u8)));
    for _ in 0..1000 {
        assert_eq!(it.next(), Some(7));
    }
}
