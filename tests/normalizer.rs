use net_sink::{Counter, CounterKind, Normalizer};

fn abs(series: u64, value: u64) -> Counter {
    Counter { series, kind: CounterKind::Absolute, value }
}

#[test]
fn first_total_sets_baseline() {
    let mut n = Normalizer::new();
    assert_eq!(n.normalize(abs(1, 10)), None);
    assert_eq!(n.normalize(abs(1, 15)), Some(Counter { series: 1, kind: CounterKind::Incremental, value: 5 }));
    assert_eq!(n.normalize(abs(1, 15)), Some(Counter { series: 1, kind: CounterKind::Incremental, value: 0 }));
}

#[test]
fn series_are_independent_and_resets_count_whole() {
    let mut n = Normalizer::new();
    assert_eq!(n.normalize(abs(1, 100)), None);
    assert_eq!(n.normalize(abs(2, 7)), None);
    assert_eq!(n.normalize(abs(1, 4)), Some(Counter { series: 1, kind: CounterKind::Incremental, value: 4 }));
    assert_eq!(n.normalize(abs(2, 9)), Some(Counter { series: 2, kind: CounterKind::Incremental, value: 2 }));
}

#[test]
fn incremental_passes_unchanged() {
    let mut n = Normalizer::new();
    let c = Counter { series: 3, kind: CounterKind::Incremental, value: 8 };
    assert_eq!(n.normalize(c), Some(c));
    assert_eq!(n.normalize(abs(3, 1)), None);
}
