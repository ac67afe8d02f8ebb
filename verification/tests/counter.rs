use cat::LineCounter;

#[test]
fn counter_starts_at_one() {
    let counter = LineCounter::new();
    assert_eq!(counter.digits(), b"1");
}

#[test]
fn counter_counts_in_decimal() {
    let mut counter = LineCounter::new();
    for expected in 1u32..=1200 {
        assert_eq!(counter.digits(), expected.to_string().as_bytes());
        counter.increment();
    }
    assert_eq!(counter.digits(), b"1201");
}

#[test]
fn counter_carries_into_a_new_digit() {
    let mut counter = LineCounter::new();
    for _ in 0..8 {
        counter.increment();
    }
    assert_eq!(counter.digits(), b"9");
    counter.increment();
    assert_eq!(counter.digits(), b"10");
    for _ in 0..89 {
        counter.increment();
    }
    assert_eq!(counter.digits(), b"99");
    counter.increment();
    assert_eq!(counter.digits(), b"100");
    counter.increment();
    assert_eq!(counter.digits(), b"101");
}

#[test]
fn counter_carries_through_inner_nines() {
    let mut counter = LineCounter::new();
    for _ in 0..198 {
        counter.increment();
    }
    assert_eq!(counter.digits(), b"199");
    counter.increment();
    assert_eq!(counter.digits(), b"200");
}
