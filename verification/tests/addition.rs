use hello_utils::add;

#[test]
fn test_add() {
    assert_eq!(add(2, 2), 4);
    assert_eq!(add(0, 5), 5);
    assert_eq!(add(100, 200), 300);
}

#[test]
fn add_returns_the_exact_sum_when_it_fits() {
    assert_eq!(add(0, 0), 0);
    assert_eq!(add(1, 0), 1);
    assert_eq!(add(123_456_789, 987_654_321), 1_111_111_110);
    assert_eq!(add(1 << 63, (1 << 63) - 1), u64::MAX);
    assert_eq!(add(u64::MAX - 1, 1), u64::MAX);
    assert_eq!(add(u64::MAX, 0), u64::MAX);
}

#[test]
fn add_is_commutative() {
    let samples: [(u64, u64); 6] = [
        (0, 0),
        (2, 3),
        (100, 200),
        (u64::MAX, 0),
        (u64::MAX, 7),
        (1 << 63, 1 << 63),
    ];
    for (a, b) in samples {
        assert_eq!(add(a, b), add(b, a));
    }
    assert_eq!(add(2, 3), 5);
    assert_eq!(add(3, 2), 5);
}

#[test]
fn add_has_zero_as_identity() {
    let samples: [u64; 5] = [0, 1, 5, 1 << 40, u64::MAX];
    for n in samples {
        assert_eq!(add(0, n), n);
        assert_eq!(add(n, 0), n);
    }
}

#[test]
fn add_wraps_around_on_overflow() {
    assert_eq!(add(u64::MAX, 1), 0);
    assert_eq!(add(1, u64::MAX), 0);
    assert_eq!(add(u64::MAX, 2), 1);
    assert_eq!(add(u64::MAX, u64::MAX), u64::MAX - 1);
    assert_eq!(add(1 << 63, 1 << 63), 0);
}

#[test]
fn add_gives_the_same_result_every_time() {
    let first = add(u64::MAX, 1);
    let second = add(u64::MAX, 1);
    assert_eq!(first, second);
    assert_eq!(first, 0);
}
