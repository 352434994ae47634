use rings_node::did::{did_in_arc_open_closed, did_in_arc_open_open, did_lt, did_pow2, ring_add, ring_sub, Did};

fn d(v: u128) -> Did {
    Did::new(0, v)
}

#[test]
fn ring_add_plain() {
    let a = d(10);
    let b = d(64);
    let s = ring_add(&a, &b);
    assert_eq!(s, d(74));
}

#[test]
fn ring_add_carries_into_high_limb() {
    let a = Did::new(0, u128::MAX);
    let b = d(1);
    let s = ring_add(&a, &b);
    assert_eq!(s, Did::new(1, 0));
}

#[test]
fn ring_add_wraps_at_ring_size() {
    // (2^160 - 1) + 1 == 0 on the ring
    let a = Did::new(0xffffffff, u128::MAX);
    let b = d(1);
    let s = ring_add(&a, &b);
    assert_eq!(s, Did::new(0, 0));
}

#[test]
fn ring_sub_is_clockwise_distance() {
    assert_eq!(ring_sub(&d(74), &d(10)), d(64));
    // wrap-around: distance from 200 to 10 goes through zero
    let dist = ring_sub(&d(10), &d(200));
    assert_eq!(dist, Did::new(0xffffffff, u128::MAX - 189));
    // distance to itself is zero
    assert_eq!(ring_sub(&d(7), &d(7)), d(0));
}

#[test]
fn did_lt_orders_by_value() {
    assert!(did_lt(&d(10), &d(200)));
    assert!(!did_lt(&d(200), &d(10)));
    assert!(!did_lt(&d(10), &d(10)));
    assert!(did_lt(&Did::new(0, u128::MAX), &Did::new(1, 0)));
}

#[test]
fn arc_open_closed_plain_and_wrapped() {
    // plain: (10, 100]
    assert!(did_in_arc_open_closed(&d(50), &d(10), &d(100)));
    assert!(did_in_arc_open_closed(&d(100), &d(10), &d(100)));
    assert!(!did_in_arc_open_closed(&d(10), &d(10), &d(100)));
    assert!(!did_in_arc_open_closed(&d(150), &d(10), &d(100)));
    // wrap-around (a > b): true iff x > a or x <= b
    assert!(did_in_arc_open_closed(&d(250), &d(200), &d(100)));
    assert!(did_in_arc_open_closed(&d(50), &d(200), &d(100)));
    assert!(did_in_arc_open_closed(&d(100), &d(200), &d(100)));
    assert!(!did_in_arc_open_closed(&d(150), &d(200), &d(100)));
    assert!(!did_in_arc_open_closed(&d(200), &d(200), &d(100)));
}

#[test]
fn arc_open_open_excludes_both_ends() {
    assert!(did_in_arc_open_open(&d(50), &d(10), &d(100)));
    assert!(!did_in_arc_open_open(&d(100), &d(10), &d(100)));
    assert!(!did_in_arc_open_open(&d(10), &d(10), &d(100)));
    assert!(did_in_arc_open_open(&d(250), &d(200), &d(100)));
    assert!(did_in_arc_open_open(&d(5), &d(200), &d(100)));
    assert!(!did_in_arc_open_open(&d(100), &d(200), &d(100)));
    // degenerate arc: everything but the point itself
    assert!(did_in_arc_open_open(&d(1), &d(7), &d(7)));
    assert!(!did_in_arc_open_open(&d(7), &d(7), &d(7)));
}

#[test]
fn pow2_values() {
    assert_eq!(did_pow2(0), d(1));
    assert_eq!(did_pow2(6), d(64));
    assert_eq!(did_pow2(127), Did::new(0, 1u128 << 127));
    assert_eq!(did_pow2(128), Did::new(1, 0));
    assert_eq!(did_pow2(159), Did::new(0x80000000, 0));
}
