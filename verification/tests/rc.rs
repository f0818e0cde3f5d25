use shared_slice::rc::RcSlice;
use shared_slice::rc::WeakSlice;
use std::cell::Cell;
use std::cmp::Ordering;

#[test]
fn rc_clone() {
    let x = RcSlice::new(Box::new([Cell::new(false)]));
    let y = x.clone();

    assert_eq!(x[0].get(), false);
    assert_eq!(y[0].get(), false);

    x[0].set(true);
    assert_eq!(x[0].get(), true);
    assert_eq!(y[0].get(), true);
}

#[test]
fn rc_test_upgrade_downgrade() {
    let x = RcSlice::new(Box::new([1]));
    let y: WeakSlice<_> = x.downgrade();

    assert_eq!(y.upgrade(), Some(x.clone()));

    drop(x);

    assert!(y.upgrade().is_none())
}

#[test]
fn rc_test_total_cmp() {
    let x = RcSlice::new(Box::new([1, 2, 3]));
    let y = RcSlice::new(Box::new([1, 2, 3]));
    let z = RcSlice::new(Box::new([1, 2, 4]));
    assert_eq!(x, x);
    assert_eq!(x, y);
    assert!(x != z);
    assert!(y != z);

    assert!(x < z);
    assert!(x <= z);
    assert!(!(x > z));
    assert!(!(x >= z));

    assert!(!(z < x));
    assert!(!(z <= x));
    assert!(z > x);
    assert!(z >= x);

    assert_eq!(x.partial_cmp(&x), Some(Ordering::Equal));
    assert_eq!(x.partial_cmp(&y), Some(Ordering::Equal));
    assert_eq!(x.partial_cmp(&z), Some(Ordering::Less));
    assert_eq!(z.partial_cmp(&y), Some(Ordering::Greater));

    assert_eq!(x.cmp(&x), Ordering::Equal);
    assert_eq!(x.cmp(&y), Ordering::Equal);
    assert_eq!(x.cmp(&z), Ordering::Less);
    assert_eq!(z.cmp(&y), Ordering::Greater);
}

#[test]
fn rc_test_partial_cmp() {
    let x = RcSlice::new(Box::new([1.0, f64::NAN]));
    let y = RcSlice::new(Box::new([1.0, f64::NAN]));
    let z = RcSlice::new(Box::new([2.0, f64::NAN]));
    let w = RcSlice::new(Box::new([f64::NAN, 1.0]));
    assert!(!(x == y));
    assert!(x != y);

    assert!(!(x < y));
    assert!(!(x <= y));
    assert!(!(x > y));
    assert!(!(x >= y));

    assert!(x < z);
    assert!(x <= z);
    assert!(!(x > z));
    assert!(!(x >= z));

    assert!(!(z < w));
    assert!(!(z <= w));
    assert!(!(z > w));
    assert!(!(z >= w));

    assert_eq!(x.partial_cmp(&x), None);
    assert_eq!(x.partial_cmp(&y), None);
    assert_eq!(x.partial_cmp(&z), Some(Ordering::Less));
    assert_eq!(z.partial_cmp(&x), Some(Ordering::Greater));

    assert_eq!(x.partial_cmp(&w), None);
    assert_eq!(y.partial_cmp(&w), None);
    assert_eq!(z.partial_cmp(&w), None);
    assert_eq!(w.partial_cmp(&w), None);
}

#[test]
fn rc_test_show() {
    let x = RcSlice::new(Box::new([1, 2]));
    assert_eq!(format!("{:?}", x), "[1, 2]");

    let y: RcSlice<i32> = RcSlice::new(Box::new([]));
    assert_eq!(format!("{:?}", y), "[]");
}

#[test]
fn rc_test_slice() {
    let x = RcSlice::new(Box::new([1, 2, 3]));
    let real = [1, 2, 3];
    for i in 0..3 + 1 {
        for j in i..3 + 1 {
            let slice: RcSlice<_> = x.clone().slice(i, j);
            assert_eq!(&*slice, &real[i..j]);
        }
        assert_eq!(&*x.clone().slice_to(i), &real[..i]);
        assert_eq!(&*x.clone().slice_from(i), &real[i..]);
    }
}
