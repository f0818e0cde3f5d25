use shared_slice::arc::ArcSlice;
use shared_slice::arc::WeakSlice;
use std::cell::Cell;
use std::cmp::Ordering;

#[test]
fn arc_clone() {
    let x = ArcSlice::new(Box::new([Cell::new(false)]));
    let y = x.clone();

    assert_eq!(x[0].get(), false);
    assert_eq!(y[0].get(), false);

    x[0].set(true);
    assert_eq!(x[0].get(), true);
    assert_eq!(y[0].get(), true);
}

#[test]
fn arc_test_upgrade_downgrade() {
    let x = ArcSlice::new(Box::new([1]));
    let y: WeakSlice<_> = x.downgrade();

    assert_eq!(y.upgrade(), Some(x.clone()));

    drop(x);

    assert!(y.upgrade().is_none())
}

#[test]
fn arc_test_total_cmp() {
    let x = ArcSlice::new(Box::new([1, 2, 3]));
    let y = ArcSlice::new(Box::new([1, 2, 3]));
    let z = ArcSlice::new(Box::new([1, 2, 4]));
    assert_eq!(x, x);
    assert_eq!(x, y);
    assert!(x != z);
    assert!(y != z);

    assert!(x < z);
    assert!(x <= z);
    assert!(!(x > z));
    assert!(!(x >= z));

    assert!(!(z < x));
    assert!(!(z <= x));
    assert!(z > x);
    assert!(z >= x);

    assert_eq!(x.partial_cmp(&x), Some(Ordering::Equal));
    assert_eq!(x.partial_cmp(&y), Some(Ordering::Equal));
    assert_eq!(x.partial_cmp(&z), Some(Ordering::Less));
    assert_eq!(z.partial_cmp(&y), Some(Ordering::Greater));

    assert_eq!(x.cmp(&x), Ordering::Equal);
    assert_eq!(x.cmp(&y), Ordering::Equal);
    assert_eq!(x.cmp(&z), Ordering::Less);
    assert_eq!(z.cmp(&y), Ordering::Greater);
}

#[test]
fn arc_test_partial_cmp() {
    let x = ArcSlice::new(Box::new([1.0, f64::NAN]));
    let y = ArcSlice::new(Box::new([1.0, f64::NAN]));
    let z = ArcSlice::new(Box::new([2.0, f64::NAN]));
    let w = ArcSlice::new(Box::new([f64::NAN, 1.0]));
    assert!(!(x == y));
    assert!(x != y);

    assert!(!(x < y));
    assert!(!(x <= y));
    assert!(!(x > y));
    assert!(!(x >= y));

    assert!(x < z);
    assert!(x <= z);
    assert!(!(x > z));
    assert!(!(x >= z));

    assert!(!(z < w));
    assert!(!(z <= w));
    assert!(!(z > w));
    assert!(!(z >= w));

    assert_eq!(x.partial_cmp(&x), None);
    assert_eq!(x.partial_cmp(&y), None);
    assert_eq!(x.partial_cmp(&z), Some(Ordering::Less));
    assert_eq!(z.partial_cmp(&x), Some(Ordering::Greater));

    assert_eq!(x.partial_cmp(&w), None);
    assert_eq!(y.partial_cmp(&w), None);
    assert_eq!(z.partial_cmp(&w), None);
    assert_eq!(w.partial_cmp(&w), None);
}

#[test]
fn arc_test_show() {
    let x = ArcSlice::new(Box::new([1, 2]));
    assert_eq!(format!("{:?}", x), "[1, 2]");

    let y: ArcSlice<i32> = ArcSlice::new(Box::new([]));
    assert_eq!(format!("{:?}", y), "[]");
}

#[test]
fn arc_test_slice() {
    let x = ArcSlice::new(Box::new([1, 2, 3]));
    let real = [1, 2, 3];
    for i in 0..3 + 1 {
        for j in i..3 + 1 {
            let slice: ArcSlice<_> = x.clone().slice(i, j);
            assert_eq!(&*slice, &real[i..j]);
        }
        assert_eq!(&*x.clone().slice_to(i), &real[..i]);
        assert_eq!(&*x.clone().slice_from(i), &real[i..]);
    }
}

#[test]
fn test_send_sync() {
    fn assert_send<T: Send>() {}
    fn assert_sync<T: Send>() {}

    assert_send::<ArcSlice<u8>>();
    assert_sync::<ArcSlice<u8>>();
    assert_send::<WeakSlice<u8>>();
    assert_sync::<WeakSlice<u8>>();
}

#[test]
fn arc_handles_cross_threads_where_elements_do() {
    fn assert_send<T: Send>() {}
    fn assert_sync<T: Sync>() {}

    assert_send::<ArcSlice<u8>>();
    assert_sync::<ArcSlice<u8>>();
    assert_send::<WeakSlice<u8>>();
    assert_sync::<WeakSlice<u8>>();
    assert_send::<ArcSlice<String>>();
    assert_sync::<ArcSlice<String>>();
}
