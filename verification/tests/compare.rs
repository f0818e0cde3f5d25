use shared_slice::compare::cmp_slices;
use shared_slice::compare::eq_slices;
use shared_slice::compare::order_of_lengths;
use shared_slice::compare::partial_cmp_slices;
use std::cmp::Ordering;

#[test]
fn eq_needs_equal_lengths() {
    assert!(!eq_slices(&[1, 2], &[1, 2, 3]));
    assert!(!eq_slices(&[1, 2, 3], &[1, 2]));
    assert!(!eq_slices::<i32>(&[], &[0]));
}

#[test]
fn eq_goes_element_by_element() {
    assert!(eq_slices(&[1, 2, 3], &[1, 2, 3]));
    assert!(!eq_slices(&[1, 2, 3], &[1, 2, 4]));
    assert!(!eq_slices(&[0, 2, 3], &[1, 2, 3]));
    assert!(eq_slices::<u8>(&[], &[]));
}

#[test]
fn eq_agrees_with_slices() {
    let all: [&[u8]; 6] = [&[], &[0], &[1], &[0, 0], &[0, 1], &[1, 0]];
    for a in all {
        for b in all {
            assert_eq!(eq_slices(a, b), a == b);
        }
    }
}

#[test]
fn eq_of_nan_is_false() {
    assert!(!eq_slices(&[1.0, f64::NAN], &[1.0, f64::NAN]));
    assert!(eq_slices(&[1.0, 2.0], &[1.0, 2.0]));
}

#[test]
fn order_of_lengths_three_ways() {
    assert_eq!(order_of_lengths(&[1, 2], &[1, 2, 3]), Ordering::Less);
    assert_eq!(order_of_lengths(&[9, 9], &[1, 2]), Ordering::Equal);
    assert_eq!(order_of_lengths(&[1], &[] as &[i32]), Ordering::Greater);
}

#[test]
fn partial_cmp_first_difference_decides() {
    assert_eq!(partial_cmp_slices(&[1, 2, 3], &[1, 2, 4]), Some(Ordering::Less));
    assert_eq!(partial_cmp_slices(&[1, 3, 0], &[1, 2, 9]), Some(Ordering::Greater));
    assert_eq!(partial_cmp_slices(&[2], &[1, 2, 3]), Some(Ordering::Greater));
    assert_eq!(partial_cmp_slices(&[0, 9, 9, 9], &[1]), Some(Ordering::Less));
}

#[test]
fn partial_cmp_prefix_is_less() {
    assert_eq!(partial_cmp_slices(&[1, 2], &[1, 2, 3]), Some(Ordering::Less));
    assert_eq!(partial_cmp_slices(&[1, 2, 3], &[1, 2]), Some(Ordering::Greater));
    assert_eq!(partial_cmp_slices(&[], &[1]), Some(Ordering::Less));
    assert_eq!(partial_cmp_slices(&[1, 2, 3], &[1, 2, 3]), Some(Ordering::Equal));
    assert_eq!(partial_cmp_slices::<i32>(&[], &[]), Some(Ordering::Equal));
}

#[test]
fn partial_cmp_passes_unordered_on() {
    let nan = f64::NAN;
    assert_eq!(partial_cmp_slices(&[1.0, nan], &[1.0, nan]), None);
    assert_eq!(partial_cmp_slices(&[1.0, nan], &[1.0, 2.0]), None);
    assert_eq!(partial_cmp_slices(&[nan], &[]), Some(Ordering::Greater));
    assert_eq!(partial_cmp_slices(&[1.0, nan], &[2.0, nan]), Some(Ordering::Less));
    assert_eq!(partial_cmp_slices(&[2.0, nan], &[1.0, nan]), Some(Ordering::Greater));
    assert_eq!(partial_cmp_slices(&[1.0], &[1.0, nan]), Some(Ordering::Less));
}

#[test]
fn partial_cmp_agrees_with_slices() {
    let nan = f64::NAN;
    let all: [&[f64]; 8] =
        [&[], &[0.0], &[1.0], &[nan], &[0.0, 1.0], &[0.0, nan], &[nan, 0.0], &[1.0, 0.0]];
    for a in all {
        for b in all {
            assert_eq!(partial_cmp_slices(a, b), a.partial_cmp(b));
        }
    }
}

#[test]
fn cmp_first_difference_decides() {
    assert_eq!(cmp_slices(&[1, 2, 3], &[1, 2, 4]), Ordering::Less);
    assert_eq!(cmp_slices(&[1, 2, 4], &[1, 2, 3]), Ordering::Greater);
    assert_eq!(cmp_slices(&[1, 2, 3], &[1, 2, 3]), Ordering::Equal);
    assert_eq!(cmp_slices(&[1, 2], &[1, 2, 3]), Ordering::Less);
    assert_eq!(cmp_slices(&[1, 2, 3], &[1, 2]), Ordering::Greater);
    assert_eq!(cmp_slices::<u8>(&[], &[]), Ordering::Equal);
}

#[test]
fn cmp_agrees_with_slices() {
    let all: [&[&str]; 6] = [&[], &["a"], &["b"], &["a", "a"], &["a", "b"], &["b", "a"]];
    for a in all {
        for b in all {
            assert_eq!(cmp_slices(a, b), a.cmp(b));
        }
    }
}
