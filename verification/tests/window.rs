use shared_slice::window::Window;

#[test]
fn full_window_covers_the_block() {
    let w = Window::full(5);
    assert_eq!(w.start(), 0);
    assert_eq!(w.end(), 5);
    assert_eq!(w.len(), 5);
}

#[test]
fn full_window_of_nothing_is_empty() {
    let w = Window::full(0);
    assert_eq!(w.start(), 0);
    assert_eq!(w.end(), 0);
    assert_eq!(w.len(), 0);
}

#[test]
fn narrow_counts_from_the_start_of_the_window() {
    let w = Window::full(10).narrow(2, 9);
    assert_eq!((w.start(), w.end(), w.len()), (2, 9, 7));
    let v = w.narrow(1, 4);
    assert_eq!((v.start(), v.end(), v.len()), (3, 6, 3));
}

#[test]
fn narrow_to_everything_changes_nothing() {
    let w = Window::full(10).narrow(3, 8);
    let v = w.narrow(0, w.len());
    assert_eq!((v.start(), v.end()), (w.start(), w.end()));
}

#[test]
fn narrow_to_empty_at_either_end() {
    let w = Window::full(10).narrow(3, 8);
    let front = w.narrow(0, 0);
    assert_eq!((front.start(), front.end(), front.len()), (3, 3, 0));
    let back = w.narrow(5, 5);
    assert_eq!((back.start(), back.end(), back.len()), (8, 8, 0));
}

#[test]
fn narrow_twice_adds_the_offsets() {
    let w = Window::full(20);
    let twice = w.narrow(4, 15).narrow(2, 7);
    let once = w.narrow(4 + 2, 4 + 7);
    assert_eq!((twice.start(), twice.end()), (once.start(), once.end()));
}

#[test]
fn window_is_copied_not_moved() {
    let w = Window::full(4);
    let v = w;
    assert_eq!(w.len(), v.len());
}
