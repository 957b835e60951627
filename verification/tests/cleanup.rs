use wipedicks::cleanup::{register, unregister, Registry};

#[test]
fn register_then_unregister_restores() {
    let mut r = Registry::new();
    register(&mut r, b"/a");
    register(&mut r, b"/b");
    register(&mut r, b"/c");
    unregister(&mut r, b"/a");
    // the last entry takes the freed slot
    assert_eq!(r.take_all(), vec![b"/c".to_vec(), b"/b".to_vec()]);
    assert!(r.take_all().is_empty());
}

#[test]
fn unregister_absent_is_a_no_op() {
    let mut r = Registry::new();
    register(&mut r, b"/a");
    unregister(&mut r, b"/zzz");
    unregister(&mut r, b"/a/");
    assert!(r.take_all().is_empty());
    register(&mut r, b"/x");
    register(&mut r, b"/x");
    unregister(&mut r, b"/x");
    assert_eq!(r.take_all(), vec![b"/x".to_vec()]);
}

#[test]
fn round_trip_over_an_existing_spelling() {
    let mut r = Registry::new();
    register(&mut r, b"/a/");
    register(&mut r, b"/b");
    register(&mut r, b"/a");
    unregister(&mut r, b"/a");
    // the earlier spelling goes; the new one takes its slot
    assert_eq!(r.take_all(), vec![b"/a".to_vec(), b"/b".to_vec()]);
}
