use std::sync::Arc;
use wotto::debug::{debug_arc, describe_counts};

#[test]
fn inspecting_an_arc() {
    let r = Arc::new(100);
    assert_eq!(debug_arc(&r), "Arc(strong=1, weak=1)");
}

#[test]
fn inspecting_an_arc_with_multiple_references() {
    let r = Arc::new(100);
    let r2 = r.clone();
    assert_eq!(debug_arc(&r), "Arc(strong=2, weak=1)");
    drop(r2);
    assert_eq!(debug_arc(&r), "Arc(strong=1, weak=1)");
    let w = Arc::downgrade(&r);
    assert_eq!(debug_arc(&r), "Arc(strong=1, weak=2)");
    drop(w);
    assert_eq!(debug_arc(&r), "Arc(strong=1, weak=1)");
}

#[test]
fn counts_are_written_in_decimal() {
    assert_eq!(describe_counts(0, 0), "Arc(strong=0, weak=1)");
    assert_eq!(describe_counts(10, 9), "Arc(strong=10, weak=10)");
    assert_eq!(describe_counts(1234567890, 99), "Arc(strong=1234567890, weak=100)");
    assert_eq!(
        describe_counts(usize::MAX, usize::MAX),
        format!("Arc(strong={}, weak={})", usize::MAX, usize::MAX as u128 + 1)
    );
}
