//! Inspecting shared pointers while debugging.

use crate::text::{decimal, push_decimal};
use std::sync::Arc;
use vstd::prelude::*;
use vstd::string::StringExecFns;

verus! {

/// The text that describes a shared pointer with `strong` strong references
/// and `weak` weak pointers. The weak count that is shown is one more than
/// the number of weak pointers: the strong references hold one weak
/// reference together.
pub open spec fn counts_text(strong: usize, weak: usize) -> Seq<char> {
    "Arc(strong="@ + decimal(strong as nat) + ", weak="@ + decimal((weak + 1) as nat) + ")"@
}

/// `Arc::strong_count`: the number of strong pointers to the allocation,
/// at some moment during the call.
#[verifier::external_body]
fn strong_count<T>(arc: &Arc<T>) -> usize {
    Arc::strong_count(arc)
}

/// `Arc::weak_count`: the number of weak pointers to the allocation, at
/// some moment during the call.
#[verifier::external_body]
fn weak_count<T>(arc: &Arc<T>) -> usize {
    Arc::weak_count(arc)
}

/// Describes a shared pointer with the given counts.
pub fn describe_counts(strong: usize, weak: usize) -> (text: String)
    ensures
        text@ == counts_text(strong, weak),
{
    let mut text = "Arc(strong=".to_owned();
    push_decimal(&mut text, strong as u128);
    text.append(", weak=");
    push_decimal(&mut text, weak as u128 + 1);
    text.append(")");
    text
}

/// Describes `arc` by its current counts of strong and weak references.
/// Other threads may change the counts at any time, so the text is that
/// of some counts, read one after the other.
pub fn debug_arc<T>(arc: &Arc<T>) -> (text: String)
    ensures
        exists|strong: usize, weak: usize| text@ == counts_text(strong, weak),
{
    let strong = strong_count(arc);
    let weak = weak_count(arc);
    describe_counts(strong, weak)
}

} // verus!
