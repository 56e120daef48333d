//! The choice of the one item that meets a condition, where exactly one
//! does.

use vstd::prelude::*;

verus! {

/// How many of the flags are set.
pub open spec fn count_true(flags: Seq<bool>) -> nat
    decreases flags.len(),
{
    if flags.len() == 0 {
        0
    } else if flags.last() {
        count_true(flags.drop_last()) + 1
    } else {
        count_true(flags.drop_last())
    }
}

/// The position of the first flag that is set, or the number of flags
/// where none is.
pub open spec fn first_true(flags: Seq<bool>) -> int
    decreases flags.len(),
{
    if flags.len() == 0 {
        0
    } else {
        let before = first_true(flags.drop_last());
        if before < flags.len() - 1 || flags.last() {
            before
        } else {
            flags.len() as int
        }
    }
}

/// The position of the only flag that is set, where exactly one is.
pub open spec fn sole(flags: Seq<bool>) -> Option<int> {
    if count_true(flags) == 1 {
        Some(first_true(flags))
    } else {
        None
    }
}

/// What `count_true` and `first_true` say of the flags.
pub proof fn lemma_flags(flags: Seq<bool>)
    ensures
        0 <= first_true(flags) <= flags.len(),
        first_true(flags) < flags.len() ==> flags[first_true(flags)] && count_true(flags) >= 1,
        first_true(flags) == flags.len() ==> count_true(flags) == 0,
        forall|j: int| 0 <= j < first_true(flags) ==> !flags[j],
        count_true(flags) <= 1 ==> forall|j: int|
            0 <= j < flags.len() && flags[j] ==> j == first_true(flags),
    decreases flags.len(),
{
    if flags.len() > 0 {
        let shorter = flags.drop_last();
        lemma_flags(shorter);
        assert forall|j: int| 0 <= j < first_true(flags) implies !flags[j] by {
            if j < shorter.len() {
                assert(flags[j] == shorter[j]);
            }
        }
        if count_true(flags) <= 1 {
            assert forall|j: int| 0 <= j < flags.len() && flags[j] implies j == first_true(
                flags,
            ) by {
                if j < shorter.len() {
                    assert(flags[j] == shorter[j]);
                }
            }
        }
    }
}

/// `sole` gives a position exactly where one flag is set and no other.
pub proof fn lemma_sole(flags: Seq<bool>, i: int)
    ensures
        sole(flags) == Some(i) <==> 0 <= i < flags.len() && flags[i] && forall|j: int|
            0 <= j < flags.len() && flags[j] ==> j == i,
    decreases flags.len(),
{
    lemma_flags(flags);
    if 0 <= i < flags.len() && flags[i] && (forall|j: int|
        0 <= j < flags.len() && flags[j] ==> j == i) {
        lemma_count_of_one(flags, i);
    }
}

/// Where one flag is set and no other, one flag is counted.
proof fn lemma_count_of_one(flags: Seq<bool>, i: int)
    requires
        0 <= i < flags.len(),
        flags[i],
        forall|j: int| 0 <= j < flags.len() && flags[j] ==> j == i,
    ensures
        count_true(flags) == 1,
    decreases flags.len(),
{
    let shorter = flags.drop_last();
    if i == flags.len() - 1 {
        lemma_count_of_none(shorter);
    } else {
        assert(shorter[i] == flags[i]);
        assert forall|j: int| 0 <= j < shorter.len() && shorter[j] implies j == i by {
            assert(shorter[j] == flags[j]);
        }
        lemma_count_of_one(shorter, i);
    }
}

/// Where no flag is set, none is counted.
proof fn lemma_count_of_none(flags: Seq<bool>)
    requires
        forall|j: int| 0 <= j < flags.len() ==> !flags[j],
    ensures
        count_true(flags) == 0,
    decreases flags.len(),
{
    if flags.len() > 0 {
        lemma_count_of_none(flags.drop_last());
    }
}

/// The position of the only flag that is set, where exactly one is.
pub fn sole_index(flags: &Vec<bool>) -> (r: Option<usize>)
    ensures
        match r {
            Some(i) => sole(flags@) == Some(i as int) && i < flags@.len(),
            None => sole(flags@) is None,
        },
{
    let mut count: usize = 0;
    let mut first: usize = 0;
    let mut i: usize = 0;
    while i < flags.len()
        invariant
            i <= flags@.len(),
            count <= i,
            count == count_true(flags@.take(i as int)),
            first == first_true(flags@.take(i as int)),
        decreases flags@.len() - i,
    {
        proof {
            assert(flags@.take(i + 1).drop_last() == flags@.take(i as int));
            lemma_flags(flags@.take(i as int));
        }
        if flags[i] {
            count += 1;
        } else if first == i {
            first = i + 1;
        }
        i += 1;
    }
    proof {
        assert(flags@.take(i as int) == flags@);
        lemma_flags(flags@);
    }
    if count == 1 {
        Some(first)
    } else {
        None
    }
}

} // verus!
