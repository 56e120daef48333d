//! The registry: the modules of the service under their names, each in a
//! slot of its own.
//!
//! A slot is reserved when a writer first asks for it and stays until it
//! is taken out; it is empty until the writer has put a value in it. A
//! mutable borrow of the registry stands for the writer's hold on a
//! slot, a shared borrow for a reader's.

use crate::table::Table;
use vstd::prelude::*;

verus! {

/// A keyed store of slots, each of which holds a value or is reserved
/// and empty.
#[derive(Debug)]
pub struct Registry<V> {
    entries: Table<Option<V>>,
}

impl<V> Registry<V> {
    /// The invariant of the registry.
    pub closed spec fn wf(&self) -> bool {
        self.entries.wf()
    }

    /// The registry as a map from each key to its slot.
    pub closed spec fn view(&self) -> Map<Seq<char>, Option<V>> {
        self.entries@
    }

    /// A registry without slots.
    pub fn new() -> (r: Self)
        ensures
            r.wf(),
            r@ == Map::<Seq<char>, Option<V>>::empty(),
    {
        Registry { entries: Table::new() }
    }

    /// The slot of `key`, for writing. The slot is reserved, empty, where
    /// the key has none yet. What the writer leaves in the slot is what
    /// the registry holds for the key afterwards; no other slot changes.
    pub fn lock_entry_mut(&mut self, key: String) -> (slot: &mut Option<V>)
        requires
            old(self).wf(),
        ensures
            *slot == if old(self)@.dom().contains(key@) {
                old(self)@[key@]
            } else {
                None
            },
            final(self).wf(),
            final(self)@ == old(self)@.insert(key@, *final(slot)),
    {
        let i = match self.entries.position(key.as_str()) {
            Some(i) => {
                proof {
                    crate::table::lemma_position(self.entries.keys(), i as int);
                }
                i
            },
            None => {
                let n = self.entries.len();
                self.entries.insert(key, None);
                proof {
                    assert(self.entries.keys()[n as int] == key@);
                    crate::table::lemma_position(self.entries.keys(), n as int);
                }
                n
            },
        };
        let ghost reserved = self.entries@;
        proof {
            assert forall|v: Option<V>| #[trigger]
                reserved.insert(key@, v) == old(self)@.insert(key@, v) by {
                assert(reserved.insert(key@, v) =~= old(self)@.insert(key@, v));
            }
        }
        self.entries.value_at_mut(i)
    }

    /// The slot of `key`, for reading; nothing where the key is unknown.
    pub fn wait_entry(&self, key: &str) -> (r: Option<&Option<V>>)
        requires
            self.wf(),
        ensures
            match r {
                Some(slot) => self@.dom().contains(key@) && self@[key@] == *slot,
                None => !self@.dom().contains(key@),
            },
    {
        self.entries.get(key)
    }

    /// Takes the slot of `key` out of the registry and hands back the
    /// value that it held; nothing where the key is unknown or its slot
    /// empty.
    pub fn take_entry(&mut self, key: &str) -> (r: Option<V>)
        requires
            old(self).wf(),
        ensures
            final(self).wf(),
            final(self)@ == old(self)@.remove(key@),
            r == if old(self)@.dom().contains(key@) {
                old(self)@[key@]
            } else {
                None
            },
    {
        match self.entries.remove(key) {
            Some(slot) => slot,
            None => None,
        }
    }

    /// Whether `key` has a slot, empty or not.
    pub fn contains_key(&self, key: &str) -> (r: bool)
        requires
            self.wf(),
        ensures
            r == self@.dom().contains(key@),
    {
        self.entries.contains_key(key)
    }
}

/// A step of a writer against one key: it leaves a value in the slot, or
/// leaves the slot empty, or takes the slot out.
pub enum SlotStep<V> {
    Put(Option<V>),
    Take,
}

/// The registry after the steps against `key`, in their order: what
/// `lock_entry_mut` and `take_entry` make of the registry one after the
/// other.
pub open spec fn after<V>(
    registry: Map<Seq<char>, Option<V>>,
    key: Seq<char>,
    steps: Seq<SlotStep<V>>,
) -> Map<Seq<char>, Option<V>>
    decreases steps.len(),
{
    if steps.len() == 0 {
        registry
    } else {
        let before = after(registry, key, steps.drop_last());
        match steps.last() {
            SlotStep::Put(slot) => before.insert(key, slot),
            SlotStep::Take => before.remove(key),
        }
    }
}

/// What a reader sees of `key`: what `wait_entry` hands back.
pub open spec fn seen<V>(registry: Map<Seq<char>, Option<V>>, key: Seq<char>) -> Option<Option<V>> {
    if registry.dom().contains(key) {
        Some(registry[key])
    } else {
        None
    }
}

/// After any steps against a key, a reader sees of the key what the last
/// step left, and of every other key what was there before: the states
/// of a key follow the order of the steps against it.
pub proof fn lemma_last_step_is_seen<V>(
    registry: Map<Seq<char>, Option<V>>,
    key: Seq<char>,
    steps: Seq<SlotStep<V>>,
    other: Seq<char>,
)
    requires
        steps.len() > 0,
        other != key,
    ensures
        seen(after(registry, key, steps), key) == match steps.last() {
            SlotStep::Put(slot) => Some(slot),
            SlotStep::Take => None,
        },
        seen(after(registry, key, steps), other) == seen(registry, other),
    decreases steps.len(),
{
    if steps.len() > 1 {
        lemma_last_step_is_seen(registry, key, steps.drop_last(), other);
    } else {
        assert(after(registry, key, steps.drop_last()) == registry);
    }
}

impl<V> Default for Registry<V> {
    fn default() -> (r: Self)
        ensures
            r.wf(),
            r@ == Map::<Seq<char>, Option<V>>::empty(),
    {
        Registry::new()
    }
}

} // verus!
