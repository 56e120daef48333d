//! The alias book: short names for modules, and for other short names.

use crate::names::{is_canonical, CanonicalName, FullyQualifiedName, FullyQualifiedNameBuf};
use crate::table::{lemma_position, Table};
use crate::text::same_text;
use vstd::prelude::*;

verus! {

/// The greatest number of aliases that `resolve` follows.
pub const MAX_ALIAS_HOPS: usize = 32;

/// The name that is reached from `name` after `n` hops along the aliases,
/// where there are that many.
pub open spec fn hop(forward: Map<Seq<char>, Seq<char>>, name: Seq<char>, n: nat) -> Option<
    Seq<char>,
>
    decreases n,
{
    if n == 0 {
        Some(name)
    } else if forward.dom().contains(name) {
        hop(forward, forward[name], (n - 1) as nat)
    } else {
        None
    }
}

/// Whether the aliases lead from `name` to `target` in one hop or more.
pub open spec fn points_at(
    forward: Map<Seq<char>, Seq<char>>,
    name: Seq<char>,
    target: Seq<char>,
) -> bool {
    exists|n: nat| n >= 1 && #[trigger] hop(forward, name, n) == Some(target)
}

/// The aliases that lead to `target`.
pub open spec fn dependents(forward: Map<Seq<char>, Seq<char>>, target: Seq<char>) -> Set<
    Seq<char>,
> {
    Set::new(|name: Seq<char>| forward.dom().contains(name) && points_at(forward, name, target))
}

/// The last name that is reached from `name` in at most `limit` hops: the
/// first that is no alias, or the one at which the hops run out.
pub open spec fn chase(forward: Map<Seq<char>, Seq<char>>, name: Seq<char>, limit: nat) -> Seq<
    char,
>
    decreases limit,
{
    if limit == 0 || !forward.dom().contains(name) {
        name
    } else {
        chase(forward, forward[name], (limit - 1) as nat)
    }
}

/// What the alias `name` stands for, following at most `limit` aliases,
/// of which `name` is the first; nothing where `name` is no alias.
pub open spec fn resolution(
    forward: Map<Seq<char>, Seq<char>>,
    name: Seq<char>,
    limit: nat,
) -> Option<Seq<char>> {
    if forward.dom().contains(name) && limit >= 1 {
        Some(chase(forward, forward[name], (limit - 1) as nat))
    } else {
        None
    }
}

/// `chase` ends after some number of hops within the limit, and before
/// the limit only at a name that is no alias: however the aliases are
/// laid out, in a cycle too, no more than `limit` of them are followed.
pub proof fn lemma_chase_bounded(forward: Map<Seq<char>, Seq<char>>, name: Seq<char>, limit: nat)
    ensures
        exists|n: nat|
            n <= limit && #[trigger] hop(forward, name, n) == Some(chase(forward, name, limit))
                && (n < limit ==> !forward.dom().contains(chase(forward, name, limit))),
    decreases limit,
{
    if limit == 0 || !forward.dom().contains(name) {
        assert(hop(forward, name, 0) == Some(name));
    } else {
        lemma_chase_bounded(forward, forward[name], (limit - 1) as nat);
        let n = choose|n: nat|
            n <= limit - 1 && #[trigger] hop(forward, forward[name], n) == Some(
                chase(forward, forward[name], (limit - 1) as nat),
            ) && (n < limit - 1 ==> !forward.dom().contains(
                chase(forward, forward[name], (limit - 1) as nat),
            ));
        assert(hop(forward, name, n + 1) == hop(forward, forward[name], n));
    }
}

/// Where the aliases lead from `name` to a name that is no alias, in no
/// more hops than the limit, `chase` ends at that name.
pub proof fn lemma_chase_reaches(
    forward: Map<Seq<char>, Seq<char>>,
    name: Seq<char>,
    target: Seq<char>,
    hops: nat,
    limit: nat,
)
    requires
        hops <= limit,
        hop(forward, name, hops) == Some(target),
        !forward.dom().contains(target),
    ensures
        chase(forward, name, limit) == target,
    decreases hops,
{
    if hops > 0 {
        lemma_chase_reaches(
            forward,
            forward[name],
            target,
            (hops - 1) as nat,
            (limit - 1) as nat,
        );
    }
}

/// Where a chain of aliases leads from the alias `name` to a name that is
/// no alias, in no more hops than the limit, the alias stands for that
/// name in the end.
pub proof fn lemma_resolution_reaches(
    forward: Map<Seq<char>, Seq<char>>,
    name: Seq<char>,
    target: Seq<char>,
    hops: nat,
    limit: nat,
)
    requires
        1 <= hops <= limit,
        hop(forward, name, hops) == Some(target),
        !forward.dom().contains(target),
    ensures
        resolution(forward, name, limit) == Some(target),
{
    lemma_chase_reaches(forward, forward[name], target, (hops - 1) as nat, (limit - 1) as nat);
}

/// An alias of a name that leads to `target`, or of `target` itself,
/// leads to `target`.
pub proof fn lemma_points_step(
    forward: Map<Seq<char>, Seq<char>>,
    name: Seq<char>,
    target: Seq<char>,
)
    requires
        forward.dom().contains(name),
        forward[name] == target || points_at(forward, forward[name], target),
    ensures
        points_at(forward, name, target),
{
    if forward[name] == target {
        assert(hop(forward, forward[name], 0) == Some(target));
        assert(hop(forward, name, 1) == Some(target));
    } else {
        let n = choose|n: nat| n >= 1 && #[trigger] hop(forward, forward[name], n) == Some(target);
        assert(hop(forward, name, n + 1) == Some(target));
    }
}

/// Where a part of the aliases was taken out, among them every alias of
/// `target` and of a name that was taken out, no alias that is left led
/// to `target`.
proof fn lemma_closed(
    before: Map<Seq<char>, Seq<char>>,
    after: Map<Seq<char>, Seq<char>>,
    target: Seq<char>,
    done: Set<Seq<char>>,
    name: Seq<char>,
    n: nat,
)
    requires
        forall|x: Seq<char>| #[trigger]
            after.dom().contains(x) ==> before.dom().contains(x) && before[x] == after[x],
        forall|x: Seq<char>|
            before.dom().contains(x) && !after.dom().contains(x) ==> #[trigger] done.contains(x),
        done.contains(target),
        forall|x: Seq<char>| #[trigger] after.dom().contains(x) ==> !done.contains(after[x]),
        after.dom().contains(name),
        n >= 1,
    ensures
        hop(before, name, n) != Some(target),
    decreases n,
{
    let next = before[name];
    assert(before.dom().contains(name) && next == after[name]);
    assert(!done.contains(after[name]));
    assert(hop(before, name, n) == hop(before, next, (n - 1) as nat));
    if n == 1 {
        assert(hop(before, next, 0) == Some(next));
    } else if before.dom().contains(next) {
        if !after.dom().contains(next) {
            assert(done.contains(next));
        }
        lemma_closed(before, after, target, done, next, (n - 1) as nat);
    } else {
        assert(hop(before, next, (n - 1) as nat) is None);
    }
}

/// A name is in a queue with one more text exactly if it was in the queue
/// or is that text.
proof fn lemma_queued_push(queue: Seq<String>, last: String, name: Seq<char>)
    ensures
        queued(queue.push(last), name) <==> queued(queue, name) || last@ == name,
{
    let longer = queue.push(last);
    if queued(queue, name) {
        let i = choose|i: int| 0 <= i < queue.len() && (#[trigger] queue[i])@ == name;
        assert(longer[i]@ == name);
    }
    if last@ == name {
        assert(longer[queue.len() as int]@ == name);
    }
    if queued(longer, name) {
        let i = choose|i: int| 0 <= i < longer.len() && (#[trigger] longer[i])@ == name;
        if i < queue.len() {
            assert(queue[i]@ == name);
        }
    }
}

/// The alias book: a map from short names to the names that they stand
/// for, which may be short names themselves.
#[derive(Debug)]
pub struct AliasBook {
    entries: Table<String>,
}

/// Whether `name` is the text of one of the `queue`.
pub open spec fn queued(queue: Seq<String>, name: Seq<char>) -> bool {
    exists|i: int| 0 <= i < queue.len() && (#[trigger] queue[i])@ == name
}

impl AliasBook {
    /// The invariant of the book: no alias twice, and every alias a
    /// canonical name.
    pub closed spec fn wf(&self) -> bool {
        &&& self.entries.wf()
        &&& forall|name: Seq<char>| #[trigger]
            self.entries@.dom().contains(name) ==> is_canonical(name)
    }

    /// Every alias of a book is a canonical name: it is not empty and has
    /// neither `/` nor `@`.
    pub proof fn lemma_aliases_are_canonical(&self)
        requires
            self.wf(),
        ensures
            forall|name: Seq<char>| #[trigger] self@.dom().contains(name) ==> is_canonical(name),
    {
    }

    /// The book as a map from each alias to the name that it stands for.
    pub closed spec fn view(&self) -> Map<Seq<char>, Seq<char>> {
        Map::new(
            |name: Seq<char>| self.entries@.dom().contains(name),
            |name: Seq<char>| self.entries@[name]@,
        )
    }

    /// The aliases of `target`: what the reverse of the book holds for it.
    pub open spec fn reverse(&self, target: Seq<char>) -> Set<Seq<char>> {
        Set::new(|name: Seq<char>| self@.dom().contains(name) && self@[name] == target)
    }

    /// A book without aliases.
    pub fn new() -> (r: Self)
        ensures
            r.wf(),
            r@ == Map::<Seq<char>, Seq<char>>::empty(),
    {
        let r = AliasBook { entries: Table::new() };
        proof {
            assert(r@ =~= Map::<Seq<char>, Seq<char>>::empty());
        }
        r
    }

    /// Whether `alias` is an alias.
    pub fn has(&self, alias: &str) -> (r: bool)
        requires
            self.wf(),
        ensures
            r == self@.dom().contains(alias@),
    {
        self.entries.contains_key(alias)
    }

    /// Makes `alias` stand for `refers_to`, whatever it stood for before.
    pub fn add(&mut self, alias: &CanonicalName, refers_to: &FullyQualifiedName)
        requires
            old(self).wf(),
        ensures
            final(self).wf(),
            final(self)@ == old(self)@.insert(alias@, refers_to@),
    {
        self.entries.insert(alias.as_str().to_owned(), refers_to.to_string());
        proof {
            assert(self@ =~= old(self)@.insert(alias@, refers_to@));
        }
    }

    /// What `alias` stands for in the end: the name reached by following
    /// aliases from it, `MAX_ALIAS_HOPS` of them at most. Nothing where
    /// `alias` is no alias.
    pub fn resolve(&self, alias: &str) -> (r: Option<FullyQualifiedName<'_>>)
        requires
            self.wf(),
        ensures
            match r {
                Some(name) => resolution(self@, alias@, MAX_ALIAS_HOPS as nat) == Some(name@),
                None => resolution(self@, alias@, MAX_ALIAS_HOPS as nat) is None,
            },
    {
        let mut current: &str = match self.entries.get(alias) {
            Some(target) => target.as_str(),
            None => { return None; },
        };
        let mut left: usize = MAX_ALIAS_HOPS - 1;
        while left > 0
            invariant
                self.wf(),
                left < MAX_ALIAS_HOPS,
                resolution(self@, alias@, MAX_ALIAS_HOPS as nat) == Some(
                    chase(self@, current@, left as nat),
                ),
            decreases left,
        {
            match self.entries.get(current) {
                Some(target) => {
                    current = target.as_str();
                    left -= 1;
                },
                None => {
                    return Some(FullyQualifiedName::from_str_unchecked(current));
                },
            }
        }
        Some(FullyQualifiedName::from_str_unchecked(current))
    }

    /// The aliases that stand for `target` directly.
    pub fn aliases_of(&self, target: &str) -> (r: Vec<String>)
        requires
            self.wf(),
        ensures
            forall|name: Seq<char>| queued(r@, name) <==> self.reverse(target@).contains(name),
            forall|a: int, b: int| 0 <= a < b < r@.len() ==> r@[a]@ != r@[b]@,
    {
        let mut found: Vec<String> = Vec::new();
        let mut i: usize = 0;
        while i < self.entries.len()
            invariant
                self.wf(),
                i <= self.entries.keys().len(),
                forall|name: Seq<char>|
                    queued(found@, name) <==> exists|j: int|
                        0 <= j < i && #[trigger] self.entries.keys()[j] == name
                            && self.entries.values()[j]@ == target@,
                forall|a: int, b: int| 0 <= a < b < found@.len() ==> found@[a]@ != found@[b]@,
            decreases self.entries.keys().len() - i,
        {
            let ghost before = found@;
            if same_text(self.entries.value_at(i).as_str(), target) {
                found.push(self.entries.key_at(i).to_owned());
                proof {
                    assert(found@[before.len() as int]@ == self.entries.keys()[i as int]);
                    assert forall|a: int, b: int| 0 <= a < b < found@.len() implies found@[a]@
                        != found@[b]@ by {
                        if b == before.len() {
                            assert(found@[a] == before[a]);
                            assert(queued(before, before[a]@));
                            let j = choose|j: int|
                                0 <= j < i && #[trigger] self.entries.keys()[j] == before[a]@
                                    && self.entries.values()[j]@ == target@;
                            assert(self.entries.keys()[j] != self.entries.keys()[i as int]);
                        } else {
                            assert(found@[a] == before[a] && found@[b] == before[b]);
                        }
                    }
                    assert forall|name: Seq<char>| queued(found@, name) implies exists|j: int|
                        0 <= j < i + 1 && #[trigger] self.entries.keys()[j] == name
                            && self.entries.values()[j]@ == target@ by {
                        let k = choose|k: int| 0 <= k < found@.len() && (#[trigger] found@[k])@
                            == name;
                        if k < before.len() {
                            assert(before[k]@ == name);
                            assert(queued(before, name));
                        } else {
                            assert(self.entries.keys()[i as int] == name);
                        }
                    }
                    assert forall|name: Seq<char>|
                        (exists|j: int|
                            0 <= j < i + 1 && #[trigger] self.entries.keys()[j] == name
                                && self.entries.values()[j]@ == target@) implies queued(
                        found@,
                        name,
                    ) by {
                        let j = choose|j: int|
                            0 <= j < i + 1 && #[trigger] self.entries.keys()[j] == name
                                && self.entries.values()[j]@ == target@;
                        if j < i {
                            assert(queued(before, name));
                            let k = choose|k: int| 0 <= k < before.len() && (#[trigger] before[k])@
                                == name;
                            assert(found@[k]@ == name);
                        } else {
                            assert(found@[before.len() as int]@ == name);
                        }
                    }
                }
            }
            i += 1;
        }
        proof {
            assert forall|name: Seq<char>| queued(found@, name) <==> self.reverse(
                target@,
            ).contains(name) by {
                if queued(found@, name) {
                    let j = choose|j: int|
                        0 <= j < i && #[trigger] self.entries.keys()[j] == name
                            && self.entries.values()[j]@ == target@;
                    lemma_position(self.entries.keys(), j);
                }
                if self.reverse(target@).contains(name) {
                    let p = crate::table::position_of(self.entries.keys(), name)->0;
                    assert(self.entries.keys()[p] == name);
                }
            }
        }
        found
    }
}

impl AliasBook {
    /// The text of the value at position `i` is what the key at `i`
    /// stands for.
    proof fn lemma_entry(&self, i: int)
        requires
            self.wf(),
            0 <= i < self.entries.keys().len(),
        ensures
            self@.dom().contains(self.entries.keys()[i]),
            self@[self.entries.keys()[i]] == self.entries.values()[i]@,
    {
        lemma_position(self.entries.keys(), i);
    }

    /// Every alias stands at some position.
    proof fn lemma_key(&self, name: Seq<char>) -> (i: int)
        requires
            self.wf(),
            self@.dom().contains(name),
        ensures
            0 <= i < self.entries.keys().len(),
            self.entries.keys()[i] == name,
            self@[name] == self.entries.values()[i]@,
    {
        let i = crate::table::position_of(self.entries.keys(), name)->0;
        lemma_position(self.entries.keys(), i);
        i
    }

    /// Takes out every alias that leads to `fqn`: the aliases of `fqn`,
    /// their aliases, and so on.
    pub fn remove_target(&mut self, fqn: &FullyQualifiedName)
        requires
            old(self).wf(),
        ensures
            final(self).wf(),
            final(self)@ == old(self)@.remove_keys(dependents(old(self)@, fqn@)),
    {
        let ghost before = self@;
        let ghost target = fqn@;
        let ghost mut done: Set<Seq<char>> = Set::empty();
        let mut queue: Vec<String> = Vec::new();
        let first = fqn.to_string();
        proof {
            lemma_queued_push(queue@, first, target);
        }
        queue.push(first);
        while queue.len() > 0
            invariant
                self.wf(),
                forall|x: Seq<char>| #[trigger]
                    self@.dom().contains(x) ==> before.dom().contains(x) && before[x] == self@[x],
                forall|x: Seq<char>|
                    before.dom().contains(x) && !(#[trigger] self@.dom().contains(x))
                        ==> points_at(before, x, target) && (done.contains(x) || queued(
                        queue@,
                        x,
                    )),
                forall|i: int|
                    0 <= i < queue@.len() ==> (#[trigger] queue@[i])@ == target || points_at(
                        before,
                        queue@[i]@,
                        target,
                    ),
                forall|x: Seq<char>| #[trigger]
                    self@.dom().contains(x) ==> !done.contains(self@[x]),
                done.contains(target) || queued(queue@, target),
            decreases self.entries.keys().len() + queue@.len(),
        {
            let ghost full = queue@;
            let name = queue.pop().unwrap();
            let ghost size = self.entries.keys().len() + queue@.len();
            proof {
                assert(full == queue@.push(name));
                assert forall|x: Seq<char>| queued(full, x) implies queued(queue@, x) || x
                    == name@ by {
                    lemma_queued_push(queue@, name, x);
                }
                assert(full[full.len() - 1] == name);
            }
            let mut i: usize = 0;
            while i < self.entries.len()
                invariant
                    self.wf(),
                    i <= self.entries.keys().len(),
                    self.entries.keys().len() + queue@.len() == size,
                    name@ == target || points_at(before, name@, target),
                    forall|x: Seq<char>| #[trigger]
                        self@.dom().contains(x) ==> before.dom().contains(x) && before[x]
                            == self@[x],
                    forall|x: Seq<char>|
                        before.dom().contains(x) && !(#[trigger] self@.dom().contains(x))
                            ==> points_at(before, x, target) && (done.contains(x) || queued(
                            queue@,
                            x,
                        ) || x == name@),
                    forall|k: int|
                        0 <= k < queue@.len() ==> (#[trigger] queue@[k])@ == target || points_at(
                            before,
                            queue@[k]@,
                            target,
                        ),
                    forall|x: Seq<char>| #[trigger]
                        self@.dom().contains(x) ==> !done.contains(self@[x]),
                    done.contains(target) || queued(queue@, target) || name@ == target,
                    forall|j: int| 0 <= j < i ==> (#[trigger] self.entries.values()[j])@ != name@,
                decreases self.entries.keys().len() - i,
            {
                if same_text(self.entries.value_at(i).as_str(), name.as_str()) {
                    let ghost book = *self;
                    let ghost waiting = queue@;
                    proof {
                        self.lemma_entry(i as int);
                        lemma_points_step(before, self.entries.keys()[i as int], target);
                    }
                    let (alias, _) = self.entries.remove_at(i);
                    queue.push(alias);
                    proof {
                        assert forall|x: Seq<char>| #[trigger]
                            self@.dom().contains(x) implies book@.dom().contains(x) && book@[x]
                            == self@[x] by {}
                        assert forall|x: Seq<char>|
                            before.dom().contains(x) && !(#[trigger] self@.dom().contains(
                                x,
                            )) implies points_at(before, x, target) && (done.contains(x)
                            || queued(queue@, x) || x == name@) by {
                            lemma_queued_push(waiting, alias, x);
                            if book@.dom().contains(x) {
                                assert(x == alias@);
                            }
                        }
                        assert forall|k: int| 0 <= k < queue@.len() implies (#[trigger] queue@[k])@
                            == target || points_at(before, queue@[k]@, target) by {
                            if k < waiting.len() {
                                assert(queue@[k] == waiting[k]);
                            }
                        }
                        lemma_queued_push(waiting, alias, target);
                        assert forall|j: int| 0 <= j < i implies (
                        #[trigger] self.entries.values()[j])@ != name@ by {
                            assert(self.entries.values()[j] == book.entries.values()[j]);
                        }
                    }
                } else {
                    i += 1;
                }
            }
            proof {
                assert forall|x: Seq<char>| #[trigger] self@.dom().contains(x) implies self@[x]
                    != name@ by {
                    let p = self.lemma_key(x);
                    assert(self.entries.values()[p]@ != name@);
                }
                done = done.insert(name@);
            }
        }
        proof {
            let after = self@;
            let gone = dependents(before, target);
            assert forall|x: Seq<char>| after.dom().contains(x) implies !gone.contains(x) by {
                assert forall|n: nat| n >= 1 implies #[trigger] hop(before, x, n) != Some(
                    target,
                ) by {
                    lemma_closed(before, after, target, done, x, n);
                }
            }
            assert(after =~= before.remove_keys(gone));
        }
    }

    /// Takes out `alias` and every alias that leads to it, and hands back
    /// what `alias` stood for. Nothing is handed back, and nothing else
    /// changes than by `remove_target`, where `alias` is no alias.
    pub fn remove(&mut self, alias: &CanonicalName) -> (r: Option<FullyQualifiedNameBuf>)
        requires
            old(self).wf(),
        ensures
            final(self).wf(),
            final(self)@ == old(self)@.remove_keys(dependents(old(self)@, alias@).insert(alias@)),
            match r {
                Some(target) => old(self)@.dom().contains(alias@) && old(self)@[alias@]
                    == target@,
                None => !old(self)@.dom().contains(alias@),
            },
    {
        let found = match self.entries.get(alias.as_str()) {
            Some(target) => Some(
                FullyQualifiedName::from_str_unchecked(target.as_str()).to_owned(),
            ),
            None => None,
        };
        self.remove_target(&FullyQualifiedName::alias(alias));
        let ghost cascaded = self@;
        self.entries.remove(alias.as_str());
        proof {
            assert(self@ =~= cascaded.remove(alias@));
            assert(self@ =~= old(self)@.remove_keys(
                dependents(old(self)@, alias@).insert(alias@),
            ));
        }
        found
    }
}

impl Default for AliasBook {
    fn default() -> (r: Self)
        ensures
            r.wf(),
            r@ == Map::<Seq<char>, Seq<char>>::empty(),
    {
        AliasBook::new()
    }
}

/// After an alias was removed, neither it nor an alias that led to it is
/// an alias any more, so that none of them resolves.
pub proof fn lemma_removed_unresolvable(
    forward: Map<Seq<char>, Seq<char>>,
    alias: Seq<char>,
    name: Seq<char>,
    limit: nat,
)
    requires
        name == alias || points_at(forward, name, alias),
    ensures
        resolution(forward.remove_keys(dependents(forward, alias).insert(alias)), name, limit)
            is None,
{
    if name != alias && forward.dom().contains(name) {
        assert(dependents(forward, alias).contains(name));
    }
}

/// In the reverse of the book, every alias stands under the name that it
/// stands for, and only there.
pub proof fn lemma_reverse_is_inverse(book: AliasBook, name: Seq<char>, target: Seq<char>)
    ensures
        book.reverse(target).contains(name) <==> book@.dom().contains(name) && book@[name]
            == target,
{
}

} // verus!
