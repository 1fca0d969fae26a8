//! The service registry: a map from the identity of a service to the value
//! that stands for it, which also remembers the order in which the
//! identities came in.

use vstd::prelude::*;

use crate::identity::ServiceId;

verus! {

/// The index of the first of `keys`, from `i` on, that is `id`; the length of
/// `keys` if there is none.
pub open spec fn position(keys: Seq<ServiceId>, id: ServiceId, i: int) -> int
    decreases keys.len() - i,
{
    if i < 0 || i >= keys.len() {
        keys.len() as int
    } else if keys[i] == id {
        i
    } else {
        position(keys, id, i + 1)
    }
}

pub proof fn lemma_position(keys: Seq<ServiceId>, id: ServiceId, i: int)
    requires
        0 <= i <= keys.len(),
    ensures
        i <= position(keys, id, i) <= keys.len(),
        position(keys, id, i) < keys.len() ==> keys[position(keys, id, i)] == id,
        forall|j: int| i <= j < position(keys, id, i) ==> #[trigger] keys[j] != id,
        position(keys, id, i) < keys.len() <==> keys.subrange(i, keys.len() as int).contains(id),
    decreases keys.len() - i,
{
    let tail = keys.subrange(i, keys.len() as int);
    if i < keys.len() {
        if keys[i] == id {
            assert(tail[0] == id);
        } else {
            lemma_position(keys, id, i + 1);
            let rest = keys.subrange(i + 1, keys.len() as int);
            if rest.contains(id) {
                let j = choose|j: int| 0 <= j < rest.len() && rest[j] == id;
                assert(tail[j + 1] == id);
            }
            if tail.contains(id) {
                let j = choose|j: int| 0 <= j < tail.len() && tail[j] == id;
                assert(j > 0);
                assert(rest[j - 1] == id);
            }
        }
    }
}

/// `id` stands among `keys` exactly when `position` finds it.
pub proof fn lemma_position_contains(keys: Seq<ServiceId>, id: ServiceId)
    ensures
        position(keys, id, 0) < keys.len() <==> keys.contains(id),
        0 <= position(keys, id, 0) <= keys.len(),
        position(keys, id, 0) < keys.len() ==> keys[position(keys, id, 0)] == id,
{
    lemma_position(keys, id, 0);
    assert(keys.subrange(0, keys.len() as int) == keys);
}

/// Where no key stands twice, the place of a key is where `position` finds
/// it.
pub proof fn lemma_position_at(keys: Seq<ServiceId>, j: int)
    requires
        keys.no_duplicates(),
        0 <= j < keys.len(),
    ensures
        position(keys, keys[j], 0) == j,
{
    lemma_position(keys, keys[j], 0);
}

/// Why a request for several services at once was refused.
#[derive(Clone, Copy, Debug, PartialEq, Eq, Structural)]
pub enum RegistryError {
    /// The identity stands twice in the request.
    Duplicate(ServiceId),
}

/// `m` without the first `n` of `ids`.
pub open spec fn without<V>(m: Map<ServiceId, V>, ids: Seq<ServiceId>, n: int) -> Map<ServiceId, V>
    decreases n,
{
    if n <= 0 {
        m
    } else {
        without(m, ids, n - 1).remove(ids[n - 1])
    }
}

/// `m` with each of the first `n` of `ids` bound to what its slot holds, if
/// it holds anything.
pub open spec fn with_slots<V>(
    m: Map<ServiceId, V>,
    ids: Seq<ServiceId>,
    slots: Seq<Option<V>>,
    n: int,
) -> Map<ServiceId, V>
    decreases n,
{
    if n <= 0 {
        m
    } else {
        let before = with_slots(m, ids, slots, n - 1);
        match slots[n - 1] {
            Some(v) => before.insert(ids[n - 1], v),
            None => before,
        }
    }
}

/// Taking identities out removes them and leaves the others as they are.
pub proof fn lemma_without<V>(m: Map<ServiceId, V>, ids: Seq<ServiceId>, n: int, k: ServiceId)
    requires
        0 <= n <= ids.len(),
    ensures
        without(m, ids, n).contains_key(k) == (m.contains_key(k) && forall|j: int|
            0 <= j < n ==> ids[j] != k),
        without(m, ids, n).contains_key(k) ==> without(m, ids, n)[k] == m[k],
    decreases n,
{
    if n > 0 {
        lemma_without(m, ids, n - 1, k);
        if k != ids[n - 1] && (forall|j: int| 0 <= j < n - 1 ==> ids[j] != k) {
            assert forall|j: int| 0 <= j < n implies ids[j] != k by {}
        }
    }
}

/// Putting slots back binds an identity whose slot is filled to what the
/// slot holds, and leaves it as it is where the slot is empty.
pub proof fn lemma_with_slots_hit<V>(
    m: Map<ServiceId, V>,
    ids: Seq<ServiceId>,
    slots: Seq<Option<V>>,
    n: int,
    i: int,
)
    requires
        0 <= i < n <= ids.len(),
        ids.len() == slots.len(),
        ids.no_duplicates(),
    ensures
        held(with_slots(m, ids, slots, n), ids[i]) == match slots[i] {
            Some(v) => Some(v),
            None => held(m, ids[i]),
        },
    decreases n,
{
    if i < n - 1 {
        lemma_with_slots_hit(m, ids, slots, n - 1, i);
        assert(ids[i] != ids[n - 1]);
    } else {
        lemma_with_slots_miss(m, ids, slots, n - 1, ids[i]);
    }
}

/// Putting slots back leaves an identity that is not among them as it is.
pub proof fn lemma_with_slots_miss<V>(
    m: Map<ServiceId, V>,
    ids: Seq<ServiceId>,
    slots: Seq<Option<V>>,
    n: int,
    k: ServiceId,
)
    requires
        0 <= n <= ids.len(),
        ids.len() == slots.len(),
        forall|j: int| 0 <= j < n ==> ids[j] != k,
    ensures
        held(with_slots(m, ids, slots, n), k) == held(m, k),
    decreases n,
{
    if n > 0 {
        lemma_with_slots_miss(m, ids, slots, n - 1, k);
        assert(ids[n - 1] != k);
    }
}

/// After slots were taken out and put back, filled where they were filled
/// before, the map holds the same identities: those of the slots with what
/// the slots hold now, the others with what they held.
pub proof fn lemma_restored<V>(
    m: Map<ServiceId, V>,
    ids: Seq<ServiceId>,
    before: Seq<Option<V>>,
    after: Seq<Option<V>>,
    k: ServiceId,
)
    requires
        ids.no_duplicates(),
        ids.len() == before.len(),
        ids.len() == after.len(),
        forall|i: int| 0 <= i < ids.len() ==> #[trigger] before[i] == held(m, ids[i]),
        forall|i: int| 0 <= i < ids.len() ==> (#[trigger] after[i] is Some) == (before[i] is Some),
    ensures
        with_slots(without(m, ids, ids.len() as int), ids, after, ids.len() as int).contains_key(k)
            == m.contains_key(k),
        (forall|j: int| 0 <= j < ids.len() ==> ids[j] != k) ==> held(
            with_slots(without(m, ids, ids.len() as int), ids, after, ids.len() as int),
            k,
        ) == held(m, k),
        forall|i: int|
            0 <= i < ids.len() && ids[i] == k && after[i] is Some ==> with_slots(
                without(m, ids, ids.len() as int),
                ids,
                after,
                ids.len() as int,
            )[k] == after[i]->0,
{
    let n = ids.len() as int;
    let out = without(m, ids, n);
    lemma_without(m, ids, n, k);
    if exists|j: int| 0 <= j < n && ids[j] == k {
        let j = choose|j: int| 0 <= j < n && ids[j] == k;
        lemma_with_slots_hit(out, ids, after, n, j);
        assert(before[j] == held(m, ids[j]));
        assert((after[j] is Some) == (before[j] is Some));
        assert forall|i: int| 0 <= i < n && ids[i] == k implies i == j by {}
    } else {
        lemma_with_slots_miss(out, ids, after, n, k);
    }
}

/// What `m` holds under `id`, if anything.
pub open spec fn held<V>(m: Map<ServiceId, V>, id: ServiceId) -> Option<V> {
    if m.contains_key(id) {
        Some(m[id])
    } else {
        None
    }
}

/// A map from identities to values that remembers the order in which the
/// identities first came in. A value can be taken out for a while and put
/// back; its identity keeps its place in the order meanwhile.
#[derive(Debug)]
pub struct Registry<V> {
    entries: Vec<(ServiceId, Option<V>)>,
}

impl<V> Registry<V> {
    /// The identities that ever came in, in the order in which they did.
    pub closed spec fn order(&self) -> Seq<ServiceId> {
        Seq::new(self.entries@.len(), |i: int| self.entries@[i].0)
    }

    /// The map from each identity that holds a value to that value.
    pub closed spec fn view(&self) -> Map<ServiceId, V> {
        Map::new(
            |id: ServiceId|
                position(self.order(), id, 0) < self.order().len() && self.entries@[position(
                    self.order(),
                    id,
                    0,
                )].1 is Some,
            |id: ServiceId| self.entries@[position(self.order(), id, 0)].1->0,
        )
    }

    /// No identity stands twice in the order.
    pub closed spec fn wf(&self) -> bool {
        self.order().no_duplicates()
    }

    /// Every identity of the order holds a value: nothing is taken out.
    pub open spec fn complete(&self) -> bool {
        forall|i: int| 0 <= i < self.order().len() ==> self@.contains_key(#[trigger] self.order()[i])
    }

    /// The order holds each identity once, and every identity of the map.
    pub proof fn lemma_order(&self)
        requires
            self.wf(),
        ensures
            self.order().no_duplicates(),
            forall|id: ServiceId| self@.contains_key(id) ==> self.order().contains(id),
    {
        assert forall|id: ServiceId| self@.contains_key(id) implies self.order().contains(id) by {
            lemma_position_contains(self.order(), id);
        }
    }

    pub fn new() -> (r: Self)
        ensures
            r.wf(),
            r@ == Map::<ServiceId, V>::empty(),
            r.order() == Seq::<ServiceId>::empty(),
    {
        let r = Registry { entries: Vec::new() };
        assert(r.order() =~= Seq::<ServiceId>::empty());
        assert(r@ =~= Map::<ServiceId, V>::empty());
        r
    }

    /// The number of identities in the order.
    pub fn len(&self) -> (n: usize)
        ensures
            n == self.order().len(),
    {
        self.entries.len()
    }

    /// The identity that came in as number `i`.
    pub fn id_at(&self, i: usize) -> (id: ServiceId)
        requires
            i < self.order().len(),
        ensures
            id == self.order()[i as int],
    {
        self.entries[i].0
    }

    /// The value of the identity that came in as number `i`, unless it is
    /// taken out.
    pub fn value_at(&self, i: usize) -> (v: Option<&V>)
        requires
            self.wf(),
            i < self.order().len(),
        ensures
            match v {
                Some(v) => held(self@, self.order()[i as int]) == Some(*v),
                None => held(self@, self.order()[i as int]) is None,
            },
    {
        proof {
            lemma_position_at(self.order(), i as int);
        }
        self.entries[i].1.as_ref()
    }

    fn find(&self, id: ServiceId) -> (p: usize)
        ensures
            p == position(self.order(), id, 0),
            p <= self.order().len(),
            p < self.order().len() ==> self.order()[p as int] == id,
            p < self.order().len() <==> self.order().contains(id),
    {
        let mut i: usize = 0;
        proof {
            lemma_position_contains(self.order(), id);
        }
        while i < self.entries.len()
            invariant
                i <= self.entries@.len(),
                self.entries@.len() == self.order().len(),
                position(self.order(), id, 0) == position(self.order(), id, i as int),
            decreases self.entries@.len() - i,
        {
            if self.entries[i].0 == id {
                return i;
            }
            i += 1;
        }
        i
    }

    pub fn contains(&self, id: ServiceId) -> (b: bool)
        ensures
            b == self@.contains_key(id),
    {
        let p = self.find(id);
        p < self.entries.len() && self.entries[p].1.is_some()
    }

    pub fn get(&self, id: ServiceId) -> (v: Option<&V>)
        ensures
            match v {
                Some(v) => held(self@, id) == Some(*v),
                None => held(self@, id) is None,
            },
    {
        let p = self.find(id);
        if p < self.entries.len() {
            self.entries[p].1.as_ref()
        } else {
            None
        }
    }

    /// Puts `slot` in the place of what `id` holds and hands back what was
    /// there.
    fn exchange(&mut self, id: ServiceId, slot: Option<V>) -> (before: Option<V>)
        requires
            old(self).wf(),
        ensures
            final(self).wf(),
            final(self)@ == match slot {
                Some(v) => old(self)@.insert(id, v),
                None => old(self)@.remove(id),
            },
            before == held(old(self)@, id),
            final(self).order() == if old(self).order().contains(id) {
                old(self).order()
            } else {
                old(self).order().push(id)
            },
    {
        let p = self.find(id);
        let ghost keys = self.order();
        let ghost before_entries = self.entries@;
        let ghost target = if slot is Some {
            old(self)@.insert(id, slot->0)
        } else {
            old(self)@.remove(id)
        };
        if p < self.entries.len() {
            self.entries.push((id, slot));
            let old_entry = self.entries.swap_remove(p);
            proof {
                assert(self.entries@ == before_entries.update(p as int, (id, slot)));
                assert(self.order() =~= keys);
                assert forall|other: ServiceId| #[trigger]
                    self@.contains_key(other) == target.contains_key(other) by {
                    lemma_position_contains(keys, other);
                }
                assert forall|other: ServiceId| self@.contains_key(other) implies #[trigger] self@[other]
                    == target[other] by {
                    lemma_position_contains(keys, other);
                }
                assert(self@ =~= target);
            }
            old_entry.1
        } else {
            self.entries.push((id, slot));
            proof {
                assert(self.order() =~= keys.push(id));
                lemma_position_contains(keys, id);
                assert forall|i: int, j: int|
                    0 <= i < keys.len() + 1 && 0 <= j < keys.len() + 1 && i != j implies keys.push(
                    id,
                )[i] != keys.push(id)[j] by {
                    if i == keys.len() {
                        assert(keys[j] != id);
                    } else if j == keys.len() {
                        assert(keys[i] != id);
                    }
                }
                assert forall|other: ServiceId|
                    position(keys.push(id), other, 0) == (if other == id {
                        keys.len() as int
                    } else if position(keys, other, 0) < keys.len() {
                        position(keys, other, 0)
                    } else {
                        keys.len() as int + 1
                    }) by {
                    lemma_position_contains(keys, other);
                    lemma_position_contains(keys.push(id), other);
                    lemma_position(keys.push(id), other, 0);
                    let q = position(keys, other, 0);
                    if other == id {
                        lemma_position_at(keys.push(id), keys.len() as int);
                    } else if q < keys.len() {
                        assert(keys.push(id)[q] == other);
                        lemma_position_at(keys.push(id), q);
                    } else {
                        let q2 = position(keys.push(id), other, 0);
                        if q2 < keys.len() + 1 {
                            if q2 < keys.len() {
                                assert(keys[q2] == other);
                            }
                        }
                    }
                }
                assert forall|other: ServiceId| #[trigger]
                    self@.contains_key(other) == target.contains_key(other) by {
                    lemma_position_contains(keys, other);
                }
                assert forall|other: ServiceId| self@.contains_key(other) implies #[trigger] self@[other]
                    == target[other] by {
                    lemma_position_contains(keys, other);
                }
                assert(self@ =~= target);
            }
            None
        }
    }

    /// Binds `id` to `value` and hands back what `id` held before. An
    /// identity that is new comes last in the order.
    pub fn insert(&mut self, id: ServiceId, value: V) -> (before: Option<V>)
        requires
            old(self).wf(),
        ensures
            final(self).wf(),
            final(self)@ == old(self)@.insert(id, value),
            before == held(old(self)@, id),
            final(self).order() == if old(self).order().contains(id) {
                old(self).order()
            } else {
                old(self).order().push(id)
            },
    {
        self.exchange(id, Some(value))
    }

    /// Takes the value of `id` out of the registry, if it holds one. The
    /// identity keeps its place in the order.
    pub fn take(&mut self, id: ServiceId) -> (value: Option<V>)
        requires
            old(self).wf(),
        ensures
            final(self).wf(),
            final(self)@ == old(self)@.remove(id),
            value == held(old(self)@, id),
            final(self).order() == old(self).order(),
    {
        if self.find(id) < self.entries.len() {
            self.exchange(id, None)
        } else {
            proof {
                lemma_position_contains(self.order(), id);
                assert(self@ =~= old(self)@.remove(id));
            }
            None
        }
    }

    /// Takes the values of several identities out of the registry in one
    /// call, one slot for each identity asked for: what it held, or nothing.
    /// The identities must all differ; a request that names one twice is
    /// refused and changes nothing.
    pub fn take_disjoint(&mut self, ids: &Vec<ServiceId>) -> (r: Result<
        Vec<Option<V>>,
        RegistryError,
    >)
        requires
            old(self).wf(),
        ensures
            final(self).wf(),
            final(self).order() == old(self).order(),
            r is Ok <==> ids@.no_duplicates(),
            match r {
                Ok(slots) => {
                    &&& slots@.len() == ids@.len()
                    &&& forall|i: int|
                        0 <= i < ids@.len() ==> #[trigger] slots@[i] == held(old(self)@, ids@[i])
                    &&& final(self)@ == without(old(self)@, ids@, ids@.len() as int)
                },
                Err(RegistryError::Duplicate(id)) => {
                    &&& final(self)@ == old(self)@
                    &&& exists|i: int, j: int|
                        0 <= i < j < ids@.len() && ids@[i] == id && ids@[j] == id
                },
            },
    {
        match first_duplicate(ids) {
            Some(id) => {
                return Err(RegistryError::Duplicate(id));
            },
            None => {},
        }
        let mut slots: Vec<Option<V>> = Vec::new();
        let mut i: usize = 0;
        while i < ids.len()
            invariant
                i <= ids@.len(),
                ids@.no_duplicates(),
                self.wf(),
                self.order() == old(self).order(),
                slots@.len() == i,
                forall|j: int| 0 <= j < i ==> #[trigger] slots@[j] == held(old(self)@, ids@[j]),
                self@ == without(old(self)@, ids@, i as int),
                forall|j: int|
                    i <= j < ids@.len() ==> held(self@, #[trigger] ids@[j]) == held(
                        old(self)@,
                        ids@[j],
                    ),
            decreases ids@.len() - i,
        {
            let value = self.take(ids[i]);
            slots.push(value);
            i += 1;
        }
        Ok(slots)
    }

    /// Puts back what `take_disjoint` handed out: each slot that holds a
    /// value is bound to the identity it was asked for.
    pub fn put_back(&mut self, ids: &Vec<ServiceId>, slots: Vec<Option<V>>)
        requires
            old(self).wf(),
            ids@.len() == slots@.len(),
        ensures
            final(self).wf(),
            final(self)@ == with_slots(old(self)@, ids@, slots@, ids@.len() as int),
            (forall|i: int|
                0 <= i < ids@.len() && slots@[i] is Some ==> old(self).order().contains(
                    #[trigger] ids@[i],
                )) ==> final(self).order() == old(self).order(),
    {
        let mut rest = slots;
        let mut i: usize = 0;
        while i < ids.len()
            invariant
                i <= ids@.len(),
                ids@.len() == slots@.len(),
                self.wf(),
                rest@ == slots@.subrange(i as int, slots@.len() as int),
                self@ == with_slots(old(self)@, ids@, slots@, i as int),
                (forall|j: int|
                    0 <= j < ids@.len() && slots@[j] is Some ==> old(self).order().contains(
                        #[trigger] ids@[j],
                    )) ==> self.order() == old(self).order(),
            decreases ids@.len() - i,
        {
            let slot = rest.remove(0);
            assert(slot == slots@[i as int]);
            match slot {
                Some(v) => {
                    self.insert(ids[i], v);
                },
                None => {},
            }
            i += 1;
        }
    }
}

/// The first identity that stands twice in `ids`, if there is one.
pub fn first_duplicate(ids: &Vec<ServiceId>) -> (d: Option<ServiceId>)
    ensures
        d is None <==> ids@.no_duplicates(),
        d matches Some(id) ==> exists|i: int, j: int|
            0 <= i < j < ids@.len() && ids@[i] == id && ids@[j] == id,
{
    let mut j: usize = 0;
    while j < ids.len()
        invariant
            j <= ids@.len(),
            forall|a: int, b: int| 0 <= a < b < j ==> ids@[a] != ids@[b],
        decreases ids@.len() - j,
    {
        let mut i: usize = 0;
        while i < j
            invariant
                i <= j,
                j < ids@.len(),
                forall|a: int| 0 <= a < i ==> ids@[a] != ids@[j as int],
            decreases j - i,
        {
            if ids[i] == ids[j] {
                proof {
                    assert(0 <= i < j < ids@.len() && ids@[i as int] == ids@[j as int]);
                }
                return Some(ids[i]);
            }
            i += 1;
        }
        j += 1;
    }
    proof {
        assert forall|a: int, b: int|
            0 <= a < ids@.len() && 0 <= b < ids@.len() && a != b implies ids@[a] != ids@[b] by {
            if a < b {
            } else {
                assert(ids@[b] != ids@[a]);
            }
        }
    }
    None
}

} // verus!
