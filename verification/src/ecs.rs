//! Entity Component System.
//!
//! Entities are plain integer ids handed out in increasing order. Every
//! component stored in a [`World`] belongs to a kind (see [`Component`]); an
//! entity holds at most one component of each kind.

use vstd::prelude::*;

verus! {

/// Entity ID - simple integer.
pub type EntityId = u32;

/// The kind of a component: an entity holds at most one component per kind.
pub type ComponentKind = u32;

/// Component trait that all components must implement.
///
/// A world stores values of one type `C: Component`; applications usually make
/// `C` an enum with one variant per component type, and `kind` tells the
/// variants apart. `kind_of` is what contracts say `kind` returns; an
/// implementation outside verified code defines it as `kind` itself.
pub trait Component {
    /// The kind under which this component is stored, as contracts speak of it.
    spec fn kind_of(&self) -> ComponentKind;

    /// The kind under which this component is stored.
    fn kind(&self) -> (k: ComponentKind)
        ensures
            k == self.kind_of(),
    ;
}

/// The abstract state of a [`World`].
#[verifier::ext_equal]
pub struct WorldView<C> {
    /// The id that the next created entity receives.
    pub next_entity_id: EntityId,
    /// The live entities, in creation order.
    pub entities: Seq<EntityId>,
    /// The stored components, by kind and entity.
    pub components: Map<(ComponentKind, EntityId), C>,
}

/// The ids are listed in increasing order, all below `next`.
#[verifier::opaque]
pub open spec fn ids_increasing(ids: Seq<EntityId>, next: EntityId) -> bool {
    &&& forall|i: int, j: int|
        #![trigger ids[i], ids[j]]
        0 <= i < j < ids.len() ==> ids[i] < ids[j]
    &&& forall|i: int| 0 <= i < ids.len() ==> #[trigger] ids[i] < next
}

impl<C> WorldView<C> {
    /// Entity ids are listed in increasing order, all below the next id.
    pub open spec fn valid(self) -> bool {
        ids_increasing(self.entities, self.next_entity_id)
    }

    /// The component of the given kind that an entity holds, if any.
    pub open spec fn component(self, entity: EntityId, kind: ComponentKind) -> Option<C> {
        if self.components.contains_key((kind, entity)) {
            Some(self.components[(kind, entity)])
        } else {
            None
        }
    }

    /// The entities that hold a component of the given kind.
    pub open spec fn holders(self, kind: ComponentKind) -> Set<EntityId> {
        Set::new(|e: EntityId| self.components.contains_key((kind, e)))
    }

    /// The state after creating an entity: it receives the next id.
    pub open spec fn spawned(self) -> WorldView<C> {
        WorldView {
            next_entity_id: (self.next_entity_id + 1) as EntityId,
            entities: self.entities.push(self.next_entity_id),
            components: self.components,
        }
    }

    /// The state after removing the component of the given kind of an entity.
    pub open spec fn removed(self, entity: EntityId, kind: ComponentKind) -> WorldView<C> {
        WorldView { components: self.components.remove((kind, entity)), ..self }
    }

    /// The state after removing an entity and all its components.
    pub open spec fn despawned(self, entity: EntityId) -> WorldView<C> {
        WorldView {
            next_entity_id: self.next_entity_id,
            entities: if self.entities.contains(entity) {
                self.entities.remove(self.entities.index_of(entity))
            } else {
                self.entities
            },
            components: Map::new(
                |k: (ComponentKind, EntityId)| self.components.contains_key(k) && k.1 != entity,
                |k: (ComponentKind, EntityId)| self.components[k],
            ),
        }
    }
}

impl<C: Component> WorldView<C> {
    /// The state after giving an entity a component, which replaces the one of
    /// the same kind that it held.
    pub open spec fn inserted(self, entity: EntityId, component: C) -> WorldView<C> {
        WorldView {
            components: self.components.insert((component.kind_of(), entity), component),
            ..self
        }
    }
}

/// One stored component.
struct Slot<C> {
    kind: ComponentKind,
    entity: EntityId,
    value: C,
}

/// ECS World that manages entities and components.
///
/// Components live in a vector of slots, at most one per kind and entity.
/// A hash map would do the lookups, but `query_mut` hands out mutable
/// references to many components at once, and vstd specifies no mutable
/// access into a `HashMap` (`get_mut`, `iter_mut`, `values_mut`).
pub struct World<C> {
    next_entity_id: EntityId,
    entities: Vec<EntityId>,
    slots: Vec<Slot<C>>,
}

/// The key under which a slot is stored.
spec fn slot_key<C>(s: Slot<C>) -> (ComponentKind, EntityId) {
    (s.kind, s.entity)
}

/// Whether some slot of `slots` is stored under `k`.
spec fn has_key<C>(slots: Seq<Slot<C>>, k: (ComponentKind, EntityId)) -> bool {
    exists|i: int| 0 <= i < slots.len() && #[trigger] slot_key(slots[i]) == k
}

/// The components that `slots` hold, by key.
spec fn slots_map<C>(slots: Seq<Slot<C>>) -> Map<(ComponentKind, EntityId), C> {
    Map::new(
        |k: (ComponentKind, EntityId)| has_key(slots, k),
        |k: (ComponentKind, EntityId)|
            slots[choose|i: int| 0 <= i < slots.len() && #[trigger] slot_key(slots[i]) == k].value,
    )
}

/// No two slots share a key.
spec fn keys_distinct<C>(slots: Seq<Slot<C>>) -> bool {
    forall|i: int, j: int|
        0 <= i < slots.len() && 0 <= j < slots.len() && i != j ==> slot_key(#[trigger] slots[i])
            != slot_key(#[trigger] slots[j])
}

/// The slot at index `i` is what the map holds under its key.
proof fn lemma_slots_map_at<C>(slots: Seq<Slot<C>>, i: int)
    requires
        keys_distinct(slots),
        0 <= i < slots.len(),
    ensures
        slots_map(slots).contains_key(slot_key(slots[i])),
        slots_map(slots)[slot_key(slots[i])] == slots[i].value,
{
    let k = slot_key(slots[i]);
    assert(has_key(slots, k));
    let j = choose|j: int| 0 <= j < slots.len() && #[trigger] slot_key(slots[j]) == k;
    assert(i == j);
}

/// Appending a slot under a fresh key inserts it into the map.
proof fn lemma_slots_map_push<C>(slots: Seq<Slot<C>>, s: Slot<C>)
    requires
        keys_distinct(slots),
        !has_key(slots, slot_key(s)),
    ensures
        keys_distinct(slots.push(s)),
        slots_map(slots.push(s)) == slots_map(slots).insert(slot_key(s), s.value),
{
    let n = slots.push(s);
    assert forall|i: int, j: int|
        0 <= i < n.len() && 0 <= j < n.len() && i != j implies slot_key(#[trigger] n[i])
        != slot_key(#[trigger] n[j]) by {
        if i < slots.len() && j < slots.len() {
            assert(n[i] == slots[i] && n[j] == slots[j]);
        } else if i < slots.len() {
            assert(n[i] == slots[i]);
        } else {
            assert(n[j] == slots[j]);
        }
    }
    let m = slots_map(slots).insert(slot_key(s), s.value);
    assert forall|k: (ComponentKind, EntityId)| #[trigger] m.contains_key(k) implies slots_map(
        n,
    ).contains_key(k) && slots_map(n)[k] == m[k] by {
        if k == slot_key(s) {
            lemma_slots_map_at(n, slots.len() as int);
        } else {
            let i = choose|i: int| 0 <= i < slots.len() && #[trigger] slot_key(slots[i]) == k;
            lemma_slots_map_at(slots, i);
            assert(n[i] == slots[i]);
            lemma_slots_map_at(n, i);
        }
    }
    assert forall|k: (ComponentKind, EntityId)| #[trigger]
        slots_map(n).contains_key(k) implies m.contains_key(k) by {
        let i = choose|i: int| 0 <= i < n.len() && #[trigger] slot_key(n[i]) == k;
        if i < slots.len() {
            assert(n[i] == slots[i]);
            assert(has_key(slots, k));
        }
    }
    assert(slots_map(n) =~= m);
}

/// Replacing the value of slot `i` (key kept) updates the map at that key.
proof fn lemma_slots_map_update<C>(slots: Seq<Slot<C>>, i: int, s: Slot<C>)
    requires
        keys_distinct(slots),
        0 <= i < slots.len(),
        slot_key(s) == slot_key(slots[i]),
    ensures
        keys_distinct(slots.update(i, s)),
        slots_map(slots.update(i, s)) == slots_map(slots).insert(slot_key(s), s.value),
{
    let n = slots.update(i, s);
    assert forall|a: int, b: int|
        0 <= a < n.len() && 0 <= b < n.len() && a != b implies slot_key(#[trigger] n[a])
        != slot_key(#[trigger] n[b]) by {
        assert(slot_key(n[a]) == slot_key(slots[a]));
        assert(slot_key(n[b]) == slot_key(slots[b]));
    }
    let m = slots_map(slots).insert(slot_key(s), s.value);
    assert forall|k: (ComponentKind, EntityId)| #[trigger] m.contains_key(k) implies slots_map(
        n,
    ).contains_key(k) && slots_map(n)[k] == m[k] by {
        if k == slot_key(s) {
            lemma_slots_map_at(n, i);
        } else {
            let j = choose|j: int| 0 <= j < slots.len() && #[trigger] slot_key(slots[j]) == k;
            lemma_slots_map_at(slots, j);
            assert(n[j] == slots[j]);
            lemma_slots_map_at(n, j);
        }
    }
    assert forall|k: (ComponentKind, EntityId)| #[trigger]
        slots_map(n).contains_key(k) implies m.contains_key(k) by {
        let j = choose|j: int| 0 <= j < n.len() && #[trigger] slot_key(n[j]) == k;
        assert(slot_key(n[j]) == slot_key(slots[j]));
        assert(has_key(slots, k));
    }
    assert(slots_map(n) =~= m);
}

/// Removing slot `i` removes its key from the map.
proof fn lemma_slots_map_remove<C>(slots: Seq<Slot<C>>, i: int)
    requires
        keys_distinct(slots),
        0 <= i < slots.len(),
    ensures
        keys_distinct(slots.remove(i)),
        slots_map(slots.remove(i)) == slots_map(slots).remove(slot_key(slots[i])),
{
    let n = slots.remove(i);
    assert forall|a: int, b: int|
        0 <= a < n.len() && 0 <= b < n.len() && a != b implies slot_key(#[trigger] n[a])
        != slot_key(#[trigger] n[b]) by {
        let a0 = if a < i { a } else { a + 1 };
        let b0 = if b < i { b } else { b + 1 };
        assert(n[a] == slots[a0]);
        assert(n[b] == slots[b0]);
    }
    let m = slots_map(slots).remove(slot_key(slots[i]));
    assert forall|k: (ComponentKind, EntityId)| #[trigger] m.contains_key(k) implies slots_map(
        n,
    ).contains_key(k) && slots_map(n)[k] == m[k] by {
        let j = choose|j: int| 0 <= j < slots.len() && #[trigger] slot_key(slots[j]) == k;
        lemma_slots_map_at(slots, j);
        assert(j != i);
        let j1 = if j < i { j } else { j - 1 };
        assert(n[j1] == slots[j]);
        lemma_slots_map_at(n, j1);
    }
    assert forall|k: (ComponentKind, EntityId)| #[trigger]
        slots_map(n).contains_key(k) implies m.contains_key(k) by {
        let j = choose|j: int| 0 <= j < n.len() && #[trigger] slot_key(n[j]) == k;
        let j0 = if j < i { j } else { j + 1 };
        assert(n[j] == slots[j0]);
        assert(has_key(slots, k));
        assert(j0 != i);
    }
    assert(slots_map(n) =~= m);
}

/// Two slot sequences with the same keys, slot by slot, hold the same keys;
/// the values of keys of another kind than `kind` that are unchanged slot by
/// slot stay the same.
proof fn lemma_query_mut_result<C>(os: Seq<Slot<C>>, fs: Seq<Slot<C>>, kind: ComponentKind)
    requires
        keys_distinct(os),
        os.len() == fs.len(),
        forall|t: int| 0 <= t < os.len() ==> slot_key(#[trigger] fs[t]) == slot_key(os[t]),
        forall|t: int| 0 <= t < os.len() && os[t].kind != kind ==> #[trigger] fs[t] == os[t],
    ensures
        keys_distinct(fs),
        slots_map(fs).dom() == slots_map(os).dom(),
        forall|k: (ComponentKind, EntityId)|
            #[trigger] slots_map(os).contains_key(k) && k.0 != kind ==> slots_map(fs)[k]
                == slots_map(os)[k],
{
    assert forall|a: int, b: int|
        0 <= a < fs.len() && 0 <= b < fs.len() && a != b implies slot_key(#[trigger] fs[a])
        != slot_key(#[trigger] fs[b]) by {
        assert(slot_key(fs[a]) == slot_key(os[a]));
        assert(slot_key(fs[b]) == slot_key(os[b]));
    }
    assert forall|k: (ComponentKind, EntityId)| has_key(os, k) <==> has_key(fs, k) by {
        if has_key(os, k) {
            let t = choose|t: int| 0 <= t < os.len() && #[trigger] slot_key(os[t]) == k;
            assert(slot_key(fs[t]) == k);
        }
        if has_key(fs, k) {
            let t = choose|t: int| 0 <= t < fs.len() && #[trigger] slot_key(fs[t]) == k;
            assert(slot_key(os[t]) == k);
        }
    }
    assert(slots_map(fs).dom() =~= slots_map(os).dom());
    assert forall|k: (ComponentKind, EntityId)| #[trigger]
        slots_map(os).contains_key(k) && k.0 != kind implies slots_map(fs)[k] == slots_map(
        os,
    )[k] by {
        let t = choose|t: int| 0 <= t < os.len() && #[trigger] slot_key(os[t]) == k;
        lemma_slots_map_at(os, t);
        assert(fs[t] == os[t]);
        lemma_slots_map_at(fs, t);
    }
}

impl<C> View for World<C> {
    type V = WorldView<C>;

    closed spec fn view(&self) -> WorldView<C> {
        WorldView {
            next_entity_id: self.next_entity_id,
            entities: self.entities@,
            components: slots_map(self.slots@),
        }
    }
}

impl<C> World<C> {
    /// The world's internal consistency: entity ids are distinct and below
    /// the next id, and no two stored components share kind and entity.
    pub closed spec fn wf(&self) -> bool {
        &&& self@.valid()
        &&& keys_distinct(self.slots@)
    }

    /// A consistent world has a valid view.
    pub proof fn lemma_wf_valid(&self)
        requires
            self.wf(),
        ensures
            self@.valid(),
    {
    }
}

impl<C: Component> World<C> {
    /// Create a new empty world.
    pub fn new() -> (w: Self)
        ensures
            w.wf(),
            w@ == WorldView::<C>::empty(),
    {
        let w = World { next_entity_id: 0, entities: Vec::new(), slots: Vec::new() };
        assert(w@.components =~= Map::<(ComponentKind, EntityId), C>::empty());
        proof {
            reveal(ids_increasing);
        }
        w
    }

    /// Create a new entity and return its ID.
    pub fn create_entity(&mut self) -> (id: EntityId)
        requires
            old(self).wf(),
            old(self)@.next_entity_id < u32::MAX,
        ensures
            final(self).wf(),
            id == old(self)@.next_entity_id,
            !old(self)@.entities.contains(id),
            final(self)@ == old(self)@.spawned(),
    {
        let id = self.next_entity_id;
        self.next_entity_id = self.next_entity_id + 1;
        self.entities.push(id);
        proof {
            lemma_spawned_valid(old(self)@);
            assert(self@.entities =~= old(self)@.spawned().entities);
        }
        id
    }

    /// The index of the slot stored under `(kind, entity)`, if any.
    fn find_slot(&self, entity: EntityId, kind: ComponentKind) -> (r: Option<usize>)
        requires
            self.wf(),
        ensures
            match r {
                Some(i) => i < self.slots@.len() && slot_key(self.slots@[i as int]) == (kind, entity),
                None => !has_key(self.slots@, (kind, entity)),
            },
    {
        let mut i: usize = 0;
        while i < self.slots.len()
            invariant
                i <= self.slots@.len(),
                forall|j: int| 0 <= j < i ==> slot_key(#[trigger] self.slots@[j]) != (kind, entity),
            decreases self.slots@.len() - i,
        {
            if self.slots[i].kind == kind && self.slots[i].entity == entity {
                return Some(i);
            }
            i = i + 1;
        }
        None
    }

    /// Create an entity with a builder pattern.
    pub fn spawn(&mut self) -> (b: EntityBuilder<'_, C>)
        requires
            old(self).wf(),
            old(self)@.next_entity_id < u32::MAX,
        ensures
            b.entity == old(self)@.next_entity_id,
            b.world_wf(),
            b.world_view() == old(self)@.spawned(),
            *final(self) == *final(b.world),
    {
        let id = self.create_entity();
        EntityBuilder { world: self, entity: id }
    }

    /// Add a component to an entity, replacing the one of the same kind that
    /// it held.
    pub fn add_component(&mut self, entity: EntityId, component: C)
        requires
            old(self).wf(),
        ensures
            final(self).wf(),
            final(self)@ == old(self)@.inserted(entity, component),
    {
        let kind = component.kind();
        let ghost s = Slot { kind, entity, value: component };
        match self.find_slot(entity, kind) {
            Some(i) => {
                proof {
                    lemma_slots_map_update(self.slots@, i as int, s);
                }
                self.slots.set(i, Slot { kind, entity, value: component });
            },
            None => {
                proof {
                    lemma_slots_map_push(self.slots@, s);
                }
                self.slots.push(Slot { kind, entity, value: component });
            },
        }
    }

    /// Get the component of the given kind of an entity.
    pub fn get_component(&self, entity: EntityId, kind: ComponentKind) -> (r: Option<&C>)
        requires
            self.wf(),
        ensures
            r == (if self@.components.contains_key((kind, entity)) {
                Some(&self@.components[(kind, entity)])
            } else {
                None
            }),
    {
        match self.find_slot(entity, kind) {
            Some(i) => {
                proof {
                    lemma_slots_map_at(self.slots@, i as int);
                }
                Some(&self.slots[i].value)
            },
            None => None,
        }
    }

    /// Get the component of the given kind of an entity, for modification.
    pub fn get_component_mut(&mut self, entity: EntityId, kind: ComponentKind) -> (r: Option<
        &mut C,
    >)
        requires
            old(self).wf(),
        ensures
            final(self).wf(),
            final(self)@.next_entity_id == old(self)@.next_entity_id,
            final(self)@.entities == old(self)@.entities,
            match r {
                Some(c) => {
                    &&& old(self)@.components.contains_key((kind, entity))
                    &&& *c == old(self)@.components[(kind, entity)]
                    &&& final(self)@.components == old(self)@.components.insert(
                        (kind, entity),
                        *final(c),
                    )
                },
                None => {
                    &&& !old(self)@.components.contains_key((kind, entity))
                    &&& final(self)@.components == old(self)@.components
                },
            },
    {
        match self.find_slot(entity, kind) {
            Some(i) => {
                proof {
                    lemma_slots_map_at(self.slots@, i as int);
                }
                let slot = &mut self.slots[i];
                let c = &mut slot.value;
                proof {
                    let s = Slot { kind, entity, value: *final(c) };
                    lemma_slots_map_update(old(self).slots@, i as int, s);
                }
                Some(c)
            },
            None => None,
        }
    }

    /// Check if an entity has a component of the given kind.
    pub fn has_component(&self, entity: EntityId, kind: ComponentKind) -> (r: bool)
        requires
            self.wf(),
        ensures
            r == self@.components.contains_key((kind, entity)),
    {
        self.get_component(entity, kind).is_some()
    }

    /// Remove the component of the given kind from an entity, returning it.
    pub fn remove_component(&mut self, entity: EntityId, kind: ComponentKind) -> (r: Option<C>)
        requires
            old(self).wf(),
        ensures
            final(self).wf(),
            final(self)@ == old(self)@.removed(entity, kind),
            r == old(self)@.component(entity, kind),
    {
        match self.find_slot(entity, kind) {
            Some(i) => {
                proof {
                    lemma_slots_map_at(self.slots@, i as int);
                    lemma_slots_map_remove(self.slots@, i as int);
                }
                let s = self.slots.remove(i);
                Some(s.value)
            },
            None => {
                assert(self@.components.remove((kind, entity)) =~= self@.components);
                None
            },
        }
    }

    /// Query for the entities that hold a component of the given kind, each
    /// with that component. Every such entity appears exactly once.
    pub fn query(&self, kind: ComponentKind) -> (r: Vec<(EntityId, &C)>)
        requires
            self.wf(),
        ensures
            self@.holders(kind).finite(),
            r@.len() == self@.holders(kind).len(),
            forall|j: int|
                0 <= j < r@.len() ==> {
                    &&& self@.components.contains_key((kind, (#[trigger] r@[j]).0))
                    &&& *r@[j].1 == self@.components[(kind, r@[j].0)]
                },
            forall|e: EntityId|
                #[trigger] self@.components.contains_key((kind, e)) ==> exists|j: int|
                    0 <= j < r@.len() && (#[trigger] r@[j]).0 == e,
            forall|a: int, b: int|
                0 <= a < r@.len() && 0 <= b < r@.len() && a != b ==> (#[trigger] r@[a]).0 != (
                #[trigger] r@[b]).0,
    {
        let mut r: Vec<(EntityId, &C)> = Vec::new();
        let mut i: usize = 0;
        while i < self.slots.len()
            invariant
                self.wf(),
                i <= self.slots@.len(),
                forall|j: int|
                    0 <= j < r@.len() ==> {
                        &&& self@.components.contains_key((kind, (#[trigger] r@[j]).0))
                        &&& *r@[j].1 == self@.components[(kind, r@[j].0)]
                        &&& exists|t: int|
                            0 <= t < i && #[trigger] slot_key(self.slots@[t]) == (kind, r@[j].0)
                    },
                forall|t: int|
                    0 <= t < i && (#[trigger] self.slots@[t]).kind == kind ==> exists|j: int|
                        0 <= j < r@.len() && (#[trigger] r@[j]).0 == self.slots@[t].entity,
                forall|a: int, b: int|
                    0 <= a < r@.len() && 0 <= b < r@.len() && a != b ==> (#[trigger] r@[a]).0 != (
                    #[trigger] r@[b]).0,
            decreases self.slots@.len() - i,
        {
            let slot = &self.slots[i];
            if slot.kind == kind {
                proof {
                    lemma_slots_map_at(self.slots@, i as int);
                    assert forall|j: int| 0 <= j < r@.len() implies r@[j].0 != slot.entity by {
                        let t = choose|t: int|
                            0 <= t < i && #[trigger] slot_key(self.slots@[t]) == (kind, r@[j].0);
                        if r@[j].0 == slot.entity {
                            assert(slot_key(self.slots@[t]) == slot_key(self.slots@[i as int]));
                        }
                    }
                }
                let ghost old_r = r@;
                r.push((slot.entity, &slot.value));
                proof {
                    assert forall|j: int| 0 <= j < r@.len() implies {
                        &&& self@.components.contains_key((kind, (#[trigger] r@[j]).0))
                        &&& *r@[j].1 == self@.components[(kind, r@[j].0)]
                        &&& exists|t: int|
                            0 <= t < i + 1 && #[trigger] slot_key(self.slots@[t]) == (kind, r@[j].0)
                    } by {
                        if j < old_r.len() {
                            assert(r@[j] == old_r[j]);
                        } else {
                            assert(slot_key(self.slots@[i as int]) == (kind, r@[j].0));
                        }
                    }
                    assert forall|t: int|
                        0 <= t < i + 1 && (#[trigger] self.slots@[t]).kind == kind implies exists|
                        j: int,
                    | 0 <= j < r@.len() && (#[trigger] r@[j]).0 == self.slots@[t].entity by {
                        if t < i {
                            let j = choose|j: int|
                                0 <= j < old_r.len() && (#[trigger] old_r[j]).0
                                    == self.slots@[t].entity;
                            assert(r@[j] == old_r[j]);
                        } else {
                            assert(r@[old_r.len() as int].0 == self.slots@[t].entity);
                        }
                    }
                }
            }
            i = i + 1;
        }
        proof {
            assert forall|e: EntityId| #[trigger]
                self@.components.contains_key((kind, e)) implies exists|j: int|
                0 <= j < r@.len() && (#[trigger] r@[j]).0 == e by {
                let t = choose|t: int|
                    0 <= t < self.slots@.len() && #[trigger] slot_key(self.slots@[t]) == (kind, e);
                assert(self.slots@[t].kind == kind);
            }
            let ids = r@.map_values(|p: (EntityId, &C)| p.0);
            assert forall|e: EntityId| #[trigger] self@.holders(kind).contains(e) <==> ids.contains(
                e,
            ) by {
                if self@.holders(kind).contains(e) {
                    assert(self@.components.contains_key((kind, e)));
                    let j = choose|j: int| 0 <= j < r@.len() && (#[trigger] r@[j]).0 == e;
                    assert(ids[j] == e);
                }
                if ids.contains(e) {
                    let j = choose|j: int| 0 <= j < ids.len() && ids[j] == e;
                    assert(r@[j].0 == e);
                }
            }
            assert forall|a: int, b: int| 0 <= a < ids.len() && 0 <= b < ids.len() && a != b implies ids[a] != ids[b] by {
                assert(ids[a] == r@[a].0 && ids[b] == r@[b].0);
            }
            lemma_holders_count(ids, self@.holders(kind));
        }
        r
    }

    /// Query for the entities that hold a component of the given kind, each
    /// with that component for modification. Every such entity appears exactly
    /// once; once the references are released, the world holds what was
    /// written through them.
    pub fn query_mut(&mut self, kind: ComponentKind) -> (r: Vec<(EntityId, &mut C)>)
        requires
            old(self).wf(),
        ensures
            old(self)@.holders(kind).finite(),
            r@.len() == old(self)@.holders(kind).len(),
            final(self).wf(),
            final(self)@.next_entity_id == old(self)@.next_entity_id,
            final(self)@.entities == old(self)@.entities,
            forall|j: int|
                0 <= j < r@.len() ==> {
                    &&& old(self)@.components.contains_key((kind, (#[trigger] r@[j]).0))
                    &&& *r@[j].1 == old(self)@.components[(kind, r@[j].0)]
                },
            forall|e: EntityId|
                #[trigger] old(self)@.components.contains_key((kind, e)) ==> exists|j: int|
                    0 <= j < r@.len() && (#[trigger] r@[j]).0 == e,
            forall|a: int, b: int|
                0 <= a < r@.len() && 0 <= b < r@.len() && a != b ==> (#[trigger] r@[a]).0 != (
                #[trigger] r@[b]).0,
            final(self)@.components.dom() == old(self)@.components.dom(),
            forall|k: (ComponentKind, EntityId)|
                #[trigger] old(self)@.components.contains_key(k) && k.0 != kind
                    ==> final(self)@.components[k] == old(self)@.components[k],
            forall|j: int|
                0 <= j < r@.len() ==> final(self)@.components[(kind, (#[trigger] r@[j]).0)]
                    == *final(r@[j].1),
    {
        let ghost os = self.slots@;
        let ghost n = os.len();
        let ghost fs = final(self).slots@;
        let mut r: Vec<(EntityId, &mut C)> = Vec::new();
        // `pos[j]` is the slot that `r[j]` refers to.
        let ghost mut pos: Seq<int> = Seq::empty();
        let total: usize = self.slots.len();
        let mut rest: &mut [Slot<C>] = self.slots.as_mut_slice();
        proof {
            assert(final(rest)@ == fs);
        }
        let mut i: usize = 0;
        while rest.len() > 0
            invariant
                n == os.len(),
                n == total,
                os == old(self).slots@,
                keys_distinct(os),
                i <= n,
                r@.len() <= i,
                rest@ == os.subrange(i as int, n as int),
                pos.len() == r@.len(),
                forall|j: int| 0 <= j < pos.len() ==> 0 <= #[trigger] pos[j] < i,
                forall|a: int, b: int| 0 <= a < b < pos.len() ==> pos[a] < pos[b],
                forall|j: int|
                    0 <= j < r@.len() ==> {
                        &&& os[#[trigger] pos[j]].kind == kind
                        &&& r@[j].0 == os[pos[j]].entity
                        &&& *r@[j].1 == os[pos[j]].value
                    },
                forall|t: int|
                    0 <= t < i && (#[trigger] os[t]).kind == kind ==> exists|j: int|
                        0 <= j < pos.len() && #[trigger] pos[j] == t,
                fs.len() == i + final(rest)@.len(),
                forall|t: int|
                    i <= t < fs.len() ==> #[trigger] fs[t] == final(rest)@[t - i],
                forall|t: int|
                    0 <= t < i && os[t].kind != kind ==> #[trigger] fs[t] == os[t],
                forall|j: int|
                    0 <= j < r@.len() ==> #[trigger] fs[pos[j]] == (Slot {
                        kind,
                        entity: os[pos[j]].entity,
                        value: *final(r@[j].1),
                    }),
            decreases n - i,
        {
            let ghost rest0 = rest@;
            let ghost r0 = r@;
            let ghost pos0 = pos;
            assert(rest0.len() == n - i);
            let (head, tail) = rest.split_at_mut(1);
            let slot = head.first_mut().unwrap();
            proof {
                assert(rest0[0] == os[i as int]);
                assert(*slot == os[i as int]);
            }
            if slot.kind == kind {
                let e = slot.entity;
                let v = &mut slot.value;
                r.push((e, v));
                proof {
                    pos = pos.push(i as int);
                    assert(pos[pos.len() - 1] == i);
                    assert forall|j: int| 0 <= j < r@.len() implies {
                        &&& os[#[trigger] pos[j]].kind == kind
                        &&& r@[j].0 == os[pos[j]].entity
                        &&& *r@[j].1 == os[pos[j]].value
                    } by {
                        if j < r0.len() {
                            assert(r@[j] == r0[j] && pos[j] == pos0[j]);
                        }
                    }
                }
            }
            proof {
                assert forall|t: int|
                    0 <= t < i + 1 && (#[trigger] os[t]).kind == kind implies exists|j: int|
                    0 <= j < pos.len() && #[trigger] pos[j] == t by {
                    if t < i {
                        let j = choose|j: int| 0 <= j < pos0.len() && #[trigger] pos0[j] == t;
                        assert(pos[j] == pos0[j]);
                    } else {
                        assert(pos[pos.len() - 1] == t);
                    }
                }
            }
            rest = tail;
            i = i + 1;
        }
        let _ = rest.first_mut();
        proof {
            assert(i == n);
            lemma_query_mut_result(os, fs, kind);
            assert forall|j: int| 0 <= j < r@.len() implies {
                &&& old(self)@.components.contains_key((kind, (#[trigger] r@[j]).0))
                &&& *r@[j].1 == old(self)@.components[(kind, r@[j].0)]
            } by {
                lemma_slots_map_at(os, pos[j]);
            }
            assert forall|a: int, b: int|
                0 <= a < r@.len() && 0 <= b < r@.len() && a != b implies (#[trigger] r@[a]).0 != (
                #[trigger] r@[b]).0 by {
                assert(pos[a] != pos[b]);
                assert(slot_key(os[pos[a]]) != slot_key(os[pos[b]]));
            }
            assert forall|e: EntityId| #[trigger]
                old(self)@.components.contains_key((kind, e)) implies exists|j: int|
                0 <= j < r@.len() && (#[trigger] r@[j]).0 == e by {
                let t = choose|t: int| 0 <= t < os.len() && #[trigger] slot_key(os[t]) == (kind, e);
                assert(os[t].kind == kind);
                let j = choose|j: int| 0 <= j < pos.len() && #[trigger] pos[j] == t;
                assert(r@[j].0 == e);
            }
            let ids = r@.map_values(|p: (EntityId, &mut C)| p.0);
            assert forall|e: EntityId| #[trigger] old(self)@.holders(kind).contains(e)
                <==> ids.contains(e) by {
                if old(self)@.holders(kind).contains(e) {
                    assert(old(self)@.components.contains_key((kind, e)));
                    let j = choose|j: int| 0 <= j < r@.len() && (#[trigger] r@[j]).0 == e;
                    assert(ids[j] == e);
                }
                if ids.contains(e) {
                    let j = choose|j: int| 0 <= j < ids.len() && ids[j] == e;
                    assert(r@[j].0 == e);
                    lemma_slots_map_at(os, pos[j]);
                }
            }
            assert forall|a: int, b: int| 0 <= a < ids.len() && 0 <= b < ids.len() && a != b implies ids[a] != ids[b] by {
                assert(ids[a] == r@[a].0 && ids[b] == r@[b].0);
            }
            lemma_holders_count(ids, old(self)@.holders(kind));
            assert forall|j: int| 0 <= j < r@.len() implies slots_map(fs)[(
                kind,
                (#[trigger] r@[j]).0,
            )] == *final(r@[j].1) by {
                lemma_slots_map_at(fs, pos[j]);
            }
        }
        r
    }

    /// Remove an entity and all its components.
    pub fn despawn(&mut self, entity: EntityId)
        requires
            old(self).wf(),
        ensures
            final(self).wf(),
            final(self)@ == old(self)@.despawned(entity),
    {
        // The entity list holds each id once.
        let mut i: usize = 0;
        while i < self.entities.len()
            invariant_except_break
                i <= self.entities@.len(),
                forall|t: int| 0 <= t < i ==> self.entities@[t] != entity,
            ensures
                i <= self.entities@.len(),
                forall|t: int| 0 <= t < i ==> self.entities@[t] != entity,
                i < self.entities@.len() ==> self.entities@[i as int] == entity,
            decreases self.entities@.len() - i,
        {
            if self.entities[i] == entity {
                break;
            }
            i = i + 1;
        }
        proof {
            lemma_despawned_entities(old(self)@, entity);
        }
        if i < self.entities.len() {
            proof {
                reveal(ids_increasing);
                let e = self.entities@;
                let j = e.index_of(entity);
                assert(e[i as int] == entity);
                assert(e.contains(entity));
                assert(e[j] == entity);
                if j < i {
                    assert(e[j] < e[i as int]);
                } else if i < j {
                    assert(e[i as int] < e[j]);
                }
            }
            self.entities.remove(i);
        } else {
            assert(!self.entities@.contains(entity));
        }
        assert(self.entities@ == old(self)@.despawned(entity).entities);
        // Drop every component stored for the entity.
        let ghost orig = self@.components;
        let ghost ents = self.entities@;
        let mut k: usize = 0;
        while k < self.slots.len()
            invariant
                k <= self.slots@.len(),
                (WorldView { next_entity_id: self.next_entity_id, entities: ents, components: orig }).valid(),
                self.entities@ == ents,
                self.next_entity_id == old(self).next_entity_id,
                keys_distinct(self.slots@),
                forall|t: int| 0 <= t < k ==> (#[trigger] self.slots@[t]).entity != entity,
                forall|key: (ComponentKind, EntityId)| #[trigger]
                    slots_map(self.slots@).contains_key(key) ==> orig.contains_key(key)
                        && slots_map(self.slots@)[key] == orig[key],
                forall|key: (ComponentKind, EntityId)|
                    #[trigger] orig.contains_key(key) && key.1 != entity ==> slots_map(
                        self.slots@,
                    ).contains_key(key),
            decreases self.slots@.len() - k,
        {
            if self.slots[k].entity == entity {
                let ghost before = self.slots@;
                proof {
                    lemma_slots_map_remove(before, k as int);
                }
                self.slots.remove(k);
                proof {
                    assert forall|t: int| 0 <= t < k implies (#[trigger] self.slots@[t]).entity
                        != entity by {
                        assert(self.slots@[t] == before[t]);
                    }
                }
            } else {
                k = k + 1;
            }
        }
        proof {
            let m = slots_map(self.slots@);
            let target = Map::new(
                |key: (ComponentKind, EntityId)| orig.contains_key(key) && key.1 != entity,
                |key: (ComponentKind, EntityId)| orig[key],
            );
            assert forall|key: (ComponentKind, EntityId)| #[trigger]
                m.contains_key(key) implies key.1 != entity by {
                let t = choose|t: int|
                    0 <= t < self.slots@.len() && #[trigger] slot_key(self.slots@[t]) == key;
                assert(self.slots@[t].entity != entity);
            }
            assert(m =~= target);
        }
    }

    /// The id that the next created entity receives.
    pub fn next_entity_id(&self) -> (id: EntityId)
        ensures
            id == self@.next_entity_id,
    {
        self.next_entity_id
    }

    /// Get all entities.
    pub fn entities(&self) -> (r: &[EntityId])
        ensures
            r@ == self@.entities,
    {
        self.entities.as_slice()
    }
}

impl<C: Component> Default for World<C> {
    /// An empty world.
    fn default() -> (w: Self)
        ensures
            w.wf(),
            w@ == WorldView::<C>::empty(),
    {
        Self::new()
    }
}

/// A component reads back as it was last written for its entity and kind.
pub proof fn law_component_after_insert<C: Component>(
    w: WorldView<C>,
    entity: EntityId,
    component: C,
)
    ensures
        w.inserted(entity, component).component(entity, component.kind_of()) == Some(component),
{
}

/// Writing a component leaves the entities and every other entity's or
/// kind's component as they were.
pub proof fn law_insert_leaves_others<C: Component>(
    w: WorldView<C>,
    entity: EntityId,
    component: C,
    other: EntityId,
    kind: ComponentKind,
)
    requires
        (kind, other) != (component.kind_of(), entity),
    ensures
        w.inserted(entity, component).component(other, kind) == w.component(other, kind),
        w.inserted(entity, component).entities == w.entities,
        w.inserted(entity, component).next_entity_id == w.next_entity_id,
{
}

/// After removing an entity's component of some kind, it holds none of that
/// kind; every other entity's or kind's component stays as it was.
pub proof fn law_component_after_remove<C>(
    w: WorldView<C>,
    entity: EntityId,
    kind: ComponentKind,
    other: EntityId,
    other_kind: ComponentKind,
)
    requires
        (other_kind, other) != (kind, entity),
    ensures
        w.removed(entity, kind).component(entity, kind) is None,
        w.removed(entity, kind).component(other, other_kind) == w.component(other, other_kind),
{
}

/// Removing a component right after inserting it gives the state that the
/// removal alone gives: the insertion leaves no trace.
pub proof fn law_remove_undoes_insert<C: Component>(
    w: WorldView<C>,
    entity: EntityId,
    component: C,
)
    ensures
        w.inserted(entity, component).removed(entity, component.kind_of()) == w.removed(
            entity,
            component.kind_of(),
        ),
{
    assert(w.inserted(entity, component).removed(entity, component.kind_of()).components
        =~= w.removed(entity, component.kind_of()).components);
}

/// Creating an entity keeps the entity list increasing: the new id is above
/// every live one.
proof fn lemma_spawned_valid<C>(w: WorldView<C>)
    requires
        w.valid(),
        w.next_entity_id < u32::MAX,
    ensures
        w.spawned().valid(),
        !w.entities.contains(w.next_entity_id),
{
    reveal(ids_increasing);
    let s = w.spawned();
    assert forall|i: int, j: int| 0 <= i < j < s.entities.len() implies #[trigger] s.entities[i]
        < #[trigger] s.entities[j] by {
        assert(s.entities[i] == w.entities[i]);
        if j < w.entities.len() {
            assert(s.entities[j] == w.entities[j]);
        }
    }
    assert forall|i: int| 0 <= i < s.entities.len() implies #[trigger] s.entities[i]
        < s.next_entity_id by {
        if i < w.entities.len() {
            assert(s.entities[i] == w.entities[i]);
        }
    }
    if w.entities.contains(w.next_entity_id) {
        let i = choose|i: int| 0 <= i < w.entities.len() && w.entities[i] == w.next_entity_id;
        assert(w.entities[i] < w.next_entity_id);
    }
}

/// Despawning keeps the entity list increasing and takes out exactly the
/// despawned id.
proof fn lemma_despawned_entities<C>(w: WorldView<C>, entity: EntityId)
    requires
        w.valid(),
    ensures
        w.despawned(entity).valid(),
        forall|x: EntityId|
            #[trigger] w.despawned(entity).entities.contains(x) == (w.entities.contains(x) && x
                != entity),
{
    reveal(ids_increasing);
    let d = w.despawned(entity).entities;
    if w.entities.contains(entity) {
        let i = w.entities.index_of(entity);
        assert(w.entities[i] == entity);
        assert forall|x: EntityId| #[trigger] d.contains(x) == (w.entities.contains(x) && x
            != entity) by {
            if d.contains(x) {
                let j = choose|j: int| 0 <= j < d.len() && d[j] == x;
                let j0 = if j < i { j } else { j + 1 };
                assert(w.entities[j0] == x);
                if j0 < i {
                    assert(w.entities[j0] < w.entities[i]);
                } else {
                    assert(w.entities[i] < w.entities[j0]);
                }
            }
            if w.entities.contains(x) && x != entity {
                let j = choose|j: int| 0 <= j < w.entities.len() && w.entities[j] == x;
                let j1 = if j < i { j } else { j - 1 };
                assert(d[j1] == x);
            }
        }
        assert forall|a: int, b: int| 0 <= a < b < d.len() implies #[trigger] d[a]
            < #[trigger] d[b] by {
            let a0 = if a < i { a } else { a + 1 };
            let b0 = if b < i { b } else { b + 1 };
            assert(d[a] == w.entities[a0] && d[b] == w.entities[b0]);
        }
        assert forall|t: int| 0 <= t < d.len() implies #[trigger] d[t] < w.next_entity_id by {
            let t0 = if t < i { t } else { t + 1 };
            assert(d[t] == w.entities[t0]);
        }
    }
}

/// A new entity gets an id above every live one, and the world stays valid.
pub proof fn law_spawn_fresh<C>(w: WorldView<C>)
    requires
        w.valid(),
        w.next_entity_id < u32::MAX,
    ensures
        !w.entities.contains(w.next_entity_id),
        forall|i: int| 0 <= i < w.entities.len() ==> #[trigger] w.entities[i] < w.next_entity_id,
        w.spawned().entities.last() == w.next_entity_id,
        w.spawned().valid(),
        w.spawned().components == w.components,
{
    reveal(ids_increasing);
    lemma_spawned_valid(w);
}

/// A despawned entity is no longer live and holds no components; every other
/// entity stays live or not as before and keeps its components.
pub proof fn law_despawn_removes_entity<C>(
    w: WorldView<C>,
    entity: EntityId,
    other: EntityId,
    kind: ComponentKind,
)
    requires
        w.valid(),
        other != entity,
    ensures
        !w.despawned(entity).entities.contains(entity),
        w.despawned(entity).component(entity, kind) is None,
        w.despawned(entity).entities.contains(other) == w.entities.contains(other),
        w.despawned(entity).component(other, kind) == w.component(other, kind),
        w.despawned(entity).valid(),
{
    lemma_despawned_entities(w, entity);
}

/// An operation on a world, as the public functions perform them.
pub enum WorldOp<C> {
    /// `create_entity` or `spawn`.
    Spawn,
    /// `despawn`.
    Despawn(EntityId),
    /// `add_component` or `EntityBuilder::with`.
    Insert(EntityId, C),
    /// `remove_component`.
    Remove(EntityId, ComponentKind),
}

impl<C> WorldView<C> {
    /// The state of a new world.
    pub open spec fn empty() -> WorldView<C> {
        WorldView { next_entity_id: 0, entities: Seq::empty(), components: Map::empty() }
    }
}

impl<C: Component> WorldView<C> {
    /// The state after an operation.
    pub open spec fn applied(self, op: WorldOp<C>) -> WorldView<C> {
        match op {
            WorldOp::Spawn => self.spawned(),
            WorldOp::Despawn(e) => self.despawned(e),
            WorldOp::Insert(e, c) => self.inserted(e, c),
            WorldOp::Remove(e, k) => self.removed(e, k),
        }
    }
}

/// A list of distinct entities that lists the same entities as a set is as
/// long as the set, which is finite.
proof fn lemma_holders_count(ids: Seq<EntityId>, holders: Set<EntityId>)
    requires
        forall|a: int, b: int| 0 <= a < ids.len() && 0 <= b < ids.len() && a != b ==> ids[a] != ids[b],
        forall|e: EntityId| #[trigger] holders.contains(e) <==> ids.contains(e),
    ensures
        holders.finite(),
        holders.len() == ids.len(),
{
    assert(holders =~= ids.to_set());
    ids.unique_seq_to_set();
    vstd::seq_lib::seq_to_set_is_finite(ids);
}

/// Giving an entity a component adds the entity to the holders of the
/// component's kind, once at most: the number of holders, which is what
/// `query` lists, grows by one where the entity held none of that kind and
/// stays where it did (the component is replaced). Other kinds keep their
/// holders.
pub proof fn law_holders_after_insert<C: Component>(
    w: WorldView<C>,
    entity: EntityId,
    component: C,
    other_kind: ComponentKind,
)
    requires
        w.holders(component.kind_of()).finite(),
        other_kind != component.kind_of(),
    ensures
        w.inserted(entity, component).holders(component.kind_of()) == w.holders(
            component.kind_of(),
        ).insert(entity),
        w.inserted(entity, component).holders(component.kind_of()).len() == w.holders(
            component.kind_of(),
        ).len() + if w.component(entity, component.kind_of()) is Some {
            0int
        } else {
            1int
        },
        w.inserted(entity, component).holders(other_kind) == w.holders(other_kind),
{
    let k = component.kind_of();
    assert(w.inserted(entity, component).holders(k) =~= w.holders(k).insert(entity));
    assert(w.inserted(entity, component).holders(other_kind) =~= w.holders(other_kind));
    vstd::set::axiom_set_insert_len(w.holders(k), entity);
}

/// The state of a new world after a sequence of operations.
pub open spec fn replay<C: Component>(ops: Seq<WorldOp<C>>) -> WorldView<C>
    decreases ops.len(),
{
    if ops.len() == 0 {
        WorldView::empty()
    } else {
        replay(ops.drop_last()).applied(ops.last())
    }
}

/// The number of entities that a sequence of operations creates.
pub open spec fn spawn_count<C>(ops: Seq<WorldOp<C>>) -> nat
    decreases ops.len(),
{
    if ops.len() == 0 {
        0
    } else {
        spawn_count(ops.drop_last()) + if ops.last() is Spawn {
            1nat
        } else {
            0nat
        }
    }
}

/// Whether, after the entity `x` was created, some operation of `ops`
/// despawned it.
pub open spec fn despawned_since_created<C>(ops: Seq<WorldOp<C>>, x: EntityId) -> bool {
    exists|k: int|
        0 <= k < ops.len() && ops[k] == WorldOp::<C>::Despawn(x) && x < #[trigger] spawn_count(
            ops.take(k),
        )
}

/// A prefix creates no more entities than the whole.
proof fn lemma_spawn_count_prefix<C>(ops: Seq<WorldOp<C>>, k: int)
    requires
        0 <= k <= ops.len(),
    ensures
        spawn_count(ops.take(k)) <= spawn_count(ops),
    decreases ops.len() - k,
{
    if k < ops.len() {
        lemma_spawn_count_prefix(ops, k + 1);
        assert(ops.take(k + 1).drop_last() =~= ops.take(k));
    } else {
        assert(ops.take(k) =~= ops);
    }
}

/// The live entities of a world are, in increasing order, exactly the
/// created ones that were not despawned since their creation; the next id is
/// the number of entities created.
pub proof fn law_live_entities<C: Component>(ops: Seq<WorldOp<C>>)
    requires
        spawn_count(ops) <= u32::MAX,
    ensures
        replay(ops).valid(),
        replay(ops).next_entity_id == spawn_count(ops),
        forall|i: int, j: int|
            0 <= i < j < replay(ops).entities.len() ==> #[trigger] replay(ops).entities[i]
                < #[trigger] replay(ops).entities[j],
        forall|x: EntityId|
            #[trigger] replay(ops).entities.contains(x) == (x < spawn_count(ops)
                && !despawned_since_created(ops, x)),
    decreases ops.len(),
{
    if ops.len() == 0 {
        reveal(ids_increasing);
        assert(replay(ops) == WorldView::<C>::empty());
    } else {
        let p = ops.drop_last();
        let op = ops.last();
        let n = spawn_count(p);
        assert(ops.take(ops.len() - 1) =~= p);
        lemma_spawn_count_prefix(ops, ops.len() - 1);
        law_live_entities(p);
        let prev = replay(p);
        assert(replay(ops) == prev.applied(op));
        // Creation indices of `ops` before its last are those of `p`.
        assert forall|k: int| 0 <= k < p.len() implies #[trigger] ops.take(k) == p.take(k) by {
            assert(ops.take(k) =~= p.take(k));
        }
        assert forall|x: EntityId| #[trigger]
            despawned_since_created(ops, x) == (despawned_since_created(p, x) || (op
                == WorldOp::<C>::Despawn(x) && x < n)) by {
            if despawned_since_created(ops, x) {
                let k = choose|k: int|
                    0 <= k < ops.len() && ops[k] == WorldOp::<C>::Despawn(x) && x
                        < #[trigger] spawn_count(ops.take(k));
                if k < p.len() {
                    assert(ops.take(k) == p.take(k));
                    assert(p[k] == ops[k]);
                }
            }
            if despawned_since_created(p, x) {
                let k = choose|k: int|
                    0 <= k < p.len() && p[k] == WorldOp::<C>::Despawn(x) && x
                        < #[trigger] spawn_count(p.take(k));
                assert(ops.take(k) == p.take(k));
                assert(ops[k] == p[k]);
            }
            if op == WorldOp::<C>::Despawn(x) && x < n {
                let k = ops.len() - 1;
                assert(ops[k] == op);
                assert(spawn_count(ops.take(k)) == n);
            }
        }
        match op {
            WorldOp::Spawn => {
                lemma_spawned_valid(prev);
                assert(spawn_count(ops) == n + 1);
                assert(replay(ops).entities == prev.entities.push(prev.next_entity_id));
                assert(prev.next_entity_id == n);
                assert forall|x: EntityId| #[trigger]
                    replay(ops).entities.contains(x) == (x < spawn_count(ops)
                        && !despawned_since_created(ops, x)) by {
                    assert(despawned_since_created(ops, x) == despawned_since_created(p, x));
                    assert(prev.entities.contains(x) == (x < n && !despawned_since_created(p, x)));
                    if x == n {
                        assert(replay(ops).entities[prev.entities.len() as int] == x);
                        if despawned_since_created(p, x) {
                            let k = choose|k: int|
                                0 <= k < p.len() && p[k] == WorldOp::<C>::Despawn(x) && x
                                    < #[trigger] spawn_count(p.take(k));
                            lemma_spawn_count_prefix(p, k);
                        }
                    } else if replay(ops).entities.contains(x) {
                        let j = choose|j: int|
                            0 <= j < replay(ops).entities.len() && replay(ops).entities[j] == x;
                        assert(j < prev.entities.len());
                        assert(prev.entities[j] == x);
                    } else if prev.entities.contains(x) {
                        let j = choose|j: int|
                            0 <= j < prev.entities.len() && prev.entities[j] == x;
                        assert(replay(ops).entities[j] == x);
                    }
                }
            },
            WorldOp::Despawn(e) => {
                lemma_despawned_entities(prev, e);
            },
            WorldOp::Insert(e, c) => {},
            WorldOp::Remove(e, k) => {},
        }
        reveal(ids_increasing);
    }
}

/// Ids are never reused: an entity created by a later operation gets a
/// larger id than one created earlier, despawned since or not, and every id
/// issued stays below the next one.
pub proof fn law_ids_never_reused<C: Component>(ops: Seq<WorldOp<C>>, j: int, k: int)
    requires
        spawn_count(ops) <= u32::MAX,
        0 <= j < k < ops.len(),
        ops[j] is Spawn,
        ops[k] is Spawn,
    ensures
        replay(ops.take(j)).next_entity_id < replay(ops.take(k)).next_entity_id,
        replay(ops.take(k)).next_entity_id < replay(ops).next_entity_id,
{
    lemma_spawn_count_prefix(ops, j);
    lemma_spawn_count_prefix(ops, k);
    law_live_entities(ops);
    law_live_entities(ops.take(j));
    law_live_entities(ops.take(k));
    assert(ops.take(j + 1).drop_last() =~= ops.take(j));
    assert(ops.take(k + 1).drop_last() =~= ops.take(k));
    assert(ops.take(k).take(j + 1) =~= ops.take(j + 1));
    lemma_spawn_count_prefix(ops.take(k), j + 1);
    lemma_spawn_count_prefix(ops, k + 1);
}

/// Builder pattern for creating entities with components.
///
/// Its fields are public so that contracts can speak of the world it borrows
/// and of that world's state once the builder is gone.
pub struct EntityBuilder<'a, C> {
    /// The world the entity lives in.
    pub world: &'a mut World<C>,
    /// The entity being built.
    pub entity: EntityId,
}

impl<'a, C> EntityBuilder<'a, C> {
    /// The current state of the world the entity lives in.
    pub open spec fn world_view(&self) -> WorldView<C> {
        (*self.world)@
    }

    /// Whether the world the entity lives in is consistent.
    pub open spec fn world_wf(&self) -> bool {
        self.world.wf()
    }

    /// The world the entity lives in, as it is now.
    pub open spec fn current_world(&self) -> World<C> {
        *self.world
    }
}

impl<'a, C: Component> EntityBuilder<'a, C> {
    /// Add a component to this entity.
    pub fn with(self, component: C) -> (r: Self)
        requires
            self.world_wf(),
        ensures
            r.entity == self.entity,
            r.world_wf(),
            r.world_view() == self.world_view().inserted(self.entity, component),
            *final(r.world) == *final(self.world),
    {
        let EntityBuilder { world, entity } = self;
        world.add_component(entity, component);
        EntityBuilder { world, entity }
    }

    /// Get the entity ID.
    pub fn id(&self) -> (r: EntityId)
        ensures
            r == self.entity,
    {
        self.entity
    }

    /// Finish building and return the entity ID; the world is left as it is.
    pub fn build(self) -> (r: EntityId)
        ensures
            r == self.entity,
            *final(self.world) == self.current_world(),
    {
        self.entity
    }
}

} // verus!
