//! Entities and the per-type component lists the systems work on.
use vstd::prelude::*;

verus! {

/// A generational handle to an entity.
#[derive(Clone, Copy, Debug, PartialEq, Eq, Structural, Hash)]
pub struct Entity {
    pub index: u32,
    pub generation: u32,
}

impl Entity {
    pub fn new(index: u32, generation: u32) -> (e: Entity)
        ensures
            e.index == index,
            e.generation == generation,
    {
        Entity { index, generation }
    }

    pub fn index(&self) -> (i: u32)
        ensures
            i == self.index,
    {
        self.index
    }
}

/// One component of type `T`, attached to an entity.
pub struct Component<T> {
    pub entity_id: Entity,
    pub is_active: bool,
    pub inner: T,
}

impl<T> Component<T> {
    /// A fresh, active component for `entity`.
    pub fn new(entity: &Entity, inner: T) -> (c: Component<T>)
        ensures
            c.entity_id == *entity,
            c.is_active,
            c.inner == inner,
    {
        Component { entity_id: *entity, is_active: true, inner }
    }

    pub fn entity_id(&self) -> (e: Entity)
        ensures
            e == self.entity_id,
    {
        self.entity_id
    }

    pub fn inner(&self) -> (r: &T)
        ensures
            *r == self.inner,
    {
        &self.inner
    }
}

/// No entity holds two components of the list.
pub open spec fn unique_entities<T>(s: Seq<Component<T>>) -> bool {
    forall|i: int, j: int|
        0 <= i < s.len() && 0 <= j < s.len() && i != j ==> #[trigger] s[i].entity_id
            != #[trigger] s[j].entity_id
}

/// Whether `e` holds a component of `s`.
pub open spec fn has_entity<T>(s: Seq<Component<T>>, e: Entity) -> bool {
    exists|i: int| 0 <= i < s.len() && #[trigger] s[i].entity_id == e
}

/// The position of the first component of `e` in `s`.
pub open spec fn position_of<T>(s: Seq<Component<T>>, e: Entity) -> int {
    choose|i: int|
        0 <= i < s.len() && #[trigger] s[i].entity_id == e && forall|j: int|
            0 <= j < i ==> s[j].entity_id != e
}

/// The data of the component of `e`, if it has one.
pub open spec fn lookup<T>(s: Seq<Component<T>>, e: Entity) -> Option<T> {
    if has_entity(s, e) {
        Some(s[position_of(s, e)].inner)
    } else {
        None
    }
}

/// `s` with the data of the component of `e` replaced by `inner`; `s`
/// itself when `e` has no component.
pub open spec fn replace_inner<T>(s: Seq<Component<T>>, e: Entity, inner: T) -> Seq<Component<T>> {
    if has_entity(s, e) {
        s.update(
            position_of(s, e),
            Component { entity_id: e, is_active: s[position_of(s, e)].is_active, inner },
        )
    } else {
        s
    }
}

/// The first component of an entity that holds one exists.
pub proof fn lemma_position_of<T>(s: Seq<Component<T>>, e: Entity)
    requires
        has_entity(s, e),
    ensures
        0 <= position_of(s, e) < s.len(),
        s[position_of(s, e)].entity_id == e,
        forall|j: int| 0 <= j < position_of(s, e) ==> s[j].entity_id != e,
    decreases s.len(),
{
    let t = s.drop_last();
    if has_entity(t, e) {
        lemma_position_of(t, e);
        let p = position_of(t, e);
        assert(s[p].entity_id == e);
        assert forall|j: int| 0 <= j < p implies s[j].entity_id != e by {
            assert(s[j] == t[j]);
        }
    } else {
        let k = s.len() - 1;
        assert forall|j: int| 0 <= j < k implies s[j].entity_id != e by {
            assert(s[j] == t[j]);
            if s[j].entity_id == e {
                assert(t[j].entity_id == e);
            }
        }
        let w = choose|w: int| 0 <= w < s.len() && #[trigger] s[w].entity_id == e;
        assert(w == k) by {
            if w < k {
                assert(t[w].entity_id == e);
            }
        }
    }
}

/// In a list without repeated entities, the component of `e` at `i` is the
/// one `position_of` names.
pub proof fn lemma_position_of_unique<T>(s: Seq<Component<T>>, e: Entity, i: int)
    requires
        unique_entities(s),
        0 <= i < s.len(),
        s[i].entity_id == e,
    ensures
        has_entity(s, e),
        position_of(s, e) == i,
        lookup(s, e) == Some(s[i].inner),
{
    assert(has_entity(s, e));
    lemma_position_of(s, e);
    let p = position_of(s, e);
    if p != i {
        assert(s[p].entity_id != s[i].entity_id);
    }
}

/// Replacing the data of one component keeps every entity, its position
/// and its flag, changes what `e` looks up to `inner`, and nothing else.
pub proof fn lemma_replace_inner_keeps_entities<T>(s: Seq<Component<T>>, e: Entity, inner: T)
    ensures
        replace_inner(s, e, inner).len() == s.len(),
        forall|i: int|
            0 <= i < s.len() ==> (#[trigger] replace_inner(s, e, inner)[i]).entity_id == s[i].entity_id
                && replace_inner(s, e, inner)[i].is_active == s[i].is_active,
        forall|x: Entity| #[trigger] has_entity(replace_inner(s, e, inner), x) == has_entity(s, x),
        unique_entities(s) ==> unique_entities(replace_inner(s, e, inner)),
{
    let r = replace_inner(s, e, inner);
    if has_entity(s, e) {
        lemma_position_of(s, e);
    }
    assert forall|i: int| 0 <= i < s.len() implies (#[trigger] r[i]).entity_id == s[i].entity_id
        && r[i].is_active == s[i].is_active by {}
    assert forall|x: Entity| #[trigger] has_entity(r, x) == has_entity(s, x) by {
        if has_entity(s, x) {
            let w = choose|w: int| 0 <= w < s.len() && #[trigger] s[w].entity_id == x;
            assert(r[w].entity_id == x);
        }
        if has_entity(r, x) {
            let w = choose|w: int| 0 <= w < r.len() && #[trigger] r[w].entity_id == x;
            assert(s[w].entity_id == x);
        }
    }
    if unique_entities(s) {
        assert forall|i: int, j: int|
            0 <= i < r.len() && 0 <= j < r.len() && i != j implies #[trigger] r[i].entity_id
            != #[trigger] r[j].entity_id by {
            assert(r[i].entity_id == s[i].entity_id);
            assert(r[j].entity_id == s[j].entity_id);
        }
    }
}

/// After replacing the data of the component of `e`, `e` looks up to the
/// new data.
pub proof fn lemma_replace_inner_lookup<T>(s: Seq<Component<T>>, e: Entity, inner: T)
    requires
        has_entity(s, e),
    ensures
        lookup(replace_inner(s, e, inner), e) == Some(inner),
{
    lemma_position_of(s, e);
    let p = position_of(s, e);
    let r = replace_inner(s, e, inner);
    assert(r[p].entity_id == e);
    assert(has_entity(r, e));
    lemma_position_of(r, e);
    let q = position_of(r, e);
    assert forall|j: int| 0 <= j < p implies r[j].entity_id != e by {
        assert(r[j] == s[j]);
    }
    if q < p {
        assert(r[q].entity_id != e);
    }
    if p < q {
        assert(r[p].entity_id != e);
    }
    assert(q == p);
}

/// Updating the data at position `i` of a list without repeated entities
/// replaces the data of the entity there.
pub proof fn lemma_update_is_replace<T>(s: Seq<Component<T>>, i: int, inner: T)
    requires
        unique_entities(s),
        0 <= i < s.len(),
    ensures
        s.update(i, Component { entity_id: s[i].entity_id, is_active: s[i].is_active, inner })
            == replace_inner(s, s[i].entity_id, inner),
{
    lemma_position_of_unique(s, s[i].entity_id, i);
}

/// Two lists with the same entities at the same positions hold components
/// of the same entities.
pub proof fn lemma_same_entities<T, U>(a: Seq<Component<T>>, b: Seq<Component<U>>, e: Entity)
    requires
        a.len() == b.len(),
        forall|j: int| 0 <= j < a.len() ==> (#[trigger] a[j]).entity_id == b[j].entity_id,
    ensures
        has_entity(a, e) == has_entity(b, e),
{
    if has_entity(a, e) {
        let w = choose|w: int| 0 <= w < a.len() && #[trigger] a[w].entity_id == e;
        assert(b[w].entity_id == e);
    }
    if has_entity(b, e) {
        let w = choose|w: int| 0 <= w < b.len() && #[trigger] b[w].entity_id == e;
        assert(a[w].entity_id == e);
    }
}

/// The components of one type, at most one per entity.
pub struct ComponentList<T> {
    components: Vec<Component<T>>,
}

impl<T> View for ComponentList<T> {
    type V = Seq<Component<T>>;

    closed spec fn view(&self) -> Seq<Component<T>> {
        self.components@
    }
}

impl<T> ComponentList<T> {
    /// Well-formed: each entity holds at most one component of the list.
    pub open spec fn wf(&self) -> bool {
        unique_entities(self@)
    }

    pub fn new() -> (list: ComponentList<T>)
        ensures
            list.wf(),
            list@.len() == 0,
    {
        ComponentList { components: Vec::new() }
    }

    pub fn len(&self) -> (n: usize)
        ensures
            n == self@.len(),
    {
        self.components.len()
    }

    /// The `i`-th component.
    pub fn at(&self, i: usize) -> (c: &Component<T>)
        requires
            i < self@.len(),
        ensures
            *c == self@[i as int],
    {
        &self.components[i]
    }

    /// The position of the component of `e`, if it has one.
    pub fn index_of(&self, e: &Entity) -> (r: Option<usize>)
        requires
            self.wf(),
        ensures
            r is None <==> !has_entity(self@, *e),
            r matches Some(i) ==> i < self@.len() && self@[i as int].entity_id == *e && i
                == position_of(self@, *e),
    {
        let n = self.components.len();
        let mut i: usize = 0;
        while i < n
            invariant
                n == self@.len(),
                self.components@ == self@,
                unique_entities(self@),
                0 <= i <= n,
                forall|j: int| 0 <= j < i ==> self@[j].entity_id != *e,
            decreases n - i,
        {
            if self.components[i].entity_id == *e {
                proof {
                    lemma_position_of_unique(self@, *e, i as int);
                }
                return Some(i);
            }
            i = i + 1;
        }
        proof {
            if has_entity(self@, *e) {
                let w = choose|w: int| 0 <= w < self@.len() && #[trigger] self@[w].entity_id == *e;
                assert(self@[w].entity_id != *e);
            }
        }
        None
    }

    /// The component of `e`, if it has one.
    pub fn get(&self, e: &Entity) -> (r: Option<&Component<T>>)
        requires
            self.wf(),
        ensures
            r is None <==> !has_entity(self@, *e),
            r matches Some(c) ==> *c == self@[position_of(self@, *e)] && c.entity_id == *e
                && lookup(self@, *e) == Some(c.inner),
    {
        match self.index_of(e) {
            Some(i) => Some(&self.components[i]),
            None => None,
        }
    }

    /// Replaces the data of the `i`-th component by `inner`, keeping its
    /// entity and its active flag.
    pub fn set_inner_at(&mut self, i: usize, inner: T)
        requires
            old(self).wf(),
            i < old(self)@.len(),
        ensures
            final(self).wf(),
            final(self)@ == old(self)@.update(
                i as int,
                Component {
                    entity_id: old(self)@[i as int].entity_id,
                    is_active: old(self)@[i as int].is_active,
                    inner: inner,
                },
            ),
    {
        let entity_id = self.components[i].entity_id;
        let is_active = self.components[i].is_active;
        let ghost before = self.components@;
        let c = Component { entity_id, is_active, inner };
        proof {
            let after = before.update(i as int, c);
            assert forall|a: int, b: int|
                0 <= a < after.len() && 0 <= b < after.len() && a != b implies #[trigger] after[a].entity_id
                != #[trigger] after[b].entity_id by {
                assert(after[a].entity_id == before[a].entity_id);
                assert(after[b].entity_id == before[b].entity_id);
            }
        }
        self.components.set(i, c);
    }

    /// Replaces the data of the `i`-th component by `inner`, keeping its
    /// entity and its active flag, and hands back the data it held.
    pub fn replace_inner_at(&mut self, i: usize, inner: T) -> (previous: T)
        requires
            old(self).wf(),
            i < old(self)@.len(),
        ensures
            final(self).wf(),
            previous == old(self)@[i as int].inner,
            final(self)@ == old(self)@.update(
                i as int,
                Component {
                    entity_id: old(self)@[i as int].entity_id,
                    is_active: old(self)@[i as int].is_active,
                    inner: inner,
                },
            ),
    {
        let ghost before = self.components@;
        let taken = self.components.remove(i);
        let c = Component { entity_id: taken.entity_id, is_active: taken.is_active, inner };
        self.components.insert(i, c);
        proof {
            let after = before.update(i as int, c);
            assert(self.components@ =~= after);
            assert forall|a: int, b: int|
                0 <= a < after.len() && 0 <= b < after.len() && a != b implies #[trigger] after[a].entity_id
                != #[trigger] after[b].entity_id by {
                assert(after[a].entity_id == before[a].entity_id);
                assert(after[b].entity_id == before[b].entity_id);
            }
        }
        taken.inner
    }

    /// Attaches `inner` to `e`: replaces the data of its component if it has
    /// one, else appends a fresh active component.
    pub fn set(&mut self, e: &Entity, inner: T)
        requires
            old(self).wf(),
        ensures
            final(self).wf(),
            has_entity(old(self)@, *e) ==> final(self)@ == old(self)@.update(
                position_of(old(self)@, *e),
                Component {
                    entity_id: *e,
                    is_active: old(self)@[position_of(old(self)@, *e)].is_active,
                    inner: inner,
                },
            ),
            !has_entity(old(self)@, *e) ==> final(self)@ == old(self)@.push(
                Component { entity_id: *e, is_active: true, inner: inner },
            ),
            lookup(final(self)@, *e) == Some(inner),
            forall|x: Entity|
                #[trigger] has_entity(final(self)@, x) == (has_entity(old(self)@, x) || x == *e),
            forall|x: Entity| x != *e ==> #[trigger] lookup(final(self)@, x) == lookup(old(self)@, x),
    {
        let ghost before = self@;
        match self.index_of(e) {
            Some(i) => {
                self.set_inner_at(i, inner);
                proof {
                    let after = self@;
                    assert(after[i as int].entity_id == *e);
                    lemma_position_of_unique(after, *e, i as int);
                    assert forall|x: Entity|
                        #[trigger] has_entity(after, x) == (has_entity(before, x) || x == *e) by {
                        if has_entity(before, x) {
                            let w = choose|w: int| 0 <= w < before.len() && #[trigger] before[w].entity_id == x;
                            assert(after[w].entity_id == x);
                        }
                        if has_entity(after, x) {
                            let w = choose|w: int| 0 <= w < after.len() && #[trigger] after[w].entity_id == x;
                            assert(before[w].entity_id == x);
                        }
                    }
                    assert forall|x: Entity| x != *e implies #[trigger] lookup(after, x) == lookup(before, x) by {
                        if has_entity(before, x) {
                            lemma_position_of(before, x);
                            let p = position_of(before, x);
                            assert(p != i);
                            lemma_position_of_unique(after, x, p);
                        }
                    }
                }
            },
            None => {
                let c = Component { entity_id: *e, is_active: true, inner };
                self.components.push(c);
                proof {
                    let after = self@;
                    let n = before.len() as int;
                    assert(after[n].entity_id == *e);
                    assert forall|a: int, b: int|
                        0 <= a < after.len() && 0 <= b < after.len() && a != b implies #[trigger] after[a].entity_id
                        != #[trigger] after[b].entity_id by {
                        if a < n && b < n {
                            assert(after[a] == before[a]);
                            assert(after[b] == before[b]);
                        } else if a < n {
                            assert(after[a] == before[a]);
                            assert(before[a].entity_id != *e);
                        } else if b < n {
                            assert(after[b] == before[b]);
                            assert(before[b].entity_id != *e);
                        }
                    }
                    lemma_position_of_unique(after, *e, n);
                    assert forall|x: Entity|
                        #[trigger] has_entity(after, x) == (has_entity(before, x) || x == *e) by {
                        if has_entity(before, x) {
                            let w = choose|w: int| 0 <= w < before.len() && #[trigger] before[w].entity_id == x;
                            assert(after[w].entity_id == x);
                        }
                        if has_entity(after, x) && x != *e {
                            let w = choose|w: int| 0 <= w < after.len() && #[trigger] after[w].entity_id == x;
                            assert(w < n);
                            assert(before[w].entity_id == x);
                        }
                    }
                    assert forall|x: Entity| x != *e implies #[trigger] lookup(after, x) == lookup(before, x) by {
                        if has_entity(before, x) {
                            lemma_position_of(before, x);
                            let p = position_of(before, x);
                            assert(after[p] == before[p]);
                            lemma_position_of_unique(after, x, p);
                        }
                    }
                }
            },
        }
    }

    /// Detaches the component of `e`, if it has one; returns whether it had
    /// one. The other components keep their order.
    pub fn unset(&mut self, e: &Entity) -> (removed: bool)
        requires
            old(self).wf(),
        ensures
            final(self).wf(),
            removed == has_entity(old(self)@, *e),
            removed ==> final(self)@ == old(self)@.remove(position_of(old(self)@, *e)),
            !removed ==> final(self)@ == old(self)@,
            forall|x: Entity|
                #[trigger] has_entity(final(self)@, x) == (has_entity(old(self)@, x) && x != *e),
            forall|x: Entity|
                has_entity(final(self)@, x) ==> #[trigger] lookup(final(self)@, x) == lookup(old(self)@, x),
    {
        let ghost before = self@;
        match self.index_of(e) {
            Some(i) => {
                self.components.remove(i);
                proof {
                    let after = self@;
                    assert(after =~= before.remove(i as int));
                    assert forall|a: int, b: int|
                        0 <= a < after.len() && 0 <= b < after.len() && a != b implies #[trigger] after[a].entity_id
                        != #[trigger] after[b].entity_id by {
                        let sa = if a < i { a } else { a + 1 };
                        let sb = if b < i { b } else { b + 1 };
                        assert(after[a] == before[sa]);
                        assert(after[b] == before[sb]);
                    }
                    assert forall|x: Entity|
                        #[trigger] has_entity(after, x) == (has_entity(before, x) && x != *e) by {
                        if has_entity(after, x) {
                            let w = choose|w: int| 0 <= w < after.len() && #[trigger] after[w].entity_id == x;
                            let sw = if w < i { w } else { w + 1 };
                            assert(before[sw].entity_id == x);
                            assert(sw != i);
                        }
                        if has_entity(before, x) && x != *e {
                            let w = choose|w: int| 0 <= w < before.len() && #[trigger] before[w].entity_id == x;
                            assert(w != i);
                            if w < i {
                                assert(after[w].entity_id == x);
                            } else {
                                assert(after[w - 1].entity_id == x);
                            }
                        }
                    }
                    assert forall|x: Entity|
                        has_entity(after, x) implies #[trigger] lookup(after, x) == lookup(before, x) by {
                        lemma_position_of(after, x);
                        let p = position_of(after, x);
                        let sp = if p < i { p } else { p + 1 };
                        assert(after[p] == before[sp]);
                        lemma_position_of_unique(before, x, sp);
                        lemma_position_of_unique(after, x, p);
                    }
                }
                true
            },
            None => {
                proof {
                    assert forall|x: Entity|
                        #[trigger] has_entity(self@, x) == (has_entity(before, x) && x != *e) by {}
                }
                false
            },
        }
    }
}

} // verus!
