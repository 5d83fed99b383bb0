//! The entity registry: tracked entities with per-connection ownership,
//! movement propagated through the parent/child attachment graph, and
//! reclamation of orphaned entities. Mutating events are accepted only
//! from an entity's current owner; events for unknown entities or from
//! non-owners are dropped, never fatal. The attachment graph is stored as
//! the `parent` edge alone and children are resolved by scanning, so the
//! two directions of the attachment invariant can never disagree.

use vstd::prelude::*;

use crate::entity::{Entity, EntityInfo, EntityType};
use crate::packet::{field_matches, packet_wf, FieldType, FieldValue, Packet};

verus! {

/// What one session knows: its connection index and the entity ids it has
/// seen spawned and not yet destroyed.
pub struct SessionKnown {
    pub session: usize,
    pub known: Vec<i32>,
}

/// Whether an entity with this id is tracked.
pub open spec fn has_entity(s: Seq<Entity>, id: i32) -> bool {
    exists|i: int| 0 <= i < s.len() && s[i].id == id
}

/// The index of the entity with this id (unique under `ids_unique`).
pub open spec fn idx_of(s: Seq<Entity>, id: i32) -> int {
    choose|i: int| 0 <= i < s.len() && s[i].id == id
}

/// The tracked entity with this id.
pub open spec fn entity_of(s: Seq<Entity>, id: i32) -> Entity {
    s[idx_of(s, id)]
}

/// No two tracked entities share an id.
pub open spec fn ids_unique(s: Seq<Entity>) -> bool {
    forall|i: int, j: int|
        #![trigger s[i].id, s[j].id]
        0 <= i < j < s.len() ==> s[i].id != s[j].id
}

/// Whether the entity is tracked and owned by this connection.
pub open spec fn spec_owned_by(s: Seq<Entity>, id: i32, source: usize) -> bool {
    has_entity(s, id) && entity_of(s, id).owner == Some(source)
}

/// The ids attached to `a`: every tracked entity whose parent edge names
/// `a`. Resolved by scanning, never stored.
pub open spec fn spec_children_of(s: Seq<Entity>, a: i32) -> Set<i32> {
    Set::new(|c: i32| exists|i: int| 0 <= i < s.len() && s[i].id == c && s[i].parent == Some(a))
}

/// Saturating addition of fixed-point coordinates.
pub open spec fn sat64(a: i64, b: i64) -> i64 {
    if a + b > i64::MAX {
        i64::MAX
    } else if a + b < i64::MIN {
        i64::MIN
    } else {
        (a + b) as i64
    }
}

/// Componentwise saturating addition of position triples.
pub open spec fn sat3(a: (i64, i64, i64), b: (i64, i64, i64)) -> (i64, i64, i64) {
    (sat64(a.0, b.0), sat64(a.1, b.1), sat64(a.2, b.2))
}

fn sat64_exec(a: i64, b: i64) -> (r: i64)
    ensures
        r == sat64(a, b),
{
    match a.checked_add(b) {
        Some(v) => v,
        None => {
            if b > 0 {
                i64::MAX
            } else {
                i64::MIN
            }
        },
    }
}

/// Componentwise saturating addition.
pub fn sat3_exec(a: (i64, i64, i64), b: (i64, i64, i64)) -> (r: (i64, i64, i64))
    ensures
        r == sat3(a, b),
{
    (sat64_exec(a.0, b.0), sat64_exec(a.1, b.1), sat64_exec(a.2, b.2))
}

/// Saturating subtraction of fixed-point coordinates.
pub open spec fn sat_sub64(a: i64, b: i64) -> i64 {
    if a - b > i64::MAX {
        i64::MAX
    } else if a - b < i64::MIN {
        i64::MIN
    } else {
        (a - b) as i64
    }
}

/// Componentwise saturating difference of position triples.
pub open spec fn sat3_sub(a: (i64, i64, i64), b: (i64, i64, i64)) -> (i64, i64, i64) {
    (sat_sub64(a.0, b.0), sat_sub64(a.1, b.1), sat_sub64(a.2, b.2))
}

fn sat_sub64_exec(a: i64, b: i64) -> (r: i64)
    ensures
        r == sat_sub64(a, b),
{
    match a.checked_sub(b) {
        Some(v) => v,
        None => {
            if b < 0 {
                i64::MAX
            } else {
                i64::MIN
            }
        },
    }
}

/// Componentwise saturating difference.
pub fn sat3_sub_exec(a: (i64, i64, i64), b: (i64, i64, i64)) -> (r: (i64, i64, i64))
    ensures
        r == sat3_sub(a, b),
{
    (sat_sub64_exec(a.0, b.0), sat_sub64_exec(a.1, b.1), sat_sub64_exec(a.2, b.2))
}

/// The first visual-info index whose kind matches, if any.
pub open spec fn spec_find_info(infos: Seq<EntityInfo>, et: EntityType) -> Option<int>
    decreases infos.len(),
{
    if infos.len() == 0 {
        None
    } else if infos[0].etype == et {
        Some(0)
    } else {
        match spec_find_info(infos.skip(1), et) {
            Some(i) => Some(i + 1),
            None => None,
        }
    }
}

fn contains_i32(v: &Vec<i32>, x: i32) -> (r: bool)
    ensures
        r == v@.contains(x),
{
    let n = v.len();
    let mut k: usize = 0;
    while k < n
        invariant
            n == v@.len(),
            k <= n,
            forall|j: int| 0 <= j < k ==> v@[j] != x,
        decreases n - k,
    {
        if v[k] == x {
            return true;
        }
        k += 1;
    }
    false
}

/// A sequence of distinct ids, all tracked, cannot outnumber the
/// entities.
proof fn lemma_visited_bound(visited: Seq<i32>, s: Seq<Entity>)
    requires
        visited.no_duplicates(),
        forall|k: int| 0 <= k < visited.len() ==> has_entity(s, #[trigger] visited[k]),
    ensures
        visited.len() <= s.len(),
{
    broadcast use vstd::seq_lib::seq_to_set_is_finite;

    let ids = s.map_values(|e: Entity| e.id);
    visited.unique_seq_to_set();
    assert forall|v: i32| visited.to_set().contains(v) implies ids.to_set().contains(v) by {
        let i = choose|i: int| 0 <= i < s.len() && s[i].id == v;
        assert(ids[i] == v);
        assert(ids.contains(v));
    }
    ids.lemma_cardinality_of_set();
    vstd::set_lib::lemma_len_subset(visited.to_set(), ids.to_set());
}

/// Under unique ids, an entity's index is recovered from its id.
proof fn lemma_idx_of_unique(s: Seq<Entity>, i: int)
    requires
        ids_unique(s),
        0 <= i < s.len(),
    ensures
        has_entity(s, s[i].id),
        idx_of(s, s[i].id) == i,
        entity_of(s, s[i].id) == s[i],
{
    let id = s[i].id;
    assert(0 <= i < s.len() && s[i].id == id);
    assert(has_entity(s, id));
    let j = idx_of(s, id);
    assert(0 <= j < s.len() && s[j].id == id);
    if j < i {
        assert(s[j].id != s[i].id);
    } else if j > i {
        assert(s[i].id != s[j].id);
    }
}

/// The registry of tracked entities and this tick's change sets.
pub struct EntityManager {
    /// Whether anything changed since the last tick reset.
    pub update: bool,
    /// The tracked entities; ids are unique.
    pub entities: Vec<Entity>,
    /// Ids moved this tick.
    pub moved: Vec<i32>,
    /// Ids destroyed by their owner and awaiting resolution.
    pub orphaned: Vec<i32>,
    /// Ids removed from the registry this tick.
    pub deleted: Vec<i32>,
    /// The static visual-info table, referenced by index.
    pub info: Vec<EntityInfo>,
}

impl EntityManager {
    pub open spec fn wf(self) -> bool {
        &&& ids_unique(self.entities@)
        &&& self.moved@.no_duplicates()
        &&& self.orphaned@.no_duplicates()
    }

    /// A fresh registry over a visual-info table.
    pub fn init(info: Vec<EntityInfo>) -> (r: EntityManager)
        ensures
            r.wf(),
            r.entities@ == Seq::<Entity>::empty(),
            r.moved@ == Seq::<i32>::empty(),
            r.orphaned@ == Seq::<i32>::empty(),
            r.deleted@ == Seq::<i32>::empty(),
            r.info == info,
            r.update == true,
    {
        EntityManager {
            update: true,
            entities: Vec::new(),
            moved: Vec::new(),
            orphaned: Vec::new(),
            deleted: Vec::new(),
            info,
        }
    }

    /// The position of the entity with this id, if tracked.
    pub fn find_index(&self, eid: i32) -> (r: Option<usize>)
        requires
            self.wf(),
        ensures
            match r {
                Some(i) => i < self.entities@.len() && self.entities@[i as int].id == eid
                    && has_entity(self.entities@, eid) && idx_of(self.entities@, eid) == i as int,
                None => !has_entity(self.entities@, eid),
            },
    {
        let n = self.entities.len();
        let mut k: usize = 0;
        while k < n
            invariant
                self.wf(),
                n == self.entities@.len(),
                k <= n,
                forall|j: int| 0 <= j < k ==> self.entities@[j].id != eid,
            decreases n - k,
        {
            if self.entities[k].id == eid {
                proof {
                    assert(self.entities@[k as int].id == eid);
                    let i = idx_of(self.entities@, eid);
                    assert(0 <= i < self.entities@.len() && self.entities@[i].id == eid);
                    if i < k as int {
                        assert(self.entities@[i].id != self.entities@[k as int].id);
                    } else if i > k as int {
                        assert(self.entities@[k as int].id != self.entities@[i].id);
                    }
                    assert(i == k as int);
                }
                return Some(k);
            }
            k += 1;
        }
        None
    }

    /// The first visual-info index for an entity kind, if the table has
    /// one.
    fn find_info(&self, et: &EntityType) -> (r: Option<usize>)
        ensures
            match r {
                Some(i) => spec_find_info(self.info@, *et) == Some(i as int),
                None => spec_find_info(self.info@, *et) is None,
            },
    {
        let n = self.info.len();
        let mut r: Option<usize> = None;
        let mut k: usize = n;
        proof {
            assert(self.info@.skip(n as int) =~= Seq::<EntityInfo>::empty());
        }
        while k > 0
            invariant
                k <= n,
                n == self.info@.len(),
                match r {
                    Some(i) => k <= i < n && spec_find_info(self.info@.skip(k as int), *et)
                        == Some(i - k),
                    None => spec_find_info(self.info@.skip(k as int), *et) is None,
                },
            decreases k,
        {
            k -= 1;
            proof {
                assert(self.info@.skip(k as int)[0] == self.info@[k as int]);
                assert(self.info@.skip(k as int).skip(1) =~= self.info@.skip(k + 1));
            }
            if self.info[k].etype == *et {
                r = Some(k);
            }
        }
        proof {
            assert(self.info@.skip(0) =~= self.info@);
        }
        r
    }
}

/// The entity a spawn event creates (before visual-info resolution).
pub open spec fn spawned_entity(
    eid: i32,
    etype: EntityType,
    pos: (i64, i64, i64),
    info: Option<usize>,
    source: usize,
) -> Entity {
    Entity {
        id: eid,
        new: true,
        etype,
        name: None,
        pos,
        last_movement: (0, 0, 0),
        last_position: pos,
        info,
        owner: Some(source),
        parent: None,
    }
}

/// How a spawn event changes the registry: a duplicate id is ignored;
/// otherwise the entity is appended, owned by the reporting connection,
/// with its visual-info reference resolved by kind.
pub open spec fn spawn_rel(o: EntityManager, n: EntityManager, ent: Entity) -> bool {
    if has_entity(o.entities@, ent.id) {
        n == o
    } else {
        &&& n.entities@ == o.entities@.push(ent)
        &&& n.update == true
        &&& n.moved == o.moved
        &&& n.orphaned == o.orphaned
        &&& n.deleted == o.deleted
        &&& n.info == o.info
    }
}

impl EntityManager {
    fn spawn(&mut self, eid: i32, etype: EntityType, x: i32, y: i32, z: i32, source: usize)
        requires
            old(self).wf(),
        ensures
            final(self).wf(),
            spawn_rel(
                *old(self),
                *final(self),
                spawned_entity(
                    eid,
                    etype,
                    (x as i64, y as i64, z as i64),
                    match spec_find_info(old(self).info@, etype) {
                        Some(i) => Some(i as usize),
                        None => None,
                    },
                    source,
                ),
            ),
    {
        if self.find_index(eid).is_some() {
            return ;
        }
        let info = self.find_info(&etype);
        let pos = (x as i64, y as i64, z as i64);
        let ent = Entity {
            id: eid,
            new: true,
            etype,
            name: None,
            pos,
            last_movement: (0, 0, 0),
            last_position: pos,
            info,
            owner: Some(source),
            parent: None,
        };
        self.entities.push(ent);
        self.update = true;
        proof {
            assert forall|i: int, j: int|
                0 <= i < j < self.entities@.len() implies self.entities@[i].id
                != self.entities@[j].id by {
                if j == self.entities@.len() - 1 {
                    assert(!has_entity(old(self).entities@, eid));
                    assert(old(self).entities@[i].id != eid);
                }
            }
        }
    }

    /// Tracks a newly spawned mob at fixed-point coordinates, owned by the
    /// reporting connection; a duplicate id is ignored.
    pub fn spawn_mob(&mut self, eid: i32, mob_type: u8, x: i32, y: i32, z: i32, source: usize)
        requires
            old(self).wf(),
        ensures
            final(self).wf(),
            spawn_rel(
                *old(self),
                *final(self),
                spawned_entity(
                    eid,
                    EntityType::Mob(crate::entity::spec_to_mob_type(mob_type)),
                    (x as i64, y as i64, z as i64),
                    match spec_find_info(
                        old(self).info@,
                        EntityType::Mob(crate::entity::spec_to_mob_type(mob_type)),
                    ) {
                        Some(i) => Some(i as usize),
                        None => None,
                    },
                    source,
                ),
            ),
    {
        let etype = EntityType::Mob(crate::entity::to_mob_type(mob_type));
        self.spawn(eid, etype, x, y, z, source)
    }

    /// Tracks a newly spawned object, owned by the reporting connection; a
    /// duplicate id is ignored.
    pub fn spawn_object(&mut self, eid: i32, obj_type: u8, x: i32, y: i32, z: i32, source: usize)
        requires
            old(self).wf(),
        ensures
            final(self).wf(),
            spawn_rel(
                *old(self),
                *final(self),
                spawned_entity(
                    eid,
                    EntityType::Object(crate::entity::spec_to_object_type(obj_type)),
                    (x as i64, y as i64, z as i64),
                    match spec_find_info(
                        old(self).info@,
                        EntityType::Object(crate::entity::spec_to_object_type(obj_type)),
                    ) {
                        Some(i) => Some(i as usize),
                        None => None,
                    },
                    source,
                ),
            ),
    {
        let etype = EntityType::Object(crate::entity::to_object_type(obj_type));
        self.spawn(eid, etype, x, y, z, source)
    }

    /// Attaches an entity to a vehicle: sets its parent edge. Dropped for
    /// an untracked entity.
    pub fn attach(&mut self, eid: i32, vehicle_id: i32)
        requires
            old(self).wf(),
        ensures
            final(self).wf(),
            !has_entity(old(self).entities@, eid) ==> *final(self) == *old(self),
            has_entity(old(self).entities@, eid) ==> (*final(self) == (EntityManager {
                entities: final(self).entities,
                ..*old(self)
            }) && final(self).entities@ == old(self).entities@.update(
                idx_of(old(self).entities@, eid),
                (Entity { parent: Some(vehicle_id), ..entity_of(old(self).entities@, eid) }),
            )),
    {
        let i = match self.find_index(eid) {
            Some(i) => i,
            None => { return ; },
        };
        let e = &mut self.entities[i];
        e.parent = Some(vehicle_id);
        proof {
            assert(self.entities@ =~= old(self).entities@.update(
                idx_of(old(self).entities@, eid),
                Entity { parent: Some(vehicle_id), ..entity_of(old(self).entities@, eid) },
            ));
        }
    }

    /// Detaches an entity from its vehicle: clears its parent edge.
    /// Dropped for an untracked entity.
    pub fn detach(&mut self, eid: i32)
        requires
            old(self).wf(),
        ensures
            final(self).wf(),
            !has_entity(old(self).entities@, eid) ==> *final(self) == *old(self),
            has_entity(old(self).entities@, eid) ==> (*final(self) == (EntityManager {
                entities: final(self).entities,
                ..*old(self)
            }) && final(self).entities@ == old(self).entities@.update(
                idx_of(old(self).entities@, eid),
                (Entity { parent: None, ..entity_of(old(self).entities@, eid) }),
            )),
    {
        let i = match self.find_index(eid) {
            Some(i) => i,
            None => { return ; },
        };
        let e = &mut self.entities[i];
        e.parent = None;
        proof {
            assert(self.entities@ =~= old(self).entities@.update(
                idx_of(old(self).entities@, eid),
                Entity { parent: None, ..entity_of(old(self).entities@, eid) },
            ));
        }
    }

    /// The ids attached to `a`, resolved by scanning the registry.
    #[verifier::loop_isolation(false)]
    pub fn children_of(&self, a: i32) -> (r: Vec<i32>)
        requires
            self.wf(),
        ensures
            forall|c: i32| r@.contains(c) <==> spec_children_of(self.entities@, a).contains(c),
            r@.no_duplicates(),
    {
        let n = self.entities.len();
        let mut r: Vec<i32> = Vec::new();
        let mut k: usize = 0;
        while k < n
            invariant
                self.wf(),
                n == self.entities@.len(),
                k <= n,
                forall|j: int|
                    0 <= j < r@.len() ==> exists|i: int|
                        0 <= i < k && self.entities@[i].id == #[trigger] r@[j]
                            && self.entities@[i].parent == Some(a),
                forall|i: int|
                    0 <= i < k && (#[trigger] self.entities@[i]).parent == Some(a)
                        ==> r@.contains(self.entities@[i].id),
                r@.no_duplicates(),
            decreases n - k,
        {
            let is_child = match self.entities[k].parent {
                Some(p) => p == a,
                None => false,
            };
            if is_child {
                let c = self.entities[k].id;
                proof {
                    if r@.contains(c) {
                        let j = choose|j: int| 0 <= j < r@.len() && r@[j] == c;
                        let i = choose|i: int|
                            0 <= i < k && self.entities@[i].id == c && self.entities@[i].parent
                                == Some(a);
                        assert(self.entities@[i].id != self.entities@[k as int].id);
                    }
                }
                let ghost prev_r = r@;
                r.push(c);
                proof {
                    assert forall|i: int|
                        0 <= i < k + 1 && (#[trigger] self.entities@[i]).parent == Some(a) implies
                    r@.contains(self.entities@[i].id) by {
                        if i < k {
                            let j = choose|j: int|
                                0 <= j < prev_r.len() && prev_r[j] == self.entities@[i].id;
                            assert(r@[j] == self.entities@[i].id);
                        } else {
                            assert(r@[r@.len() - 1] == c);
                        }
                    }
                }
            }
            k += 1;
        }
        proof {
            assert forall|c: i32|
                r@.contains(c) <==> spec_children_of(self.entities@, a).contains(c) by {
                if r@.contains(c) {
                    let j = choose|j: int| 0 <= j < r@.len() && r@[j] == c;
                }
                if spec_children_of(self.entities@, a).contains(c) {
                    let i = choose|i: int|
                        0 <= i < self.entities@.len() && self.entities@[i].id == c
                            && self.entities@[i].parent == Some(a);
                    assert(r@.contains(self.entities@[i].id));
                }
            }
        }
        r
    }

    /// How a destroy batch changes the registry: each listed id owned by
    /// the reporting connection loses its owner and joins the orphan set;
    /// other ids are untouched.
    pub open spec fn destroy_rel(o: EntityManager, n: EntityManager, ids: Seq<i32>, source: usize) -> bool {
        &&& n.entities@.len() == o.entities@.len()
        &&& forall|i: int|
            0 <= i < o.entities@.len() ==> #[trigger] n.entities@[i] == (if ids.contains(
                o.entities@[i].id,
            ) && o.entities@[i].owner == Some(source) {
                Entity { owner: None, ..o.entities@[i] }
            } else {
                o.entities@[i]
            })
        &&& forall|x: i32|
            #[trigger] n.orphaned@.contains(x) <==> (o.orphaned@.contains(x) || (ids.contains(x)
                && spec_owned_by(o.entities@, x, source)))
        &&& n.moved == o.moved
        &&& n.deleted == o.deleted
        &&& n.info == o.info
        &&& n.update == o.update
    }

    /// Marks each listed id that this connection owns as orphaned: its
    /// ownership is cleared pending resolution at the end of the tick.
    /// Ids that are untracked or owned elsewhere are dropped.
    #[verifier::loop_isolation(false)]
    pub fn entity_destroy(&mut self, ids: &Vec<i32>, source: usize)
        requires
            old(self).wf(),
        ensures
            final(self).wf(),
            EntityManager::destroy_rel(*old(self), *final(self), ids@, source),
    {
        let n = ids.len();
        let mut k: usize = 0;
        while k < n
            invariant
                self.wf(),
                n == ids@.len(),
                k <= n,
                self.entities@.len() == old(self).entities@.len(),
                forall|i: int|
                    0 <= i < old(self).entities@.len() ==> #[trigger] self.entities@[i] == (if
                    ids@.take(k as int).contains(old(self).entities@[i].id) && old(
                        self,
                    ).entities@[i].owner == Some(source) {
                        Entity { owner: None, ..old(self).entities@[i] }
                    } else {
                        old(self).entities@[i]
                    }),
                forall|x: i32|
                    #[trigger] self.orphaned@.contains(x) <==> (old(self).orphaned@.contains(x)
                        || (ids@.take(k as int).contains(x) && spec_owned_by(
                        old(self).entities@,
                        x,
                        source,
                    ))),
                self.moved == old(self).moved,
                self.deleted == old(self).deleted,
                self.info == old(self).info,
                self.update == old(self).update,
            decreases n - k,
        {
            let ghost entry_orph = self.orphaned@;
            let eid = ids[k];
            let found = self.find_index(eid);
            proof {
                assert(ids@.take(k + 1).contains(eid)) by {
                    assert(ids@.take(k + 1)[k as int] == eid);
                }
                assert forall|x: i32| ids@.take(k + 1).contains(x) implies (ids@.take(
                    k as int,
                ).contains(x) || x == eid) by {
                    let j = choose|j: int| 0 <= j < k + 1 && (#[trigger] ids@.take(k + 1)[j]) == x;
                    if j < k {
                        assert(ids@.take(k as int)[j] == x);
                    }
                }
                assert forall|x: i32| ids@.take(k as int).contains(x) implies ids@.take(
                    k + 1,
                ).contains(x) by {
                    let j = choose|j: int|
                        0 <= j < k && (#[trigger] ids@.take(k as int)[j]) == x;
                    assert(ids@.take(k + 1)[j] == x);
                }
            }
            match found {
                Some(i) => {
                    let owned = match self.entities[i].owner {
                        Some(s) => s == source,
                        None => false,
                    };
                    if owned {
                        proof {
                            assert(self.entities@[i as int] == old(self).entities@[i as int]);
                            assert(old(self).entities@[i as int].owner == Some(source));
                            assert(old(self).entities@[i as int].id == eid);
                            lemma_idx_of_unique(old(self).entities@, i as int);
                            assert(spec_owned_by(old(self).entities@, eid, source));
                        }
                        let e = &mut self.entities[i];
                        e.owner = None;
                        proof {
                            assert(self.entities@[i as int] == (Entity {
                                owner: None,
                                ..old(self).entities@[i as int]
                            }));
                        }
                        if !contains_i32(&self.orphaned, eid) {
                            let ghost prev_orph = self.orphaned@;
                            self.orphaned.push(eid);
                            proof {
                                assert forall|x: i32| self.orphaned@.contains(x) implies (
                                prev_orph.contains(x) || x == eid) by {
                                    let j = choose|j: int|
                                        0 <= j < self.orphaned@.len() && self.orphaned@[j] == x;
                                    if j < prev_orph.len() {
                                        assert(prev_orph[j] == x);
                                    }
                                }
                                assert forall|x: i32| prev_orph.contains(x) implies
                                self.orphaned@.contains(x) by {
                                    let j = choose|j: int|
                                        0 <= j < prev_orph.len() && prev_orph[j] == x;
                                    assert(self.orphaned@[j] == x);
                                }
                                assert(self.orphaned@.contains(eid)) by {
                                    assert(self.orphaned@[self.orphaned@.len() - 1] == eid);
                                }
                                assert(self.orphaned@.no_duplicates());
                            }
                        }
                    } else {
                        proof {
                            assert(self.entities@[i as int] == (if ids@.take(k as int).contains(
                                old(self).entities@[i as int].id,
                            ) && old(self).entities@[i as int].owner == Some(source) {
                                Entity { owner: None, ..old(self).entities@[i as int] }
                            } else {
                                old(self).entities@[i as int]
                            }));
                            assert(old(self).entities@[i as int].id == eid);
                            lemma_idx_of_unique(old(self).entities@, i as int);
                            if old(self).entities@[i as int].owner == Some(source) {
                                assert(self.entities@[i as int] != old(
                                    self,
                                ).entities@[i as int]);
                                assert(ids@.take(k as int).contains(eid));
                            } else {
                                assert(!spec_owned_by(old(self).entities@, eid, source));
                            }
                        }
                    }
                },
                None => {
                    proof {
                        if has_entity(old(self).entities@, eid) {
                            let i = choose|i: int|
                                0 <= i < old(self).entities@.len() && old(self).entities@[i].id
                                    == eid;
                            assert(self.entities@[i] == (if ids@.take(k as int).contains(old(
                                self,
                            ).entities@[i].id) && old(self).entities@[i].owner == Some(source) {
                                Entity { owner: None, ..old(self).entities@[i] }
                            } else {
                                old(self).entities@[i]
                            }));
                            assert(self.entities@[i].id == eid);
                            assert(has_entity(self.entities@, eid));
                        }
                        assert(!spec_owned_by(old(self).entities@, eid, source));
                    }
                },
            }
            proof {
                assert forall|x: i32|
                    #[trigger] self.orphaned@.contains(x) <==> (old(self).orphaned@.contains(x)
                        || (ids@.take(k + 1).contains(x) && spec_owned_by(
                        old(self).entities@,
                        x,
                        source,
                    ))) by {
                    let h0 = entry_orph.contains(x);
                    let h1 = ids@.take(k as int).contains(x);
                    let h2 = ids@.take(k + 1).contains(x);
                    let h3 = spec_owned_by(old(self).entities@, x, source);
                    let h4 = old(self).orphaned@.contains(x);
                    if x == eid {
                    } else {
                        assert(h2 ==> h1 || x == eid);
                    }
                }
            }
            k += 1;
        }
        proof {
            assert(ids@.take(n as int) =~= ids@);
        }
    }

    /// Tick reset: clears the moved and deleted change sets, snapshots
    /// each entity's position as its last position, zeroes its movement
    /// accumulator, and clears its "new" flag.
    #[verifier::loop_isolation(false)]
    pub fn tick(&mut self)
        requires
            old(self).wf(),
        ensures
            final(self).wf(),
            final(self).entities@.len() == old(self).entities@.len(),
            forall|i: int|
                0 <= i < old(self).entities@.len() ==> #[trigger] final(self).entities@[i]
                    == (Entity {
                    last_position: old(self).entities@[i].pos,
                    last_movement: (0, 0, 0),
                    new: false,
                    ..old(self).entities@[i]
                }),
            final(self).moved@ == Seq::<i32>::empty(),
            final(self).deleted@ == Seq::<i32>::empty(),
            final(self).update == false,
            final(self).orphaned == old(self).orphaned,
            final(self).info == old(self).info,
    {
        self.moved.clear();
        self.deleted.clear();
        self.update = false;
        let n = self.entities.len();
        let mut k: usize = 0;
        while k < n
            invariant
                n == self.entities@.len(),
                n == old(self).entities@.len(),
                k <= n,
                forall|i: int|
                    0 <= i < k ==> #[trigger] self.entities@[i] == (Entity {
                        last_position: old(self).entities@[i].pos,
                        last_movement: (0, 0, 0),
                        new: false,
                        ..old(self).entities@[i]
                    }),
                forall|i: int| k <= i < n ==> #[trigger] self.entities@[i] == old(
                    self,
                ).entities@[i],
                self.moved@ == Seq::<i32>::empty(),
                self.deleted@ == Seq::<i32>::empty(),
                self.update == false,
                self.orphaned == old(self).orphaned,
                self.info == old(self).info,
            decreases n - k,
        {
            let snapshot = self.entities[k].pos;
            let e = &mut self.entities[k];
            e.last_position = snapshot;
            e.last_movement = (0, 0, 0);
            e.new = false;
            k += 1;
        }
        proof {
            assert forall|i: int, j: int|
                #![trigger self.entities@[i].id, self.entities@[j].id]
                0 <= i < j < self.entities@.len() implies self.entities@[i].id
                != self.entities@[j].id by {
                assert(old(self).entities@[i].id != old(self).entities@[j].id);
            }
        }
    }
}

/// The session that will adopt an orphan: the last active session whose
/// known-entity set still lists it, if any.
pub open spec fn last_knower(sessions: Seq<SessionKnown>, o: i32) -> Option<usize>
    decreases sessions.len(),
{
    if sessions.len() == 0 {
        None
    } else if sessions.last().known@.contains(o) {
        Some(sessions.last().session)
    } else {
        last_knower(sessions.drop_last(), o)
    }
}

/// Whether orphan resolution keeps this entity: everything but an orphan
/// that no session knows.
pub open spec fn resolve_keeps(e: Entity, orphaned: Seq<i32>, sessions: Seq<SessionKnown>) -> bool {
    !(orphaned.contains(e.id) && last_knower(sessions, e.id) is None)
}

/// An entity after orphan resolution: an orphan some session knows is
/// adopted by the last such session; anything else is untouched.
pub open spec fn resolve_entity(
    e: Entity,
    orphaned: Seq<i32>,
    sessions: Seq<SessionKnown>,
) -> Entity {
    if orphaned.contains(e.id) {
        match last_knower(sessions, e.id) {
            Some(s) => Entity { owner: Some(s), ..e },
            None => e,
        }
    } else {
        e
    }
}

/// The entity list after orphan resolution, in order.
pub open spec fn spec_resolve(
    s: Seq<Entity>,
    orphaned: Seq<i32>,
    sessions: Seq<SessionKnown>,
) -> Seq<Entity>
    decreases s.len(),
{
    if s.len() == 0 {
        Seq::empty()
    } else if resolve_keeps(s[0], orphaned, sessions) {
        seq![resolve_entity(s[0], orphaned, sessions)] + spec_resolve(s.skip(1), orphaned, sessions)
    } else {
        spec_resolve(s.skip(1), orphaned, sessions)
    }
}

/// The ids orphan resolution removes, in entity order.
pub open spec fn spec_resolve_deleted(
    s: Seq<Entity>,
    orphaned: Seq<i32>,
    sessions: Seq<SessionKnown>,
) -> Seq<i32>
    decreases s.len(),
{
    if s.len() == 0 {
        Seq::empty()
    } else if resolve_keeps(s[0], orphaned, sessions) {
        spec_resolve_deleted(s.skip(1), orphaned, sessions)
    } else {
        seq![s[0].id] + spec_resolve_deleted(s.skip(1), orphaned, sessions)
    }
}

proof fn lemma_resolve_snoc(s: Seq<Entity>, j: int, orphaned: Seq<i32>, sessions: Seq<SessionKnown>)
    requires
        0 <= j < s.len(),
    ensures
        spec_resolve(s.take(j + 1), orphaned, sessions) == (if resolve_keeps(
            s[j],
            orphaned,
            sessions,
        ) {
            spec_resolve(s.take(j), orphaned, sessions).push(resolve_entity(
                s[j],
                orphaned,
                sessions,
            ))
        } else {
            spec_resolve(s.take(j), orphaned, sessions)
        }),
        spec_resolve_deleted(s.take(j + 1), orphaned, sessions) == (if resolve_keeps(
            s[j],
            orphaned,
            sessions,
        ) {
            spec_resolve_deleted(s.take(j), orphaned, sessions)
        } else {
            spec_resolve_deleted(s.take(j), orphaned, sessions).push(s[j].id)
        }),
    decreases j,
{
    if j == 0 {
        assert(s.take(1)[0] == s[0]);
        assert(s.take(1).skip(1) =~= Seq::<Entity>::empty());
        assert(s.take(0) =~= Seq::<Entity>::empty());
        if resolve_keeps(s[0], orphaned, sessions) {
            assert(seq![resolve_entity(s[0], orphaned, sessions)] + Seq::<Entity>::empty()
                =~= Seq::<Entity>::empty().push(resolve_entity(s[0], orphaned, sessions)));
            assert(seq![s[0].id] + Seq::<i32>::empty() =~= Seq::<i32>::empty().push(s[0].id));
        } else {
            assert(seq![s[0].id] + Seq::<i32>::empty() =~= Seq::<i32>::empty().push(s[0].id));
        }
    } else {
        lemma_resolve_snoc(s.skip(1), j - 1, orphaned, sessions);
        assert(s.take(j + 1)[0] == s[0]);
        assert(s.take(j)[0] == s[0]);
        assert(s.take(j + 1).skip(1) =~= s.skip(1).take(j));
        assert(s.take(j).skip(1) =~= s.skip(1).take(j - 1));
        assert(s.skip(1)[j - 1] == s[j]);
        if resolve_keeps(s[0], orphaned, sessions) {
            if resolve_keeps(s[j], orphaned, sessions) {
                assert(seq![resolve_entity(s[0], orphaned, sessions)] + spec_resolve(
                    s.skip(1).take(j - 1),
                    orphaned,
                    sessions,
                ).push(resolve_entity(s[j], orphaned, sessions)) =~= (seq![
                    resolve_entity(s[0], orphaned, sessions),
                ] + spec_resolve(s.skip(1).take(j - 1), orphaned, sessions)).push(
                    resolve_entity(s[j], orphaned, sessions),
                ));
            }
        }
        if !resolve_keeps(s[0], orphaned, sessions) {
            if !resolve_keeps(s[j], orphaned, sessions) {
                assert(seq![s[0].id] + spec_resolve_deleted(
                    s.skip(1).take(j - 1),
                    orphaned,
                    sessions,
                ).push(s[j].id) =~= (seq![s[0].id] + spec_resolve_deleted(
                    s.skip(1).take(j - 1),
                    orphaned,
                    sessions,
                )).push(s[j].id));
            }
        }
    }
}

impl EntityManager {
    /// Orphan resolution, run once per tick after all sessions: each
    /// orphaned entity is adopted by the last active session that still
    /// knows it, or removed from the registry entirely (and recorded in
    /// the deleted change set) when no session does. The orphan set is
    /// cleared either way.
    #[verifier::loop_isolation(false)]
    pub fn check_orphaned(&mut self, sessions: &Vec<SessionKnown>)
        requires
            old(self).wf(),
        ensures
            final(self).wf(),
            final(self).entities@ == spec_resolve(
                old(self).entities@,
                old(self).orphaned@,
                sessions@,
            ),
            final(self).deleted@ == old(self).deleted@ + spec_resolve_deleted(
                old(self).entities@,
                old(self).orphaned@,
                sessions@,
            ),
            final(self).orphaned@ == Seq::<i32>::empty(),
            final(self).moved == old(self).moved,
            final(self).info == old(self).info,
            final(self).update == (old(self).update || spec_resolve_deleted(
                old(self).entities@,
                old(self).orphaned@,
                sessions@,
            ).len() > 0),
    {
        let ghost s0 = self.entities@;
        let ghost orph = self.orphaned@;
        let mut reversed: Vec<Entity> = Vec::new();
        while self.entities.len() > 0
            invariant
                self.entities@ == s0.take(self.entities@.len() as int),
                reversed@.len() + self.entities@.len() == s0.len(),
                forall|j: int|
                    0 <= j < reversed@.len() ==> #[trigger] reversed@[j] == s0[s0.len() - 1 - j],
                self.orphaned@ == orph,
                self.moved == old(self).moved,
                self.deleted == old(self).deleted,
                self.info == old(self).info,
                self.update == old(self).update,
            decreases self.entities@.len(),
        {
            proof {
                assert(s0.take(self.entities@.len() as int).last() == s0[self.entities@.len()
                    - 1]);
            }
            let e = match self.entities.pop() {
                Some(e) => e,
                None => { return ; },
            };
            reversed.push(e);
            proof {
                assert(self.entities@ =~= s0.take(self.entities@.len() as int));
            }
        }
        let n = reversed.len();
        let mut k: usize = 0;
        while reversed.len() > 0
            invariant
                n == s0.len(),
                k + reversed@.len() == n,
                forall|j: int|
                    0 <= j < reversed@.len() ==> #[trigger] reversed@[j] == s0[s0.len() - 1 - j],
                self.entities@ == spec_resolve(s0.take(k as int), orph, sessions@),
                self.deleted@ == old(self).deleted@ + spec_resolve_deleted(
                    s0.take(k as int),
                    orph,
                    sessions@,
                ),
                self.orphaned@ == orph,
                self.moved == old(self).moved,
                self.info == old(self).info,
                self.update == (old(self).update || spec_resolve_deleted(
                    s0.take(k as int),
                    orph,
                    sessions@,
                ).len() > 0),
                ids_unique(self.entities@),
                forall|j: int|
                    0 <= j < self.entities@.len() ==> has_entity(
                        s0.take(k as int),
                        #[trigger] self.entities@[j].id,
                    ),
            decreases reversed@.len(),
        {
            let e = match reversed.pop() {
                Some(e) => e,
                None => { return ; },
            };
            proof {
                assert(e == s0[k as int]);
                lemma_resolve_snoc(s0, k as int, orph, sessions@);
            }
            let is_orphan = contains_i32(&self.orphaned, e.id);
            let knower = Self::last_knower_exec(sessions, e.id);
            if is_orphan && knower.is_none() {
                self.deleted.push(e.id);
                self.update = true;
                proof {
                    assert(!resolve_keeps(s0[k as int], orph, sessions@));
                    assert(self.deleted@ =~= old(self).deleted@ + spec_resolve_deleted(
                        s0.take(k + 1),
                        orph,
                        sessions@,
                    ));
                    assert forall|j: int| 0 <= j < self.entities@.len() implies has_entity(
                        s0.take(k + 1),
                        #[trigger] self.entities@[j].id,
                    ) by {
                        let i = choose|i: int|
                            0 <= i < k && s0.take(k as int)[i].id == self.entities@[j].id;
                        assert(s0.take(k + 1)[i].id == self.entities@[j].id);
                    }
                }
            } else {
                let resolved = if is_orphan {
                    match knower {
                        Some(s) => Entity { owner: Some(s), ..e },
                        None => e,
                    }
                } else {
                    e
                };
                proof {
                    assert(resolve_keeps(s0[k as int], orph, sessions@));
                    assert(resolved == resolve_entity(s0[k as int], orph, sessions@));
                    if has_entity(self.entities@, resolved.id) {
                        let j = choose|j: int|
                            0 <= j < self.entities@.len() && self.entities@[j].id == resolved.id;
                        let i = choose|i: int|
                            0 <= i < k && s0.take(k as int)[i].id == self.entities@[j].id;
                        assert(s0[i].id == s0[k as int].id);
                        assert(false);
                    }
                }
                let ghost prev_entities = self.entities@;
                self.entities.push(resolved);
                proof {
                    assert(self.entities@ =~= spec_resolve(s0.take(k + 1), orph, sessions@));
                    assert forall|i: int, j: int|
                        #![trigger self.entities@[i].id, self.entities@[j].id]
                        0 <= i < j < self.entities@.len() implies self.entities@[i].id
                        != self.entities@[j].id by {
                        if j < self.entities@.len() - 1 {
                            assert(prev_entities[i].id != prev_entities[j].id);
                        } else {
                            if prev_entities[i].id == resolved.id {
                                assert(has_entity(prev_entities, resolved.id));
                            }
                        }
                    }
                    assert forall|j: int| 0 <= j < self.entities@.len() implies has_entity(
                        s0.take(k + 1),
                        #[trigger] self.entities@[j].id,
                    ) by {
                        if j < self.entities@.len() - 1 {
                            let i = choose|i: int|
                                0 <= i < k && s0.take(k as int)[i].id == self.entities@[j].id;
                            assert(s0.take(k + 1)[i].id == self.entities@[j].id);
                        } else {
                            assert(s0.take(k + 1)[k as int].id == resolved.id);
                        }
                    }
                }
            }
            k += 1;
        }
        self.orphaned.clear();
        proof {
            assert(s0.take(n as int) =~= s0);
        }
    }

    /// The last session in the list that knows this id, if any.
    fn last_knower_exec(sessions: &Vec<SessionKnown>, o: i32) -> (r: Option<usize>)
        ensures
            r == last_knower(sessions@, o),
    {
        let mut k = sessions.len();
        proof {
            assert(sessions@.take(sessions@.len() as int) =~= sessions@);
        }
        while k > 0
            invariant
                k <= sessions@.len(),
                last_knower(sessions@, o) == last_knower(sessions@.take(k as int), o),
            decreases k,
        {
            k -= 1;
            proof {
                assert(sessions@.take(k + 1).last() == sessions@[k as int]);
                assert(sessions@.take(k + 1).drop_last() =~= sessions@.take(k as int));
            }
            if contains_i32(&sessions[k].known, o) {
                return Some(sessions[k].session);
            }
        }
        proof {
            assert(sessions@.take(0) =~= Seq::<SessionKnown>::empty());
        }
        None
    }
}

/// The absolute position a move resolves to: the vector itself for a
/// teleport, the mover's current position plus the vector for a relative
/// move (saturating at the fixed-point range ends).
pub open spec fn move_target(
    s: Seq<Entity>,
    eid: i32,
    vector: (i64, i64, i64),
    absolute: bool,
) -> (i64, i64, i64) {
    if absolute {
        vector
    } else {
        sat3(entity_of(s, eid).pos, vector)
    }
}

/// Whether `c` is a tracked, owned entity whose parent is among the ids
/// in `vis`: the condition under which a move of the parent reaches `c`.
pub open spec fn owned_child_into(s: Seq<Entity>, c: i32, vis: Seq<i32>) -> bool {
    exists|i: int|
        0 <= i < s.len() && (#[trigger] s[i]).id == c && s[i].owner is Some && s[i].parent
            is Some && vis.contains(s[i].parent->0)
}

/// A reached entity after the move: it sits at the target, and its
/// movement accumulator has gained the displacement applied to it — the
/// delta vector itself for a relative move of the mover, and the
/// distance from its previous position to the target for a teleport and
/// for every carried attachment (all saturating at the fixed-point range
/// ends).
#[verifier::opaque]
pub open spec fn moved_entity(
    e: Entity,
    target: (i64, i64, i64),
    vector: (i64, i64, i64),
    absolute: bool,
    eid: i32,
) -> Entity {
    Entity {
        pos: target,
        last_movement: if e.id == eid && !absolute {
            sat3(e.last_movement, vector)
        } else {
            sat3(e.last_movement, sat3_sub(target, e.pos))
        },
        ..e
    }
}

/// Moving an entity changes only its position and movement accumulator:
/// identity, ownership and attachment stay.
proof fn lemma_moved_entity_skeleton(
    e: Entity,
    target: (i64, i64, i64),
    vector: (i64, i64, i64),
    absolute: bool,
    eid: i32,
)
    ensures
        moved_entity(e, target, vector, absolute, eid).id == e.id,
        moved_entity(e, target, vector, absolute, eid).owner == e.owner,
        moved_entity(e, target, vector, absolute, eid).parent == e.parent,
        moved_entity(e, target, vector, absolute, eid).pos == target,
{
    reveal(moved_entity);
}

/// Per-entity state of a move in progress: every id in `vis` is at the
/// target, everything else untouched.
#[verifier::opaque]
pub open spec fn move_entities_inv(
    s: Seq<Entity>,
    cur: Seq<Entity>,
    vis: Seq<i32>,
    target: (i64, i64, i64),
    vector: (i64, i64, i64),
    absolute: bool,
    eid: i32,
) -> bool {
    &&& cur.len() == s.len()
    &&& forall|i: int|
        0 <= i < s.len() && !vis.contains((#[trigger] s[i]).id) ==> cur[i] == s[i]
    &&& forall|i: int|
        0 <= i < s.len() && vis.contains((#[trigger] s[i]).id) ==> cur[i] == moved_entity(
            s[i],
            target,
            vector,
            absolute,
            eid,
        )
}

/// The moved change set of a move in progress: the old set plus every
/// reached, tracked id.
#[verifier::opaque]
pub open spec fn moved_inv(
    old_moved: Seq<i32>,
    cur_moved: Seq<i32>,
    vis: Seq<i32>,
    s: Seq<Entity>,
) -> bool {
    forall|x: i32|
        #[trigger] cur_moved.contains(x) <==> (old_moved.contains(x) || (vis.contains(x)
            && has_entity(s, x)))
}

/// How an accepted move changes the registry. `reached` lists the ids the
/// move propagated to: the moved entity itself, closed over attachment —
/// every tracked entity that has an owner and whose parent was reached is
/// reached too — and nothing else: every reached id other than the mover
/// is such a child. Every reached entity is placed at the resolved
/// absolute position and accumulates the displacement applied to it.
pub open spec fn move_rel(
    o: EntityManager,
    n: EntityManager,
    reached: Seq<i32>,
    vector: (i64, i64, i64),
    absolute: bool,
    eid: i32,
) -> bool {
    let s = o.entities@;
    let t = move_target(s, eid, vector, absolute);
    &&& reached.contains(eid)
    &&& forall|i: int|
        0 <= i < s.len() && (#[trigger] s[i]).owner is Some && s[i].parent is Some
            && reached.contains(s[i].parent->0) ==> reached.contains(s[i].id)
    &&& forall|k: int|
        0 <= k < reached.len() ==> (#[trigger] reached[k] == eid || owned_child_into(
            s,
            reached[k],
            reached,
        ))
    &&& move_entities_inv(s, n.entities@, reached, t, vector, absolute, eid)
    &&& moved_inv(o.moved@, n.moved@, reached, s)
    &&& n.update == true
    &&& n.orphaned == o.orphaned
    &&& n.deleted == o.deleted
    &&& n.info == o.info
}

impl EntityManager {
    /// Moves an entity — a teleport when `absolute`, by a delta otherwise
    /// — and re-applies the resulting position, as an absolute move, to
    /// every entity attached below it (each through its own recorded
    /// owner). Position and the per-tick movement accumulator are updated
    /// for everything the move reaches. A move for an untracked entity,
    /// or from a connection that is not the entity's owner, changes
    /// nothing.
    #[verifier::loop_isolation(false)]
    #[verifier::rlimit(100)]
    #[verifier::spinoff_prover]
    pub fn entity_move(
        &mut self,
        vector: (i64, i64, i64),
        absolute: bool,
        eid: i32,
        source: usize,
    )
        requires
            old(self).wf(),
        ensures
            final(self).wf(),
            !spec_owned_by(old(self).entities@, eid, source) ==> *final(self) == *old(self),
            spec_owned_by(old(self).entities@, eid, source) ==> exists|reached: Seq<i32>|
                move_rel(*old(self), *final(self), reached, vector, absolute, eid),
    {
        let ghost s = self.entities@;
        let root_idx = match self.find_index(eid) {
            Some(i) => i,
            None => { return ; },
        };
        let root_owned = match self.entities[root_idx].owner {
            Some(o) => o == source,
            None => false,
        };
        proof {
            lemma_idx_of_unique(s, root_idx as int);
        }
        if !root_owned {
            return ;
        }
        let target: (i64, i64, i64) = if absolute {
            vector
        } else {
            sat3_exec(self.entities[root_idx].pos, vector)
        };
        // visit the root
        {
            let lm = self.entities[root_idx].last_movement;
            let from = self.entities[root_idx].pos;
            let delta = if absolute {
                sat3_sub_exec(target, from)
            } else {
                vector
            };
            let e = &mut self.entities[root_idx];
            e.pos = target;
            e.last_movement = sat3_exec(lm, delta);
        }
        let ghost pre_moved = self.moved@;
        if !contains_i32(&self.moved, eid) {
            self.moved.push(eid);
            proof {
                lemma_push_contains(pre_moved, eid);
            }
        }
        self.update = true;
        let mut visited: Vec<i32> = Vec::new();
        visited.push(eid);
        proof {
            assert(visited@ =~= seq![eid]);
            assert(visited@.contains(eid)) by {
                assert(visited@[0] == eid);
            }
        }
        proof {
            assert forall|i: int|
                0 <= i < s.len() implies ((#[trigger] self.entities@[i]).id == s[i].id
                && self.entities@[i].owner == s[i].owner && self.entities@[i].parent
                == s[i].parent) by {
                reveal(move_entities_inv);
                if visited@.contains(s[i].id) {
                    lemma_moved_entity_skeleton(s[i], target, vector, absolute, eid);
                }
            }
        }
        let mut work: Vec<i32> = self.owned_children_scan(eid, Ghost(s), Ghost(visited@));
        proof {
            reveal(move_entities_inv);
            reveal(moved_inv);
            assert forall|x: i32| visited@.contains(x) implies x == eid by {
                let k = choose|k: int| 0 <= k < visited@.len() && visited@[k] == x;
            }
            assert forall|i: int|
                0 <= i < s.len() && visited@.contains((#[trigger] s[i]).id) implies
            self.entities@[i] == moved_entity(s[i], target, vector, absolute, eid) by {
                reveal(moved_entity);
                if i < root_idx as int {
                    assert(s[i].id != s[root_idx as int].id);
                } else if i > root_idx as int {
                    assert(s[root_idx as int].id != s[i].id);
                }
            }
            assert(has_entity(s, eid));
            assert(move_entities_inv(s, self.entities@, visited@, target, vector, absolute, eid));
            assert(moved_inv(old(self).moved@, self.moved@, visited@, s));
        }
        // propagate through the attachment graph
        while work.len() > 0
            invariant
                self.wf(),
                s.len() == self.entities@.len(),
                visited@.no_duplicates(),
                visited@.len() >= 1 && visited@[0] == eid,
                forall|k: int| 0 <= k < visited@.len() ==> has_entity(s, #[trigger] visited@[k]),
                forall|k: int|
                    1 <= k < visited@.len() ==> owned_child_into(s, #[trigger] visited@[k], visited@),
                forall|w: int|
                    0 <= w < work@.len() ==> owned_child_into(s, #[trigger] work@[w], visited@),
                forall|i: int|
                    0 <= i < s.len() && (#[trigger] s[i]).owner is Some && s[i].parent is Some
                        && visited@.contains(s[i].parent->0) ==> (visited@.contains(s[i].id)
                        || work@.contains(s[i].id)),
                move_entities_inv(s, self.entities@, visited@, target, vector, absolute, eid),
                moved_inv(old(self).moved@, self.moved@, visited@, s),
                self.update == true,
                self.orphaned == old(self).orphaned,
                self.deleted == old(self).deleted,
                self.info == old(self).info,
            decreases s.len() - visited@.len(), work@.len(),
        {
            let ghost prev_work = work@;
            let c = match work.pop() {
                Some(c) => c,
                None => { return ; },
            };
            proof {
                assert(prev_work[prev_work.len() - 1] == c);
                assert(owned_child_into(s, c, visited@));
                assert forall|w: int| 0 <= w < work@.len() implies owned_child_into(
                    s,
                    #[trigger] work@[w],
                    visited@,
                ) by {
                    assert(prev_work[w] == work@[w]);
                }
            }
            if contains_i32(&visited, c) {
                proof {
                    assert forall|i: int|
                        0 <= i < s.len() && (#[trigger] s[i]).owner is Some && s[i].parent
                            is Some && visited@.contains(s[i].parent->0) implies (
                    visited@.contains(s[i].id) || work@.contains(s[i].id)) by {
                        if prev_work.contains(s[i].id) {
                            let w = choose|w: int|
                                0 <= w < prev_work.len() && prev_work[w] == s[i].id;
                            if w < work@.len() {
                                assert(work@[w] == s[i].id);
                            } else {
                                assert(s[i].id == c);
                            }
                        }
                    }
                    lemma_visited_bound(visited@, s);
                }
                continue ;
            }
            proof {
                lemma_visited_bound(visited@, s);
            }
            let ghost prev_visited = visited@;
            visited.push(c);
            proof {
                lemma_push_contains(prev_visited, c);
                assert(visited@.no_duplicates());
                assert(prev_visited.contains(eid)) by {
                    assert(prev_visited[0] == eid);
                }
                assert(c != eid);
                assert forall|k: int| 1 <= k < visited@.len() implies owned_child_into(
                    s,
                    #[trigger] visited@[k],
                    visited@,
                ) by {
                    if k < visited@.len() - 1 {
                        assert(prev_visited[k] == visited@[k]);
                        lemma_owned_child_monotone(s, prev_visited[k], prev_visited, visited@);
                    } else {
                        assert(visited@[k] == c);
                        lemma_owned_child_monotone(s, c, prev_visited, visited@);
                    }
                }
                assert forall|w: int| 0 <= w < work@.len() implies owned_child_into(
                    s,
                    #[trigger] work@[w],
                    visited@,
                ) by {
                    lemma_owned_child_monotone(s, work@[w], prev_visited, visited@);
                }
            }
            let ci = match self.find_index(c) {
                Some(i) => i,
                None => { return ; },
            };
            proof {
                reveal(move_entities_inv);
                assert(self.entities@[ci as int].id == c);
                assert(s[ci as int].id == c) by {
                    if !prev_visited.contains(s[ci as int].id) {
                        assert(self.entities@[ci as int] == s[ci as int]);
                    } else {
                        assert(self.entities@[ci as int] == moved_entity(
                            s[ci as int],
                            target,
                            vector,
                            absolute,
                            eid,
                        ));
                    }
                }
                lemma_idx_of_unique(s, ci as int);
            }
            {
                let lm = self.entities[ci].last_movement;
                let from = self.entities[ci].pos;
                let delta = sat3_sub_exec(target, from);
                let e = &mut self.entities[ci];
                e.pos = target;
                e.last_movement = sat3_exec(lm, delta);
            }
            proof {
                reveal(move_entities_inv);
                assert forall|i: int|
                    0 <= i < s.len() && visited@.contains((#[trigger] s[i]).id) implies
                self.entities@[i] == moved_entity(s[i], target, vector, absolute, eid) by {
                    reveal(moved_entity);
                    if s[i].id == c {
                        if i < ci as int {
                            assert(s[i].id != s[ci as int].id);
                        } else if i > ci as int {
                            assert(s[ci as int].id != s[i].id);
                        }
                    }
                }
                assert(move_entities_inv(s, self.entities@, visited@, target, vector, absolute, eid));
            }
            let ghost pre_moved2 = self.moved@;
            if !contains_i32(&self.moved, c) {
                self.moved.push(c);
                proof {
                    lemma_push_contains(pre_moved2, c);
                }
            }
            proof {
                reveal(moved_inv);
                assert(has_entity(s, c)) by {
                    assert(s[ci as int].id == c);
                }
                lemma_visited_bound(visited@, s);
                assert(moved_inv(old(self).moved@, pre_moved2, prev_visited, s));
                assert forall|x: i32|
                    #[trigger] self.moved@.contains(x) <==> (old(self).moved@.contains(x) || (
                    visited@.contains(x) && has_entity(s, x))) by {
                    let h1 = pre_moved2.contains(x);
                    let h2 = prev_visited.contains(x);
                    let h3 = visited@.contains(x);
                    let h4 = has_entity(s, x);
                }
                assert(moved_inv(old(self).moved@, self.moved@, visited@, s));
            }
            proof {
                assert forall|i: int|
                    0 <= i < s.len() implies ((#[trigger] self.entities@[i]).id == s[i].id
                    && self.entities@[i].owner == s[i].owner && self.entities@[i].parent
                    == s[i].parent) by {
                    reveal(move_entities_inv);
                    if visited@.contains(s[i].id) {
                        lemma_moved_entity_skeleton(s[i], target, vector, absolute, eid);
                    }
                }
            }
            let mut more = self.owned_children_scan(c, Ghost(s), Ghost(visited@));
            let ghost pw = work@;
            let ghost gm = more@;
            work.append(&mut more);
            proof {
                assert forall|w: int| 0 <= w < work@.len() implies owned_child_into(
                    s,
                    #[trigger] work@[w],
                    visited@,
                ) by {
                    if w < pw.len() {
                        assert(work@[w] == pw[w]);
                    }
                }
                assert forall|i: int|
                    0 <= i < s.len() && (#[trigger] s[i]).owner is Some && s[i].parent is Some
                        && visited@.contains(s[i].parent->0) implies (visited@.contains(s[i].id)
                    || work@.contains(s[i].id)) by {
                    let p = s[i].parent->0;
                    if prev_visited.contains(p) {
                        if prev_visited.contains(s[i].id) {
                        } else if prev_work.contains(s[i].id) {
                            let w = choose|w: int|
                                0 <= w < prev_work.len() && prev_work[w] == s[i].id;
                            if w < prev_work.len() - 1 {
                                assert(pw[w] == s[i].id);
                                assert(work@[w] == s[i].id);
                            } else {
                                assert(s[i].id == c);
                            }
                        }
                    } else {
                        assert(p == c);
                        assert(s[i].parent == Some(c));
                        assert(gm.contains(s[i].id));
                        let w = choose|w: int| 0 <= w < gm.len() && gm[w] == s[i].id;
                        assert(work@[pw.len() + w] == s[i].id);
                        assert(work@.contains(s[i].id));
                    }
                }
            }
        }
        proof {
            let reached = visited@;
            assert(move_rel(*old(self), *self, reached, vector, absolute, eid)) by {
                assert(reached.contains(eid)) by {
                    assert(reached[0] == eid);
                }
                assert forall|i: int|
                    0 <= i < s.len() && (#[trigger] s[i]).owner is Some && s[i].parent is Some
                        && reached.contains(s[i].parent->0) implies reached.contains(s[i].id) by {
                    assert(visited@.contains(s[i].id) || work@.contains(s[i].id));
                    assert(work@.len() == 0);
                }
            }
        }
    }

    /// The ids of tracked, owned entities attached to `parent`, with the
    /// untouched entity list `s` as their pedigree witness.
    #[verifier::loop_isolation(false)]
    fn owned_children_scan(&self, parent: i32, Ghost(s): Ghost<Seq<Entity>>, Ghost(vis): Ghost<
        Seq<i32>,
    >) -> (r: Vec<i32>)
        requires
            self.wf(),
            s.len() == self.entities@.len(),
            forall|i: int|
                0 <= i < s.len() ==> ((#[trigger] self.entities@[i]).id == s[i].id
                    && self.entities@[i].owner == s[i].owner && self.entities@[i].parent
                    == s[i].parent),
            vis.contains(parent),
        ensures
            forall|w: int| 0 <= w < r@.len() ==> owned_child_into(s, #[trigger] r@[w], vis),
            forall|i: int|
                0 <= i < s.len() && (#[trigger] s[i]).owner is Some && s[i].parent == Some(parent)
                    ==> r@.contains(s[i].id),
    {
        let n = self.entities.len();
        let mut r: Vec<i32> = Vec::new();
        let mut k: usize = 0;
        while k < n
            invariant
                n == s.len(),
                k <= n,
                forall|w: int| 0 <= w < r@.len() ==> owned_child_into(s, #[trigger] r@[w], vis),
                forall|i: int|
                    0 <= i < k && (#[trigger] s[i]).owner is Some && s[i].parent == Some(parent)
                        ==> r@.contains(s[i].id),
            decreases n - k,
        {
            let is_child = match self.entities[k].parent {
                Some(p) => p == parent,
                None => false,
            };
            let has_owner = self.entities[k].owner.is_some();
            if is_child && has_owner {
                let c = self.entities[k].id;
                proof {
                    assert(s[k as int].id == c && s[k as int].owner is Some && s[k as int].parent
                        == Some(parent));
                    assert(owned_child_into(s, c, vis));
                }
                let ghost pr = r@;
                r.push(c);
                proof {
                    assert forall|i: int|
                        0 <= i < k + 1 && (#[trigger] s[i]).owner is Some && s[i].parent == Some(
                            parent,
                        ) implies r@.contains(s[i].id) by {
                        if i < k {
                            let w = choose|w: int| 0 <= w < pr.len() && pr[w] == s[i].id;
                            assert(r@[w] == s[i].id);
                        } else {
                            assert(r@.last() == s[i].id);
                        }
                    }
                    assert forall|w: int| 0 <= w < r@.len() implies owned_child_into(
                        s,
                        #[trigger] r@[w],
                        vis,
                    ) by {
                        if w < pr.len() {
                            assert(r@[w] == pr[w]);
                        } else {
                            assert(r@[w] == c);
                        }
                    }
                }
            }
            k += 1;
        }
        r
    }
}

/// Pushing onto an id list adds exactly that id to its members.
proof fn lemma_push_contains(prev: Seq<i32>, x: i32)
    ensures
        forall|y: i32| #[trigger] prev.push(x).contains(y) <==> (prev.contains(y) || y == x),
        !prev.contains(x) && prev.no_duplicates() ==> prev.push(x).no_duplicates(),
{
    assert forall|y: i32| #[trigger] prev.push(x).contains(y) implies (prev.contains(y) || y
        == x) by {
        let j = choose|j: int| 0 <= j < prev.push(x).len() && prev.push(x)[j] == y;
        if j < prev.len() {
            assert(prev[j] == y);
        }
    }
    assert forall|y: i32| prev.contains(y) implies prev.push(x).contains(y) by {
        let j = choose|j: int| 0 <= j < prev.len() && prev[j] == y;
        assert(prev.push(x)[j] == y);
    }
    assert(prev.push(x).contains(x)) by {
        assert(prev.push(x).last() == x);
    }
    if !prev.contains(x) && prev.no_duplicates() {
        assert forall|i: int, j: int|
            0 <= i < j < prev.push(x).len() implies prev.push(x)[i] != prev.push(x)[j] by {
            if j < prev.len() {
                assert(prev[i] != prev[j]);
            } else {
                assert(prev.push(x)[i] == prev[i]);
                assert(prev.contains(prev[i]));
            }
        }
    }
}

/// An owned-child pedigree survives growing the witness set.
proof fn lemma_owned_child_monotone(s: Seq<Entity>, c: i32, vis1: Seq<i32>, vis2: Seq<i32>)
    requires
        owned_child_into(s, c, vis1),
        forall|x: i32| vis1.contains(x) ==> vis2.contains(x),
    ensures
        owned_child_into(s, c, vis2),
{
    let i = choose|i: int|
        0 <= i < s.len() && (#[trigger] s[i]).id == c && s[i].owner is Some && s[i].parent
            is Some && vis1.contains(s[i].parent->0);
    assert(vis2.contains(s[i].parent->0));
    assert(0 <= i < s.len() && s[i].id == c && s[i].owner is Some && s[i].parent is Some
        && vis2.contains(s[i].parent->0));
}

impl EntityManager {
    /// Dispatches one inbound packet from a session to the registry:
    /// spawns, moves (teleport and relative), and attach/detach, each
    /// accepted only under the ownership rules; every other packet leaves
    /// the registry untouched.
    pub fn handle_packet(&mut self, p: &Packet, source: usize)
        requires
            old(self).wf(),
            packet_wf(p@),
        ensures
            final(self).wf(),
            p.id == 0x18 ==> spawn_rel(
                *old(self),
                *final(self),
                spawned_entity(
                    p@.fields[0]->I32_0,
                    EntityType::Mob(crate::entity::spec_to_mob_type(p@.fields[1]->U8_0)),
                    (
                        p@.fields[2]->I32_0 as i64,
                        p@.fields[3]->I32_0 as i64,
                        p@.fields[4]->I32_0 as i64,
                    ),
                    match spec_find_info(
                        old(self).info@,
                        EntityType::Mob(crate::entity::spec_to_mob_type(p@.fields[1]->U8_0)),
                    ) {
                        Some(i) => Some(i as usize),
                        None => None,
                    },
                    source,
                ),
            ),
            p.id == 0x17 ==> spawn_rel(
                *old(self),
                *final(self),
                spawned_entity(
                    p@.fields[0]->I32_0,
                    EntityType::Object(crate::entity::spec_to_object_type(p@.fields[1]->U8_0)),
                    (
                        p@.fields[2]->I32_0 as i64,
                        p@.fields[3]->I32_0 as i64,
                        p@.fields[4]->I32_0 as i64,
                    ),
                    match spec_find_info(
                        old(self).info@,
                        EntityType::Object(crate::entity::spec_to_object_type(p@.fields[1]->U8_0)),
                    ) {
                        Some(i) => Some(i as usize),
                        None => None,
                    },
                    source,
                ),
            ),
            p.id == 0x22 ==> move_packet_rel(
                *old(self),
                *final(self),
                p@.fields[0]->I32_0,
                (
                    p@.fields[1]->I32_0 as i64,
                    p@.fields[2]->I32_0 as i64,
                    p@.fields[3]->I32_0 as i64,
                ),
                true,
                source,
            ),
            p.id == 0x1f ==> move_packet_rel(
                *old(self),
                *final(self),
                p@.fields[0]->I32_0,
                (
                    p@.fields[1]->I8_0 as i64,
                    p@.fields[2]->I8_0 as i64,
                    p@.fields[3]->I8_0 as i64,
                ),
                false,
                source,
            ),
            p.id == 0x21 ==> move_packet_rel(
                *old(self),
                *final(self),
                p@.fields[0]->I32_0,
                (
                    p@.fields[1]->I8_0 as i64,
                    p@.fields[2]->I8_0 as i64,
                    p@.fields[3]->I8_0 as i64,
                ),
                false,
                source,
            ),
            p.id == 0x27 ==> attach_packet_rel(
                *old(self),
                *final(self),
                p@.fields[0]->I32_0,
                p@.fields[1]->I32_0,
                source,
            ),
            !(p.id == 0x17 || p.id == 0x18 || p.id == 0x1f || p.id == 0x21 || p.id == 0x22
                || p.id == 0x27) ==> *final(self) == *old(self),
    {
        match p.id {
            0x27 => {
                let eid = field_as_i32(p, 0);
                let vehicle = field_as_i32(p, 1);
                let accepted = match self.find_index(eid) {
                    Some(i) => match self.entities[i].owner {
                        Some(o) => o == source,
                        None => false,
                    },
                    None => false,
                };
                proof {
                    if accepted {
                        let i = idx_of(self.entities@, eid);
                    }
                }
                if !accepted {
                    return ;
                }
                if vehicle == -1 {
                    self.detach(eid);
                } else {
                    self.attach(eid, vehicle);
                }
            },
            0x17 => {
                let eid = field_as_i32(p, 0);
                let obj_type = field_as_u8(p, 1);
                let x = field_as_i32(p, 2);
                let y = field_as_i32(p, 3);
                let z = field_as_i32(p, 4);
                self.spawn_object(eid, obj_type, x, y, z, source);
            },
            0x18 => {
                let eid = field_as_i32(p, 0);
                let mob_type = field_as_u8(p, 1);
                let x = field_as_i32(p, 2);
                let y = field_as_i32(p, 3);
                let z = field_as_i32(p, 4);
                self.spawn_mob(eid, mob_type, x, y, z, source);
            },
            0x22 => {
                let eid = field_as_i32(p, 0);
                let x = field_as_i32(p, 1);
                let y = field_as_i32(p, 2);
                let z = field_as_i32(p, 3);
                self.entity_move((x as i64, y as i64, z as i64), true, eid, source);
            },
            0x1f => {
                let eid = field_as_i32(p, 0);
                let dx = field_as_i8(p, 1);
                let dy = field_as_i8(p, 2);
                let dz = field_as_i8(p, 3);
                self.entity_move((dx as i64, dy as i64, dz as i64), false, eid, source);
            },
            0x21 => {
                let eid = field_as_i32(p, 0);
                let dx = field_as_i8(p, 1);
                let dy = field_as_i8(p, 2);
                let dz = field_as_i8(p, 3);
                self.entity_move((dx as i64, dy as i64, dz as i64), false, eid, source);
            },
            _ => {},
        }
    }
}

/// How a movement packet changes the registry: nothing unless the source
/// owns the entity; an owner's move reaches the entity and its attached
/// subtree.
pub open spec fn move_packet_rel(
    o: EntityManager,
    n: EntityManager,
    eid: i32,
    vector: (i64, i64, i64),
    absolute: bool,
    source: usize,
) -> bool {
    &&& !spec_owned_by(o.entities@, eid, source) ==> n == o
    &&& spec_owned_by(o.entities@, eid, source) ==> exists|reached: Seq<i32>|
        move_rel(o, n, reached, vector, absolute, eid)
}

/// How an attach packet changes the registry: nothing unless the source
/// owns the entity; vehicle id minus one detaches, anything else sets the
/// parent edge.
pub open spec fn attach_packet_rel(
    o: EntityManager,
    n: EntityManager,
    eid: i32,
    vehicle: i32,
    source: usize,
) -> bool {
    &&& !spec_owned_by(o.entities@, eid, source) ==> n == o
    &&& spec_owned_by(o.entities@, eid, source) ==> (n == (EntityManager {
        entities: n.entities,
        ..o
    }) && n.entities@ == o.entities@.update(
        idx_of(o.entities@, eid),
        (Entity {
            parent: if vehicle == -1 {
                None
            } else {
                Some(vehicle)
            },
            ..entity_of(o.entities@, eid)
        }),
    ))
}

/// One packet field as a signed 32-bit integer; the packet's layout must
/// say the field has that type.
fn field_as_i32(p: &Packet, k: usize) -> (r: i32)
    requires
        packet_wf(p@),
        0 <= k < p@.fields.len(),
        field_matches(p@.fields[k as int], FieldType::I32),
    ensures
        p@.fields[k as int] == crate::packet::FieldView::I32(r),
{
    proof {
        assert(p@.fields[k as int] == p.fields@[k as int]@);
    }
    match &p.fields[k] {
        FieldValue::I32(v) => *v,
        _ => {
            proof {
                assert(false);
            }
            0
        },
    }
}

/// One packet field as an unsigned byte.
fn field_as_u8(p: &Packet, k: usize) -> (r: u8)
    requires
        packet_wf(p@),
        0 <= k < p@.fields.len(),
        field_matches(p@.fields[k as int], FieldType::U8),
    ensures
        p@.fields[k as int] == crate::packet::FieldView::U8(r),
{
    proof {
        assert(p@.fields[k as int] == p.fields@[k as int]@);
    }
    match &p.fields[k] {
        FieldValue::U8(v) => *v,
        _ => {
            proof {
                assert(false);
            }
            0
        },
    }
}

/// One packet field as a signed byte.
fn field_as_i8(p: &Packet, k: usize) -> (r: i8)
    requires
        packet_wf(p@),
        0 <= k < p@.fields.len(),
        field_matches(p@.fields[k as int], FieldType::I8),
    ensures
        p@.fields[k as int] == crate::packet::FieldView::I8(r),
{
    proof {
        assert(p@.fields[k as int] == p.fields@[k as int]@);
    }
    match &p.fields[k] {
        FieldValue::I8(v) => *v,
        _ => {
            proof {
                assert(false);
            }
            0
        },
    }
}

/// Each tracked entity id names exactly one entity, and so has at most
/// one owner: ownership is a function of the id.
pub proof fn lemma_ownership_unique(m: EntityManager, i: int, j: int)
    requires
        m.wf(),
        0 <= i < m.entities@.len(),
        0 <= j < m.entities@.len(),
        m.entities@[i].id == m.entities@[j].id,
    ensures
        i == j,
        m.entities@[i].owner == m.entities@[j].owner,
{
    if i < j {
        assert(m.entities@[i].id != m.entities@[j].id);
    } else if j < i {
        assert(m.entities@[j].id != m.entities@[i].id);
    }
}

/// The attachment invariant: at any time, an entity B names A as its
/// parent exactly when B is among the children resolved for A. With the
/// graph stored as parent edges and children derived by scanning, the two
/// directions agree by construction, after any sequence of attach and
/// detach operations.
pub proof fn lemma_attachment_invariant(m: EntityManager, a: i32, b: i32)
    requires
        m.wf(),
        has_entity(m.entities@, b),
    ensures
        entity_of(m.entities@, b).parent == Some(a) <==> spec_children_of(
            m.entities@,
            a,
        ).contains(b),
{
    let s = m.entities@;
    if entity_of(s, b).parent == Some(a) {
        let i = idx_of(s, b);
        assert(0 <= i < s.len() && s[i].id == b && s[i].parent == Some(a));
        assert(spec_children_of(s, a).contains(b));
    }
    if spec_children_of(s, a).contains(b) {
        let i = choose|i: int| 0 <= i < s.len() && s[i].id == b && s[i].parent == Some(a);
        lemma_idx_of_unique(s, i);
        assert(entity_of(s, b).parent == Some(a));
    }
}

/// Orphan resolution resolves a destroyed entity exactly as the sessions
/// dictate: after its owner reports it destroyed, an entity that no
/// session knows is gone from the registry by the end of the tick, and
/// one that some session still knows stays, its ownership transferred to
/// the last such session.
pub proof fn lemma_orphan_resolution(
    s0: EntityManager,
    s1: EntityManager,
    s2: EntityManager,
    ids: Seq<i32>,
    source: usize,
    sessions: Seq<SessionKnown>,
    o: i32,
)
    requires
        s0.wf(),
        EntityManager::destroy_rel(s0, s1, ids, source),
        s2.entities@ == spec_resolve(s1.entities@, s1.orphaned@, sessions),
        ids.contains(o),
        spec_owned_by(s0.entities@, o, source),
    ensures
        last_knower(sessions, o) is None ==> !has_entity(s2.entities@, o),
        last_knower(sessions, o) is Some ==> (has_entity(s2.entities@, o) && entity_of(
            s2.entities@,
            o,
        ).owner == Some(last_knower(sessions, o)->0)),
{
    assert(s1.orphaned@.contains(o));
    let i = idx_of(s0.entities@, o);
    assert(0 <= i < s0.entities@.len() && s0.entities@[i].id == o);
    assert(s1.entities@[i] == (if ids.contains(s0.entities@[i].id) && s0.entities@[i].owner
        == Some(source) {
        Entity { owner: None, ..s0.entities@[i] }
    } else {
        s0.entities@[i]
    }));
    assert(s1.entities@[i].id == o);
    assert(has_entity(s1.entities@, o));
    lemma_resolve_membership(s1.entities@, s1.orphaned@, sessions, o);
}

/// What resolution does to one id: drops it exactly when it is an orphan
/// nobody knows, and re-owns it to the last knower when it is an orphan
/// somebody knows.
proof fn lemma_resolve_membership(
    s: Seq<Entity>,
    orphaned: Seq<i32>,
    sessions: Seq<SessionKnown>,
    o: i32,
)
    requires
        orphaned.contains(o),
    ensures
        last_knower(sessions, o) is None ==> !has_entity(
            spec_resolve(s, orphaned, sessions),
            o,
        ),
        (last_knower(sessions, o) is Some && has_entity(s, o)) ==> (has_entity(
            spec_resolve(s, orphaned, sessions),
            o,
        ) && entity_of(spec_resolve(s, orphaned, sessions), o).owner == Some(
            last_knower(sessions, o)->0,
        )),
    decreases s.len(),
{
    let r = spec_resolve(s, orphaned, sessions);
    if s.len() == 0 {
        assert(!has_entity(r, o));
    } else {
        lemma_resolve_membership(s.skip(1), orphaned, sessions, o);
        let rest = spec_resolve(s.skip(1), orphaned, sessions);
        if last_knower(sessions, o) is None {
            if resolve_keeps(s[0], orphaned, sessions) {
                assert(r == seq![resolve_entity(s[0], orphaned, sessions)] + rest);
                assert(resolve_entity(s[0], orphaned, sessions).id == s[0].id);
                if has_entity(r, o) {
                    let i = choose|i: int| 0 <= i < r.len() && r[i].id == o;
                    if i == 0 {
                        assert(s[0].id == o);
                        assert(!resolve_keeps(s[0], orphaned, sessions));
                    } else {
                        assert(rest[i - 1].id == o);
                        assert(has_entity(rest, o));
                    }
                }
            } else {
                assert(r == rest);
            }
        } else {
            let k = last_knower(sessions, o)->0;
            if has_entity(s, o) {
                let i = choose|i: int| 0 <= i < s.len() && s[i].id == o;
                if s[0].id == o {
                    assert(resolve_keeps(s[0], orphaned, sessions));
                    let e0 = resolve_entity(s[0], orphaned, sessions);
                    assert(e0.id == o && e0.owner == Some(k));
                    assert(r[0] == e0);
                    assert(has_entity(r, o));
                    lemma_resolve_ids_unique_note(s, orphaned, sessions, o, r);
                } else {
                    assert(s.skip(1)[i - 1].id == o);
                    assert(has_entity(s.skip(1), o));
                    assert(has_entity(rest, o) && entity_of(rest, o).owner == Some(k));
                    if resolve_keeps(s[0], orphaned, sessions) {
                        let j = idx_of(rest, o);
                        assert(0 <= j < rest.len() && rest[j].id == o);
                        assert(r[j + 1] == rest[j]);
                        assert(has_entity(r, o)) by {
                            assert(r[j + 1].id == o);
                        }
                        lemma_resolve_ids_unique_note(s, orphaned, sessions, o, r);
                    } else {
                        assert(r == rest);
                    }
                }
            }
        }
    }
}

/// In the knower case, every entity with the orphan's id in the resolved
/// list carries the adopted owner.
proof fn lemma_resolve_ids_unique_note(
    s: Seq<Entity>,
    orphaned: Seq<i32>,
    sessions: Seq<SessionKnown>,
    o: i32,
    r: Seq<Entity>,
)
    requires
        r == spec_resolve(s, orphaned, sessions),
        orphaned.contains(o),
        last_knower(sessions, o) is Some,
    ensures
        forall|j: int|
            0 <= j < r.len() && (#[trigger] r[j]).id == o ==> r[j].owner == Some(
                last_knower(sessions, o)->0,
            ),
        has_entity(r, o) ==> entity_of(r, o).owner == Some(last_knower(sessions, o)->0),
    decreases s.len(),
{
    if s.len() == 0 {
    } else {
        lemma_resolve_ids_unique_note(s.skip(1), orphaned, sessions, o, spec_resolve(
            s.skip(1),
            orphaned,
            sessions,
        ));
        let rest = spec_resolve(s.skip(1), orphaned, sessions);
        if resolve_keeps(s[0], orphaned, sessions) {
            assert(r == seq![resolve_entity(s[0], orphaned, sessions)] + rest);
            assert forall|j: int| 0 <= j < r.len() && (#[trigger] r[j]).id == o implies r[j].owner
                == Some(last_knower(sessions, o)->0) by {
                if j == 0 {
                    assert(r[0] == resolve_entity(s[0], orphaned, sessions));
                } else {
                    assert(r[j] == rest[j - 1]);
                }
            }
        } else {
            assert(r == rest);
        }
    }
    if has_entity(r, o) {
        let j = idx_of(r, o);
        assert(0 <= j < r.len() && r[j].id == o);
    }
}

/// A move carries the attachment graph: any tracked, owned entity whose
/// parent edge names a reached id is itself reached, and so sits at the
/// move's resulting position. Applied along a parent chain — starting
/// from the moved id, which is always reached — every attached
/// descendant with an owner follows a moved vehicle, each through its
/// own recorded owner.
pub proof fn lemma_move_carries_children(
    o: EntityManager,
    n: EntityManager,
    reached: Seq<i32>,
    vector: (i64, i64, i64),
    absolute: bool,
    eid: i32,
    c: i32,
)
    requires
        o.wf(),
        move_rel(o, n, reached, vector, absolute, eid),
        has_entity(o.entities@, c),
        entity_of(o.entities@, c).owner is Some,
        entity_of(o.entities@, c).parent is Some,
        reached.contains(entity_of(o.entities@, c).parent->0),
    ensures
        reached.contains(c),
        n.entities@[idx_of(o.entities@, c)].pos == move_target(o.entities@, eid, vector, absolute),
{
    let s = o.entities@;
    let i = idx_of(s, c);
    assert(0 <= i < s.len() && s[i].id == c);
    assert(s[i] == entity_of(s, c));
    assert(reached.contains(s[i].id));
    reveal(move_entities_inv);
    lemma_moved_entity_skeleton(
        s[i],
        move_target(s, eid, vector, absolute),
        vector,
        absolute,
        eid,
    );
    assert(n.entities@[i] == moved_entity(
        s[i],
        move_target(s, eid, vector, absolute),
        vector,
        absolute,
        eid,
    ));
}

} // verus!
