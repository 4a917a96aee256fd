//! In-place access to entity slots and batched reference-count
//! adjustments: one increment or decrement per occurrence in a target
//! list.

use vstd::prelude::*;

use crate::ids::{Credential, EntityId};
use crate::refs::{count_ids, entity_refs, lemma_count_empty, lemma_count_take_le,
    lemma_count_take_step,
    lemma_store_refs_le, lemma_store_refs_take_le, lemma_store_refs_take_step,
    lemma_values_refs_take_le, lemma_values_refs_take_step, rc_adjusted, slot_refs, store_refs,
    values_refs};
use crate::state::{Entity, EntityView, Module};

verus! {

/// Counts how often an id occurs in a list.
pub(crate) fn count_occurrences(v: &Vec<EntityId>, t: EntityId) -> (r: usize)
    ensures
        r == count_ids(v@, t),
{
    let mut r: usize = 0;
    let mut i: usize = 0;
    proof {
        assert(v@.take(0) =~= Seq::<EntityId>::empty());
        lemma_count_empty(t);
    }
    while i < v.len()
        invariant
            i <= v.len(),
            r == count_ids(v@.take(i as int), t),
            r <= i,
        decreases v.len() - i,
    {
        proof {
            crate::refs::lemma_count_take_step(v@, i as int, t);
        }
        if v[i] == t {
            r = r + 1;
        }
        i += 1;
    }
    proof {
        assert(v@.take(v@.len() as int) =~= v@);
    }
    r
}

impl Module {
    /// A mutable borrow of a live entity slot.
    pub fn entity_mut(&mut self, i: usize) -> (r: &mut Entity)
        requires
            i < old(self).entities@.len(),
            old(self).entities@[i as int] is Some,
        ensures
            *r == old(self).entities@[i as int]->Some_0,
            final(self).entities@ == old(self).entities@.update(i as int, Some(*final(r))),
            *final(self) == (Module { entities: final(self).entities, ..*old(self) }),
    {
        match &mut self.entities[i] {
            Some(e) => e,
            None => vstd::pervasive::unreached(),
        }
    }

    /// Records or clears the maintainer credential of an entity slot.
    pub(crate) fn set_maintainer_slot(&mut self, i: usize, credential: Option<Credential>)
        requires
            i < old(self).entity_maintainer_by_entity_id@.len(),
        ensures
            final(self).entity_maintainer_by_entity_id@ == old(
                self,
            ).entity_maintainer_by_entity_id@.update(i as int, credential),
            *final(self) == (Module {
                entity_maintainer_by_entity_id: final(self).entity_maintainer_by_entity_id,
                ..*old(self)
            }),
    {
        self.entity_maintainer_by_entity_id.set(i, credential);
    }

    /// Decrements one entity's reference count.
    pub(crate) fn entity_rc_sub(&mut self, t: EntityId)
        requires
            t < old(self).entities@.len(),
            old(self).entities@[t as int] is Some,
            old(self).entities@[t as int]->Some_0.reference_count >= 1,
        ensures
            final(self).entities_dv() == old(self).entities_dv().update(
                t as int,
                rc_adjusted(old(self).entities_dv()[t as int], -1),
            ),
            final(self).entities@.len() == old(self).entities@.len(),
            *final(self) == (Module { entities: final(self).entities, ..*old(self) }),
    {
        let i = self.entity_index(t);
        let e = self.entity_mut(i);
        e.reference_count = e.reference_count - 1;
        proof {
            assert(self.entities_dv() =~= old(self).entities_dv().update(
                t as int,
                rc_adjusted(old(self).entities_dv()[t as int], -1),
            ));
        }
    }

    /// Increments one entity's reference count.
    pub(crate) fn entity_rc_add(&mut self, t: EntityId)
        requires
            t < old(self).entities@.len(),
            old(self).entities@[t as int] is Some,
            old(self).entities@[t as int]->Some_0.reference_count < u32::MAX,
        ensures
            final(self).entities_dv() == old(self).entities_dv().update(
                t as int,
                rc_adjusted(old(self).entities_dv()[t as int], 1),
            ),
            final(self).entities@.len() == old(self).entities@.len(),
            *final(self) == (Module { entities: final(self).entities, ..*old(self) }),
    {
        let i = self.entity_index(t);
        let e = self.entity_mut(i);
        e.reference_count = e.reference_count + 1;
        proof {
            assert(self.entities_dv() =~= old(self).entities_dv().update(
                t as int,
                rc_adjusted(old(self).entities_dv()[t as int], 1),
            ));
        }
    }

    /// Decrements reference counts, one per occurrence in the target list.
    #[verifier::loop_isolation(false)]
    pub(crate) fn decrement_entities_rc(&mut self, targets: &Vec<EntityId>)
        requires
            forall|k: int| 0 <= k < targets@.len() ==> old(self).entity_live(#[trigger] targets@[k]),
            forall|k: int|
                0 <= k < targets@.len() ==> count_ids(targets@, #[trigger] targets@[k]) <= old(
                    self,
                ).entity_at(targets@[k]).reference_count,
        ensures
            final(self).entities@.len() == old(self).entities@.len(),
            forall|t: int|
                0 <= t < old(self).entities@.len() ==> final(self).entities_dv()[t] == rc_adjusted(
                    old(self).entities_dv()[t],
                    -(count_ids(targets@, t as EntityId) as int),
                ),
            *final(self) == (Module { entities: final(self).entities, ..*old(self) }),
    {
        let n_entities = self.entities.len();
        let mut i: usize = 0;
        proof {
            assert forall|t: int|
                0 <= t < old(self).entities@.len() implies self.entities_dv()[t] == rc_adjusted(
                old(self).entities_dv()[t],
                -(count_ids(targets@.take(0), t as EntityId) as int),
            ) by {
                assert(targets@.take(0) =~= Seq::<EntityId>::empty());
                targets@.take(0).to_multiset_ensures();
                assert(count_ids(targets@.take(0), t as EntityId) == 0);
                match old(self).entities_dv()[t] {
                    Some(e) => {
                        assert(rc_adjusted(old(self).entities_dv()[t], 0) == Some(
                            EntityView { reference_count: (e.reference_count + 0) as u32, ..e },
                        ));
                    },
                    None => {},
                }
            }
        }
        while i < targets.len()
            invariant
                i <= targets@.len(),
                self.entities@.len() == old(self).entities@.len(),
                forall|t: int|
                    0 <= t < old(self).entities@.len() ==> self.entities_dv()[t] == rc_adjusted(
                        old(self).entities_dv()[t],
                        -(count_ids(targets@.take(i as int), t as EntityId) as int),
                    ),
                *self == (Module { entities: self.entities, ..*old(self) }),
            decreases targets@.len() - i,
        {
            let t = targets[i];
            let ghost mid = *self;
            proof {
                lemma_count_take_step(targets@, i as int, t);
                lemma_count_take_le(targets@, i as int + 1, t);
                assert(mid.entities_dv()[t as int] == rc_adjusted(
                    old(self).entities_dv()[t as int],
                    -(count_ids(targets@.take(i as int), t) as int),
                ));
            }
            proof {
                assert(count_ids(targets@, t) <= old(self).entity_at(t).reference_count);
                assert(mid.entities@[t as int] is Some) by {
                    assert(mid.entities_dv()[t as int] is Some);
                }
            }
            self.entity_rc_sub(t);
            proof {
                assert forall|x: int|
                    0 <= x < old(self).entities@.len() implies self.entities_dv()[x] == rc_adjusted(
                    old(self).entities_dv()[x],
                    -(count_ids(targets@.take(i as int + 1), x as EntityId) as int),
                ) by {
                    lemma_count_take_step(targets@, i as int, x as EntityId);
                    if x == t as int {
                        assert(x as EntityId == t);
                        lemma_count_take_le(targets@, i as int + 1, x as EntityId);
                        let e = old(self).entities_dv()[x]->Some_0;
                        let c0 = count_ids(targets@.take(i as int), t) as int;
                        let c1 = count_ids(targets@.take(i as int + 1), t) as int;
                        assert(c1 == c0 + 1);
                        assert(c1 <= e.reference_count);
                        assert(mid.entities_dv()[x]->Some_0.reference_count == e.reference_count
                            - c0);
                        assert(self.entities_dv()[x] == rc_adjusted(mid.entities_dv()[x], -1));
                        assert(self.entities_dv()[x] == Some(
                            EntityView {
                                reference_count: (e.reference_count - c1) as u32,
                                ..e
                            },
                        ));
                        assert(rc_adjusted(old(self).entities_dv()[x], -c1) == Some(
                            EntityView {
                                reference_count: (e.reference_count - c1) as u32,
                                ..e
                            },
                        ));
                    } else {
                        assert(x as EntityId != t);
                        assert(count_ids(targets@.take(i as int + 1), x as EntityId) == count_ids(
                            targets@.take(i as int),
                            x as EntityId,
                        ));
                        assert(self.entities_dv()[x] == mid.entities_dv()[x]);
                    }
                }
            }
            i += 1;
        }
        proof {
            assert(targets@.take(targets@.len() as int) =~= targets@);
        }
    }

    /// Increments reference counts, one per occurrence in the target list.
    #[verifier::loop_isolation(false)]
    pub(crate) fn increment_entities_rc(&mut self, targets: &Vec<EntityId>)
        requires
            forall|k: int| 0 <= k < targets@.len() ==> old(self).entity_live(#[trigger] targets@[k]),
            forall|k: int|
                0 <= k < targets@.len() ==> old(self).entity_at(
                    #[trigger] targets@[k],
                ).reference_count + count_ids(targets@, targets@[k]) <= u32::MAX,
        ensures
            final(self).entities@.len() == old(self).entities@.len(),
            forall|t: int|
                0 <= t < old(self).entities@.len() ==> final(self).entities_dv()[t] == rc_adjusted(
                    old(self).entities_dv()[t],
                    count_ids(targets@, t as EntityId) as int,
                ),
            *final(self) == (Module { entities: final(self).entities, ..*old(self) }),
    {
        let n_entities = self.entities.len();
        let mut i: usize = 0;
        proof {
            assert forall|t: int|
                0 <= t < old(self).entities@.len() implies self.entities_dv()[t] == rc_adjusted(
                old(self).entities_dv()[t],
                count_ids(targets@.take(0), t as EntityId) as int,
            ) by {
                assert(targets@.take(0) =~= Seq::<EntityId>::empty());
                targets@.take(0).to_multiset_ensures();
                assert(count_ids(targets@.take(0), t as EntityId) == 0);
                match old(self).entities_dv()[t] {
                    Some(e) => {
                        assert(rc_adjusted(old(self).entities_dv()[t], 0) == Some(
                            EntityView { reference_count: (e.reference_count + 0) as u32, ..e },
                        ));
                    },
                    None => {},
                }
            }
        }
        while i < targets.len()
            invariant
                i <= targets@.len(),
                self.entities@.len() == old(self).entities@.len(),
                forall|t: int|
                    0 <= t < old(self).entities@.len() ==> self.entities_dv()[t] == rc_adjusted(
                        old(self).entities_dv()[t],
                        count_ids(targets@.take(i as int), t as EntityId) as int,
                    ),
                *self == (Module { entities: self.entities, ..*old(self) }),
            decreases targets@.len() - i,
        {
            let t = targets[i];
            let ghost mid = *self;
            proof {
                lemma_count_take_step(targets@, i as int, t);
                lemma_count_take_le(targets@, i as int + 1, t);
                assert(mid.entities_dv()[t as int] == rc_adjusted(
                    old(self).entities_dv()[t as int],
                    count_ids(targets@.take(i as int), t) as int,
                ));
            }
            proof {
                assert(old(self).entity_at(t).reference_count + count_ids(targets@, t)
                    <= u32::MAX);
                assert(mid.entities@[t as int] is Some) by {
                    assert(mid.entities_dv()[t as int] is Some);
                }
            }
            self.entity_rc_add(t);
            proof {
                assert forall|x: int|
                    0 <= x < old(self).entities@.len() implies self.entities_dv()[x] == rc_adjusted(
                    old(self).entities_dv()[x],
                    count_ids(targets@.take(i as int + 1), x as EntityId) as int,
                ) by {
                    lemma_count_take_step(targets@, i as int, x as EntityId);
                    if x == t as int {
                        assert(x as EntityId == t);
                        lemma_count_take_le(targets@, i as int + 1, x as EntityId);
                        let e = old(self).entities_dv()[x]->Some_0;
                        let c0 = count_ids(targets@.take(i as int), t) as int;
                        let c1 = count_ids(targets@.take(i as int + 1), t) as int;
                        assert(c1 == c0 + 1);
                        assert(e.reference_count + c1 <= u32::MAX);
                        assert(mid.entities_dv()[x]->Some_0.reference_count == e.reference_count
                            + c0);
                        assert(self.entities_dv()[x] == rc_adjusted(mid.entities_dv()[x], 1));
                        assert(self.entities_dv()[x] == Some(
                            EntityView {
                                reference_count: (e.reference_count + c1) as u32,
                                ..e
                            },
                        ));
                        assert(rc_adjusted(old(self).entities_dv()[x], c1) == Some(
                            EntityView {
                                reference_count: (e.reference_count + c1) as u32,
                                ..e
                            },
                        ));
                    } else {
                        assert(x as EntityId != t);
                        assert(count_ids(targets@.take(i as int + 1), x as EntityId) == count_ids(
                            targets@.take(i as int),
                            x as EntityId,
                        ));
                        assert(self.entities_dv()[x] == mid.entities_dv()[x]);
                    }
                }
            }
            i += 1;
        }
        proof {
            assert(targets@.take(targets@.len() as int) =~= targets@);
        }
    }
}


impl Module {
    /// Recounts, from the stored values alone, how many reference values
    /// point at an entity.  This is the audit face of exact reference
    /// counting: under the store invariant it always equals the entity's
    /// stored count.
    #[verifier::loop_isolation(false)]
    pub fn recomputed_reference_count(&self, target: EntityId) -> (r: u32)
        requires
            self.inv(),
        ensures
            r == store_refs(self.entities_dv(), target),
            self.entity_live(target) ==> r == self.entity_at(target).reference_count,
    {
        let ghost dv = self.entities_dv();
        proof {
            assert(store_refs(dv, target) <= u32::MAX) by {
                if store_refs(dv, target) > 0 {
                    assert(target < dv.len() && dv[target as int] is Some);
                    assert(self.entity_at(target).reference_count == store_refs(dv, target));
                }
            }
            assert(dv.take(0) =~= Seq::<Option<EntityView>>::empty());
        }
        let mut r: u32 = 0;
        let mut i: usize = 0;
        while i < self.entities.len()
            invariant
                i <= self.entities@.len(),
                r == store_refs(dv.take(i as int), target),
            decreases self.entities@.len() - i,
        {
            proof {
                lemma_store_refs_take_step(dv, i as int, target);
                lemma_store_refs_take_le(dv, i as int + 1, target);
            }
            match &self.entities[i] {
                None => {
                    proof {
                        assert(entity_refs(dv[i as int], target) == 0);
                    }
                },
                Some(entity) => {
                    let ghost vals = entity@.values;
                    proof {
                        assert(dv[i as int] == Some(entity@));
                        assert(vals.take(0) =~= Seq::<Option<
                            crate::schema::PropertyValueView,
                        >>::empty());
                        lemma_store_refs_le(dv, i as int, target);
                    }
                    let mut s: u32 = 0;
                    let mut j: usize = 0;
                    while j < entity.values.len()
                        invariant
                            j <= entity.values@.len(),
                            vals == entity@.values,
                            dv[i as int] == Some(entity@),
                            s == values_refs(vals.take(j as int), target),
                        decreases entity.values@.len() - j,
                    {
                        proof {
                            lemma_values_refs_take_step(vals, j as int, target);
                            lemma_values_refs_take_le(vals, j as int + 1, target);
                            assert(values_refs(vals, target) == entity_refs(dv[i as int], target));
                        }
                        match &entity.values[j] {
                            None => {
                                proof {
                                    assert(slot_refs(vals[j as int], target) == 0);
                                }
                            },
                            Some(value) => {
                                let ids = value.involved_entities();
                                let mut c: u32 = 0;
                                let mut k: usize = 0;
                                proof {
                                    assert(ids@.take(0) =~= Seq::<EntityId>::empty());
                                    crate::refs::lemma_count_empty(target);
                                    assert(count_ids(ids@, target) == slot_refs(
                                        vals[j as int],
                                        target,
                                    ));
                                }
                                while k < ids.len()
                                    invariant
                                        k <= ids@.len(),
                                        c == count_ids(ids@.take(k as int), target),
                                    decreases ids@.len() - k,
                                {
                                    proof {
                                        lemma_count_take_step(ids@, k as int, target);
                                        lemma_count_take_le(ids@, k as int + 1, target);
                                    }
                                    if ids[k] == target {
                                        c = c + 1;
                                    }
                                    k += 1;
                                }
                                proof {
                                    assert(ids@.take(ids@.len() as int) =~= ids@);
                                }
                                s = s + c;
                            },
                        }
                        j += 1;
                    }
                    proof {
                        assert(vals.take(vals.len() as int) =~= vals);
                    }
                    r = r + s;
                },
            }
            i += 1;
        }
        proof {
            assert(dv.take(dv.len() as int) =~= dv);
        }
        r
    }
}


impl Module {
    /// Applies the net reference-count change of a value commit in one
    /// write per target: each target's count moves by its occurrences in
    /// the increment list minus its occurrences in the decrement list.
    #[verifier::loop_isolation(false)]
    pub(crate) fn apply_net_rc(&mut self, inc: &Vec<EntityId>, dec: &Vec<EntityId>)
        requires
            forall|k: int| 0 <= k < inc@.len() ==> old(self).entity_live(#[trigger] inc@[k]),
            forall|k: int| 0 <= k < dec@.len() ==> old(self).entity_live(#[trigger] dec@[k]),
            forall|t: EntityId|
                #![trigger count_ids(inc@, t)]
                old(self).entity_live(t) ==> count_ids(dec@, t) <= old(self).entity_at(
                    t,
                ).reference_count + count_ids(inc@, t) && old(self).entity_at(t).reference_count
                    + count_ids(inc@, t) - count_ids(dec@, t) <= u32::MAX,
        ensures
            final(self).entities@.len() == old(self).entities@.len(),
            forall|i: int|
                0 <= i < old(self).entities@.len() ==> final(self).entities_dv()[i] == rc_adjusted(
                    old(self).entities_dv()[i],
                    count_ids(inc@, i as EntityId) as int - count_ids(dec@, i as EntityId) as int,
                ),
            *final(self) == (Module { entities: final(self).entities, ..*old(self) }),
    {
        let n_entities = self.entities.len();
        let mut all: Vec<EntityId> = crate::schema::copy_vec(inc);
        let mut dec_copy: Vec<EntityId> = crate::schema::copy_vec(dec);
        all.append(&mut dec_copy);
        let ghost allv = all@;
        proof {
            assert(allv == inc@ + dec@);
            assert(allv.take(0) =~= Seq::<EntityId>::empty());
        }
        let mut k: usize = 0;
        while k < all.len()
            invariant
                k <= allv.len(),
                all@ == allv,
                self.entities@.len() == old(self).entities@.len(),
                forall|i: int|
                    0 <= i < old(self).entities@.len() ==> self.entities_dv()[i] == (
                    if allv.take(k as int).contains(i as EntityId) {
                        rc_adjusted(
                            old(self).entities_dv()[i],
                            count_ids(inc@, i as EntityId) as int - count_ids(
                                dec@,
                                i as EntityId,
                            ) as int,
                        )
                    } else {
                        old(self).entities_dv()[i]
                    }),
                *self == (Module { entities: self.entities, ..*old(self) }),
            decreases allv.len() - k,
        {
            let t = all[k];
            proof {
                assert(allv[k as int] == t);
                assert(allv.take(k as int + 1) =~= allv.take(k as int).push(t));
                assert(t < old(self).entities@.len() && old(self).entities_dv()[t as int]
                    is Some) by {
                    if (k as int) < inc@.len() {
                        assert(inc@[k as int] == t);
                    } else {
                        assert(dec@[k as int - inc@.len()] == t);
                    }
                }
            }
            // Each target is adjusted once: skip repeated occurrences.
            let mut seen = false;
            let mut j: usize = 0;
            while j < k
                invariant
                    j <= k,
                    k <= allv.len(),
                    all@ == allv,
                    seen == allv.take(j as int).contains(t),
                decreases k - j,
            {
                proof {
                    assert(allv.take(j as int + 1) =~= allv.take(j as int).push(allv[j as int]));
                    crate::state::lemma_push_contains(allv.take(j as int), allv[j as int], t);
                }
                if all[j] == t {
                    seen = true;
                }
                j += 1;
            }
            if !seen {
                let c_inc = count_occurrences(inc, t);
                let c_dec = count_occurrences(dec, t);
                let i_t = self.entity_index(t);
                let ghost mid = *self;
                proof {
                    assert(mid.entities_dv()[t as int] == old(self).entities_dv()[t as int]);
                    assert(mid.entities@[t as int] is Some) by {
                        assert(mid.entities_dv()[t as int] is Some);
                    }
                }
                let rc_now = match &self.entities[i_t] {
                    Some(e) => e.reference_count,
                    None => vstd::pervasive::unreached(),
                };
                proof {
                    assert(rc_now == old(self).entity_at(t).reference_count);
                    assert(count_ids(dec@, t) <= rc_now + count_ids(inc@, t));
                    assert(rc_now + count_ids(inc@, t) - count_ids(dec@, t) <= u32::MAX);
                }
                let wide: u128 = rc_now as u128 + c_inc as u128 - c_dec as u128;
                let new_rc: u32 = wide as u32;
                let entity = self.entity_mut(i_t);
                entity.reference_count = new_rc;
                proof {
                    assert(self.entities_dv() =~= mid.entities_dv().update(
                        t as int,
                        rc_adjusted(
                            old(self).entities_dv()[t as int],
                            count_ids(inc@, t) as int - count_ids(dec@, t) as int,
                        ),
                    ));
                    assert forall|i: int|
                        0 <= i < old(self).entities@.len() implies self.entities_dv()[i] == (
                    if allv.take(k as int + 1).contains(i as EntityId) {
                        rc_adjusted(
                            old(self).entities_dv()[i],
                            count_ids(inc@, i as EntityId) as int - count_ids(
                                dec@,
                                i as EntityId,
                            ) as int,
                        )
                    } else {
                        old(self).entities_dv()[i]
                    }) by {
                        crate::state::lemma_push_contains(allv.take(k as int), t, i as EntityId);
                    }
                }
            } else {
                proof {
                    assert forall|i: int|
                        0 <= i < old(self).entities@.len() implies self.entities_dv()[i] == (
                    if allv.take(k as int + 1).contains(i as EntityId) {
                        rc_adjusted(
                            old(self).entities_dv()[i],
                            count_ids(inc@, i as EntityId) as int - count_ids(
                                dec@,
                                i as EntityId,
                            ) as int,
                        )
                    } else {
                        old(self).entities_dv()[i]
                    }) by {
                        crate::state::lemma_push_contains(allv.take(k as int), t, i as EntityId);
                        if i as EntityId == t {
                            assert(allv.take(k as int).contains(i as EntityId));
                        }
                    }
                }
            }
            k += 1;
        }
        proof {
            assert(allv.take(allv.len() as int) =~= allv);
            assert forall|i: int|
                0 <= i < old(self).entities@.len() implies self.entities_dv()[i] == rc_adjusted(
                old(self).entities_dv()[i],
                count_ids(inc@, i as EntityId) as int - count_ids(dec@, i as EntityId) as int,
            ) by {
                let t = i as EntityId;
                if !allv.contains(t) {
                    assert(count_ids(inc@, t) == 0) by {
                        inc@.to_multiset_ensures();
                        if count_ids(inc@, t) > 0 {
                            assert(inc@.contains(t));
                            let w = choose|w: int| 0 <= w < inc@.len() && inc@[w] == t;
                            assert(allv[w] == t);
                        }
                    }
                    assert(count_ids(dec@, t) == 0) by {
                        dec@.to_multiset_ensures();
                        if count_ids(dec@, t) > 0 {
                            assert(dec@.contains(t));
                            let w = choose|w: int| 0 <= w < dec@.len() && dec@[w] == t;
                            assert(allv[inc@.len() + w] == t);
                        }
                    }
                    crate::refs::lemma_rc_adjusted_zero(old(self).entities_dv()[i]);
                }
            }
        }
    }
}

} // verus!
