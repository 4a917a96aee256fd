//! Appending schemas to a class: validation of new properties, stable
//! property ids, and strictly increasing schema ids.

use vstd::prelude::*;

use crate::access::spec_permission_gate;
use crate::credentials::CredentialChecker;
use crate::class_ops::{lemma_inv_classes_only};
use crate::errors::DirectoryError;
use crate::ids::{ClassId, Credential, PropertyId, SchemaId};
use crate::permissions::{PermissionRule, RawOrigin};
use crate::schema::{Property, PropertyType, PropertyView, ScalarType, Schema, SchemaView};
use crate::state::{lemma_push_contains, Class, ClassView, Module};

verus! {

/// Whether a class already declares a property of the given name.
pub open spec fn class_has_prop_name(c: ClassView, name: Seq<u8>) -> bool {
    exists|k: int| 0 <= k < c.properties.len() && c.properties[k].name == name
}

/// The sequence with later repetitions of its elements dropped: every
/// element keeps its first occurrence only.
pub open spec fn dedup(s: Seq<PropertyId>) -> Seq<PropertyId>
    decreases s.len(),
{
    if s.len() == 0 {
        Seq::empty()
    } else {
        let d = dedup(s.drop_last());
        if d.contains(s.last()) {
            d
        } else {
            d.push(s.last())
        }
    }
}

/// Deduplication keeps membership and never repeats an element.
pub proof fn lemma_dedup_props(s: Seq<PropertyId>)
    ensures
        forall|x: PropertyId| dedup(s).contains(x) <==> s.contains(x),
        forall|i: int, j: int| 0 <= i < j < dedup(s).len() ==> dedup(s)[i] != dedup(s)[j],
    decreases s.len(),
{
    if s.len() > 0 {
        lemma_dedup_props(s.drop_last());
        let d = dedup(s.drop_last());
        assert(s.drop_last().push(s.last()) =~= s);
        assert forall|x: PropertyId| dedup(s).contains(x) <==> s.contains(x) by {
            lemma_push_contains(s.drop_last(), s.last(), x);
            if d.contains(s.last()) {
            } else {
                lemma_push_contains(d, s.last(), x);
            }
        }
        if !d.contains(s.last()) {
            assert forall|i: int, j: int|
                0 <= i < j < dedup(s).len() implies dedup(s)[i] != dedup(s)[j] by {
                if j == d.len() {
                    assert(dedup(s)[j] == s.last());
                    assert(d.contains(d[i]));
                }
            }
        }
    }
}

/// Whether a property type's reference target, if it has one, names a
/// known class.
pub open spec fn prop_type_ref_known(m: Module, t: PropertyType) -> bool {
    match t {
        PropertyType::Single(ScalarType::Reference(cid)) => m.has_class(cid),
        PropertyType::Vector(ScalarType::Reference(cid), _) => m.has_class(cid),
        _ => true,
    }
}

/// The first validation error among the new properties at positions at or
/// after `i`: name length, description length, then name uniqueness
/// against the class and against earlier new properties.
pub open spec fn new_props_error(
    m: Module,
    c: ClassView,
    new: Seq<PropertyView>,
    i: int,
) -> Option<DirectoryError>
    decreases new.len() - i,
{
    if i < 0 || i >= new.len() {
        None
    } else {
        let p = new[i];
        if p.name.len() < m.property_name_constraint.min {
            Some(DirectoryError::PropertyNameTooShort)
        } else if p.name.len() > m.property_name_constraint.spec_max() {
            Some(DirectoryError::PropertyNameTooLong)
        } else if p.description.len() < m.property_description_constraint.min {
            Some(DirectoryError::PropertyDescriptionTooShort)
        } else if p.description.len() > m.property_description_constraint.spec_max() {
            Some(DirectoryError::PropertyDescriptionTooLong)
        } else if class_has_prop_name(c, p.name) || (exists|j: int|
            0 <= j < i && new[j].name == p.name) {
            Some(DirectoryError::PropertyNameNotUniqueInClass)
        } else {
            new_props_error(m, c, new, i + 1)
        }
    }
}

/// What `append_class_schema`'s validation phase reports.
pub open spec fn spec_append_check(
    m: Module,
    class_id: ClassId,
    existing: Seq<PropertyId>,
    new: Seq<PropertyView>,
) -> Result<(), DirectoryError> {
    if !m.has_class(class_id) {
        Err(DirectoryError::ClassNotFound)
    } else if existing.len() == 0 && new.len() == 0 {
        Err(DirectoryError::NoPropertiesInClassSchema)
    } else {
        let c = m.class_at(class_id);
        match new_props_error(m, c, new, 0) {
            Some(e) => Err(e),
            None => if exists|k: int|
                0 <= k < existing.len() && existing[k] >= c.properties.len() {
                Err(DirectoryError::ClassSchemaRefersUnknownPropertyIndex)
            } else if exists|k: int|
                0 <= k < new.len() && !prop_type_ref_known(m, #[trigger] new[k].prop_type) {
                Err(DirectoryError::ClassSchemaRefersUnknownClass)
            } else {
                Ok(())
            },
        }
    }
}

/// The property ids the new schema names: the distinct existing ids in
/// first-occurrence order, then the ids of the newly appended properties.
pub open spec fn spec_schema_ids(old_len: int, existing: Seq<PropertyId>, n_new: int) -> Seq<
    PropertyId,
> {
    dedup(existing) + Seq::new(n_new as nat, |k: int| (old_len + k) as PropertyId)
}

/// The class as `append_class_schema` leaves it on success.
pub open spec fn spec_appended_class(c: ClassView, new: Seq<PropertyView>, existing: Seq<PropertyId>) -> ClassView {
    ClassView {
        properties: c.properties + new,
        schemas: c.schemas.push(
            SchemaView {
                properties: spec_schema_ids(c.properties.len() as int, existing, new.len() as int),
                is_active: false,
            },
        ),
        ..c
    }
}

/// Whether a list of property ids holds an id.
fn contains_id(v: &Vec<PropertyId>, x: PropertyId) -> (r: bool)
    ensures
        r == v@.contains(x),
{
    let mut i: usize = 0;
    while i < v.len()
        invariant
            i <= v.len(),
            forall|j: int| 0 <= j < i ==> v@[j] != x,
        decreases v.len() - i,
    {
        if v[i] == x {
            proof {
                assert(v@[i as int] == x);
            }
            return true;
        }
        i += 1;
    }
    false
}

/// Copies a list of property ids, dropping later repetitions.
fn dedup_ids(v: &Vec<PropertyId>) -> (r: Vec<PropertyId>)
    ensures
        r@ == dedup(v@),
{
    let mut r: Vec<PropertyId> = Vec::new();
    let mut i: usize = 0;
    while i < v.len()
        invariant
            i <= v.len(),
            r@ == dedup(v@.take(i as int)),
        decreases v.len() - i,
    {
        proof {
            assert(v@.take(i as int + 1).drop_last() =~= v@.take(i as int));
            assert(v@.take(i as int + 1).last() == v@[i as int]);
        }
        if !contains_id(&r, v[i]) {
            r.push(v[i]);
        }
        i += 1;
    }
    proof {
        assert(v@.take(v@.len() as int) =~= v@);
    }
    r
}

/// Whether a class declares a property with the given name.
fn class_has_name(class: &Class, name: &Vec<u8>) -> (r: bool)
    ensures
        r == class_has_prop_name(class@, name@),
{
    let mut k: usize = 0;
    while k < class.properties.len()
        invariant
            k <= class.properties.len(),
            forall|j: int| 0 <= j < k ==> class@.properties[j].name != name@,
        decreases class.properties.len() - k,
    {
        if crate::schema::eq_bytes(&class.properties[k].name, name) {
            proof {
                assert(class@.properties[k as int].name == name@);
            }
            return true;
        }
        k += 1;
    }
    false
}


/// How a successful schema append relates the store before and after the
/// call: the validation passed, the returned id is the number of schemas
/// the class had, and the class gained the new properties and one inactive
/// schema while everything else stayed.
pub open spec fn append_schema_post(
    pre: Module,
    post: Module,
    class_id: ClassId,
    existing: Seq<PropertyId>,
    new: Seq<PropertyView>,
    sid: SchemaId,
) -> bool {
    &&& spec_append_check(pre, class_id, existing, new) is Ok
    &&& sid == pre.class_at(class_id).schemas.len()
    &&& post.classes_dv() == pre.classes_dv().update(
        class_id as int,
        spec_appended_class(pre.class_at(class_id), new, existing),
    )
    &&& post == (Module { classes: post.classes, ..pre })
}

impl Module {
    /// Appends a schema to a class: validates the new properties, appends
    /// them with ids continuing the class's property list, and appends an
    /// inactive schema naming the distinct existing ids and the new ids.
    /// Returns the new schema's id, which is the number of schemas the
    /// class had before; successive calls on one class return
    /// consecutive ids.
    #[verifier::loop_isolation(false)]
    pub fn append_class_schema(
        &mut self,
        class_id: ClassId,
        existing_properties: Vec<PropertyId>,
        new_properties: Vec<Property>,
    ) -> (r: Result<SchemaId, DirectoryError>)
        requires
            old(self).inv(),
        ensures
            final(self).inv(),
            r is Ok <==> spec_append_check(
                *old(self),
                class_id,
                existing_properties@,
                new_properties.deep_view(),
            ) is Ok,
            r is Err ==> *final(self) == *old(self) && Err::<(), DirectoryError>(r->Err_0)
                == spec_append_check(
                *old(self),
                class_id,
                existing_properties@,
                new_properties.deep_view(),
            ),
            r is Ok ==> append_schema_post(
                *old(self),
                *final(self),
                class_id,
                existing_properties@,
                new_properties.deep_view(),
                r->Ok_0,
            ),
    {
        let ghost newv = new_properties.deep_view();
        self.ensure_known_class_id(class_id)?;
        if existing_properties.len() == 0 && new_properties.len() == 0 {
            return Err(DirectoryError::NoPropertiesInClassSchema);
        }
        let class = self.class_ref(class_id);
        let ghost c = class@;

        // Validate each new property: lengths and name uniqueness.
        let mut i: usize = 0;
        while i < new_properties.len()
            invariant
                i <= new_properties.len(),
                *self == *old(self),
                old(self).has_class(class_id),
                c == old(self).class_at(class_id),
                class@ == c,
                newv == new_properties.deep_view(),
                new_props_error(*old(self), c, newv, 0) == new_props_error(*old(self), c, newv, i as int),
            decreases new_properties.len() - i,
        {
            let p = &new_properties[i];
            proof {
                assert(newv[i as int] == p@);
            }
            if let Err(e) = self.property_name_constraint.ensure_valid(
                p.name.len(),
                DirectoryError::PropertyNameTooShort,
                DirectoryError::PropertyNameTooLong,
            ) {
                return Err(e);
            }
            if let Err(e) = self.property_description_constraint.ensure_valid(
                p.description.len(),
                DirectoryError::PropertyDescriptionTooShort,
                DirectoryError::PropertyDescriptionTooLong,
            ) {
                return Err(e);
            }
            if class_has_name(class, &p.name) {
                return Err(DirectoryError::PropertyNameNotUniqueInClass);
            }
            let mut j: usize = 0;
            while j < i
                invariant
                    j <= i,
                    i < new_properties.len(),
                    newv == new_properties.deep_view(),
                    forall|k: int| 0 <= k < j ==> newv[k].name != newv[i as int].name,
                decreases i - j,
            {
                if crate::schema::eq_bytes(&new_properties[j].name, &new_properties[i].name) {
                    proof {
                        assert(newv[j as int].name == newv[i as int].name);
                    }
                    return Err(DirectoryError::PropertyNameNotUniqueInClass);
                }
                j += 1;
            }
            i += 1;
        }

        // Every existing id must name a property of the class.
        let mut k: usize = 0;
        while k < existing_properties.len()
            invariant
                k <= existing_properties.len(),
                *self == *old(self),
                old(self).has_class(class_id),
                c == old(self).class_at(class_id),
                class@ == c,
                forall|j: int| 0 <= j < k ==> existing_properties@[j] < c.properties.len(),
            decreases existing_properties.len() - k,
        {
            if existing_properties[k] >= class.properties.len() as u64 {
                return Err(DirectoryError::ClassSchemaRefersUnknownPropertyIndex);
            }
            k += 1;
        }

        // Every reference type among the new properties must name a known
        // class.
        let mut k2: usize = 0;
        while k2 < new_properties.len()
            invariant
                k2 <= new_properties.len(),
                *self == *old(self),
                newv == new_properties.deep_view(),
                forall|j: int|
                    0 <= j < k2 ==> prop_type_ref_known(*old(self), #[trigger] newv[j].prop_type),
            decreases new_properties.len() - k2,
        {
            proof {
                assert(newv[k2 as int] == new_properties@[k2 as int]@);
            }
            let known = match &new_properties[k2].prop_type {
                PropertyType::Single(ScalarType::Reference(cid)) => *cid < self.classes.len()
                    as u64,
                PropertyType::Vector(ScalarType::Reference(cid), _) => *cid < self.classes.len()
                    as u64,
                _ => true,
            };
            if !known {
                proof {
                    assert(!prop_type_ref_known(*old(self), newv[k2 as int].prop_type));
                }
                return Err(DirectoryError::ClassSchemaRefersUnknownClass);
            }
            k2 += 1;
        }

        // All checks passed: below here nothing fails.
        proof {
            assert(spec_append_check(*old(self), class_id, existing_properties@, newv) is Ok);
        }

        // Copy the new properties and commit them to the class.
        let class = self.class_ref(class_id);
        let schema_idx = class.schemas.len() as u64;
        let old_props_len = class.properties.len();
        let n_new = new_properties.len();
        let mut appended: Vec<Property> = Vec::new();
        let mut n2: usize = 0;
        while n2 < new_properties.len()
            invariant
                n2 <= new_properties.len(),
                *self == *old(self),
                newv == new_properties.deep_view(),
                appended.deep_view() == newv.take(n2 as int),
            decreases new_properties.len() - n2,
        {
            let dup = new_properties[n2].duplicate();
            let ghost da = appended.deep_view();
            appended.push(dup);
            proof {
                assert(appended.deep_view() =~= da.push(newv[n2 as int]));
                assert(da.push(newv[n2 as int]) =~= newv.take(n2 as int + 1));
            }
            n2 += 1;
        }
        proof {
            assert(newv.take(newv.len() as int) =~= newv);
        }

        let i_class = self.class_index(class_id);
        let ghost pre = *self;
        let class = self.class_mut(i_class);
        class.properties.append(&mut appended);
        let ghost mid = *self;
        let total = self.class_ref(class_id).properties.len();
        proof {
            assert(self.classes@[class_id as int]@.properties =~= c.properties + newv);
            assert(total == old_props_len + n_new);
        }

        // The schema's property ids: the distinct existing ids, then the
        // ids of the newly appended properties.
        let mut schema_props = dedup_ids(&existing_properties);
        let ghost deduped = schema_props@;
        let mut n: usize = 0;
        while n < n_new
            invariant
                n <= n_new,
                old_props_len + n_new == total,
                total <= usize::MAX,
                schema_props@ == deduped + Seq::new(
                    n as nat,
                    |k: int| (old_props_len + k) as PropertyId,
                ),
            decreases n_new - n,
        {
            let id = old_props_len + n;
            schema_props.push(id as u64);
            proof {
                assert(schema_props@ =~= deduped + Seq::new(
                    n as nat + 1,
                    |k: int| (old_props_len + k) as PropertyId,
                ));
            }
            n += 1;
        }

        let class = self.class_mut(i_class);
        class.schemas.push(Schema { properties: schema_props, is_active: false });
        proof {
            let cv = self.classes@[class_id as int]@;
            assert(cv.properties =~= c.properties + newv);
            assert(cv.schemas =~= c.schemas.push(
                SchemaView {
                    properties: spec_schema_ids(
                        c.properties.len() as int,
                        existing_properties@,
                        newv.len() as int,
                    ),
                    is_active: false,
                },
            ));
            assert(cv =~= spec_appended_class(c, newv, existing_properties@));
            assert(self.classes_dv() =~= pre.classes_dv().update(class_id as int, cv));
            assert(c.properties.len() + newv.len() <= u64::MAX);
            lemma_append_schema_inv(pre, *self, class_id, cv, existing_properties@, newv);
        }
        Ok(schema_idx)
    }
}

/// The class change made by a successful schema append preserves the
/// store invariant.
proof fn lemma_append_schema_inv(
    pre: Module,
    post: Module,
    class_id: ClassId,
    cv: ClassView,
    existing: Seq<PropertyId>,
    new: Seq<PropertyView>,
)
    requires
        pre.inv(),
        class_id < pre.classes@.len(),
        post.entities == pre.entities,
        post.entity_maintainer_by_entity_id == pre.entity_maintainer_by_entity_id,
        post.can_create_entities_of_class == pre.can_create_entities_of_class,
        post.entity_maintainers == pre.entity_maintainers,
        post.entity_creation_vouchers == pre.entity_creation_vouchers,
        post.classes@.len() == pre.classes@.len(),
        cv == spec_appended_class(pre.class_at(class_id), new, existing),
        post.classes_dv() == pre.classes_dv().update(class_id as int, cv),
        forall|k: int| 0 <= k < existing.len() ==> existing[k] < pre.class_at(
            class_id,
        ).properties.len(),
        pre.class_at(class_id).properties.len() + new.len() <= u64::MAX,
    ensures
        post.inv(),
{
    let c = pre.class_at(class_id);
    let ids = spec_schema_ids(c.properties.len() as int, existing, new.len() as int);
    lemma_dedup_props(existing);
    let d = dedup(existing);
    assert forall|k: int| d.len() <= k < ids.len() implies #[trigger] ids[k]
        == c.properties.len() + (k - d.len()) by {
        assert(ids[k] == ((c.properties.len() + (k - d.len())) as PropertyId));
        assert(c.properties.len() + (k - d.len()) <= u64::MAX);
    }
    assert forall|k: int| 0 <= k < ids.len() implies #[trigger] ids[k] < cv.properties.len() by {
        if k < d.len() {
            assert(ids[k] == d[k]);
            assert(d.contains(d[k]));
            assert(existing.contains(d[k]));
            let w = choose|w: int| 0 <= w < existing.len() && existing[w] == d[k];
            assert(existing[w] < c.properties.len());
        }
    }
    assert forall|k1: int, k2: int| 0 <= k1 < k2 < ids.len() implies ids[k1] != ids[k2] by {
        if k2 < d.len() {
        } else if k1 < d.len() {
            assert(ids[k1] == d[k1]);
            assert(d.contains(d[k1]));
            assert(existing.contains(d[k1]));
            let w = choose|w: int| 0 <= w < existing.len() && existing[w] == d[k1];
            assert(existing[w] < c.properties.len());
            assert(ids[k1] < c.properties.len());
        }
    }
    assert forall|x: int|
        0 <= x < post.classes@.len() implies post.class_wf(#[trigger] post.classes_dv()[x]) by {
        assert(pre.class_wf(pre.classes_dv()[x]));
        let pcv = post.classes_dv()[x];
        assert forall|s: int|
            0 <= s < pcv.schemas.len() implies #[trigger] post.schema_wf(pcv, pcv.schemas[s]) by {
            if x == class_id as int && s == pcv.schemas.len() - 1 {
                assert(pcv.schemas[s].properties == ids);
            } else {
                assert(pre.schema_wf(pre.classes_dv()[x], pre.classes_dv()[x].schemas[s]));
            }
        }
    }
    lemma_inv_classes_only(pre, post);
}


/// Two consecutive successful schema appends on the same class return
/// consecutive schema ids.
pub proof fn lemma_append_schema_ids_consecutive(
    m0: Module,
    m1: Module,
    m2: Module,
    class_id: ClassId,
    existing1: Seq<PropertyId>,
    new1: Seq<PropertyView>,
    existing2: Seq<PropertyId>,
    new2: Seq<PropertyView>,
    id1: SchemaId,
    id2: SchemaId,
)
    requires
        append_schema_post(m0, m1, class_id, existing1, new1, id1),
        append_schema_post(m1, m2, class_id, existing2, new2, id2),
    ensures
        id2 == id1 + 1,
{
    assert(m0.has_class(class_id));
    assert(m1.class_at(class_id) == spec_appended_class(m0.class_at(class_id), new1, existing1));
}

/// The first successful schema append on a class with no schemas returns
/// schema id zero; with the previous law, successive appends on one class
/// return exactly the ids zero, one, two, and so on, in call order.
pub proof fn lemma_first_schema_id_is_zero(
    m0: Module,
    m1: Module,
    class_id: ClassId,
    existing: Seq<PropertyId>,
    new: Seq<PropertyView>,
    sid: SchemaId,
)
    requires
        m0.has_class(class_id),
        m0.class_at(class_id).schemas.len() == 0,
        append_schema_post(m0, m1, class_id, existing, new, sid),
    ensures
        sid == 0,
{
}


impl Module {
    /// Appends a schema to a class on behalf of a caller, after the
    /// add-schema permission rule passes.
    pub fn add_class_schema<C: CredentialChecker>(
        &mut self,
        checker: &C,
        raw_origin: &RawOrigin,
        with_credential: Option<Credential>,
        class_id: ClassId,
        existing_properties: Vec<PropertyId>,
        new_properties: Vec<Property>,
    ) -> (r: Result<SchemaId, DirectoryError>)
        requires
            old(self).inv(),
        ensures
            final(self).inv(),
            spec_permission_gate(
                *old(self),
                *checker,
                *raw_origin,
                with_credential,
                None,
                PermissionRule::CanAddClassSchema,
                class_id,
            ) is Err ==> r == Err::<SchemaId, DirectoryError>(
                spec_permission_gate(
                    *old(self),
                    *checker,
                    *raw_origin,
                    with_credential,
                    None,
                    PermissionRule::CanAddClassSchema,
                    class_id,
                )->Err_0,
            ) && *final(self) == *old(self),
            spec_permission_gate(
                *old(self),
                *checker,
                *raw_origin,
                with_credential,
                None,
                PermissionRule::CanAddClassSchema,
                class_id,
            ) is Ok ==> {
                &&& r is Ok <==> spec_append_check(
                    *old(self),
                    class_id,
                    existing_properties@,
                    new_properties.deep_view(),
                ) is Ok
                &&& r is Err ==> *final(self) == *old(self) && Err::<(), DirectoryError>(r->Err_0)
                    == spec_append_check(
                    *old(self),
                    class_id,
                    existing_properties@,
                    new_properties.deep_view(),
                )
                &&& r is Ok ==> append_schema_post(
                    *old(self),
                    *final(self),
                    class_id,
                    existing_properties@,
                    new_properties.deep_view(),
                    r->Ok_0,
                )
            },
    {
        self.if_class_permissions_satisfied(
            checker,
            raw_origin,
            with_credential,
            None,
            PermissionRule::CanAddClassSchema,
            class_id,
        )?;
        self.append_class_schema(class_id, existing_properties, new_properties)
    }
}

} // verus!
