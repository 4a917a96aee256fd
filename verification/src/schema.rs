//! Property types, property values, and schemas.
//!
//! A class declares `Property` entries; each property has a `PropertyType`
//! that is either a single scalar kind or a vector of one scalar kind.  An
//! entity stores a `PropertyValue` for a subset of its class's properties.
//! Every vector value carries a nonce that is bumped on each positional
//! insert or remove and acts as an optimistic-concurrency fence.

use vstd::prelude::*;

use crate::errors::DirectoryError;
use crate::ids::{ClassId, EntityId, Nonce, PropertyId, TextMaxLength, VecMaxLength};

verus! {

/// The scalar kinds a property can hold.  `Text` carries the largest
/// accepted byte length; `Reference` carries the class whose entities the
/// value may point at.
#[derive(Clone, Copy, PartialEq, Eq, Structural, Debug)]
pub enum ScalarType {
    Bool,
    Uint16,
    Uint32,
    Uint64,
    Int16,
    Int32,
    Int64,
    Text(TextMaxLength),
    Reference(ClassId),
}

/// The type of one property: a single scalar, or a vector of one scalar
/// kind with a largest accepted length.
#[derive(Clone, Copy, PartialEq, Eq, Structural, Debug)]
pub enum PropertyType {
    Single(ScalarType),
    Vector(ScalarType, VecMaxLength),
}

/// One scalar value.
#[derive(Clone, PartialEq, Eq, Debug)]
pub enum ScalarValue {
    Bool(bool),
    Uint16(u16),
    Uint32(u32),
    Uint64(u64),
    Int16(i16),
    Int32(i32),
    Int64(i64),
    Text(Vec<u8>),
    Reference(EntityId),
}

/// Mathematical model of a `ScalarValue`.
pub enum ScalarValueView {
    Bool(bool),
    Uint16(u16),
    Uint32(u32),
    Uint64(u64),
    Int16(i16),
    Int32(i32),
    Int64(i64),
    Text(Seq<u8>),
    Reference(EntityId),
}

impl View for ScalarValue {
    type V = ScalarValueView;

    open spec fn view(&self) -> ScalarValueView {
        match self {
            ScalarValue::Bool(b) => ScalarValueView::Bool(*b),
            ScalarValue::Uint16(x) => ScalarValueView::Uint16(*x),
            ScalarValue::Uint32(x) => ScalarValueView::Uint32(*x),
            ScalarValue::Uint64(x) => ScalarValueView::Uint64(*x),
            ScalarValue::Int16(x) => ScalarValueView::Int16(*x),
            ScalarValue::Int32(x) => ScalarValueView::Int32(*x),
            ScalarValue::Int64(x) => ScalarValueView::Int64(*x),
            ScalarValue::Text(t) => ScalarValueView::Text(t@),
            ScalarValue::Reference(e) => ScalarValueView::Reference(*e),
        }
    }
}

impl ScalarValueView {
    /// Whether the value has the kind that the scalar type names,
    /// disregarding length bounds.
    pub open spec fn kind_matches(self, t: ScalarType) -> bool {
        match (t, self) {
            (ScalarType::Bool, ScalarValueView::Bool(_)) => true,
            (ScalarType::Uint16, ScalarValueView::Uint16(_)) => true,
            (ScalarType::Uint32, ScalarValueView::Uint32(_)) => true,
            (ScalarType::Uint64, ScalarValueView::Uint64(_)) => true,
            (ScalarType::Int16, ScalarValueView::Int16(_)) => true,
            (ScalarType::Int32, ScalarValueView::Int32(_)) => true,
            (ScalarType::Int64, ScalarValueView::Int64(_)) => true,
            (ScalarType::Text(_), ScalarValueView::Text(_)) => true,
            (ScalarType::Reference(_), ScalarValueView::Reference(_)) => true,
            _ => false,
        }
    }

    /// Whether a text value stays within the type's length bound; true for
    /// every non-text value.
    pub open spec fn size_ok(self, t: ScalarType) -> bool {
        match (t, self) {
            (ScalarType::Text(max), ScalarValueView::Text(s)) => s.len() <= max,
            _ => true,
        }
    }

    /// Whether the value is accepted for the scalar type.
    pub open spec fn matches_type(self, t: ScalarType) -> bool {
        self.kind_matches(t) && self.size_ok(t)
    }

    /// The entity a reference value points at, if the value is a reference.
    pub open spec fn ref_target(self) -> Option<EntityId> {
        match self {
            ScalarValueView::Reference(e) => Some(e),
            _ => None,
        }
    }
}

/// One vector value: a homogeneous list of one scalar kind.
#[derive(Clone, PartialEq, Eq, Debug)]
pub enum VecValue {
    Bool(Vec<bool>),
    Uint16(Vec<u16>),
    Uint32(Vec<u32>),
    Uint64(Vec<u64>),
    Int16(Vec<i16>),
    Int32(Vec<i32>),
    Int64(Vec<i64>),
    Text(Vec<Vec<u8>>),
    Reference(Vec<EntityId>),
}

/// Mathematical model of a `VecValue`.
pub enum VecValueView {
    Bool(Seq<bool>),
    Uint16(Seq<u16>),
    Uint32(Seq<u32>),
    Uint64(Seq<u64>),
    Int16(Seq<i16>),
    Int32(Seq<i32>),
    Int64(Seq<i64>),
    Text(Seq<Seq<u8>>),
    Reference(Seq<EntityId>),
}

impl View for VecValue {
    type V = VecValueView;

    open spec fn view(&self) -> VecValueView {
        match self {
            VecValue::Bool(v) => VecValueView::Bool(v@),
            VecValue::Uint16(v) => VecValueView::Uint16(v@),
            VecValue::Uint32(v) => VecValueView::Uint32(v@),
            VecValue::Uint64(v) => VecValueView::Uint64(v@),
            VecValue::Int16(v) => VecValueView::Int16(v@),
            VecValue::Int32(v) => VecValueView::Int32(v@),
            VecValue::Int64(v) => VecValueView::Int64(v@),
            VecValue::Text(v) => VecValueView::Text(v.deep_view()),
            VecValue::Reference(v) => VecValueView::Reference(v@),
        }
    }
}

impl VecValueView {
    /// Number of elements in the vector.
    pub open spec fn len(self) -> nat {
        match self {
            VecValueView::Bool(s) => s.len(),
            VecValueView::Uint16(s) => s.len(),
            VecValueView::Uint32(s) => s.len(),
            VecValueView::Uint64(s) => s.len(),
            VecValueView::Int16(s) => s.len(),
            VecValueView::Int32(s) => s.len(),
            VecValueView::Int64(s) => s.len(),
            VecValueView::Text(s) => s.len(),
            VecValueView::Reference(s) => s.len(),
        }
    }

    /// Whether a scalar value has the same kind as the vector's elements.
    pub open spec fn accepts_elem_kind(self, x: ScalarValueView) -> bool {
        match (self, x) {
            (VecValueView::Bool(_), ScalarValueView::Bool(_)) => true,
            (VecValueView::Uint16(_), ScalarValueView::Uint16(_)) => true,
            (VecValueView::Uint32(_), ScalarValueView::Uint32(_)) => true,
            (VecValueView::Uint64(_), ScalarValueView::Uint64(_)) => true,
            (VecValueView::Int16(_), ScalarValueView::Int16(_)) => true,
            (VecValueView::Int32(_), ScalarValueView::Int32(_)) => true,
            (VecValueView::Int64(_), ScalarValueView::Int64(_)) => true,
            (VecValueView::Text(_), ScalarValueView::Text(_)) => true,
            (VecValueView::Reference(_), ScalarValueView::Reference(_)) => true,
            _ => false,
        }
    }

    /// The vector with a scalar of its own kind inserted at an index,
    /// shifting later elements right.  Unchanged if the kind differs.
    pub open spec fn inserted_at(self, i: int, x: ScalarValueView) -> VecValueView {
        match (self, x) {
            (VecValueView::Bool(s), ScalarValueView::Bool(b)) => VecValueView::Bool(s.insert(i, b)),
            (VecValueView::Uint16(s), ScalarValueView::Uint16(v)) => VecValueView::Uint16(s.insert(i, v)),
            (VecValueView::Uint32(s), ScalarValueView::Uint32(v)) => VecValueView::Uint32(s.insert(i, v)),
            (VecValueView::Uint64(s), ScalarValueView::Uint64(v)) => VecValueView::Uint64(s.insert(i, v)),
            (VecValueView::Int16(s), ScalarValueView::Int16(v)) => VecValueView::Int16(s.insert(i, v)),
            (VecValueView::Int32(s), ScalarValueView::Int32(v)) => VecValueView::Int32(s.insert(i, v)),
            (VecValueView::Int64(s), ScalarValueView::Int64(v)) => VecValueView::Int64(s.insert(i, v)),
            (VecValueView::Text(s), ScalarValueView::Text(t)) => VecValueView::Text(s.insert(i, t)),
            (VecValueView::Reference(s), ScalarValueView::Reference(e)) => VecValueView::Reference(s.insert(i, e)),
            _ => self,
        }
    }

    /// The vector with the element at an index removed, shifting later
    /// elements left.
    pub open spec fn removed_at(self, i: int) -> VecValueView {
        match self {
            VecValueView::Bool(s) => VecValueView::Bool(s.remove(i)),
            VecValueView::Uint16(s) => VecValueView::Uint16(s.remove(i)),
            VecValueView::Uint32(s) => VecValueView::Uint32(s.remove(i)),
            VecValueView::Uint64(s) => VecValueView::Uint64(s.remove(i)),
            VecValueView::Int16(s) => VecValueView::Int16(s.remove(i)),
            VecValueView::Int32(s) => VecValueView::Int32(s.remove(i)),
            VecValueView::Int64(s) => VecValueView::Int64(s.remove(i)),
            VecValueView::Text(s) => VecValueView::Text(s.remove(i)),
            VecValueView::Reference(s) => VecValueView::Reference(s.remove(i)),
        }
    }

    /// The empty vector of the same kind.
    pub open spec fn cleared(self) -> VecValueView {
        match self {
            VecValueView::Bool(_) => VecValueView::Bool(Seq::empty()),
            VecValueView::Uint16(_) => VecValueView::Uint16(Seq::empty()),
            VecValueView::Uint32(_) => VecValueView::Uint32(Seq::empty()),
            VecValueView::Uint64(_) => VecValueView::Uint64(Seq::empty()),
            VecValueView::Int16(_) => VecValueView::Int16(Seq::empty()),
            VecValueView::Int32(_) => VecValueView::Int32(Seq::empty()),
            VecValueView::Int64(_) => VecValueView::Int64(Seq::empty()),
            VecValueView::Text(_) => VecValueView::Text(Seq::empty()),
            VecValueView::Reference(_) => VecValueView::Reference(Seq::empty()),
        }
    }

    /// The entities referenced by the vector, in element order; empty for
    /// every non-reference vector.
    pub open spec fn ref_seq(self) -> Seq<EntityId> {
        match self {
            VecValueView::Reference(s) => s,
            _ => Seq::empty(),
        }
    }

    /// Whether every element has the kind the scalar type names,
    /// disregarding length bounds on text elements.
    pub open spec fn kind_matches(self, t: ScalarType) -> bool {
        match (t, self) {
            (ScalarType::Bool, VecValueView::Bool(_)) => true,
            (ScalarType::Uint16, VecValueView::Uint16(_)) => true,
            (ScalarType::Uint32, VecValueView::Uint32(_)) => true,
            (ScalarType::Uint64, VecValueView::Uint64(_)) => true,
            (ScalarType::Int16, VecValueView::Int16(_)) => true,
            (ScalarType::Int32, VecValueView::Int32(_)) => true,
            (ScalarType::Int64, VecValueView::Int64(_)) => true,
            (ScalarType::Text(_), VecValueView::Text(_)) => true,
            (ScalarType::Reference(_), VecValueView::Reference(_)) => true,
            _ => false,
        }
    }

    /// Whether every text element stays within the type's length bound;
    /// true for every non-text vector.
    pub open spec fn elems_size_ok(self, t: ScalarType) -> bool {
        match (t, self) {
            (ScalarType::Text(max), VecValueView::Text(s)) => forall|i: int|
                0 <= i < s.len() ==> #[trigger] s[i].len() <= max,
            _ => true,
        }
    }
}

/// One property value: a single scalar, or a vector of one scalar kind
/// together with its concurrency nonce.
#[derive(Clone, PartialEq, Eq, Debug)]
pub enum PropertyValue {
    Single(ScalarValue),
    Vector(VecValue, Nonce),
}

/// Mathematical model of a `PropertyValue`.
pub enum PropertyValueView {
    Single(ScalarValueView),
    Vector(VecValueView, Nonce),
}

impl View for PropertyValue {
    type V = PropertyValueView;

    open spec fn view(&self) -> PropertyValueView {
        match self {
            PropertyValue::Single(s) => PropertyValueView::Single(s@),
            PropertyValue::Vector(v, n) => PropertyValueView::Vector(v@, *n),
        }
    }
}

impl DeepView for PropertyValue {
    type V = PropertyValueView;

    open spec fn deep_view(&self) -> PropertyValueView {
        self.view()
    }
}

impl PropertyValue {
    /// The boolean-false placeholder stored for a schema property that is
    /// neither supplied nor required.
    pub fn default_placeholder() -> (r: Self)
        ensures
            r@ == PropertyValueView::Single(ScalarValueView::Bool(false)),
    {
        PropertyValue::Single(ScalarValue::Bool(false))
    }

    /// Whether the value is a vector.
    pub fn is_vec(&self) -> (r: bool)
        ensures
            r == (self@ is Vector),
    {
        match self {
            PropertyValue::Vector(_, _) => true,
            PropertyValue::Single(_) => false,
        }
    }
}

impl PropertyValueView {
    /// Whether the value's shape and kinds match the property type,
    /// disregarding length bounds.
    pub open spec fn kind_matches(self, t: PropertyType) -> bool {
        match (t, self) {
            (PropertyType::Single(st), PropertyValueView::Single(sv)) => sv.kind_matches(st),
            (PropertyType::Vector(st, _), PropertyValueView::Vector(vv, _)) => vv.kind_matches(st),
            _ => false,
        }
    }

    /// Whether a vector value exceeds the type's vector length bound.
    pub open spec fn vec_len_exceeds(self, t: PropertyType) -> bool {
        match (t, self) {
            (PropertyType::Vector(_, max), PropertyValueView::Vector(vv, _)) => vv.len() > max,
            _ => false,
        }
    }

    /// Whether some text in the value exceeds the type's text length bound.
    pub open spec fn text_len_exceeds(self, t: PropertyType) -> bool {
        match (t, self) {
            (PropertyType::Single(st), PropertyValueView::Single(sv)) => !sv.size_ok(st),
            (PropertyType::Vector(st, _), PropertyValueView::Vector(vv, _)) => !vv.elems_size_ok(st),
            _ => false,
        }
    }

    /// Whether the value is accepted for the property type.
    pub open spec fn matches_type(self, t: PropertyType) -> bool {
        self.kind_matches(t) && !self.vec_len_exceeds(t) && !self.text_len_exceeds(t)
    }

    /// The entities the value references, in order of occurrence.
    pub open spec fn ref_seq(self) -> Seq<EntityId> {
        match self {
            PropertyValueView::Single(sv) => match sv.ref_target() {
                Some(e) => seq![e],
                None => Seq::empty(),
            },
            PropertyValueView::Vector(vv, _) => vv.ref_seq(),
        }
    }

    /// How often the value references one entity.
    pub open spec fn refs_to(self, target: EntityId) -> nat {
        self.ref_seq().to_multiset().count(target)
    }
}

/// One property of a class: its type, whether a value is required when an
/// entity adopts a schema naming it, and its name and description.
#[derive(Clone, PartialEq, Eq, Debug)]
pub struct Property {
    pub prop_type: PropertyType,
    pub required: bool,
    pub name: Vec<u8>,
    pub description: Vec<u8>,
}

/// Mathematical model of a `Property`.
pub struct PropertyView {
    pub prop_type: PropertyType,
    pub required: bool,
    pub name: Seq<u8>,
    pub description: Seq<u8>,
}

impl View for Property {
    type V = PropertyView;

    open spec fn view(&self) -> PropertyView {
        PropertyView {
            prop_type: self.prop_type,
            required: self.required,
            name: self.name@,
            description: self.description@,
        }
    }
}

impl DeepView for Property {
    type V = PropertyView;

    open spec fn deep_view(&self) -> PropertyView {
        self.view()
    }
}

/// One schema of a class: the property indices it names, and whether
/// entities may adopt it yet.  Schemas are created inactive.
#[derive(Clone, PartialEq, Eq, Debug)]
pub struct Schema {
    pub properties: Vec<PropertyId>,
    pub is_active: bool,
}

/// Mathematical model of a `Schema`.
pub struct SchemaView {
    pub properties: Seq<PropertyId>,
    pub is_active: bool,
}

impl View for Schema {
    type V = SchemaView;

    open spec fn view(&self) -> SchemaView {
        SchemaView { properties: self.properties@, is_active: self.is_active }
    }
}

impl DeepView for Schema {
    type V = SchemaView;

    open spec fn deep_view(&self) -> SchemaView {
        self.view()
    }
}

impl Schema {
    /// A new, inactive schema over the given property indices.
    pub fn new(properties: Vec<PropertyId>) -> (r: Self)
        ensures
            r@.properties == properties@,
            !r@.is_active,
    {
        Self { properties, is_active: false }
    }
}

/// A byte string's deep view is its view.
pub broadcast proof fn lemma_bytes_deep_view(v: Vec<u8>)
    ensures
        #[trigger] v.deep_view() == v@,
{
    assert(v.deep_view() =~= v@);
}

/// Copies a vector of plain values.
pub fn copy_vec<T: Copy>(v: &Vec<T>) -> (r: Vec<T>)
    ensures
        r@ == v@,
{
    let mut r: Vec<T> = Vec::new();
    let mut i: usize = 0;
    while i < v.len()
        invariant
            i <= v.len(),
            r@ == v@.subrange(0, i as int),
        decreases v.len() - i,
    {
        r.push(v[i]);
        i += 1;
    }
    proof {
        assert(v@.subrange(0, v@.len() as int) =~= v@);
    }
    r
}

/// Copies a vector of byte strings.
pub fn copy_texts(v: &Vec<Vec<u8>>) -> (r: Vec<Vec<u8>>)
    ensures
        r.deep_view() == v.deep_view(),
{
    broadcast use lemma_bytes_deep_view;

    let mut r: Vec<Vec<u8>> = Vec::new();
    let mut i: usize = 0;
    while i < v.len()
        invariant
            i <= v.len(),
            r@.len() == i,
            forall|j: int| 0 <= j < i ==> #[trigger] r@[j].deep_view() == v@[j].deep_view(),
        decreases v.len() - i,
    {
        r.push(copy_vec(&v[i]));
        i += 1;
    }
    proof {
        assert(r.deep_view() =~= v.deep_view());
    }
    r
}

/// Compares two byte strings for equality of their contents.
pub fn eq_bytes(a: &Vec<u8>, b: &Vec<u8>) -> (r: bool)
    ensures
        r == (a@ == b@),
{
    if a.len() != b.len() {
        proof {
            assert(a@ != b@);
        }
        return false;
    }
    let mut i: usize = 0;
    while i < a.len()
        invariant
            i <= a.len(),
            a@.len() == b@.len(),
            forall|j: int| 0 <= j < i ==> a@[j] == b@[j],
        decreases a.len() - i,
    {
        if a[i] != b[i] {
            return false;
        }
        i += 1;
    }
    proof {
        assert(a@ =~= b@);
    }
    true
}

/// Compares two vectors of plain values for equality of their contents.
pub fn eq_bools(a: &Vec<bool>, b: &Vec<bool>) -> (r: bool)
    ensures
        r == (a@ == b@),
{
    if a.len() != b.len() {
        proof {
            assert(a@ != b@);
        }
        return false;
    }
    let mut i: usize = 0;
    while i < a.len()
        invariant
            i <= a.len(),
            a@.len() == b@.len(),
            forall|j: int| 0 <= j < i ==> a@[j] == b@[j],
        decreases a.len() - i,
    {
        if a[i] != b[i] {
            return false;
        }
        i += 1;
    }
    proof {
        assert(a@ =~= b@);
    }
    true
}

/// Compares two vectors of plain values for equality of their contents.
pub fn eq_u16s(a: &Vec<u16>, b: &Vec<u16>) -> (r: bool)
    ensures
        r == (a@ == b@),
{
    if a.len() != b.len() {
        proof {
            assert(a@ != b@);
        }
        return false;
    }
    let mut i: usize = 0;
    while i < a.len()
        invariant
            i <= a.len(),
            a@.len() == b@.len(),
            forall|j: int| 0 <= j < i ==> a@[j] == b@[j],
        decreases a.len() - i,
    {
        if a[i] != b[i] {
            return false;
        }
        i += 1;
    }
    proof {
        assert(a@ =~= b@);
    }
    true
}

/// Compares two vectors of plain values for equality of their contents.
pub fn eq_u32s(a: &Vec<u32>, b: &Vec<u32>) -> (r: bool)
    ensures
        r == (a@ == b@),
{
    if a.len() != b.len() {
        proof {
            assert(a@ != b@);
        }
        return false;
    }
    let mut i: usize = 0;
    while i < a.len()
        invariant
            i <= a.len(),
            a@.len() == b@.len(),
            forall|j: int| 0 <= j < i ==> a@[j] == b@[j],
        decreases a.len() - i,
    {
        if a[i] != b[i] {
            return false;
        }
        i += 1;
    }
    proof {
        assert(a@ =~= b@);
    }
    true
}

/// Compares two vectors of plain values for equality of their contents.
pub fn eq_u64s(a: &Vec<u64>, b: &Vec<u64>) -> (r: bool)
    ensures
        r == (a@ == b@),
{
    if a.len() != b.len() {
        proof {
            assert(a@ != b@);
        }
        return false;
    }
    let mut i: usize = 0;
    while i < a.len()
        invariant
            i <= a.len(),
            a@.len() == b@.len(),
            forall|j: int| 0 <= j < i ==> a@[j] == b@[j],
        decreases a.len() - i,
    {
        if a[i] != b[i] {
            return false;
        }
        i += 1;
    }
    proof {
        assert(a@ =~= b@);
    }
    true
}

/// Compares two vectors of plain values for equality of their contents.
pub fn eq_i16s(a: &Vec<i16>, b: &Vec<i16>) -> (r: bool)
    ensures
        r == (a@ == b@),
{
    if a.len() != b.len() {
        proof {
            assert(a@ != b@);
        }
        return false;
    }
    let mut i: usize = 0;
    while i < a.len()
        invariant
            i <= a.len(),
            a@.len() == b@.len(),
            forall|j: int| 0 <= j < i ==> a@[j] == b@[j],
        decreases a.len() - i,
    {
        if a[i] != b[i] {
            return false;
        }
        i += 1;
    }
    proof {
        assert(a@ =~= b@);
    }
    true
}

/// Compares two vectors of plain values for equality of their contents.
pub fn eq_i32s(a: &Vec<i32>, b: &Vec<i32>) -> (r: bool)
    ensures
        r == (a@ == b@),
{
    if a.len() != b.len() {
        proof {
            assert(a@ != b@);
        }
        return false;
    }
    let mut i: usize = 0;
    while i < a.len()
        invariant
            i <= a.len(),
            a@.len() == b@.len(),
            forall|j: int| 0 <= j < i ==> a@[j] == b@[j],
        decreases a.len() - i,
    {
        if a[i] != b[i] {
            return false;
        }
        i += 1;
    }
    proof {
        assert(a@ =~= b@);
    }
    true
}

/// Compares two vectors of plain values for equality of their contents.
pub fn eq_i64s(a: &Vec<i64>, b: &Vec<i64>) -> (r: bool)
    ensures
        r == (a@ == b@),
{
    if a.len() != b.len() {
        proof {
            assert(a@ != b@);
        }
        return false;
    }
    let mut i: usize = 0;
    while i < a.len()
        invariant
            i <= a.len(),
            a@.len() == b@.len(),
            forall|j: int| 0 <= j < i ==> a@[j] == b@[j],
        decreases a.len() - i,
    {
        if a[i] != b[i] {
            return false;
        }
        i += 1;
    }
    proof {
        assert(a@ =~= b@);
    }
    true
}

/// Compares two vectors of byte strings for equality of their contents.
pub fn eq_texts(a: &Vec<Vec<u8>>, b: &Vec<Vec<u8>>) -> (r: bool)
    ensures
        r == (a.deep_view() == b.deep_view()),
{
    broadcast use lemma_bytes_deep_view;

    if a.len() != b.len() {
        proof {
            assert(a.deep_view().len() != b.deep_view().len());
        }
        return false;
    }
    let mut i: usize = 0;
    while i < a.len()
        invariant
            i <= a.len(),
            a@.len() == b@.len(),
            forall|j: int| 0 <= j < i ==> #[trigger] a.deep_view()[j] == b.deep_view()[j],
        decreases a.len() - i,
    {
        if !eq_bytes(&a[i], &b[i]) {
            proof {
                assert(a.deep_view()[i as int] == a@[i as int]@);
                assert(b.deep_view()[i as int] == b@[i as int]@);
            }
            return false;
        }
        i += 1;
    }
    proof {
        assert(a.deep_view() =~= b.deep_view());
    }
    true
}

impl ScalarValue {
    /// A copy of the value.
    pub fn duplicate(&self) -> (r: Self)
        ensures
            r@ == self@,
    {
        match self {
            ScalarValue::Bool(b) => ScalarValue::Bool(*b),
            ScalarValue::Uint16(x) => ScalarValue::Uint16(*x),
            ScalarValue::Uint32(x) => ScalarValue::Uint32(*x),
            ScalarValue::Uint64(x) => ScalarValue::Uint64(*x),
            ScalarValue::Int16(x) => ScalarValue::Int16(*x),
            ScalarValue::Int32(x) => ScalarValue::Int32(*x),
            ScalarValue::Int64(x) => ScalarValue::Int64(*x),
            ScalarValue::Text(t) => ScalarValue::Text(copy_vec(t)),
            ScalarValue::Reference(e) => ScalarValue::Reference(*e),
        }
    }

    /// Whether two scalar values model the same value.
    pub fn same_as(&self, other: &Self) -> (r: bool)
        ensures
            r == (self@ == other@),
    {
        match (self, other) {
            (ScalarValue::Bool(a), ScalarValue::Bool(b)) => a == b,
            (ScalarValue::Uint16(a), ScalarValue::Uint16(b)) => a == b,
            (ScalarValue::Uint32(a), ScalarValue::Uint32(b)) => a == b,
            (ScalarValue::Uint64(a), ScalarValue::Uint64(b)) => a == b,
            (ScalarValue::Int16(a), ScalarValue::Int16(b)) => a == b,
            (ScalarValue::Int32(a), ScalarValue::Int32(b)) => a == b,
            (ScalarValue::Int64(a), ScalarValue::Int64(b)) => a == b,
            (ScalarValue::Text(a), ScalarValue::Text(b)) => eq_bytes(a, b),
            (ScalarValue::Reference(a), ScalarValue::Reference(b)) => a == b,
            _ => false,
        }
    }
}

impl VecValue {
    /// A copy of the vector.
    pub fn duplicate(&self) -> (r: Self)
        ensures
            r@ == self@,
    {
        match self {
            VecValue::Bool(v) => VecValue::Bool(copy_vec(v)),
            VecValue::Uint16(v) => VecValue::Uint16(copy_vec(v)),
            VecValue::Uint32(v) => VecValue::Uint32(copy_vec(v)),
            VecValue::Uint64(v) => VecValue::Uint64(copy_vec(v)),
            VecValue::Int16(v) => VecValue::Int16(copy_vec(v)),
            VecValue::Int32(v) => VecValue::Int32(copy_vec(v)),
            VecValue::Int64(v) => VecValue::Int64(copy_vec(v)),
            VecValue::Text(v) => VecValue::Text(copy_texts(v)),
            VecValue::Reference(v) => VecValue::Reference(copy_vec(v)),
        }
    }

    /// Whether two vector values model the same vector.
    pub fn same_as(&self, other: &Self) -> (r: bool)
        ensures
            r == (self@ == other@),
    {
        match (self, other) {
            (VecValue::Bool(a), VecValue::Bool(b)) => eq_bools(a, b),
            (VecValue::Uint16(a), VecValue::Uint16(b)) => eq_u16s(a, b),
            (VecValue::Uint32(a), VecValue::Uint32(b)) => eq_u32s(a, b),
            (VecValue::Uint64(a), VecValue::Uint64(b)) => eq_u64s(a, b),
            (VecValue::Int16(a), VecValue::Int16(b)) => eq_i16s(a, b),
            (VecValue::Int32(a), VecValue::Int32(b)) => eq_i32s(a, b),
            (VecValue::Int64(a), VecValue::Int64(b)) => eq_i64s(a, b),
            (VecValue::Text(a), VecValue::Text(b)) => eq_texts(a, b),
            (VecValue::Reference(a), VecValue::Reference(b)) => eq_u64s(a, b),
            _ => false,
        }
    }

    /// Number of elements.
    pub fn length(&self) -> (n: usize)
        ensures
            n == self@.len(),
    {
        match self {
            VecValue::Bool(v) => v.len(),
            VecValue::Uint16(v) => v.len(),
            VecValue::Uint32(v) => v.len(),
            VecValue::Uint64(v) => v.len(),
            VecValue::Int16(v) => v.len(),
            VecValue::Int32(v) => v.len(),
            VecValue::Int64(v) => v.len(),
            VecValue::Text(v) => v.len(),
            VecValue::Reference(v) => v.len(),
        }
    }

    /// Whether a scalar has the same kind as the vector's elements.
    pub fn accepts_elem_kind(&self, x: &ScalarValue) -> (r: bool)
        ensures
            r == self@.accepts_elem_kind(x@),
    {
        match (self, x) {
            (VecValue::Bool(_), ScalarValue::Bool(_)) => true,
            (VecValue::Uint16(_), ScalarValue::Uint16(_)) => true,
            (VecValue::Uint32(_), ScalarValue::Uint32(_)) => true,
            (VecValue::Uint64(_), ScalarValue::Uint64(_)) => true,
            (VecValue::Int16(_), ScalarValue::Int16(_)) => true,
            (VecValue::Int32(_), ScalarValue::Int32(_)) => true,
            (VecValue::Int64(_), ScalarValue::Int64(_)) => true,
            (VecValue::Text(_), ScalarValue::Text(_)) => true,
            (VecValue::Reference(_), ScalarValue::Reference(_)) => true,
            _ => false,
        }
    }

    /// Inserts a scalar of the vector's own kind at an index, shifting
    /// later elements right.
    pub fn insert_at(&mut self, i: usize, x: ScalarValue)
        requires
            old(self)@.accepts_elem_kind(x@),
            i <= old(self)@.len(),
        ensures
            final(self)@ == old(self)@.inserted_at(i as int, x@),
    {
        match (self, x) {
            (VecValue::Bool(v), ScalarValue::Bool(b)) => v.insert(i, b),
            (VecValue::Uint16(v), ScalarValue::Uint16(e)) => v.insert(i, e),
            (VecValue::Uint32(v), ScalarValue::Uint32(e)) => v.insert(i, e),
            (VecValue::Uint64(v), ScalarValue::Uint64(e)) => v.insert(i, e),
            (VecValue::Int16(v), ScalarValue::Int16(e)) => v.insert(i, e),
            (VecValue::Int32(v), ScalarValue::Int32(e)) => v.insert(i, e),
            (VecValue::Int64(v), ScalarValue::Int64(e)) => v.insert(i, e),
            (VecValue::Text(v), ScalarValue::Text(t)) => {
                let ghost raw = v@;
                let ghost deep = v.deep_view();
                let ghost traw = t;
                v.insert(i, t);
                proof {
                    broadcast use lemma_bytes_deep_view;

                    raw.insert_ensures(i as int, traw);
                    deep.insert_ensures(i as int, traw@);
                    assert(v.deep_view() =~= deep.insert(i as int, traw@));
                }
            },
            (VecValue::Reference(v), ScalarValue::Reference(e)) => v.insert(i, e),
            _ => {
                proof {
                    assert(false);
                }
            },
        }
    }

    /// Removes the element at an index, shifting later elements left.
    pub fn remove_at(&mut self, i: usize)
        requires
            i < old(self)@.len(),
        ensures
            final(self)@ == old(self)@.removed_at(i as int),
    {
        match self {
            VecValue::Bool(v) => {
                v.remove(i);
            },
            VecValue::Uint16(v) => {
                v.remove(i);
            },
            VecValue::Uint32(v) => {
                v.remove(i);
            },
            VecValue::Uint64(v) => {
                v.remove(i);
            },
            VecValue::Int16(v) => {
                v.remove(i);
            },
            VecValue::Int32(v) => {
                v.remove(i);
            },
            VecValue::Int64(v) => {
                v.remove(i);
            },
            VecValue::Text(v) => {
                let ghost raw = v@;
                let ghost deep = v.deep_view();
                v.remove(i);
                proof {
                    broadcast use lemma_bytes_deep_view;

                    raw.remove_ensures(i as int);
                    deep.remove_ensures(i as int);
                    assert(v.deep_view() =~= deep.remove(i as int));
                }
            },
            VecValue::Reference(v) => {
                v.remove(i);
            },
        }
    }

    /// Removes every element, keeping the vector's kind.
    pub fn clear_all(&mut self)
        ensures
            final(self)@ == old(self)@.cleared(),
    {
        match self {
            VecValue::Bool(v) => v.clear(),
            VecValue::Uint16(v) => v.clear(),
            VecValue::Uint32(v) => v.clear(),
            VecValue::Uint64(v) => v.clear(),
            VecValue::Int16(v) => v.clear(),
            VecValue::Int32(v) => v.clear(),
            VecValue::Int64(v) => v.clear(),
            VecValue::Text(v) => {
                v.clear();
                proof {
                    assert(v.deep_view() =~= Seq::<Seq<u8>>::empty());
                }
            },
            VecValue::Reference(v) => v.clear(),
        }
    }

    /// The entity the element at an index references, if the vector is a
    /// reference vector.
    pub fn reference_at(&self, i: usize) -> (r: Option<EntityId>)
        requires
            i < self@.len(),
        ensures
            r == self@.elem_ref(i as int),
    {
        match self {
            VecValue::Reference(v) => Some(v[i]),
            _ => None,
        }
    }

    /// The entities the vector references.
    pub fn involved_entities(&self) -> (r: Vec<EntityId>)
        ensures
            r@ == self@.ref_seq(),
    {
        match self {
            VecValue::Reference(v) => copy_vec(v),
            _ => Vec::new(),
        }
    }
}

impl VecValueView {
    /// The entity the element at an index references, if the vector is a
    /// reference vector.
    pub open spec fn elem_ref(self, i: int) -> Option<EntityId> {
        match self {
            VecValueView::Reference(s) => Some(s[i]),
            _ => None,
        }
    }
}

impl PropertyValue {
    /// A copy of the value.
    pub fn duplicate(&self) -> (r: Self)
        ensures
            r@ == self@,
    {
        match self {
            PropertyValue::Single(s) => PropertyValue::Single(s.duplicate()),
            PropertyValue::Vector(v, n) => PropertyValue::Vector(v.duplicate(), *n),
        }
    }

    /// Whether two property values model the same value.
    pub fn same_as(&self, other: &Self) -> (r: bool)
        ensures
            r == (self@ == other@),
    {
        match (self, other) {
            (PropertyValue::Single(a), PropertyValue::Single(b)) => a.same_as(b),
            (PropertyValue::Vector(a, an), PropertyValue::Vector(b, bn)) => an == bn && a.same_as(
                b,
            ),
            _ => false,
        }
    }

    /// The entities the value references, in order of occurrence.
    pub fn involved_entities(&self) -> (r: Vec<EntityId>)
        ensures
            r@ == self@.ref_seq(),
    {
        match self {
            PropertyValue::Single(ScalarValue::Reference(e)) => {
                let mut v: Vec<EntityId> = Vec::new();
                v.push(*e);
                proof {
                    assert(v@ =~= seq![*e]);
                }
                v
            },
            PropertyValue::Single(_) => Vec::new(),
            PropertyValue::Vector(v, _) => v.involved_entities(),
        }
    }
}

impl Property {
    /// A copy of the property.
    pub fn duplicate(&self) -> (r: Self)
        ensures
            r@ == self@,
    {
        Property {
            prop_type: self.prop_type,
            required: self.required,
            name: copy_vec(&self.name),
            description: copy_vec(&self.description),
        }
    }

    /// Checks a supplied value against the property's type: the kinds must
    /// match, a vector must stay within its length bound, and every text
    /// must stay within its length bound.
    pub fn ensure_property_value_to_update_is_valid(&self, value: &PropertyValue) -> (r: Result<
        (),
        DirectoryError,
    >)
        ensures
            r is Ok <==> value@.matches_type(self.prop_type),
            r == Err::<(), DirectoryError>(DirectoryError::PropertyValueDoNotMatchType)
                <==> !value@.kind_matches(self.prop_type),
            r == Err::<(), DirectoryError>(DirectoryError::VectorPropertyTooLong)
                <==> value@.kind_matches(self.prop_type) && value@.vec_len_exceeds(self.prop_type),
            r == Err::<(), DirectoryError>(DirectoryError::TextPropertyTooLong)
                <==> value@.kind_matches(self.prop_type) && !value@.vec_len_exceeds(self.prop_type)
                && value@.text_len_exceeds(self.prop_type),
    {
        match (&self.prop_type, value) {
            (PropertyType::Single(st), PropertyValue::Single(sv)) => check_scalar(st, sv),
            (PropertyType::Vector(st, max), PropertyValue::Vector(vv, _)) => check_vector(
                st,
                *max,
                vv,
            ),
            _ => Err(DirectoryError::PropertyValueDoNotMatchType),
        }
    }
}

/// Checks one scalar against a scalar type.
pub(crate) fn check_scalar_value(t: &ScalarType, v: &ScalarValue) -> (r: Result<
    (),
    DirectoryError,
>)
    ensures
        r is Ok <==> v@.matches_type(*t),
        r == Err::<(), DirectoryError>(DirectoryError::PropertyValueDoNotMatchType) <==> !v@.kind_matches(
            *t,
        ),
        r == Err::<(), DirectoryError>(DirectoryError::TextPropertyTooLong) <==> v@.kind_matches(*t)
            && !v@.size_ok(*t),
{
    check_scalar(t, v)
}

/// Checks one scalar against a scalar type.
fn check_scalar(t: &ScalarType, v: &ScalarValue) -> (r: Result<(), DirectoryError>)
    ensures
        r is Ok <==> v@.matches_type(*t),
        r == Err::<(), DirectoryError>(DirectoryError::PropertyValueDoNotMatchType) <==> !v@.kind_matches(
            *t,
        ),
        r == Err::<(), DirectoryError>(DirectoryError::TextPropertyTooLong) <==> v@.kind_matches(*t)
            && !v@.size_ok(*t),
{
    match (t, v) {
        (ScalarType::Bool, ScalarValue::Bool(_)) => Ok(()),
        (ScalarType::Uint16, ScalarValue::Uint16(_)) => Ok(()),
        (ScalarType::Uint32, ScalarValue::Uint32(_)) => Ok(()),
        (ScalarType::Uint64, ScalarValue::Uint64(_)) => Ok(()),
        (ScalarType::Int16, ScalarValue::Int16(_)) => Ok(()),
        (ScalarType::Int32, ScalarValue::Int32(_)) => Ok(()),
        (ScalarType::Int64, ScalarValue::Int64(_)) => Ok(()),
        (ScalarType::Text(max), ScalarValue::Text(s)) => {
            if s.len() <= *max as usize {
                Ok(())
            } else {
                Err(DirectoryError::TextPropertyTooLong)
            }
        },
        (ScalarType::Reference(_), ScalarValue::Reference(_)) => Ok(()),
        _ => Err(DirectoryError::PropertyValueDoNotMatchType),
    }
}

/// Checks one vector value against its element type and length bound.
fn check_vector(t: &ScalarType, max: VecMaxLength, v: &VecValue) -> (r: Result<
    (),
    DirectoryError,
>)
    ensures
        r is Ok <==> v@.kind_matches(*t) && v@.len() <= max && v@.elems_size_ok(*t),
        r == Err::<(), DirectoryError>(DirectoryError::PropertyValueDoNotMatchType) <==> !v@.kind_matches(
            *t,
        ),
        r == Err::<(), DirectoryError>(DirectoryError::VectorPropertyTooLong) <==> v@.kind_matches(
            *t,
        ) && v@.len() > max,
        r == Err::<(), DirectoryError>(DirectoryError::TextPropertyTooLong) <==> v@.kind_matches(*t)
            && v@.len() <= max && !v@.elems_size_ok(*t),
{
    let kind_ok = match (t, v) {
        (ScalarType::Bool, VecValue::Bool(_)) => true,
        (ScalarType::Uint16, VecValue::Uint16(_)) => true,
        (ScalarType::Uint32, VecValue::Uint32(_)) => true,
        (ScalarType::Uint64, VecValue::Uint64(_)) => true,
        (ScalarType::Int16, VecValue::Int16(_)) => true,
        (ScalarType::Int32, VecValue::Int32(_)) => true,
        (ScalarType::Int64, VecValue::Int64(_)) => true,
        (ScalarType::Text(_), VecValue::Text(_)) => true,
        (ScalarType::Reference(_), VecValue::Reference(_)) => true,
        _ => false,
    };
    if !kind_ok {
        return Err(DirectoryError::PropertyValueDoNotMatchType);
    }
    if v.length() > max as usize {
        return Err(DirectoryError::VectorPropertyTooLong);
    }
    match (t, v) {
        (ScalarType::Text(tmax), VecValue::Text(texts)) => {
            if texts_within(texts, *tmax) {
                proof {
                    assert(v@.elems_size_ok(*t));
                }
                Ok(())
            } else {
                Err(DirectoryError::TextPropertyTooLong)
            }
        },
        _ => {
            proof {
                assert(v@.elems_size_ok(*t));
            }
            Ok(())
        },
    }
}

/// Whether every byte string in a list stays within a length bound.
pub open spec fn spec_texts_within(s: Seq<Seq<u8>>, max: u16) -> bool {
    forall|i: int| 0 <= i < s.len() ==> #[trigger] s[i].len() <= max
}

/// Checks that every byte string in a list stays within a length bound.
fn texts_within(texts: &Vec<Vec<u8>>, max: u16) -> (r: bool)
    ensures
        r == spec_texts_within(texts.deep_view(), max),
{
    broadcast use lemma_bytes_deep_view;

    let mut i: usize = 0;
    while i < texts.len()
        invariant
            i <= texts.len(),
            forall|j: int| 0 <= j < i ==> #[trigger] texts.deep_view()[j].len() <= max,
        decreases texts.len() - i,
    {
        if texts[i].len() > max as usize {
            proof {
                assert(texts.deep_view()[i as int].len() > max);
            }
            return false;
        }
        i += 1;
    }
    true
}

} // verus!
