//! The intermediate representation: fully resolved named types.
//!
//! A resolved type is a pair of a canonical name and a structural kind.
//! Composite kinds carry the resolved entries of their components, each with
//! its own canonical name, so that a resolved value is a closed tree.

use vstd::assert_by_contradiction;
use vstd::prelude::*;

verus! {

/// A resolved named type: the unit of the known-types registry.
#[derive(Debug)]
pub struct NamedType {
    pub name: String,
    pub ty: DataModelType,
}

/// The structural kind of a resolved type.
#[derive(Debug)]
pub enum DataModelType {
    Bool,
    I8,
    I16,
    I32,
    I64,
    I128,
    U8,
    U16,
    U32,
    U64,
    U128,
    Usize,
    Isize,
    F32,
    F64,
    Char,
    Str,
    ByteArray,
    Unit,
    Optional(Box<NamedType>),
    UnitStruct,
    NewtypeStruct(Box<NamedType>),
    Sequence(Box<NamedType>),
    Tuple(Vec<NamedType>),
    TupleStruct(Vec<NamedType>),
    Mapping { key: Box<NamedType>, val: Box<NamedType> },
    Struct(Vec<NamedValue>),
    Enum(Vec<NamedVariant>),
    Schema,
}

/// A named field of a resolved struct (or struct-shaped enum variant).
#[derive(Debug)]
pub struct NamedValue {
    pub name: String,
    pub ty: NamedType,
}

/// A named variant of a resolved enum.
#[derive(Debug)]
pub struct NamedVariant {
    pub name: String,
    pub ty: DataModelVariant,
}

/// The shape of a resolved enum variant.
#[derive(Debug)]
pub enum DataModelVariant {
    UnitVariant,
    NewtypeVariant(Box<NamedType>),
    TupleVariant(Vec<NamedType>),
    StructVariant(Vec<NamedValue>),
}

/// The mathematical value of a [`NamedType`].
pub struct NamedTypeV {
    pub name: Seq<char>,
    pub ty: DataModelTypeV,
}

/// The mathematical value of a [`DataModelType`].
pub enum DataModelTypeV {
    Bool,
    I8,
    I16,
    I32,
    I64,
    I128,
    U8,
    U16,
    U32,
    U64,
    U128,
    Usize,
    Isize,
    F32,
    F64,
    Char,
    Str,
    ByteArray,
    Unit,
    Optional(Box<NamedTypeV>),
    UnitStruct,
    NewtypeStruct(Box<NamedTypeV>),
    Sequence(Box<NamedTypeV>),
    Tuple(Seq<NamedTypeV>),
    TupleStruct(Seq<NamedTypeV>),
    Mapping { key: Box<NamedTypeV>, val: Box<NamedTypeV> },
    Struct(Seq<NamedValueV>),
    Enum(Seq<NamedVariantV>),
    Schema,
}

/// The mathematical value of a [`NamedValue`].
pub struct NamedValueV {
    pub name: Seq<char>,
    pub ty: NamedTypeV,
}

/// The mathematical value of a [`NamedVariant`].
pub struct NamedVariantV {
    pub name: Seq<char>,
    pub ty: DataModelVariantV,
}

/// The mathematical value of a [`DataModelVariant`].
pub enum DataModelVariantV {
    UnitVariant,
    NewtypeVariant(Box<NamedTypeV>),
    TupleVariant(Seq<NamedTypeV>),
    StructVariant(Seq<NamedValueV>),
}

pub open spec fn view_named_type(t: NamedType) -> NamedTypeV
    decreases t,
{
    NamedTypeV { name: t.name@, ty: view_data_model_type(t.ty) }
}

pub open spec fn view_named_types(ts: Seq<NamedType>) -> Seq<NamedTypeV>
    decreases ts,
{
    if ts.len() == 0 {
        Seq::empty()
    } else {
        view_named_types(ts.drop_last()).push(view_named_type(ts[ts.len() - 1]))
    }
}

pub open spec fn view_named_values(vs: Seq<NamedValue>) -> Seq<NamedValueV>
    decreases vs,
{
    if vs.len() == 0 {
        Seq::empty()
    } else {
        view_named_values(vs.drop_last()).push(view_named_value(vs[vs.len() - 1]))
    }
}

pub open spec fn view_named_variants(vs: Seq<NamedVariant>) -> Seq<NamedVariantV>
    decreases vs,
{
    if vs.len() == 0 {
        Seq::empty()
    } else {
        view_named_variants(vs.drop_last()).push(view_named_variant(vs[vs.len() - 1]))
    }
}

pub open spec fn view_data_model_type(t: DataModelType) -> DataModelTypeV
    decreases t,
{
    match t {
        DataModelType::Bool => DataModelTypeV::Bool,
        DataModelType::I8 => DataModelTypeV::I8,
        DataModelType::I16 => DataModelTypeV::I16,
        DataModelType::I32 => DataModelTypeV::I32,
        DataModelType::I64 => DataModelTypeV::I64,
        DataModelType::I128 => DataModelTypeV::I128,
        DataModelType::U8 => DataModelTypeV::U8,
        DataModelType::U16 => DataModelTypeV::U16,
        DataModelType::U32 => DataModelTypeV::U32,
        DataModelType::U64 => DataModelTypeV::U64,
        DataModelType::U128 => DataModelTypeV::U128,
        DataModelType::Usize => DataModelTypeV::Usize,
        DataModelType::Isize => DataModelTypeV::Isize,
        DataModelType::F32 => DataModelTypeV::F32,
        DataModelType::F64 => DataModelTypeV::F64,
        DataModelType::Char => DataModelTypeV::Char,
        DataModelType::Str => DataModelTypeV::Str,
        DataModelType::ByteArray => DataModelTypeV::ByteArray,
        DataModelType::Unit => DataModelTypeV::Unit,
        DataModelType::Optional(t) => DataModelTypeV::Optional(
            Box::new(view_named_type(*t)),
        ),
        DataModelType::UnitStruct => DataModelTypeV::UnitStruct,
        DataModelType::NewtypeStruct(t) => DataModelTypeV::NewtypeStruct(
            Box::new(view_named_type(*t)),
        ),
        DataModelType::Sequence(t) => DataModelTypeV::Sequence(
            Box::new(view_named_type(*t)),
        ),
        DataModelType::Tuple(ts) => DataModelTypeV::Tuple(view_named_types(ts@)),
        DataModelType::TupleStruct(ts) => DataModelTypeV::TupleStruct(
            view_named_types(ts@),
        ),
        DataModelType::Mapping { key, val } => DataModelTypeV::Mapping {
            key: Box::new(view_named_type(*key)),
            val: Box::new(view_named_type(*val)),
        },
        DataModelType::Struct(fs) => DataModelTypeV::Struct(view_named_values(fs@)),
        DataModelType::Enum(vs) => DataModelTypeV::Enum(view_named_variants(vs@)),
        DataModelType::Schema => DataModelTypeV::Schema,
    }
}

pub open spec fn view_named_value(v: NamedValue) -> NamedValueV
    decreases v,
{
    NamedValueV { name: v.name@, ty: view_named_type(v.ty) }
}

pub open spec fn view_named_variant(v: NamedVariant) -> NamedVariantV
    decreases v,
{
    NamedVariantV { name: v.name@, ty: view_data_model_variant(v.ty) }
}

pub open spec fn view_data_model_variant(v: DataModelVariant) -> DataModelVariantV
    decreases v,
{
    match v {
        DataModelVariant::UnitVariant => DataModelVariantV::UnitVariant,
        DataModelVariant::NewtypeVariant(t) => DataModelVariantV::NewtypeVariant(
            Box::new(view_named_type(*t)),
        ),
        DataModelVariant::TupleVariant(ts) => DataModelVariantV::TupleVariant(
            view_named_types(ts@),
        ),
        DataModelVariant::StructVariant(fs) => DataModelVariantV::StructVariant(
            view_named_values(fs@),
        ),
    }
}

impl View for NamedType {
    type V = NamedTypeV;

    open spec fn view(&self) -> NamedTypeV {
        view_named_type(*self)
    }
}

impl View for DataModelType {
    type V = DataModelTypeV;

    open spec fn view(&self) -> DataModelTypeV {
        view_data_model_type(*self)
    }
}

impl View for NamedValue {
    type V = NamedValueV;

    open spec fn view(&self) -> NamedValueV {
        view_named_value(*self)
    }
}

impl View for NamedVariant {
    type V = NamedVariantV;

    open spec fn view(&self) -> NamedVariantV {
        view_named_variant(*self)
    }
}

impl View for DataModelVariant {
    type V = DataModelVariantV;

    open spec fn view(&self) -> DataModelVariantV {
        view_data_model_variant(*self)
    }
}

/// The views of a list of entries, elementwise and in order.
pub broadcast proof fn lemma_view_named_types(ts: Seq<NamedType>)
    ensures
        (#[trigger] view_named_types(ts)).len() == ts.len(),
        forall|i: int|
            0 <= i < ts.len() ==> #[trigger] view_named_types(ts)[i] == view_named_type(ts[i]),
    decreases ts,
{
    if ts.len() > 0 {
        lemma_view_named_types(ts.drop_last());
    }
}

pub broadcast proof fn lemma_view_named_values(vs: Seq<NamedValue>)
    ensures
        (#[trigger] view_named_values(vs)).len() == vs.len(),
        forall|i: int|
            0 <= i < vs.len() ==> #[trigger] view_named_values(vs)[i] == view_named_value(vs[i]),
    decreases vs,
{
    if vs.len() > 0 {
        lemma_view_named_values(vs.drop_last());
    }
}

pub broadcast proof fn lemma_view_named_variants(vs: Seq<NamedVariant>)
    ensures
        (#[trigger] view_named_variants(vs)).len() == vs.len(),
        forall|i: int|
            0 <= i < vs.len() ==> #[trigger] view_named_variants(vs)[i] == view_named_variant(
                vs[i],
            ),
    decreases vs,
{
    if vs.len() > 0 {
        lemma_view_named_variants(vs.drop_last());
    }
}


impl NamedType {
    /// An exact structural copy: the copy has the same mathematical value.
    pub fn deep_clone(&self) -> (r: NamedType)
        ensures
            r@ == self@,
        decreases *self,
    {
        NamedType { name: self.name.clone(), ty: self.ty.deep_clone() }
    }
}

fn clone_types(ts: &Vec<NamedType>) -> (r: Vec<NamedType>)
    ensures
        r@.len() == ts@.len(),
        forall|i: int|
            0 <= i < ts@.len() ==> #[trigger] view_named_type(r@[i]) == view_named_type(ts@[i]),
        view_named_types(r@) == view_named_types(ts@),
    decreases ts@,
{
    broadcast use lemma_view_named_types;

    let mut r: Vec<NamedType> = Vec::new();
    let mut i: usize = 0;
    while i < ts.len()
        invariant
            0 <= i <= ts@.len(),
            r@.len() == i,
            forall|j: int|
                0 <= j < i ==> #[trigger] view_named_type(r@[j]) == view_named_type(ts@[j]),
        decreases ts@.len() - i,
    {
        r.push(ts[i].deep_clone());
        i = i + 1;
    }
    proof {
        lemma_view_named_types(r@);
        lemma_view_named_types(ts@);
        assert(view_named_types(r@) =~= view_named_types(ts@));
    }
    r
}

fn clone_values(vs: &Vec<NamedValue>) -> (r: Vec<NamedValue>)
    ensures
        r@.len() == vs@.len(),
        forall|i: int|
            0 <= i < vs@.len() ==> #[trigger] view_named_value(r@[i]) == view_named_value(vs@[i]),
        view_named_values(r@) == view_named_values(vs@),
    decreases vs@,
{
    broadcast use lemma_view_named_values;

    let mut r: Vec<NamedValue> = Vec::new();
    let mut i: usize = 0;
    while i < vs.len()
        invariant
            0 <= i <= vs@.len(),
            r@.len() == i,
            forall|j: int|
                0 <= j < i ==> #[trigger] view_named_value(r@[j]) == view_named_value(vs@[j]),
        decreases vs@.len() - i,
    {
        let v = &vs[i];
        r.push(NamedValue { name: v.name.clone(), ty: v.ty.deep_clone() });
        i = i + 1;
    }
    proof {
        lemma_view_named_values(r@);
        lemma_view_named_values(vs@);
        assert(view_named_values(r@) =~= view_named_values(vs@));
    }
    r
}

fn clone_variants(vs: &Vec<NamedVariant>) -> (r: Vec<NamedVariant>)
    ensures
        r@.len() == vs@.len(),
        forall|i: int|
            0 <= i < vs@.len() ==> #[trigger] view_named_variant(r@[i]) == view_named_variant(
                vs@[i],
            ),
        view_named_variants(r@) == view_named_variants(vs@),
    decreases vs@,
{
    broadcast use lemma_view_named_variants;

    let mut r: Vec<NamedVariant> = Vec::new();
    let mut i: usize = 0;
    while i < vs.len()
        invariant
            0 <= i <= vs@.len(),
            r@.len() == i,
            forall|j: int|
                0 <= j < i ==> #[trigger] view_named_variant(r@[j]) == view_named_variant(
                    vs@[j],
                ),
        decreases vs@.len() - i,
    {
        let v = &vs[i];
        r.push(NamedVariant { name: v.name.clone(), ty: v.ty.deep_clone() });
        i = i + 1;
    }
    proof {
        lemma_view_named_variants(r@);
        lemma_view_named_variants(vs@);
        assert(view_named_variants(r@) =~= view_named_variants(vs@));
    }
    r
}

impl DataModelVariant {
    /// An exact structural copy: the copy has the same mathematical value.
    pub fn deep_clone(&self) -> (r: DataModelVariant)
        ensures
            r@ == self@,
        decreases *self,
    {
        match self {
            DataModelVariant::UnitVariant => DataModelVariant::UnitVariant,
            DataModelVariant::NewtypeVariant(t) => DataModelVariant::NewtypeVariant(
                Box::new(t.deep_clone()),
            ),
            DataModelVariant::TupleVariant(ts) => DataModelVariant::TupleVariant(
                clone_types(ts),
            ),
            DataModelVariant::StructVariant(fs) => DataModelVariant::StructVariant(
                clone_values(fs),
            ),
        }
    }
}

impl DataModelType {
    /// An exact structural copy: the copy has the same mathematical value.
    pub fn deep_clone(&self) -> (r: DataModelType)
        ensures
            r@ == self@,
        decreases *self,
    {
        match self {
            DataModelType::Bool => DataModelType::Bool,
            DataModelType::I8 => DataModelType::I8,
            DataModelType::I16 => DataModelType::I16,
            DataModelType::I32 => DataModelType::I32,
            DataModelType::I64 => DataModelType::I64,
            DataModelType::I128 => DataModelType::I128,
            DataModelType::U8 => DataModelType::U8,
            DataModelType::U16 => DataModelType::U16,
            DataModelType::U32 => DataModelType::U32,
            DataModelType::U64 => DataModelType::U64,
            DataModelType::U128 => DataModelType::U128,
            DataModelType::Usize => DataModelType::Usize,
            DataModelType::Isize => DataModelType::Isize,
            DataModelType::F32 => DataModelType::F32,
            DataModelType::F64 => DataModelType::F64,
            DataModelType::Char => DataModelType::Char,
            DataModelType::Str => DataModelType::Str,
            DataModelType::ByteArray => DataModelType::ByteArray,
            DataModelType::Unit => DataModelType::Unit,
            DataModelType::Optional(t) => DataModelType::Optional(Box::new(t.deep_clone())),
            DataModelType::UnitStruct => DataModelType::UnitStruct,
            DataModelType::NewtypeStruct(t) => DataModelType::NewtypeStruct(
                Box::new(t.deep_clone()),
            ),
            DataModelType::Sequence(t) => DataModelType::Sequence(Box::new(t.deep_clone())),
            DataModelType::Tuple(ts) => DataModelType::Tuple(clone_types(ts)),
            DataModelType::TupleStruct(ts) => DataModelType::TupleStruct(clone_types(ts)),
            DataModelType::Mapping { key, val } => DataModelType::Mapping {
                key: Box::new(key.deep_clone()),
                val: Box::new(val.deep_clone()),
            },
            DataModelType::Struct(fs) => DataModelType::Struct(clone_values(fs)),
            DataModelType::Enum(vs) => DataModelType::Enum(clone_variants(vs)),
            DataModelType::Schema => DataModelType::Schema,
        }
    }
}


impl NamedType {
    /// Structural equality of two resolved entries: equal exactly when their
    /// mathematical values (canonical name and kind, recursively) are equal.
    pub fn deep_eq(&self, other: &NamedType) -> (r: bool)
        ensures
            r == (self@ == other@),
        decreases *self,
    {
        self.name.eq(&other.name) && self.ty.deep_eq(&other.ty)
    }
}

fn types_eq(a: &Vec<NamedType>, b: &Vec<NamedType>) -> (r: bool)
    ensures
        r == (view_named_types(a@) == view_named_types(b@)),
    decreases a@,
{
    proof {
        lemma_view_named_types(a@);
        lemma_view_named_types(b@);
    }
    if a.len() != b.len() {
        return false;
    }
    let mut i: usize = 0;
    while i < a.len()
        invariant
            a@.len() == b@.len(),
            0 <= i <= a@.len(),
            forall|j: int|
                0 <= j < i ==> #[trigger] view_named_type(a@[j]) == view_named_type(b@[j]),
        decreases a@.len() - i,
    {
        if !a[i].deep_eq(&b[i]) {
            proof {
                lemma_view_named_types(a@);
                lemma_view_named_types(b@);
                assert(view_named_types(a@)[i as int] != view_named_types(b@)[i as int]);
            }
            return false;
        }
        i = i + 1;
    }
    proof {
        lemma_view_named_types(a@);
        lemma_view_named_types(b@);
        assert(view_named_types(a@) =~= view_named_types(b@));
    }
    true
}

fn values_eq(a: &Vec<NamedValue>, b: &Vec<NamedValue>) -> (r: bool)
    ensures
        r == (view_named_values(a@) == view_named_values(b@)),
    decreases a@,
{
    proof {
        lemma_view_named_values(a@);
        lemma_view_named_values(b@);
    }
    if a.len() != b.len() {
        return false;
    }
    let mut i: usize = 0;
    while i < a.len()
        invariant
            a@.len() == b@.len(),
            0 <= i <= a@.len(),
            forall|j: int|
                0 <= j < i ==> #[trigger] view_named_value(a@[j]) == view_named_value(b@[j]),
        decreases a@.len() - i,
    {
        if !(a[i].name.eq(&b[i].name) && a[i].ty.deep_eq(&b[i].ty)) {
            proof {
                lemma_view_named_values(a@);
                lemma_view_named_values(b@);
                assert(view_named_values(a@)[i as int] != view_named_values(b@)[i as int]);
            }
            return false;
        }
        i = i + 1;
    }
    proof {
        lemma_view_named_values(a@);
        lemma_view_named_values(b@);
        assert(view_named_values(a@) =~= view_named_values(b@));
    }
    true
}

fn variants_eq(a: &Vec<NamedVariant>, b: &Vec<NamedVariant>) -> (r: bool)
    ensures
        r == (view_named_variants(a@) == view_named_variants(b@)),
    decreases a@,
{
    proof {
        lemma_view_named_variants(a@);
        lemma_view_named_variants(b@);
    }
    if a.len() != b.len() {
        return false;
    }
    let mut i: usize = 0;
    while i < a.len()
        invariant
            a@.len() == b@.len(),
            0 <= i <= a@.len(),
            forall|j: int|
                0 <= j < i ==> #[trigger] view_named_variant(a@[j]) == view_named_variant(
                    b@[j],
                ),
        decreases a@.len() - i,
    {
        if !(a[i].name.eq(&b[i].name) && a[i].ty.deep_eq(&b[i].ty)) {
            proof {
                lemma_view_named_variants(a@);
                lemma_view_named_variants(b@);
                assert(view_named_variants(a@)[i as int] != view_named_variants(b@)[i as int]);
            }
            return false;
        }
        i = i + 1;
    }
    proof {
        lemma_view_named_variants(a@);
        lemma_view_named_variants(b@);
        assert(view_named_variants(a@) =~= view_named_variants(b@));
    }
    true
}

impl DataModelVariant {
    /// Structural equality of two variant shapes.
    pub fn deep_eq(&self, other: &DataModelVariant) -> (r: bool)
        ensures
            r == (self@ == other@),
        decreases *self,
    {
        match (self, other) {
            (DataModelVariant::UnitVariant, DataModelVariant::UnitVariant) => true,
            (DataModelVariant::NewtypeVariant(x), DataModelVariant::NewtypeVariant(y)) => x
                .deep_eq(y),
            (DataModelVariant::TupleVariant(x), DataModelVariant::TupleVariant(y)) => types_eq(
                x,
                y,
            ),
            (DataModelVariant::StructVariant(x), DataModelVariant::StructVariant(y)) => values_eq(
                x,
                y,
            ),
            _ => false,
        }
    }
}

impl DataModelType {
    /// Structural equality of two kinds.
    pub fn deep_eq(&self, other: &DataModelType) -> (r: bool)
        ensures
            r == (self@ == other@),
        decreases *self,
    {
        match (self, other) {
            (DataModelType::Bool, DataModelType::Bool) => true,
            (DataModelType::I8, DataModelType::I8) => true,
            (DataModelType::I16, DataModelType::I16) => true,
            (DataModelType::I32, DataModelType::I32) => true,
            (DataModelType::I64, DataModelType::I64) => true,
            (DataModelType::I128, DataModelType::I128) => true,
            (DataModelType::U8, DataModelType::U8) => true,
            (DataModelType::U16, DataModelType::U16) => true,
            (DataModelType::U32, DataModelType::U32) => true,
            (DataModelType::U64, DataModelType::U64) => true,
            (DataModelType::U128, DataModelType::U128) => true,
            (DataModelType::Usize, DataModelType::Usize) => true,
            (DataModelType::Isize, DataModelType::Isize) => true,
            (DataModelType::F32, DataModelType::F32) => true,
            (DataModelType::F64, DataModelType::F64) => true,
            (DataModelType::Char, DataModelType::Char) => true,
            (DataModelType::Str, DataModelType::Str) => true,
            (DataModelType::ByteArray, DataModelType::ByteArray) => true,
            (DataModelType::Unit, DataModelType::Unit) => true,
            (DataModelType::Optional(x), DataModelType::Optional(y)) => x.deep_eq(y),
            (DataModelType::UnitStruct, DataModelType::UnitStruct) => true,
            (DataModelType::NewtypeStruct(x), DataModelType::NewtypeStruct(y)) => x.deep_eq(y),
            (DataModelType::Sequence(x), DataModelType::Sequence(y)) => x.deep_eq(y),
            (DataModelType::Tuple(x), DataModelType::Tuple(y)) => types_eq(x, y),
            (DataModelType::TupleStruct(x), DataModelType::TupleStruct(y)) => types_eq(x, y),
            (
                DataModelType::Mapping { key: xk, val: xv },
                DataModelType::Mapping { key: yk, val: yv },
            ) => xk.deep_eq(yk) && xv.deep_eq(yv),
            (DataModelType::Struct(x), DataModelType::Struct(y)) => values_eq(x, y),
            (DataModelType::Enum(x), DataModelType::Enum(y)) => variants_eq(x, y),
            (DataModelType::Schema, DataModelType::Schema) => true,
            _ => false,
        }
    }
}

/// All entries of a list share the structural kind of the first.
pub open spec fn kinds_all_same(ts: Seq<NamedTypeV>) -> bool {
    forall|i: int| 0 <= i < ts.len() ==> (#[trigger] ts[i]).ty == ts[0].ty
}

/// Whether every entry's kind equals the first entry's kind.
#[verifier::loop_isolation(false)]
pub fn kinds_all_same_check(ts: &Vec<NamedType>) -> (b: bool)
    requires
        ts@.len() > 0,
    ensures
        b == kinds_all_same(view_named_types(ts@)),
{
    let ghost tsv = view_named_types(ts@);
    proof {
        lemma_view_named_types(ts@);
    }
    let mut i: usize = 0;
    while i < ts.len()
        invariant
            0 <= i <= ts@.len(),
            forall|j: int| 0 <= j < i ==> (#[trigger] tsv[j]).ty == tsv[0].ty,
        decreases ts@.len() - i,
    {
        if !ts[i].ty.deep_eq(&ts[0].ty) {
            proof {
                assert_by_contradiction!(!kinds_all_same(tsv), {
                    assert((tsv[i as int]).ty == tsv[0].ty);
                });
            }
            return false;
        }
        i = i + 1;
    }
    proof {
        assert(kinds_all_same(tsv));
    }
    true
}

} // verus!


