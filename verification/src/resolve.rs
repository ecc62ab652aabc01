//! The fixpoint type-resolution engine.
//!
//! Unresolved definitions are resolved against the growing known-types
//! registry in repeated passes; a definition that references a name not yet
//! known is deferred to the next pass.  A pass that makes no progress while
//! definitions are still pending fails the whole set.

use vstd::assert_by_contradiction;
use vstd::prelude::*;
use vstd::string::StrSliceExecFns;
use vstd::string::StringExecFns;

use crate::Error;
use crate::ErrorV;
use crate::ir::DataModelType;
use crate::ir::DataModelTypeV;
use crate::ir::DataModelVariant;
use crate::ir::DataModelVariantV;
use crate::ir::NamedType;
use crate::ir::NamedTypeV;
use crate::ir::NamedValue;
use crate::ir::NamedValueV;
use crate::ir::NamedVariant;
use crate::ir::NamedVariantV;
use crate::ir::lemma_view_named_types;
use crate::ir::lemma_view_named_values;
use crate::ir::lemma_view_named_variants;
use crate::ir::view_named_type;
use crate::ir::view_named_types;
use crate::ir::view_named_value;
use crate::ir::view_named_values;
use crate::ir::view_named_variant;
use crate::ir::view_named_variants;
use crate::ir::kinds_all_same;
use crate::ir::kinds_all_same_check;
use crate::parse::TypeRefrV;
use crate::parse::UnresolvedTypeRefr;
use crate::parse::lemma_view_refrs;
use crate::parse::str_eq;
use crate::parse::view_refr;
use crate::parse::view_refrs;

verus! {

/// An opaque source location, carried through for the caller's diagnostics.
#[derive(Debug, Clone, Copy, PartialEq, Eq, Structural)]
pub struct Span {
    pub offset: usize,
    pub len: usize,
}

/// A variant of an unresolved enum definition.
#[derive(Debug)]
#[allow(inconsistent_fields)]
pub enum UnresolvedEnumVariant {
    Unit { name: String },
    NewType { name: String, ty: UnresolvedTypeRefr },
    Tuple { name: String, fields: Vec<UnresolvedTypeRefr> },
    Struct { name: String, fields: Vec<(String, UnresolvedTypeRefr)> },
}

impl UnresolvedEnumVariant {
    /// Classify a variant's parsed payload reference: a literal tuple
    /// expression becomes a tuple-shaped variant carrying its elements,
    /// anything else a newtype variant carrying the whole reference.
    pub fn from_payload(name: String, ty: UnresolvedTypeRefr) -> (r: UnresolvedEnumVariant)
        ensures
            r@ == (match ty@ {
                TypeRefrV::Tuple(tys) => EnumVariantV::Tuple(name@, tys),
                _ => EnumVariantV::NewType(name@, ty@),
            }),
    {
        match ty {
            UnresolvedTypeRefr::Tuple { tys } => UnresolvedEnumVariant::Tuple {
                name,
                fields: tys,
            },
            other => UnresolvedEnumVariant::NewType { name, ty: other },
        }
    }
}

/// An unresolved type definition, as absorbed from the document layer.
#[derive(Debug)]
pub enum UnresolvedTypeDefn {
    Alias { name: String, ty: UnresolvedTypeRefr, span: Span },
    UnitStruct { name: String, span: Span },
    NewTypeTupleStruct { name: String, ty: UnresolvedTypeRefr, span: Span },
    Struct { name: String, fields: Vec<(String, UnresolvedTypeRefr)>, span: Span },
    Enum { name: String, variants: Vec<UnresolvedEnumVariant>, span: Span },
}

/// The mathematical value of an [`UnresolvedEnumVariant`].
pub enum EnumVariantV {
    Unit(Seq<char>),
    NewType(Seq<char>, TypeRefrV),
    Tuple(Seq<char>, Seq<TypeRefrV>),
    Struct(Seq<char>, Seq<(Seq<char>, TypeRefrV)>),
}

/// The mathematical value of an [`UnresolvedTypeDefn`]; the opaque source
/// span is not part of the logical content.
pub enum DefnV {
    Alias(Seq<char>, TypeRefrV),
    UnitStruct(Seq<char>),
    NewTypeTupleStruct(Seq<char>, TypeRefrV),
    Struct(Seq<char>, Seq<(Seq<char>, TypeRefrV)>),
    Enum(Seq<char>, Seq<EnumVariantV>),
}

pub open spec fn view_field(f: (String, UnresolvedTypeRefr)) -> (Seq<char>, TypeRefrV) {
    (f.0@, view_refr(f.1))
}

pub open spec fn view_fields(fs: Seq<(String, UnresolvedTypeRefr)>) -> Seq<(Seq<char>, TypeRefrV)>
    decreases fs,
{
    if fs.len() == 0 {
        Seq::empty()
    } else {
        view_fields(fs.drop_last()).push(view_field(fs[fs.len() - 1]))
    }
}

pub broadcast proof fn lemma_view_fields(fs: Seq<(String, UnresolvedTypeRefr)>)
    ensures
        (#[trigger] view_fields(fs)).len() == fs.len(),
        forall|i: int| 0 <= i < fs.len() ==> #[trigger] view_fields(fs)[i] == view_field(fs[i]),
    decreases fs,
{
    if fs.len() > 0 {
        lemma_view_fields(fs.drop_last());
    }
}

pub open spec fn view_variant(v: UnresolvedEnumVariant) -> EnumVariantV
    decreases v,
{
    match v {
        UnresolvedEnumVariant::Unit { name } => EnumVariantV::Unit(name@),
        UnresolvedEnumVariant::NewType { name, ty } => EnumVariantV::NewType(
            name@,
            view_refr(ty),
        ),
        UnresolvedEnumVariant::Tuple { name, fields } => EnumVariantV::Tuple(
            name@,
            view_refrs(fields@),
        ),
        UnresolvedEnumVariant::Struct { name, fields } => EnumVariantV::Struct(
            name@,
            view_fields(fields@),
        ),
    }
}

pub open spec fn view_variant_list(vs: Seq<UnresolvedEnumVariant>) -> Seq<EnumVariantV>
    decreases vs,
{
    if vs.len() == 0 {
        Seq::empty()
    } else {
        view_variant_list(vs.drop_last()).push(view_variant(vs[vs.len() - 1]))
    }
}

pub broadcast proof fn lemma_view_variant_list(vs: Seq<UnresolvedEnumVariant>)
    ensures
        (#[trigger] view_variant_list(vs)).len() == vs.len(),
        forall|i: int|
            0 <= i < vs.len() ==> #[trigger] view_variant_list(vs)[i] == view_variant(vs[i]),
    decreases vs,
{
    if vs.len() > 0 {
        lemma_view_variant_list(vs.drop_last());
    }
}

pub open spec fn view_defn(d: UnresolvedTypeDefn) -> DefnV {
    match d {
        UnresolvedTypeDefn::Alias { name, ty, span } => DefnV::Alias(name@, view_refr(ty)),
        UnresolvedTypeDefn::UnitStruct { name, span } => DefnV::UnitStruct(name@),
        UnresolvedTypeDefn::NewTypeTupleStruct { name, ty, span } => DefnV::NewTypeTupleStruct(
            name@,
            view_refr(ty),
        ),
        UnresolvedTypeDefn::Struct { name, fields, span } => DefnV::Struct(
            name@,
            view_fields(fields@),
        ),
        UnresolvedTypeDefn::Enum { name, variants, span } => DefnV::Enum(
            name@,
            view_variant_list(variants@),
        ),
    }
}

pub open spec fn view_defns(ds: Seq<UnresolvedTypeDefn>) -> Seq<DefnV>
    decreases ds,
{
    if ds.len() == 0 {
        Seq::empty()
    } else {
        view_defns(ds.drop_last()).push(view_defn(ds[ds.len() - 1]))
    }
}

pub broadcast proof fn lemma_view_defns(ds: Seq<UnresolvedTypeDefn>)
    ensures
        (#[trigger] view_defns(ds)).len() == ds.len(),
        forall|i: int| 0 <= i < ds.len() ==> #[trigger] view_defns(ds)[i] == view_defn(ds[i]),
    decreases ds,
{
    if ds.len() > 0 {
        lemma_view_defns(ds.drop_last());
    }
}

impl View for UnresolvedEnumVariant {
    type V = EnumVariantV;

    open spec fn view(&self) -> EnumVariantV {
        view_variant(*self)
    }
}

impl View for UnresolvedTypeDefn {
    type V = DefnV;

    open spec fn view(&self) -> DefnV {
        view_defn(*self)
    }
}

/// The declared name of a definition.
pub open spec fn defn_name(d: DefnV) -> Seq<char> {
    match d {
        DefnV::Alias(n, _) => n,
        DefnV::UnitStruct(n) => n,
        DefnV::NewTypeTupleStruct(n, _) => n,
        DefnV::Struct(n, _) => n,
        DefnV::Enum(n, _) => n,
    }
}

/// Whether a name is written like an inline composite reference rather than
/// a declared name: such names never match a registry entry.
pub open spec fn spec_looks_adhoc(n: Seq<char>) -> bool {
    (n.len() > 0 && (n[0] == '(' || n[0] == '[')) || (n.len() >= 7 && n.subrange(0, 7)
        == "option<"@) || (n.len() >= 4 && n.subrange(0, 4) == "map<"@)
}

/// Whether `name` is written like an inline composite reference (a leading
/// parenthesis or bracket, or an `option<`/`map<` prefix).
pub fn looks_adhoc(name: &str) -> (r: bool)
    ensures
        r == spec_looks_adhoc(name@),
{
    let n = name.unicode_len();
    if n > 0 {
        let c = name.get_char(0);
        if c == '(' || c == '[' {
            return true;
        }
    }
    if n >= 7 && str_eq(name.substring_char(0, 7), "option<") {
        return true;
    }
    if n >= 4 && str_eq(name.substring_char(0, 4), "map<") {
        return true;
    }
    false
}

/// A type reference is well formed when every bare name in it either is the
/// unit spelling `()` or does not look like an inline composite; the
/// resolution engine treats a reference breaking this as a caller defect.
pub open spec fn refr_wf(t: TypeRefrV) -> bool
    decreases t,
{
    match t {
        TypeRefrV::Name(n) => n == "()"@ || !spec_looks_adhoc(n),
        TypeRefrV::Optional(ty) => refr_wf(*ty),
        TypeRefrV::Sequence(ty) => refr_wf(*ty),
        TypeRefrV::Array(ty, ct) => refr_wf(*ty),
        TypeRefrV::Mapping(kty, vty) => refr_wf(*kty) && refr_wf(*vty),
        TypeRefrV::Tuple(tys) => refrs_wf(tys),
    }
}

/// Every reference in the list is well formed.
pub open spec fn refrs_wf(tys: Seq<TypeRefrV>) -> bool
    decreases tys,
{
    forall|i: int| 0 <= i < tys.len() ==> refr_wf(#[trigger] tys[i])
}

/// Every field reference of a struct-shaped field list is well formed.
pub open spec fn fields_wf(fs: Seq<(Seq<char>, TypeRefrV)>) -> bool {
    forall|i: int| 0 <= i < fs.len() ==> refr_wf((#[trigger] fs[i]).1)
}

pub open spec fn variant_wf(v: EnumVariantV) -> bool {
    match v {
        EnumVariantV::Unit(_) => true,
        EnumVariantV::NewType(_, ty) => refr_wf(ty),
        EnumVariantV::Tuple(_, tys) => refrs_wf(tys),
        EnumVariantV::Struct(_, fs) => fields_wf(fs),
    }
}

/// A definition is well formed when all its references are, and a struct
/// definition has at least one field (an empty struct must be rejected by
/// the absorbing layer before resolution).
pub open spec fn defn_wf(d: DefnV) -> bool {
    match d {
        DefnV::Alias(_, ty) => refr_wf(ty),
        DefnV::UnitStruct(_) => true,
        DefnV::NewTypeTupleStruct(_, ty) => refr_wf(ty),
        DefnV::Struct(_, fs) => fs.len() > 0 && fields_wf(fs),
        DefnV::Enum(_, vs) => variants_wf(vs),
    }
}

/// Every variant of the list is well formed.
pub open spec fn variants_wf(vs: Seq<EnumVariantV>) -> bool {
    forall|i: int| 0 <= i < vs.len() ==> variant_wf(#[trigger] vs[i])
}

pub open spec fn defns_wf(ds: Seq<DefnV>) -> bool {
    forall|i: int| 0 <= i < ds.len() ==> defn_wf(#[trigger] ds[i])
}


/// The resolved entry a primitive keyword denotes, if the name is one.
///
/// `string` resolves to the borrowed-string schema entry named `str`,
/// `bytearray` to the byte-array entry named `[u8]`, and `unit` (or its
/// spelling `()`) to the unit entry named `()`.
pub open spec fn prim_lookup(n: Seq<char>) -> Option<NamedTypeV> {
    if n == "bool"@ {
        Some(NamedTypeV { name: "bool"@, ty: DataModelTypeV::Bool })
    } else if n == "i8"@ {
        Some(NamedTypeV { name: "i8"@, ty: DataModelTypeV::I8 })
    } else if n == "i16"@ {
        Some(NamedTypeV { name: "i16"@, ty: DataModelTypeV::I16 })
    } else if n == "i32"@ {
        Some(NamedTypeV { name: "i32"@, ty: DataModelTypeV::I32 })
    } else if n == "i64"@ {
        Some(NamedTypeV { name: "i64"@, ty: DataModelTypeV::I64 })
    } else if n == "i128"@ {
        Some(NamedTypeV { name: "i128"@, ty: DataModelTypeV::I128 })
    } else if n == "u8"@ {
        Some(NamedTypeV { name: "u8"@, ty: DataModelTypeV::U8 })
    } else if n == "u16"@ {
        Some(NamedTypeV { name: "u16"@, ty: DataModelTypeV::U16 })
    } else if n == "u32"@ {
        Some(NamedTypeV { name: "u32"@, ty: DataModelTypeV::U32 })
    } else if n == "u64"@ {
        Some(NamedTypeV { name: "u64"@, ty: DataModelTypeV::U64 })
    } else if n == "u128"@ {
        Some(NamedTypeV { name: "u128"@, ty: DataModelTypeV::U128 })
    } else if n == "f32"@ {
        Some(NamedTypeV { name: "f32"@, ty: DataModelTypeV::F32 })
    } else if n == "f64"@ {
        Some(NamedTypeV { name: "f64"@, ty: DataModelTypeV::F64 })
    } else if n == "char"@ {
        Some(NamedTypeV { name: "char"@, ty: DataModelTypeV::Char })
    } else if n == "string"@ {
        Some(NamedTypeV { name: "str"@, ty: DataModelTypeV::Str })
    } else if n == "bytearray"@ {
        Some(NamedTypeV { name: "[u8]"@, ty: DataModelTypeV::ByteArray })
    } else if n == "unit"@ || n == "()"@ {
        Some(NamedTypeV { name: "()"@, ty: DataModelTypeV::Unit })
    } else {
        None
    }
}

/// The structural keywords: reserved, but denoting no type by themselves.
pub open spec fn is_reserved_structural(n: Seq<char>) -> bool {
    n == "option"@ || n == "unitstruct"@ || n == "newtypestruct"@ || n == "seq"@ || n
        == "tuple"@ || n == "tuplestruct"@ || n == "map"@ || n == "struct"@ || n == "enum"@
}

/// The reserved keywords no declaration may shadow: the primitive keywords
/// and the structural keywords.
pub open spec fn is_builtin_name(n: Seq<char>) -> bool {
    n == "bool"@ || n == "i8"@ || n == "i16"@ || n == "i32"@ || n == "i64"@ || n == "i128"@ || n
        == "u8"@ || n == "u16"@ || n == "u32"@ || n == "u64"@ || n == "u128"@ || n == "f32"@ || n
        == "f64"@ || n == "char"@ || n == "string"@ || n == "bytearray"@ || n == "unit"@
        || is_reserved_structural(n)
}

/// The first registry entry with the given canonical name, if any.
pub open spec fn find_known(known: Seq<NamedTypeV>, n: Seq<char>) -> Option<NamedTypeV>
    decreases known.len(),
{
    if known.len() == 0 {
        None
    } else if known[0].name == n {
        Some(known[0])
    } else {
        find_known(known.drop_first(), n)
    }
}

proof fn lemma_find_known_step(known: Seq<NamedTypeV>, n: Seq<char>, i: int)
    requires
        0 <= i < known.len(),
        known[i].name != n,
        find_known(known, n) == find_known(known.skip(i), n),
    ensures
        find_known(known, n) == find_known(known.skip(i + 1), n),
{
    let sub = known.skip(i);
    assert(sub[0] == known[i]);
    assert(sub.drop_first() =~= known.skip(i + 1));
}

/// Look a name up in the registry, returning the first entry carrying it.
pub fn find_in_known<'a>(known: &'a Vec<NamedType>, name: &str) -> (r: Option<&'a NamedType>)
    ensures
        match r {
            Some(t) => find_known(view_named_types(known@), name@) == Some(t@),
            None => find_known(view_named_types(known@), name@) is None,
        },
{
    let ghost kv = view_named_types(known@);
    proof {
        lemma_view_named_types(known@);
        assert(kv.skip(0) =~= kv);
    }
    let mut i: usize = 0;
    while i < known.len()
        invariant
            0 <= i <= known@.len(),
            kv == view_named_types(known@),
            kv.len() == known@.len(),
            forall|j: int|
                0 <= j < known@.len() ==> #[trigger] kv[j] == view_named_type(known@[j]),
            find_known(kv, name@) == find_known(kv.skip(i as int), name@),
        decreases known@.len() - i,
    {
        if str_eq(known[i].name.as_str(), name) {
            proof {
                assert(kv.skip(i as int)[0] == kv[i as int]);
            }
            return Some(&known[i]);
        }
        proof {
            lemma_find_known_step(kv, name@, i as int);
        }
        i = i + 1;
    }
    proof {
        assert(kv.skip(i as int).len() == 0);
    }
    None
}

/// Whether `name` may be declared: it must shadow neither a reserved
/// keyword nor a name already in the registry.
pub fn new_tyname_legal(name: &str, known: &Vec<NamedType>) -> (r: bool)
    ensures
        r == (!is_builtin_name(name@) && find_known(view_named_types(known@), name@) is None),
{
    if str_eq(name, "bool") {
        return false;
    }
    if str_eq(name, "i8") {
        return false;
    }
    if str_eq(name, "i16") {
        return false;
    }
    if str_eq(name, "i32") {
        return false;
    }
    if str_eq(name, "i64") {
        return false;
    }
    if str_eq(name, "i128") {
        return false;
    }
    if str_eq(name, "u8") {
        return false;
    }
    if str_eq(name, "u16") {
        return false;
    }
    if str_eq(name, "u32") {
        return false;
    }
    if str_eq(name, "u64") {
        return false;
    }
    if str_eq(name, "u128") {
        return false;
    }
    if str_eq(name, "f32") {
        return false;
    }
    if str_eq(name, "f64") {
        return false;
    }
    if str_eq(name, "char") {
        return false;
    }
    if str_eq(name, "string") {
        return false;
    }
    if str_eq(name, "bytearray") {
        return false;
    }
    if str_eq(name, "unit") {
        return false;
    }
    if str_eq(name, "option") {
        return false;
    }
    if str_eq(name, "unitstruct") {
        return false;
    }
    if str_eq(name, "newtypestruct") {
        return false;
    }
    if str_eq(name, "seq") {
        return false;
    }
    if str_eq(name, "tuple") {
        return false;
    }
    if str_eq(name, "tuplestruct") {
        return false;
    }
    if str_eq(name, "map") {
        return false;
    }
    if str_eq(name, "struct") {
        return false;
    }
    if str_eq(name, "enum") {
        return false;
    }
    match find_in_known(known, name) {
        Some(_) => false,
        None => true,
    }
}

/// The digit character of a value below ten.
pub open spec fn digit_char(d: nat) -> char {
    if d == 0 {
        '0'
    } else if d == 1 {
        '1'
    } else if d == 2 {
        '2'
    } else if d == 3 {
        '3'
    } else if d == 4 {
        '4'
    } else if d == 5 {
        '5'
    } else if d == 6 {
        '6'
    } else if d == 7 {
        '7'
    } else if d == 8 {
        '8'
    } else {
        '9'
    }
}

/// The canonical decimal spelling of a number.
pub open spec fn dec_digits(n: nat) -> Seq<char>
    decreases n,
{
    if n < 10 {
        seq![digit_char(n)]
    } else {
        dec_digits(n / 10).push(digit_char(n % 10))
    }
}

fn digit_str(d: usize) -> (r: &'static str)
    requires
        d < 10,
    ensures
        r@ =~= seq![digit_char(d as nat)],
{
    if d == 0 {
        proof {
            reveal_strlit("0");
        }
        "0"
    } else if d == 1 {
        proof {
            reveal_strlit("1");
        }
        "1"
    } else if d == 2 {
        proof {
            reveal_strlit("2");
        }
        "2"
    } else if d == 3 {
        proof {
            reveal_strlit("3");
        }
        "3"
    } else if d == 4 {
        proof {
            reveal_strlit("4");
        }
        "4"
    } else if d == 5 {
        proof {
            reveal_strlit("5");
        }
        "5"
    } else if d == 6 {
        proof {
            reveal_strlit("6");
        }
        "6"
    } else if d == 7 {
        proof {
            reveal_strlit("7");
        }
        "7"
    } else if d == 8 {
        proof {
            reveal_strlit("8");
        }
        "8"
    } else {
        proof {
            reveal_strlit("9");
        }
        "9"
    }
}

/// The canonical decimal spelling of `n`.
pub fn dec_string(n: usize) -> (r: String)
    ensures
        r@ == dec_digits(n as nat),
    decreases n,
{
    if n < 10 {
        digit_str(n).to_owned()
    } else {
        let mut s = dec_string(n / 10);
        s.append(digit_str(n % 10));
        proof {
            assert(dec_digits((n / 10) as nat).push(digit_char((n % 10) as nat)) =~= dec_digits(
                (n / 10) as nat,
            ).add(seq![digit_char((n % 10) as nat)]));
        }
        s
    }
}

/// The synthesized canonical name of an option over `inner`.
pub open spec fn spec_option_name(inner: Seq<char>) -> Seq<char> {
    "Option<"@ + inner + ">"@
}

/// The synthesized canonical name of a sequence over `inner`.
pub open spec fn spec_seq_name(inner: Seq<char>) -> Seq<char> {
    "["@ + inner + "]"@
}

/// The synthesized canonical name of a fixed-size array.
pub open spec fn spec_array_name(inner: Seq<char>, ct: nat) -> Seq<char> {
    "["@ + inner + "; "@ + dec_digits(ct) + "]"@
}

/// The synthesized canonical name of a map.
pub open spec fn spec_map_name(k: Seq<char>, v: Seq<char>) -> Seq<char> {
    "Map<"@ + k + ", "@ + v + ">"@
}

/// The comma-separated joining of a list of names.
pub open spec fn spec_join(names: Seq<Seq<char>>) -> Seq<char>
    decreases names.len(),
{
    if names.len() == 0 {
        Seq::empty()
    } else if names.len() == 1 {
        names[0]
    } else {
        spec_join(names.drop_last()) + ", "@ + names.last()
    }
}

/// The parenthesised, comma-separated spelling of a tuple's element names:
/// the name a heterogeneous tuple composite receives.
pub open spec fn spec_tuple_name(names: Seq<Seq<char>>) -> Seq<char> {
    "("@ + spec_join(names) + ")"@
}

/// The canonical names of a list of resolved entries, in order.
pub open spec fn names_of(rs: Seq<NamedTypeV>) -> Seq<Seq<char>> {
    rs.map(|i: int, t: NamedTypeV| t.name)
}

/// The synthesized canonical name of an anonymous tuple composite, with the
/// tuple-versus-array disambiguation applied: more than one element of a
/// single structural kind is a fixed-size array and is named as one, so
/// that structurally identical composites compare equal by name.
pub open spec fn spec_tuple_composite_name(rs: Seq<NamedTypeV>) -> Seq<char> {
    if rs.len() > 1 && kinds_all_same(rs) {
        spec_array_name(rs[0].name, rs.len() as nat)
    } else {
        spec_tuple_name(names_of(rs))
    }
}


/// The outcome of one resolution attempt: resolved, deferred to a later
/// pass, or failed outright.
pub enum ResolveOutcome {
    Resolved(NamedTypeV),
    Defer,
    Failed(ErrorV),
}

/// The outcome of resolving a list of references in order.
pub enum ListOutcome {
    Resolved(Seq<NamedTypeV>),
    Defer,
    Failed(ErrorV),
}

/// Resolution of one type reference against the registry.
///
/// A primitive keyword resolves to its primitive entry; a structural
/// keyword is an immediate error; any other name resolves to the first
/// registry entry carrying it, or defers until one exists.  A composite
/// resolves its components and receives a canonical name synthesized from
/// their names.
pub open spec fn spec_resolve_refr(t: TypeRefrV, known: Seq<NamedTypeV>) -> ResolveOutcome
    decreases t,
{
    match t {
        TypeRefrV::Name(n) => match prim_lookup(n) {
            Some(p) => ResolveOutcome::Resolved(p),
            None => if is_reserved_structural(n) {
                ResolveOutcome::Failed(ErrorV::Invalid("don't do that"@))
            } else {
                match find_known(known, n) {
                    Some(e) => ResolveOutcome::Resolved(e),
                    None => ResolveOutcome::Defer,
                }
            },
        },
        TypeRefrV::Optional(ty) => match spec_resolve_refr(*ty, known) {
            ResolveOutcome::Resolved(e) => ResolveOutcome::Resolved(
                NamedTypeV {
                    name: spec_option_name(e.name),
                    ty: DataModelTypeV::Optional(Box::new(e)),
                },
            ),
            other => other,
        },
        TypeRefrV::Sequence(ty) => match spec_resolve_refr(*ty, known) {
            ResolveOutcome::Resolved(e) => ResolveOutcome::Resolved(
                NamedTypeV {
                    name: spec_seq_name(e.name),
                    ty: DataModelTypeV::Sequence(Box::new(e)),
                },
            ),
            other => other,
        },
        TypeRefrV::Array(ty, ct) => match spec_resolve_refr(*ty, known) {
            ResolveOutcome::Resolved(e) => ResolveOutcome::Resolved(
                NamedTypeV {
                    name: spec_array_name(e.name, ct),
                    ty: DataModelTypeV::Tuple(Seq::new(ct, |i: int| e)),
                },
            ),
            other => other,
        },
        TypeRefrV::Mapping(kty, vty) => {
            let ka = spec_resolve_refr(*kty, known);
            let va = spec_resolve_refr(*vty, known);
            match ka {
                ResolveOutcome::Failed(e) => ResolveOutcome::Failed(e),
                _ => match va {
                    ResolveOutcome::Failed(e) => ResolveOutcome::Failed(e),
                    _ => match (ka, va) {
                        (ResolveOutcome::Resolved(k), ResolveOutcome::Resolved(v)) => {
                            ResolveOutcome::Resolved(
                                NamedTypeV {
                                    name: spec_map_name(k.name, v.name),
                                    ty: DataModelTypeV::Mapping {
                                        key: Box::new(k),
                                        val: Box::new(v),
                                    },
                                },
                            )
                        },
                        _ => ResolveOutcome::Defer,
                    },
                },
            }
        },
        TypeRefrV::Tuple(tys) => match spec_resolve_refr_list(tys, known) {
            ListOutcome::Resolved(rs) => ResolveOutcome::Resolved(
                NamedTypeV {
                    name: spec_tuple_composite_name(rs),
                    ty: DataModelTypeV::Tuple(rs),
                },
            ),
            ListOutcome::Defer => ResolveOutcome::Defer,
            ListOutcome::Failed(e) => ResolveOutcome::Failed(e),
        },
    }
}

/// Resolution of a list of references, left to right; the leftmost failure
/// or deferral decides the outcome.
pub open spec fn spec_resolve_refr_list(ts: Seq<TypeRefrV>, known: Seq<NamedTypeV>) -> ListOutcome
    decreases ts,
{
    if ts.len() == 0 {
        ListOutcome::Resolved(Seq::empty())
    } else {
        match spec_resolve_refr(ts[0], known) {
            ResolveOutcome::Failed(e) => ListOutcome::Failed(e),
            ResolveOutcome::Defer => ListOutcome::Defer,
            ResolveOutcome::Resolved(r) => match spec_resolve_refr_list(
                ts.drop_first(),
                known,
            ) {
                ListOutcome::Resolved(rs) => ListOutcome::Resolved(seq![r].add(rs)),
                other => other,
            },
        }
    }
}

/// How an executable resolution result corresponds to a [`ResolveOutcome`]:
/// `Ok(Some(..))` is a resolution, `Ok(None)` a deferral, `Err` a failure.
pub open spec fn resolve_matches(r: Result<Option<NamedType>, Error>, o: ResolveOutcome) -> bool {
    match (r, o) {
        (Ok(Some(t)), ResolveOutcome::Resolved(tv)) => view_named_type(t) == tv,
        (Ok(None), ResolveOutcome::Defer) => true,
        (Err(e), ResolveOutcome::Failed(ev)) => e@ == ev,
        _ => false,
    }
}

fn option_name_string(inner: &str) -> (r: String)
    ensures
        r@ == spec_option_name(inner@),
{
    let mut s = "Option<".to_owned();
    s.append(inner);
    s.append(">");
    s
}

fn seq_name_string(inner: &str) -> (r: String)
    ensures
        r@ == spec_seq_name(inner@),
{
    let mut s = "[".to_owned();
    s.append(inner);
    s.append("]");
    s
}

fn array_name_string(inner: &str, ct: usize) -> (r: String)
    ensures
        r@ == spec_array_name(inner@, ct as nat),
{
    let mut s = "[".to_owned();
    s.append(inner);
    s.append("; ");
    let d = dec_string(ct);
    s.append(d.as_str());
    s.append("]");
    s
}

fn map_name_string(k: &str, v: &str) -> (r: String)
    ensures
        r@ == spec_map_name(k@, v@),
{
    let mut s = "Map<".to_owned();
    s.append(k);
    s.append(", ");
    s.append(v);
    s.append(">");
    s
}

/// Resolve one type reference against the registry.
///
/// `Ok(Some(..))` carries the resolved entry, `Ok(None)` defers the
/// reference until a pass has resolved the name it mentions, and `Err`
/// reports a reference that can never resolve.
#[verifier::loop_isolation(false)]
pub fn resolve_ty(ty: &UnresolvedTypeRefr, known: &Vec<NamedType>) -> (r: Result<
    Option<NamedType>,
    Error,
>)
    requires
        refr_wf(ty@),
    ensures
        resolve_matches(r, spec_resolve_refr(ty@, view_named_types(known@))),
    decreases *ty,
{
    match ty {
        UnresolvedTypeRefr::Name { name } => {
            let nstr = name.as_str();
            if str_eq(nstr, "bool") {
                return Ok(Some(NamedType { name: "bool".to_owned(), ty: DataModelType::Bool }));
            }
            if str_eq(nstr, "i8") {
                return Ok(Some(NamedType { name: "i8".to_owned(), ty: DataModelType::I8 }));
            }
            if str_eq(nstr, "i16") {
                return Ok(Some(NamedType { name: "i16".to_owned(), ty: DataModelType::I16 }));
            }
            if str_eq(nstr, "i32") {
                return Ok(Some(NamedType { name: "i32".to_owned(), ty: DataModelType::I32 }));
            }
            if str_eq(nstr, "i64") {
                return Ok(Some(NamedType { name: "i64".to_owned(), ty: DataModelType::I64 }));
            }
            if str_eq(nstr, "i128") {
                return Ok(Some(NamedType { name: "i128".to_owned(), ty: DataModelType::I128 }));
            }
            if str_eq(nstr, "u8") {
                return Ok(Some(NamedType { name: "u8".to_owned(), ty: DataModelType::U8 }));
            }
            if str_eq(nstr, "u16") {
                return Ok(Some(NamedType { name: "u16".to_owned(), ty: DataModelType::U16 }));
            }
            if str_eq(nstr, "u32") {
                return Ok(Some(NamedType { name: "u32".to_owned(), ty: DataModelType::U32 }));
            }
            if str_eq(nstr, "u64") {
                return Ok(Some(NamedType { name: "u64".to_owned(), ty: DataModelType::U64 }));
            }
            if str_eq(nstr, "u128") {
                return Ok(Some(NamedType { name: "u128".to_owned(), ty: DataModelType::U128 }));
            }
            if str_eq(nstr, "f32") {
                return Ok(Some(NamedType { name: "f32".to_owned(), ty: DataModelType::F32 }));
            }
            if str_eq(nstr, "f64") {
                return Ok(Some(NamedType { name: "f64".to_owned(), ty: DataModelType::F64 }));
            }
            if str_eq(nstr, "char") {
                return Ok(Some(NamedType { name: "char".to_owned(), ty: DataModelType::Char }));
            }
            if str_eq(nstr, "string") {
                return Ok(Some(NamedType { name: "str".to_owned(), ty: DataModelType::Str }));
            }
            if str_eq(nstr, "bytearray") {
                return Ok(Some(NamedType {
                    name: "[u8]".to_owned(),
                    ty: DataModelType::ByteArray,
                }));
            }
            if str_eq(nstr, "unit") || str_eq(nstr, "()") {
                return Ok(Some(NamedType { name: "()".to_owned(), ty: DataModelType::Unit }));
            }
            if str_eq(nstr, "option") || str_eq(nstr, "unitstruct") || str_eq(
                nstr,
                "newtypestruct",
            ) || str_eq(nstr, "seq") || str_eq(nstr, "tuple") || str_eq(nstr, "tuplestruct")
                || str_eq(nstr, "map") || str_eq(nstr, "struct") || str_eq(nstr, "enum") {
                return Err(Error::Invalid("don't do that".to_owned()));
            }
            match find_in_known(known, nstr) {
                Some(t) => Ok(Some(t.deep_clone())),
                None => Ok(None),
            }
        },
        UnresolvedTypeRefr::Optional { ty: inner } => match resolve_ty(inner, known) {
            Err(e) => Err(e),
            Ok(None) => Ok(None),
            Ok(Some(t)) => {
                let nm = option_name_string(t.name.as_str());
                Ok(Some(NamedType { name: nm, ty: DataModelType::Optional(Box::new(t)) }))
            },
        },
        UnresolvedTypeRefr::Sequence { ty: inner } => match resolve_ty(inner, known) {
            Err(e) => Err(e),
            Ok(None) => Ok(None),
            Ok(Some(t)) => {
                let nm = seq_name_string(t.name.as_str());
                Ok(Some(NamedType { name: nm, ty: DataModelType::Sequence(Box::new(t)) }))
            },
        },
        UnresolvedTypeRefr::Array { ty: inner, ct } => match resolve_ty(inner, known) {
            Err(e) => Err(e),
            Ok(None) => Ok(None),
            Ok(Some(t)) => {
                let count: usize = *ct;
                let mut copies: Vec<NamedType> = Vec::new();
                let mut i: usize = 0;
                while i < count
                    invariant
                        0 <= i <= count,
                        copies@.len() == i,
                        forall|j: int|
                            0 <= j < i ==> #[trigger] view_named_type(copies@[j])
                                == view_named_type(t),
                    decreases count - i,
                {
                    copies.push(t.deep_clone());
                    i = i + 1;
                }
                proof {
                    lemma_view_named_types(copies@);
                    assert(view_named_types(copies@) =~= Seq::new(
                        count as nat,
                        |j: int| view_named_type(t),
                    ));
                }
                let nm = array_name_string(t.name.as_str(), count);
                Ok(Some(NamedType { name: nm, ty: DataModelType::Tuple(copies) }))
            },
        },
        UnresolvedTypeRefr::Mapping { kty, vty } => {
            let ka = match resolve_ty(kty, known) {
                Err(e) => {
                    return Err(e);
                },
                Ok(x) => x,
            };
            let va = match resolve_ty(vty, known) {
                Err(e) => {
                    return Err(e);
                },
                Ok(x) => x,
            };
            match (ka, va) {
                (Some(k), Some(v)) => {
                    let nm = map_name_string(k.name.as_str(), v.name.as_str());
                    Ok(Some(NamedType {
                        name: nm,
                        ty: DataModelType::Mapping { key: Box::new(k), val: Box::new(v) },
                    }))
                },
                _ => Ok(None),
            }
        },
        UnresolvedTypeRefr::Tuple { tys } => {
            let ghost knownv = view_named_types(known@);
            let ghost tysv = view_refrs(tys@);
            proof {
                lemma_view_refrs(tys@);
                assert(tysv.skip(0) =~= tysv);
            }
            proof {
                assert(refrs_wf(tysv));
            }
            let mut rs: Vec<NamedType> = Vec::new();
            let mut joined: String = String::new();
            let mut i: usize = 0;
            while i < tys.len()
                invariant
                    knownv == view_named_types(known@),
                    tysv == view_refrs(tys@),
                    tysv.len() == tys@.len(),
                    forall|j: int|
                        0 <= j < tys@.len() ==> #[trigger] tysv[j] == view_refr(tys@[j]),
                    0 <= i <= tys@.len(),
                    match spec_resolve_refr_list(tysv.skip(i as int), knownv) {
                        ListOutcome::Resolved(rest) => spec_resolve_refr_list(tysv, knownv)
                            == ListOutcome::Resolved(view_named_types(rs@).add(rest)),
                        ListOutcome::Defer => spec_resolve_refr_list(tysv, knownv)
                            == ListOutcome::Defer,
                        ListOutcome::Failed(e) => spec_resolve_refr_list(tysv, knownv)
                            == ListOutcome::Failed(e),
                    },
                    joined@ == spec_join(names_of(view_named_types(rs@))),
                decreases tys@.len() - i,
            {
                proof {
                    assert(tysv.skip(i as int)[0] == tysv[i as int]);
                    assert(refr_wf(tysv[i as int]));
                }
                let t = match resolve_ty(&tys[i], known) {
                    Err(e) => {
                        proof {
                            assert(tysv.skip(i as int).len() > 0);
                        }
                        return Err(e);
                    },
                    Ok(None) => {
                        return Ok(None);
                    },
                    Ok(Some(t)) => t,
                };
                proof {
                    assert(tysv.skip(i as int).drop_first() =~= tysv.skip(i + 1));
                    lemma_view_named_types(rs@);
                    lemma_view_named_types(rs@.push(t));
                    assert(rs@.push(t).drop_last() =~= rs@);
                    assert(view_named_types(rs@.push(t)) =~= view_named_types(rs@).push(
                        view_named_type(t),
                    ));
                    assert(names_of(view_named_types(rs@.push(t))) =~= names_of(
                        view_named_types(rs@),
                    ).push(view_named_type(t).name));
                    match spec_resolve_refr_list(tysv.skip(i + 1), knownv) {
                        ListOutcome::Resolved(rest) => {
                            assert(view_named_types(rs@).add(
                                seq![view_named_type(t)].add(rest),
                            ) =~= view_named_types(rs@.push(t)).add(rest));
                        },
                        _ => {},
                    }
                    if rs@.len() > 0 {
                        assert(names_of(view_named_types(rs@.push(t))).drop_last()
                            =~= names_of(view_named_types(rs@)));
                    }
                }
                if rs.len() > 0 {
                    joined.append(", ");
                }
                joined.append(t.name.as_str());
                rs.push(t);
                i = i + 1;
            }
            proof {
                assert(tysv.skip(i as int).len() == 0);
                lemma_view_named_types(rs@);
            }
            if rs.len() > 1 && kinds_all_same_check(&rs) {
                let nm = array_name_string(rs[0].name.as_str(), rs.len());
                Ok(Some(NamedType { name: nm, ty: DataModelType::Tuple(rs) }))
            } else {
                let mut nm = "(".to_owned();
                nm.append(joined.as_str());
                nm.append(")");
                Ok(Some(NamedType { name: nm, ty: DataModelType::Tuple(rs) }))
            }
        },
    }
}


/// The outcome of resolving a field list.
pub enum FieldsOutcome {
    Resolved(Seq<NamedValueV>),
    Defer,
    Failed(ErrorV),
}

/// The outcome of resolving one enum variant.
pub enum VariantOutcome {
    Resolved(NamedVariantV),
    Defer,
    Failed(ErrorV),
}

/// The outcome of resolving an enum's variant list.
pub enum VariantsOutcome {
    Resolved(Seq<NamedVariantV>),
    Defer,
    Failed(ErrorV),
}

/// Resolution of named fields, left to right.
pub open spec fn spec_resolve_fields(
    fs: Seq<(Seq<char>, TypeRefrV)>,
    known: Seq<NamedTypeV>,
) -> FieldsOutcome
    decreases fs,
{
    if fs.len() == 0 {
        FieldsOutcome::Resolved(Seq::empty())
    } else {
        match spec_resolve_refr(fs[0].1, known) {
            ResolveOutcome::Failed(e) => FieldsOutcome::Failed(e),
            ResolveOutcome::Defer => FieldsOutcome::Defer,
            ResolveOutcome::Resolved(t) => match spec_resolve_fields(fs.drop_first(), known) {
                FieldsOutcome::Resolved(rs) => FieldsOutcome::Resolved(
                    seq![NamedValueV { name: fs[0].0, ty: t }].add(rs),
                ),
                other => other,
            },
        }
    }
}

/// Resolution of one enum variant: its payload references resolve exactly
/// as struct fields and tuple elements do.
pub open spec fn spec_resolve_variant(v: EnumVariantV, known: Seq<NamedTypeV>) -> VariantOutcome {
    match v {
        EnumVariantV::Unit(n) => VariantOutcome::Resolved(
            NamedVariantV { name: n, ty: DataModelVariantV::UnitVariant },
        ),
        EnumVariantV::NewType(n, ty) => match spec_resolve_refr(ty, known) {
            ResolveOutcome::Resolved(t) => VariantOutcome::Resolved(
                NamedVariantV { name: n, ty: DataModelVariantV::NewtypeVariant(Box::new(t)) },
            ),
            ResolveOutcome::Defer => VariantOutcome::Defer,
            ResolveOutcome::Failed(e) => VariantOutcome::Failed(e),
        },
        EnumVariantV::Tuple(n, tys) => match spec_resolve_refr_list(tys, known) {
            ListOutcome::Resolved(rs) => VariantOutcome::Resolved(
                NamedVariantV { name: n, ty: DataModelVariantV::TupleVariant(rs) },
            ),
            ListOutcome::Defer => VariantOutcome::Defer,
            ListOutcome::Failed(e) => VariantOutcome::Failed(e),
        },
        EnumVariantV::Struct(n, fs) => match spec_resolve_fields(fs, known) {
            FieldsOutcome::Resolved(rs) => VariantOutcome::Resolved(
                NamedVariantV { name: n, ty: DataModelVariantV::StructVariant(rs) },
            ),
            FieldsOutcome::Defer => VariantOutcome::Defer,
            FieldsOutcome::Failed(e) => VariantOutcome::Failed(e),
        },
    }
}

/// Resolution of an enum's variants, left to right.
pub open spec fn spec_resolve_variants(
    vs: Seq<EnumVariantV>,
    known: Seq<NamedTypeV>,
) -> VariantsOutcome
    decreases vs,
{
    if vs.len() == 0 {
        VariantsOutcome::Resolved(Seq::empty())
    } else {
        match spec_resolve_variant(vs[0], known) {
            VariantOutcome::Failed(e) => VariantsOutcome::Failed(e),
            VariantOutcome::Defer => VariantsOutcome::Defer,
            VariantOutcome::Resolved(r) => match spec_resolve_variants(vs.drop_first(), known) {
                VariantsOutcome::Resolved(rs) => VariantsOutcome::Resolved(seq![r].add(rs)),
                other => other,
            },
        }
    }
}

/// Resolve a list of references, handing back the resolved entries.
#[verifier::loop_isolation(false)]
fn resolve_refr_list(tys: &Vec<UnresolvedTypeRefr>, known: &Vec<NamedType>) -> (r: Result<
    Option<Vec<NamedType>>,
    Error,
>)
    requires
        refrs_wf(view_refrs(tys@)),
    ensures
        match (r, spec_resolve_refr_list(view_refrs(tys@), view_named_types(known@))) {
            (Ok(Some(rs)), ListOutcome::Resolved(rsv)) => view_named_types(rs@) == rsv,
            (Ok(None), ListOutcome::Defer) => true,
            (Err(e), ListOutcome::Failed(ev)) => e@ == ev,
            _ => false,
        },
{
    let ghost knownv = view_named_types(known@);
    let ghost tysv = view_refrs(tys@);
    proof {
        lemma_view_refrs(tys@);
        assert(tysv.skip(0) =~= tysv);
    }
    let mut rs: Vec<NamedType> = Vec::new();
    let mut i: usize = 0;
    while i < tys.len()
        invariant
            0 <= i <= tys@.len(),
            match spec_resolve_refr_list(tysv.skip(i as int), knownv) {
                ListOutcome::Resolved(rest) => spec_resolve_refr_list(tysv, knownv)
                    == ListOutcome::Resolved(view_named_types(rs@).add(rest)),
                ListOutcome::Defer => spec_resolve_refr_list(tysv, knownv)
                    == ListOutcome::Defer,
                ListOutcome::Failed(e) => spec_resolve_refr_list(tysv, knownv)
                    == ListOutcome::Failed(e),
            },
        decreases tys@.len() - i,
    {
        proof {
            assert(tysv.skip(i as int)[0] == tysv[i as int]);
            assert(refr_wf(tysv[i as int]));
        }
        let t = match resolve_ty(&tys[i], known) {
            Err(e) => {
                return Err(e);
            },
            Ok(None) => {
                return Ok(None);
            },
            Ok(Some(t)) => t,
        };
        proof {
            assert(tysv.skip(i as int).drop_first() =~= tysv.skip(i + 1));
            lemma_view_named_types(rs@);
            lemma_view_named_types(rs@.push(t));
            assert(rs@.push(t).drop_last() =~= rs@);
            assert(view_named_types(rs@.push(t)) =~= view_named_types(rs@).push(
                view_named_type(t),
            ));
            match spec_resolve_refr_list(tysv.skip(i + 1), knownv) {
                ListOutcome::Resolved(rest) => {
                    assert(view_named_types(rs@).add(seq![view_named_type(t)].add(rest))
                        =~= view_named_types(rs@.push(t)).add(rest));
                },
                _ => {},
            }
        }
        rs.push(t);
        i = i + 1;
    }
    proof {
        assert(tysv.skip(i as int).len() == 0);
        assert(view_named_types(rs@).add(Seq::empty()) =~= view_named_types(rs@));
    }
    Ok(Some(rs))
}

/// Resolve a named field list, handing back the resolved fields.
#[verifier::loop_isolation(false)]
fn resolve_fields(fields: &Vec<(String, UnresolvedTypeRefr)>, known: &Vec<NamedType>) -> (r:
    Result<Option<Vec<NamedValue>>, Error>)
    requires
        fields_wf(view_fields(fields@)),
    ensures
        match (r, spec_resolve_fields(view_fields(fields@), view_named_types(known@))) {
            (Ok(Some(rs)), FieldsOutcome::Resolved(rsv)) => view_named_values(rs@) == rsv,
            (Ok(None), FieldsOutcome::Defer) => true,
            (Err(e), FieldsOutcome::Failed(ev)) => e@ == ev,
            _ => false,
        },
{
    let ghost knownv = view_named_types(known@);
    let ghost fsv = view_fields(fields@);
    proof {
        lemma_view_fields(fields@);
        assert(fsv.skip(0) =~= fsv);
    }
    let mut rs: Vec<NamedValue> = Vec::new();
    let mut i: usize = 0;
    while i < fields.len()
        invariant
            0 <= i <= fields@.len(),
            match spec_resolve_fields(fsv.skip(i as int), knownv) {
                FieldsOutcome::Resolved(rest) => spec_resolve_fields(fsv, knownv)
                    == FieldsOutcome::Resolved(view_named_values(rs@).add(rest)),
                FieldsOutcome::Defer => spec_resolve_fields(fsv, knownv)
                    == FieldsOutcome::Defer,
                FieldsOutcome::Failed(e) => spec_resolve_fields(fsv, knownv)
                    == FieldsOutcome::Failed(e),
            },
        decreases fields@.len() - i,
    {
        proof {
            assert(fsv.skip(i as int)[0] == fsv[i as int]);
            assert(refr_wf((fsv[i as int]).1));
        }
        let t = match resolve_ty(&fields[i].1, known) {
            Err(e) => {
                return Err(e);
            },
            Ok(None) => {
                return Ok(None);
            },
            Ok(Some(t)) => t,
        };
        let fv = NamedValue { name: fields[i].0.clone(), ty: t };
        proof {
            assert(fsv.skip(i as int).drop_first() =~= fsv.skip(i + 1));
            lemma_view_named_values(rs@);
            lemma_view_named_values(rs@.push(fv));
            assert(rs@.push(fv).drop_last() =~= rs@);
            assert(view_named_values(rs@.push(fv)) =~= view_named_values(rs@).push(
                view_named_value(fv),
            ));
            match spec_resolve_fields(fsv.skip(i + 1), knownv) {
                FieldsOutcome::Resolved(rest) => {
                    assert(view_named_values(rs@).add(seq![view_named_value(fv)].add(rest))
                        =~= view_named_values(rs@.push(fv)).add(rest));
                },
                _ => {},
            }
        }
        rs.push(fv);
        i = i + 1;
    }
    proof {
        assert(fsv.skip(i as int).len() == 0);
        assert(view_named_values(rs@).add(Seq::empty()) =~= view_named_values(rs@));
    }
    Ok(Some(rs))
}


/// Resolution of one definition against the registry.
///
/// The declared name must be legal (no keyword, no duplicate) whatever the
/// definition's dependencies; that check never defers.  An alias adopts the
/// referenced structural kind under its own name.  A newtype-or-tuple
/// struct over a resolved tuple becomes a tuple struct, otherwise a newtype
/// struct; in both cases its canonical name embeds the payload's name, and
/// that mangled name must itself still be free in the registry — every
/// entry registers under a name no earlier entry carries, so canonical
/// names stay unique.
pub open spec fn spec_resolve_defn(d: DefnV, known: Seq<NamedTypeV>) -> ResolveOutcome {
    let n = defn_name(d);
    if is_builtin_name(n) || find_known(known, n) is Some {
        ResolveOutcome::Failed(ErrorV::BadName(n))
    } else {
        match d {
            DefnV::Alias(_, ty) => match spec_resolve_refr(ty, known) {
                ResolveOutcome::Resolved(t) => ResolveOutcome::Resolved(
                    NamedTypeV { name: n, ty: t.ty },
                ),
                other => other,
            },
            DefnV::UnitStruct(_) => ResolveOutcome::Resolved(
                NamedTypeV { name: n, ty: DataModelTypeV::UnitStruct },
            ),
            DefnV::NewTypeTupleStruct(_, ty) => match spec_resolve_refr(ty, known) {
                ResolveOutcome::Resolved(t) => match t.ty {
                    DataModelTypeV::Tuple(ts) => if find_known(known, n + t.name) is Some {
                        ResolveOutcome::Failed(ErrorV::BadName(n + t.name))
                    } else {
                        ResolveOutcome::Resolved(
                            NamedTypeV {
                                name: n + t.name,
                                ty: DataModelTypeV::TupleStruct(ts),
                            },
                        )
                    },
                    _ => if find_known(known, n + "("@ + t.name + ")"@) is Some {
                        ResolveOutcome::Failed(ErrorV::BadName(n + "("@ + t.name + ")"@))
                    } else {
                        ResolveOutcome::Resolved(
                            NamedTypeV {
                                name: n + "("@ + t.name + ")"@,
                                ty: DataModelTypeV::NewtypeStruct(Box::new(t)),
                            },
                        )
                    },
                },
                other => other,
            },
            DefnV::Struct(_, fs) => match spec_resolve_fields(fs, known) {
                FieldsOutcome::Resolved(rs) => ResolveOutcome::Resolved(
                    NamedTypeV { name: n, ty: DataModelTypeV::Struct(rs) },
                ),
                FieldsOutcome::Defer => ResolveOutcome::Defer,
                FieldsOutcome::Failed(e) => ResolveOutcome::Failed(e),
            },
            DefnV::Enum(_, vs) => match spec_resolve_variants(vs, known) {
                VariantsOutcome::Resolved(rs) => ResolveOutcome::Resolved(
                    NamedTypeV { name: n, ty: DataModelTypeV::Enum(rs) },
                ),
                VariantsOutcome::Defer => ResolveOutcome::Defer,
                VariantsOutcome::Failed(e) => ResolveOutcome::Failed(e),
            },
        }
    }
}

impl UnresolvedTypeDefn {
    /// Attempt to resolve this definition against the registry.
    pub fn resolve(&self, known: &Vec<NamedType>) -> (r: Result<Option<NamedType>, Error>)
        requires
            defn_wf(self@),
        ensures
            resolve_matches(r, spec_resolve_defn(self@, view_named_types(known@))),
    {
        match self {
            UnresolvedTypeDefn::Alias { name, ty, span } => Self::resolve_alias(
                name.as_str(),
                ty,
                span,
                known,
            ),
            UnresolvedTypeDefn::Struct { name, fields, span } => {
                proof {
                    lemma_view_fields(fields@);
                    assert(defn_wf(DefnV::Struct(name@, view_fields(fields@))));
                }
                Self::resolve_struct(name.as_str(), fields, span, known)
            },
            UnresolvedTypeDefn::UnitStruct { name, span } => Self::resolve_unitstruct(
                name.as_str(),
                span,
                known,
            ),
            UnresolvedTypeDefn::NewTypeTupleStruct { name, ty, span } => {
                Self::resolve_newtype_tuple_struct(name.as_str(), ty, span, known)
            },
            UnresolvedTypeDefn::Enum { name, variants, span } => {
                proof {
                    assert(defn_wf(DefnV::Enum(name@, view_variant_list(variants@))));
                }
                Self::resolve_enum(name.as_str(), variants, span, known)
            },
        }
    }

    fn resolve_alias(
        name: &str,
        ty: &UnresolvedTypeRefr,
        _span: &Span,
        known: &Vec<NamedType>,
    ) -> (r: Result<Option<NamedType>, Error>)
        requires
            refr_wf(ty@),
        ensures
            resolve_matches(
                r,
                spec_resolve_defn(DefnV::Alias(name@, ty@), view_named_types(known@)),
            ),
    {
        if !new_tyname_legal(name, known) {
            return Err(Error::BadName(name.to_owned()));
        }
        match resolve_ty(ty, known) {
            Ok(Some(t)) => Ok(Some(NamedType { name: name.to_owned(), ty: t.ty })),
            Ok(None) => Ok(None),
            Err(e) => Err(e),
        }
    }

    fn resolve_unitstruct(name: &str, _span: &Span, known: &Vec<NamedType>) -> (r: Result<
        Option<NamedType>,
        Error,
    >)
        ensures
            resolve_matches(
                r,
                spec_resolve_defn(DefnV::UnitStruct(name@), view_named_types(known@)),
            ),
    {
        if !new_tyname_legal(name, known) {
            return Err(Error::BadName(name.to_owned()));
        }
        Ok(Some(NamedType { name: name.to_owned(), ty: DataModelType::UnitStruct }))
    }

    fn resolve_newtype_tuple_struct(
        name: &str,
        ty: &UnresolvedTypeRefr,
        _span: &Span,
        known: &Vec<NamedType>,
    ) -> (r: Result<Option<NamedType>, Error>)
        requires
            refr_wf(ty@),
        ensures
            resolve_matches(
                r,
                spec_resolve_defn(
                    DefnV::NewTypeTupleStruct(name@, ty@),
                    view_named_types(known@),
                ),
            ),
    {
        if !new_tyname_legal(name, known) {
            return Err(Error::BadName(name.to_owned()));
        }
        let t = match resolve_ty(ty, known) {
            Ok(Some(t)) => t,
            Ok(None) => {
                return Ok(None);
            },
            Err(e) => {
                return Err(e);
            },
        };
        match t.ty {
            DataModelType::Tuple(ts) => {
                let mut nm = name.to_owned();
                nm.append(t.name.as_str());
                match find_in_known(known, nm.as_str()) {
                    Some(_) => Err(Error::BadName(nm)),
                    None => Ok(Some(NamedType { name: nm, ty: DataModelType::TupleStruct(ts) })),
                }
            },
            other => {
                let mut nm = name.to_owned();
                nm.append("(");
                nm.append(t.name.as_str());
                nm.append(")");
                match find_in_known(known, nm.as_str()) {
                    Some(_) => Err(Error::BadName(nm)),
                    None => Ok(Some(NamedType {
                        name: nm,
                        ty: DataModelType::NewtypeStruct(
                            Box::new(NamedType { name: t.name, ty: other }),
                        ),
                    })),
                }
            },
        }
    }

    fn resolve_struct(
        name: &str,
        fields: &Vec<(String, UnresolvedTypeRefr)>,
        _span: &Span,
        known: &Vec<NamedType>,
    ) -> (r: Result<Option<NamedType>, Error>)
        requires
            fields@.len() > 0,
            fields_wf(view_fields(fields@)),
        ensures
            resolve_matches(
                r,
                spec_resolve_defn(
                    DefnV::Struct(name@, view_fields(fields@)),
                    view_named_types(known@),
                ),
            ),
    {
        if !new_tyname_legal(name, known) {
            return Err(Error::BadName(name.to_owned()));
        }
        match resolve_fields(fields, known) {
            Ok(Some(rs)) => Ok(Some(NamedType {
                name: name.to_owned(),
                ty: DataModelType::Struct(rs),
            })),
            Ok(None) => Ok(None),
            Err(e) => Err(e),
        }
    }

    #[verifier::loop_isolation(false)]
    #[verifier::rlimit(60)]
    fn resolve_enum(
        name: &str,
        variants: &Vec<UnresolvedEnumVariant>,
        _span: &Span,
        known: &Vec<NamedType>,
    ) -> (r: Result<Option<NamedType>, Error>)
        requires
            variants_wf(view_variant_list(variants@)),
        ensures
            resolve_matches(
                r,
                spec_resolve_defn(
                    DefnV::Enum(name@, view_variant_list(variants@)),
                    view_named_types(known@),
                ),
            ),
    {
        if !new_tyname_legal(name, known) {
            return Err(Error::BadName(name.to_owned()));
        }
        let ghost knownv = view_named_types(known@);
        let ghost vsv = view_variant_list(variants@);
        proof {
            lemma_view_variant_list(variants@);
            assert(vsv.skip(0) =~= vsv);
        }
        let mut rvars: Vec<NamedVariant> = Vec::new();
        let mut i: usize = 0;
        while i < variants.len()
            invariant
                0 <= i <= variants@.len(),
                match spec_resolve_variants(vsv.skip(i as int), knownv) {
                    VariantsOutcome::Resolved(rest) => spec_resolve_variants(vsv, knownv)
                        == VariantsOutcome::Resolved(view_named_variants(rvars@).add(rest)),
                    VariantsOutcome::Defer => spec_resolve_variants(vsv, knownv)
                        == VariantsOutcome::Defer,
                    VariantsOutcome::Failed(e) => spec_resolve_variants(vsv, knownv)
                        == VariantsOutcome::Failed(e),
                },
            decreases variants@.len() - i,
        {
            proof {
                assert(vsv.skip(i as int)[0] == vsv[i as int]);
            }
            let rvar: NamedVariant = match &variants[i] {
                UnresolvedEnumVariant::Unit { name: vname } => NamedVariant {
                    name: vname.clone(),
                    ty: DataModelVariant::UnitVariant,
                },
                UnresolvedEnumVariant::NewType { name: vname, ty } => {
                    proof {
                        assert(variant_wf(vsv[i as int]));
                    }
                    match resolve_ty(ty, known) {
                        Err(e) => {
                            return Err(e);
                        },
                        Ok(None) => {
                            return Ok(None);
                        },
                        Ok(Some(t)) => NamedVariant {
                            name: vname.clone(),
                            ty: DataModelVariant::NewtypeVariant(Box::new(t)),
                        },
                    }
                },
                UnresolvedEnumVariant::Tuple { name: vname, fields } => {
                    proof {
                        assert(variant_wf(vsv[i as int]));
                    }
                    match resolve_refr_list(fields, known) {
                        Err(e) => {
                            return Err(e);
                        },
                        Ok(None) => {
                            return Ok(None);
                        },
                        Ok(Some(rs)) => NamedVariant {
                            name: vname.clone(),
                            ty: DataModelVariant::TupleVariant(rs),
                        },
                    }
                },
                UnresolvedEnumVariant::Struct { name: vname, fields } => {
                    proof {
                        assert(variant_wf(vsv[i as int]));
                    }
                    match resolve_fields(fields, known) {
                        Err(e) => {
                            return Err(e);
                        },
                        Ok(None) => {
                            return Ok(None);
                        },
                        Ok(Some(rs)) => NamedVariant {
                            name: vname.clone(),
                            ty: DataModelVariant::StructVariant(rs),
                        },
                    }
                },
            };
            proof {
                assert(vsv.skip(i as int).drop_first() =~= vsv.skip(i + 1));
                lemma_view_named_variants(rvars@);
                lemma_view_named_variants(rvars@.push(rvar));
                assert(rvars@.push(rvar).drop_last() =~= rvars@);
                assert(view_named_variants(rvars@.push(rvar)) =~= view_named_variants(
                    rvars@,
                ).push(view_named_variant(rvar)));
                match spec_resolve_variants(vsv.skip(i + 1), knownv) {
                    VariantsOutcome::Resolved(rest) => {
                        assert(view_named_variants(rvars@).add(
                            seq![view_named_variant(rvar)].add(rest),
                        ) =~= view_named_variants(rvars@.push(rvar)).add(rest));
                    },
                    _ => {},
                }
            }
            rvars.push(rvar);
            i = i + 1;
        }
        proof {
            assert(vsv.skip(i as int).len() == 0);
            assert(view_named_variants(rvars@).add(Seq::empty()) =~= view_named_variants(
                rvars@,
            ));
        }
        Ok(Some(NamedType { name: name.to_owned(), ty: DataModelType::Enum(rvars) }))
    }
}


/// The outcome of one full pass over the pending list: the grown registry
/// and what is still pending, or the failure with the state at that point.
pub enum PassOutcome {
    Done(Seq<NamedTypeV>, Seq<DefnV>),
    Failed(ErrorV, Seq<NamedTypeV>, Seq<DefnV>),
}

/// One pass: each pending definition is attempted in order against the
/// registry as grown so far within the same pass; resolved definitions move
/// to the registry, deferred ones stay pending, a failure stops the pass.
pub open spec fn spec_pass(known: Seq<NamedTypeV>, pending: Seq<DefnV>) -> PassOutcome
    decreases pending.len(),
{
    if pending.len() == 0 {
        PassOutcome::Done(known, Seq::empty())
    } else {
        match spec_resolve_defn(pending[0], known) {
            ResolveOutcome::Failed(e) => PassOutcome::Failed(e, known, Seq::empty()),
            ResolveOutcome::Resolved(t) => spec_pass(known.push(t), pending.drop_first()),
            ResolveOutcome::Defer => match spec_pass(known, pending.drop_first()) {
                PassOutcome::Done(k, p) => PassOutcome::Done(k, seq![pending[0]].add(p)),
                PassOutcome::Failed(e, k, p) => PassOutcome::Failed(
                    e,
                    k,
                    seq![pending[0]].add(p),
                ),
            },
        }
    }
}

/// The outcome of the whole fixpoint: all resolved, stuck with no progress,
/// or failed.
pub enum FixOutcome {
    Done(Seq<NamedTypeV>),
    Stuck(Seq<NamedTypeV>, Seq<DefnV>),
    Failed(ErrorV, Seq<NamedTypeV>, Seq<DefnV>),
}

/// The fixpoint: passes repeat while they make progress; a pass that
/// resolves nothing while definitions are pending leaves the set stuck.
pub open spec fn spec_fix(known: Seq<NamedTypeV>, pending: Seq<DefnV>) -> FixOutcome
    decreases pending.len(),
{
    if pending.len() == 0 {
        FixOutcome::Done(known)
    } else {
        match spec_pass(known, pending) {
            PassOutcome::Failed(e, k, p) => FixOutcome::Failed(e, k, p),
            PassOutcome::Done(k2, p2) => if p2.len() == pending.len() {
                FixOutcome::Stuck(known, pending)
            } else if p2.len() < pending.len() {
                spec_fix(k2, p2)
            } else {
                FixOutcome::Stuck(known, pending)
            },
        }
    }
}

pub proof fn lemma_pass_len(known: Seq<NamedTypeV>, pending: Seq<DefnV>)
    ensures
        spec_pass(known, pending) matches PassOutcome::Done(k2, p2) ==> p2.len()
            <= pending.len(),
    decreases pending.len(),
{
    if pending.len() > 0 {
        match spec_resolve_defn(pending[0], known) {
            ResolveOutcome::Failed(e) => {},
            ResolveOutcome::Resolved(t) => {
                lemma_pass_len(known.push(t), pending.drop_first());
            },
            ResolveOutcome::Defer => {
                lemma_pass_len(known, pending.drop_first());
            },
        }
    }
}

/// A pass that left as many definitions pending as it was given resolved
/// nothing: the registry and the pending list are exactly what it started
/// from.
pub proof fn lemma_pass_no_progress(known: Seq<NamedTypeV>, pending: Seq<DefnV>)
    requires
        spec_pass(known, pending) matches PassOutcome::Done(k2, p2) && p2.len()
            == pending.len(),
    ensures
        spec_pass(known, pending) == PassOutcome::Done(known, pending),
    decreases pending.len(),
{
    if pending.len() == 0 {
        assert(spec_pass(known, pending) == PassOutcome::Done(known, Seq::<DefnV>::empty()));
        assert(pending =~= Seq::<DefnV>::empty());
    } else {
        match spec_resolve_defn(pending[0], known) {
            ResolveOutcome::Failed(e) => {},
            ResolveOutcome::Resolved(t) => {
                lemma_pass_len(known.push(t), pending.drop_first());
            },
            ResolveOutcome::Defer => {
                match spec_pass(known, pending.drop_first()) {
                    PassOutcome::Done(k, p) => {
                        assert(seq![pending[0]].add(p).len() == 1 + p.len());
                        lemma_pass_no_progress(known, pending.drop_first());
                        assert(seq![pending[0]].add(pending.drop_first()) =~= pending);
                    },
                    PassOutcome::Failed(e, k, p) => {},
                }
            },
        }
    }
}

/// Run resolution passes until everything is resolved or no pass makes
/// progress.
///
/// On success `known` has grown by every definition, in resolution order,
/// and `unknown` is empty.  On failure the two lists are left exactly as
/// the failing point saw them: after a no-progress pass `unknown` holds the
/// unresolvable definitions; after an illegal name or a bad reference it
/// holds the definitions already deferred in the failing pass.
#[verifier::loop_isolation(false)]
pub fn resolve_types(known: &mut Vec<NamedType>, unknown: &mut Vec<UnresolvedTypeDefn>) -> (r:
    Result<(), Error>)
    requires
        defns_wf(view_defns(old(unknown)@)),
    ensures
        ({
            let fix = spec_fix(view_named_types(old(known)@), view_defns(old(unknown)@));
            match r {
                Ok(()) => fix == FixOutcome::Done(view_named_types(final(known)@))
                    && final(unknown)@.len() == 0,
                Err(e) => match fix {
                    FixOutcome::Stuck(k, p) => e@ == ErrorV::Unresolvable && view_named_types(
                        final(known)@,
                    ) == k && view_defns(final(unknown)@) == p,
                    FixOutcome::Failed(ev, k, p) => e@ == ev && view_named_types(
                        final(known)@,
                    ) == k && view_defns(final(unknown)@) == p,
                    FixOutcome::Done(_) => false,
                },
            }
        }),
{
    let ghost kinit = view_named_types(known@);
    let ghost pinit = view_defns(unknown@);
    loop
        invariant
            defns_wf(view_defns(unknown@)),
            spec_fix(kinit, pinit) == spec_fix(
                view_named_types(known@),
                view_defns(unknown@),
            ),
        decreases unknown@.len(),
    {
        if unknown.len() == 0 {
            return Ok(());
        }
        let ghost pass_k = view_named_types(known@);
        let ghost pass_p = view_defns(unknown@);
        proof {
            lemma_view_defns(unknown@);
        }
        let pending_len = unknown.len();
        let mut next: Vec<UnresolvedTypeDefn> = Vec::new();
        proof {
            assert(view_defns(next@).add(pass_p) =~= pass_p);
        }
        loop
            invariant
                defns_wf(view_defns(unknown@)),
                defns_wf(view_defns(next@)),
                match spec_pass(view_named_types(known@), view_defns(unknown@)) {
                    PassOutcome::Done(k, p) => spec_pass(pass_k, pass_p)
                        == PassOutcome::Done(k, view_defns(next@).add(p)),
                    PassOutcome::Failed(e, k, p) => spec_pass(pass_k, pass_p)
                        == PassOutcome::Failed(e, k, view_defns(next@).add(p)),
                },
            decreases unknown@.len(),
        {
            if unknown.len() == 0 {
                break;
            }
            let ghost prevec = unknown@;
            let ghost pre = view_defns(prevec);
            proof {
                lemma_view_defns(prevec);
                assert(pre[0] == view_defn(prevec[0]));
                assert(defn_wf(pre[0]));
            }
            let d = unknown.remove(0);
            proof {
                assert(unknown@ =~= prevec.drop_first());
                lemma_view_defns(unknown@);
                assert(view_defns(unknown@) =~= pre.drop_first());
            }
            match d.resolve(known) {
                Err(e) => {
                    proof {
                        assert(spec_pass(view_named_types(known@), pre)
                            == PassOutcome::Failed(e@, view_named_types(known@), Seq::empty()));
                        assert(view_defns(next@).add(Seq::empty()) =~= view_defns(next@));
                    }
                    *unknown = next;
                    return Err(e);
                },
                Ok(Some(t)) => {
                    proof {
                        let kv = view_named_types(known@);
                        lemma_view_named_types(known@);
                        lemma_view_named_types(known@.push(t));
                        assert(known@.push(t).drop_last() =~= known@);
                        assert(view_named_types(known@.push(t)) =~= kv.push(
                            view_named_type(t),
                        ));
                        assert(spec_pass(kv, pre) == spec_pass(
                            kv.push(view_named_type(t)),
                            pre.drop_first(),
                        ));
                    }
                    known.push(t);
                },
                Ok(None) => {
                    proof {
                        let dv = view_defn(d);
                        lemma_view_defns(next@);
                        lemma_view_defns(next@.push(d));
                        assert(next@.push(d).drop_last() =~= next@);
                        assert(view_defns(next@.push(d)) =~= view_defns(next@).push(dv));
                        match spec_pass(view_named_types(known@), pre.drop_first()) {
                            PassOutcome::Done(k, p) => {
                                assert(view_defns(next@).add(seq![dv].add(p)) =~= view_defns(
                                    next@.push(d),
                                ).add(p));
                            },
                            PassOutcome::Failed(e, k, p) => {
                                assert(view_defns(next@).add(seq![dv].add(p)) =~= view_defns(
                                    next@.push(d),
                                ).add(p));
                            },
                        }
                        assert forall|j: int|
                            0 <= j < view_defns(next@.push(d)).len() implies defn_wf(
                            #[trigger] view_defns(next@.push(d))[j],
                        ) by {
                            if j < next@.len() {
                                assert(view_defns(next@.push(d))[j] == view_defns(next@)[j]);
                            } else {
                                assert(view_defns(next@.push(d))[j] == dv);
                            }
                        }
                    }
                    next.push(d);
                },
            }
        }
        proof {
            assert(view_defns(next@).add(Seq::<DefnV>::empty()) =~= view_defns(next@));
            lemma_view_defns(next@);
            lemma_pass_len(pass_k, pass_p);
        }
        *unknown = next;
        if unknown.len() == pending_len {
            proof {
                lemma_pass_no_progress(pass_k, pass_p);
            }
            return Err(Error::Unresolvable);
        }
    }
}


/// Whether a reference satisfies [`refr_wf`].
#[verifier::loop_isolation(false)]
pub fn refr_wf_check(t: &UnresolvedTypeRefr) -> (b: bool)
    ensures
        b == refr_wf(t@),
    decreases *t,
{
    match t {
        UnresolvedTypeRefr::Name { name } => {
            str_eq(name.as_str(), "()") || !looks_adhoc(name.as_str())
        },
        UnresolvedTypeRefr::Optional { ty } => refr_wf_check(ty),
        UnresolvedTypeRefr::Sequence { ty } => refr_wf_check(ty),
        UnresolvedTypeRefr::Array { ty, ct } => refr_wf_check(ty),
        UnresolvedTypeRefr::Mapping { kty, vty } => refr_wf_check(kty) && refr_wf_check(vty),
        UnresolvedTypeRefr::Tuple { tys } => refrs_wf_check(tys),
    }
}

#[verifier::loop_isolation(false)]
fn refrs_wf_check(tys: &Vec<UnresolvedTypeRefr>) -> (b: bool)
    ensures
        b == refrs_wf(view_refrs(tys@)),
    decreases tys@,
{
    let ghost tysv = view_refrs(tys@);
    proof {
        lemma_view_refrs(tys@);
    }
    let mut i: usize = 0;
    while i < tys.len()
        invariant
            0 <= i <= tys@.len(),
            forall|j: int| 0 <= j < i ==> refr_wf(#[trigger] tysv[j]),
        decreases tys@.len() - i,
    {
        if !refr_wf_check(&tys[i]) {
            proof {
                assert_by_contradiction!(!refrs_wf(tysv), {
                    assert(refr_wf(tysv[i as int]));
                });
            }
            return false;
        }
        proof {
            assert(refr_wf(tysv[i as int]));
        }
        i = i + 1;
    }
    proof {
        assert(refrs_wf(tysv));
    }
    true
}

#[verifier::loop_isolation(false)]
fn fields_wf_check(fields: &Vec<(String, UnresolvedTypeRefr)>) -> (b: bool)
    ensures
        b == fields_wf(view_fields(fields@)),
    decreases fields@,
{
    let ghost fsv = view_fields(fields@);
    proof {
        lemma_view_fields(fields@);
    }
    let mut i: usize = 0;
    while i < fields.len()
        invariant
            0 <= i <= fields@.len(),
            forall|j: int| 0 <= j < i ==> refr_wf((#[trigger] fsv[j]).1),
        decreases fields@.len() - i,
    {
        if !refr_wf_check(&fields[i].1) {
            proof {
                assert_by_contradiction!(!fields_wf(fsv), {
                    assert(refr_wf((fsv[i as int]).1));
                });
            }
            return false;
        }
        proof {
            assert(refr_wf((fsv[i as int]).1));
        }
        i = i + 1;
    }
    proof {
        assert(fields_wf(fsv));
    }
    true
}

/// Whether a definition satisfies [`defn_wf`].
#[verifier::loop_isolation(false)]
pub fn defn_wf_check(d: &UnresolvedTypeDefn) -> (b: bool)
    ensures
        b == defn_wf(d@),
{
    match d {
        UnresolvedTypeDefn::Alias { name, ty, span } => refr_wf_check(ty),
        UnresolvedTypeDefn::UnitStruct { name, span } => true,
        UnresolvedTypeDefn::NewTypeTupleStruct { name, ty, span } => refr_wf_check(ty),
        UnresolvedTypeDefn::Struct { name, fields, span } => {
            proof {
                lemma_view_fields(fields@);
            }
            fields.len() > 0 && fields_wf_check(fields)
        },
        UnresolvedTypeDefn::Enum { name, variants, span } => {
            let ghost vsv = view_variant_list(variants@);
            proof {
                lemma_view_variant_list(variants@);
            }
            let mut i: usize = 0;
            while i < variants.len()
                invariant
                    0 <= i <= variants@.len(),
                    forall|j: int| 0 <= j < i ==> variant_wf(#[trigger] vsv[j]),
                decreases variants@.len() - i,
            {
                let ok = match &variants[i] {
                    UnresolvedEnumVariant::Unit { name: vn } => true,
                    UnresolvedEnumVariant::NewType { name: vn, ty } => refr_wf_check(ty),
                    UnresolvedEnumVariant::Tuple { name: vn, fields } => refrs_wf_check(
                        fields,
                    ),
                    UnresolvedEnumVariant::Struct { name: vn, fields } => fields_wf_check(
                        fields,
                    ),
                };
                proof {
                    assert(vsv[i as int] == view_variant(variants@[i as int]));
                }
                if !ok {
                    proof {
                        assert_by_contradiction!(!variants_wf(vsv), {
                            assert(variant_wf(vsv[i as int]));
                        });
                    }
                    return false;
                }
                proof {
                    assert(variant_wf(vsv[i as int]));
                }
                i = i + 1;
            }
            proof {
                assert(variants_wf(vsv));
            }
            true
        },
    }
}

/// Whether every definition in the list satisfies [`defn_wf`].
#[verifier::loop_isolation(false)]
pub fn defns_wf_check(ds: &Vec<UnresolvedTypeDefn>) -> (b: bool)
    ensures
        b == defns_wf(view_defns(ds@)),
{
    let ghost dsv = view_defns(ds@);
    proof {
        lemma_view_defns(ds@);
    }
    let mut i: usize = 0;
    while i < ds.len()
        invariant
            0 <= i <= ds@.len(),
            forall|j: int| 0 <= j < i ==> defn_wf(#[trigger] dsv[j]),
        decreases ds@.len() - i,
    {
        if !defn_wf_check(&ds[i]) {
            proof {
                assert_by_contradiction!(!defns_wf(dsv), {
                    assert(defn_wf(dsv[i as int]));
                });
            }
            return false;
        }
        proof {
            assert(defn_wf(dsv[i as int]));
        }
        i = i + 1;
    }
    proof {
        assert(defns_wf(dsv));
    }
    true
}

/// The resolved types of a document: the known-types registry in
/// resolution order.
#[derive(Debug)]
pub struct PidlTypes {
    pub resolved: Vec<NamedType>,
}

impl PidlTypes {
    /// Resolve a whole set of definitions from an empty registry.
    pub fn from_defns(defns: Vec<UnresolvedTypeDefn>) -> (r: Result<PidlTypes, Error>)
        requires
            defns_wf(view_defns(defns@)),
        ensures
            match r {
                Ok(p) => spec_fix(Seq::empty(), view_defns(defns@)) == FixOutcome::Done(
                    view_named_types(p.resolved@),
                ),
                Err(e) => match spec_fix(Seq::empty(), view_defns(defns@)) {
                    FixOutcome::Stuck(k, p) => e@ == ErrorV::Unresolvable,
                    FixOutcome::Failed(ev, k, p) => e@ == ev,
                    FixOutcome::Done(_) => false,
                },
            },
    {
        let mut known: Vec<NamedType> = Vec::new();
        let mut unknown = defns;
        proof {
            assert(view_named_types(known@) =~= Seq::<NamedTypeV>::empty());
        }
        match resolve_types(&mut known, &mut unknown) {
            Ok(()) => Ok(PidlTypes { resolved: known }),
            Err(e) => Err(e),
        }
    }
}

} // verus!






