//! The code-generation backend: Rust declarations from the resolved IR.
//!
//! Each registry entry becomes exactly one declaration, in registry order:
//! a type alias, a record, a tagged union, or a zero-field marker type.
//! Inline type references recurse structurally and reuse the tuple-versus-
//! array disambiguation that resolution applies.

use vstd::prelude::*;
use vstd::string::StringExecFns;

use crate::Error;
use crate::ErrorV;
use crate::Pidl;
use crate::ir::DataModelType;
use crate::ir::DataModelTypeV;
use crate::ir::DataModelVariant;
use crate::ir::DataModelVariantV;
use crate::ir::NamedType;
use crate::ir::kinds_all_same;
use crate::ir::kinds_all_same_check;
use crate::ir::NamedTypeV;
use crate::ir::NamedValue;
use crate::ir::NamedValueV;
use crate::ir::NamedVariant;
use crate::ir::NamedVariantV;
use crate::ir::lemma_view_named_types;
use crate::ir::lemma_view_named_values;
use crate::ir::lemma_view_named_variants;
use crate::ir::view_named_type;
use crate::ir::view_named_types;
use crate::ir::view_named_value;
use crate::ir::view_named_values;
use crate::ir::view_named_variant;
use crate::ir::view_named_variants;
use crate::resolve::dec_digits;
use crate::resolve::dec_string;

verus! {

/// The generated declarations: type aliases and nominal type definitions,
/// kept apart as the two halves of the emitted module.
#[derive(Debug)]
pub struct Output {
    pub aliases: String,
    pub types: String,
}

impl Default for Output {
    /// An empty output.
    fn default() -> (r: Output)
        ensures
            r.aliases@ == Seq::<char>::empty(),
            r.types@ == Seq::<char>::empty(),
    {
        Output { aliases: String::new(), types: String::new() }
    }
}

/// The inline Rust reference for one resolved entry, or the canonical name
/// of an entry that cannot be referenced inline (a newtype or tuple struct,
/// whose payload lives only in its mangled name, or the reflective schema
/// kind).
pub open spec fn spec_ty_refr(t: NamedTypeV) -> Result<Seq<char>, Seq<char>>
    decreases t, 2int,
{
    match t.ty {
        DataModelTypeV::Bool => Ok("bool"@),
        DataModelTypeV::I8 => Ok("i8"@),
        DataModelTypeV::I16 => Ok("i16"@),
        DataModelTypeV::I32 => Ok("i32"@),
        DataModelTypeV::I64 => Ok("i64"@),
        DataModelTypeV::I128 => Ok("i128"@),
        DataModelTypeV::U8 => Ok("u8"@),
        DataModelTypeV::U16 => Ok("u16"@),
        DataModelTypeV::U32 => Ok("u32"@),
        DataModelTypeV::U64 => Ok("u64"@),
        DataModelTypeV::U128 => Ok("u128"@),
        DataModelTypeV::Usize => Ok("usize"@),
        DataModelTypeV::Isize => Ok("isize"@),
        DataModelTypeV::F32 => Ok("f32"@),
        DataModelTypeV::F64 => Ok("f64"@),
        DataModelTypeV::Char => Ok("char"@),
        DataModelTypeV::Str => Ok("String"@),
        DataModelTypeV::ByteArray => Ok("Vec<u8>"@),
        DataModelTypeV::Unit => Ok("()"@),
        DataModelTypeV::Optional(inner) => match spec_ty_refr(*inner) {
            Ok(s) => Ok("Option<"@ + s + ">"@),
            Err(e) => Err(e),
        },
        DataModelTypeV::UnitStruct => Ok(t.name),
        DataModelTypeV::NewtypeStruct(_) => Err(t.name),
        DataModelTypeV::Sequence(inner) => match spec_ty_refr(*inner) {
            Ok(s) => Ok("Vec<"@ + s + ">"@),
            Err(e) => Err(e),
        },
        DataModelTypeV::Tuple(ts) => spec_tuple_or_array(ts),
        DataModelTypeV::TupleStruct(_) => Err(t.name),
        DataModelTypeV::Mapping { key, val } => match spec_ty_refr(*key) {
            Ok(ks) => match spec_ty_refr(*val) {
                Ok(vs) => Ok("HashMap<"@ + ks + ", "@ + vs + ">"@),
                Err(e) => Err(e),
            },
            Err(e) => Err(e),
        },
        DataModelTypeV::Struct(_) => Ok(t.name),
        DataModelTypeV::Enum(_) => Ok(t.name),
        DataModelTypeV::Schema => Err(t.name),
    }
}

/// The inline reference for a tuple kind: a fixed-size array when more than
/// one element share a single kind, a parenthesised tuple otherwise.
pub open spec fn spec_tuple_or_array(ts: Seq<NamedTypeV>) -> Result<Seq<char>, Seq<char>>
    decreases ts, 1int,
{
    if ts.len() == 0 {
        Ok("()"@)
    } else if ts.len() > 1 && kinds_all_same(ts) {
        match spec_ty_refr(ts[0]) {
            Ok(s) => Ok("["@ + s + "; "@ + dec_digits(ts.len() as nat) + "]"@),
            Err(e) => Err(e),
        }
    } else {
        match spec_refr_join(ts) {
            Ok(s) => Ok("("@ + s + ")"@),
            Err(e) => Err(e),
        }
    }
}

/// The comma-separated inline references of the elements after the first.
pub open spec fn spec_refr_tail(ts: Seq<NamedTypeV>) -> Result<Seq<char>, Seq<char>>
    decreases ts, 0int,
{
    if ts.len() == 0 {
        Ok(Seq::empty())
    } else {
        match spec_ty_refr(ts[0]) {
            Err(e) => Err(e),
            Ok(s) => match spec_refr_tail(ts.drop_first()) {
                Ok(r) => Ok(", "@ + s + r),
                Err(e) => Err(e),
            },
        }
    }
}

/// The comma-separated inline references of all elements.
pub open spec fn spec_refr_join(ts: Seq<NamedTypeV>) -> Result<Seq<char>, Seq<char>>
    decreases ts, 0int,
{
    if ts.len() == 0 {
        Ok(Seq::empty())
    } else {
        match spec_ty_refr(ts[0]) {
            Err(e) => Err(e),
            Ok(s) => match spec_refr_tail(ts.drop_first()) {
                Ok(r) => Ok(s + r),
                Err(e) => Err(e),
            },
        }
    }
}


/// How an executable reference-writing result corresponds to the spec: on
/// success the produced text, on failure the unrepresentable entry's name.
pub open spec fn refr_matches(r: Result<String, Error>, s: Result<Seq<char>, Seq<char>>) -> bool {
    match (r, s) {
        (Ok(txt), Ok(sv)) => txt@ == sv,
        (Err(e), Err(nm)) => e@ == ErrorV::Unrepresentable(nm),
        _ => false,
    }
}

/// The inline Rust reference for one resolved entry.
#[verifier::loop_isolation(false)]
pub fn ty_refr_string(t: &NamedType) -> (r: Result<String, Error>)
    ensures
        refr_matches(r, spec_ty_refr(t@)),
    decreases *t, 2int,
{
    match &t.ty {
        DataModelType::Bool => Ok("bool".to_owned()),
        DataModelType::I8 => Ok("i8".to_owned()),
        DataModelType::I16 => Ok("i16".to_owned()),
        DataModelType::I32 => Ok("i32".to_owned()),
        DataModelType::I64 => Ok("i64".to_owned()),
        DataModelType::I128 => Ok("i128".to_owned()),
        DataModelType::U8 => Ok("u8".to_owned()),
        DataModelType::U16 => Ok("u16".to_owned()),
        DataModelType::U32 => Ok("u32".to_owned()),
        DataModelType::U64 => Ok("u64".to_owned()),
        DataModelType::U128 => Ok("u128".to_owned()),
        DataModelType::Usize => Ok("usize".to_owned()),
        DataModelType::Isize => Ok("isize".to_owned()),
        DataModelType::F32 => Ok("f32".to_owned()),
        DataModelType::F64 => Ok("f64".to_owned()),
        DataModelType::Char => Ok("char".to_owned()),
        DataModelType::Str => Ok("String".to_owned()),
        DataModelType::ByteArray => Ok("Vec<u8>".to_owned()),
        DataModelType::Unit => Ok("()".to_owned()),
        DataModelType::Optional(inner) => match ty_refr_string(inner) {
            Err(e) => Err(e),
            Ok(s) => {
                let mut txt = "Option<".to_owned();
                txt.append(s.as_str());
                txt.append(">");
                Ok(txt)
            },
        },
        DataModelType::UnitStruct => Ok(t.name.clone()),
        DataModelType::NewtypeStruct(_) => Err(
            Error::Unrepresentable(t.name.clone()),
        ),
        DataModelType::Sequence(inner) => match ty_refr_string(inner) {
            Err(e) => Err(e),
            Ok(s) => {
                let mut txt = "Vec<".to_owned();
                txt.append(s.as_str());
                txt.append(">");
                Ok(txt)
            },
        },
        DataModelType::Tuple(ts) => tuple_or_array_refr(ts),
        DataModelType::TupleStruct(_) => Err(
            Error::Unrepresentable(t.name.clone()),
        ),
        DataModelType::Mapping { key, val } => match ty_refr_string(key) {
            Err(e) => Err(e),
            Ok(ks) => match ty_refr_string(val) {
                Err(e) => Err(e),
                Ok(vs) => {
                    let mut txt = "HashMap<".to_owned();
                    txt.append(ks.as_str());
                    txt.append(", ");
                    txt.append(vs.as_str());
                    txt.append(">");
                    Ok(txt)
                },
            },
        },
        DataModelType::Struct(_) => Ok(t.name.clone()),
        DataModelType::Enum(_) => Ok(t.name.clone()),
        DataModelType::Schema => Err(Error::Unrepresentable(t.name.clone())),
    }
}

/// The comma-separated inline references of all elements of a tuple.
#[verifier::loop_isolation(false)]
fn refrs_join(ts: &Vec<NamedType>) -> (r: Result<String, Error>)
    ensures
        refr_matches(r, spec_refr_join(view_named_types(ts@))),
    decreases ts@, 1int,
{
    let ghost tsv = view_named_types(ts@);
    proof {
        lemma_view_named_types(ts@);
        assert(tsv.skip(0) =~= tsv);
    }
    let mut acc = String::new();
    let mut i: usize = 0;
    while i < ts.len()
        invariant
            0 <= i <= ts@.len(),
            i == 0 ==> acc@ == Seq::<char>::empty(),
            i == 0 ==> tsv.skip(i as int) == tsv,
            i > 0 ==> match spec_refr_tail(tsv.skip(i as int)) {
                Ok(rest) => spec_refr_join(tsv) == Ok::<Seq<char>, Seq<char>>(acc@ + rest),
                Err(nm) => spec_refr_join(tsv) == Err::<Seq<char>, Seq<char>>(nm),
            },
        decreases ts@.len() - i,
    {
        proof {
            assert(tsv.skip(i as int)[0] == tsv[i as int]);
            assert(tsv[i as int] == view_named_type(ts@[i as int]));
        }
        let s = match ty_refr_string(&ts[i]) {
            Err(e) => {
                return Err(e);
            },
            Ok(s) => s,
        };
        proof {
            assert(tsv.skip(i as int).drop_first() =~= tsv.skip(i + 1));
        }
        let ghost acc_old = acc@;
        if i > 0 {
            acc.append(", ");
        }
        acc.append(s.as_str());
        proof {
            match spec_refr_tail(tsv.skip(i + 1)) {
                Ok(rest) => {
                    if i == 0 {
                        assert(acc@ + rest =~= s@ + rest);
                    } else {
                        assert(acc_old + (", "@ + s@ + rest) =~= acc@ + rest);
                    }
                },
                Err(nm) => {},
            }
        }
        i = i + 1;
    }
    proof {
        if i > 0 {
            assert(tsv.skip(i as int).len() == 0);
            assert(acc@ + Seq::<char>::empty() =~= acc@);
        }
    }
    Ok(acc)
}

/// The inline reference for a tuple kind, as a fixed-size array when more
/// than one element share a single kind.
#[verifier::loop_isolation(false)]
pub fn tuple_or_array_refr(ts: &Vec<NamedType>) -> (r: Result<String, Error>)
    ensures
        refr_matches(r, spec_tuple_or_array(view_named_types(ts@))),
    decreases ts@, 2int,
{
    let ghost tsv = view_named_types(ts@);
    proof {
        lemma_view_named_types(ts@);
    }
    if ts.len() == 0 {
        return Ok("()".to_owned());
    }
    if ts.len() > 1 && kinds_all_same_check(ts) {
        proof {
            assert(tsv[0] == view_named_type(ts@[0]));
        }
        match ty_refr_string(&ts[0]) {
            Err(e) => Err(e),
            Ok(s) => {
                let mut txt = "[".to_owned();
                txt.append(s.as_str());
                txt.append("; ");
                let d = dec_string(ts.len());
                txt.append(d.as_str());
                txt.append("]");
                Ok(txt)
            },
        }
    } else {
        match refrs_join(ts) {
            Err(e) => Err(e),
            Ok(s) => {
                let mut txt = "(".to_owned();
                txt.append(s.as_str());
                txt.append(")");
                Ok(txt)
            },
        }
    }
}

/// Append the inline Rust reference for `ont` to `out`; on failure `out` is
/// left unchanged.
pub fn write_ty_refr(out: &mut String, ont: &NamedType) -> (r: Result<(), Error>)
    ensures
        match (r, spec_ty_refr(ont@)) {
            (Ok(()), Ok(s)) => final(out)@ == old(out)@ + s,
            (Err(e), Err(nm)) => final(out)@ == old(out)@ && e@ == ErrorV::Unrepresentable(nm),
            _ => false,
        },
{
    match ty_refr_string(ont) {
        Ok(s) => {
            out.append(s.as_str());
            Ok(())
        },
        Err(e) => Err(e),
    }
}


/// One alias declaration line.
pub open spec fn spec_alias_line(name: Seq<char>, ty: Seq<char>) -> Seq<char> {
    "pub type "@ + name + " = "@ + ty + ";\n"@
}

/// The derive header above every generated nominal type.
pub open spec fn spec_derive_line() -> Seq<char> {
    "#[derive(Serialize, Deserialize, Schema)]\n"@
}

/// A zero-field marker type declaration.
pub open spec fn spec_marker_struct(name: Seq<char>) -> Seq<char> {
    spec_derive_line() + "pub struct "@ + name + ";\n"@ + "\n"@
}

/// One generated record field line.
pub open spec fn spec_struct_field(f: NamedValueV) -> Result<Seq<char>, Seq<char>> {
    match spec_ty_refr(f.ty) {
        Ok(s) => Ok("    pub "@ + f.name + ": "@ + s + ",\n"@),
        Err(e) => Err(e),
    }
}

/// All record field lines, in declared order.
pub open spec fn spec_struct_fields(fs: Seq<NamedValueV>) -> Result<Seq<char>, Seq<char>>
    decreases fs,
{
    if fs.len() == 0 {
        Ok(Seq::empty())
    } else {
        match spec_struct_field(fs[0]) {
            Err(e) => Err(e),
            Ok(s) => match spec_struct_fields(fs.drop_first()) {
                Ok(r) => Ok(s + r),
                Err(e) => Err(e),
            },
        }
    }
}

/// A whole record declaration.
pub open spec fn spec_struct_text(name: Seq<char>, fs: Seq<NamedValueV>) -> Result<
    Seq<char>,
    Seq<char>,
> {
    match spec_struct_fields(fs) {
        Ok(body) => Ok(
            spec_derive_line() + "pub struct "@ + name + " {\n"@ + body + "}\n"@ + "\n"@,
        ),
        Err(e) => Err(e),
    }
}

/// One field line of a struct-shaped enum variant.
pub open spec fn spec_variant_field(f: NamedValueV) -> Result<Seq<char>, Seq<char>> {
    match spec_ty_refr(f.ty) {
        Ok(s) => Ok("        "@ + f.name + ": "@ + s + ",\n"@),
        Err(e) => Err(e),
    }
}

/// All field lines of a struct-shaped enum variant.
pub open spec fn spec_variant_fields(fs: Seq<NamedValueV>) -> Result<Seq<char>, Seq<char>>
    decreases fs,
{
    if fs.len() == 0 {
        Ok(Seq::empty())
    } else {
        match spec_variant_field(fs[0]) {
            Err(e) => Err(e),
            Ok(s) => match spec_variant_fields(fs.drop_first()) {
                Ok(r) => Ok(s + r),
                Err(e) => Err(e),
            },
        }
    }
}

/// One generated enum variant.
pub open spec fn spec_variant_text(v: NamedVariantV) -> Result<Seq<char>, Seq<char>> {
    match v.ty {
        DataModelVariantV::UnitVariant => Ok("    "@ + v.name + ",\n"@),
        DataModelVariantV::NewtypeVariant(t) => match spec_ty_refr(*t) {
            Ok(s) => Ok("    "@ + v.name + "("@ + s + "),\n"@),
            Err(e) => Err(e),
        },
        DataModelVariantV::TupleVariant(ts) => match spec_refr_join(ts) {
            Ok(s) => Ok("    "@ + v.name + "("@ + s + "),\n"@),
            Err(e) => Err(e),
        },
        DataModelVariantV::StructVariant(fs) => match spec_variant_fields(fs) {
            Ok(body) => Ok("    "@ + v.name + " {\n"@ + body + "    },\n"@),
            Err(e) => Err(e),
        },
    }
}

/// All generated enum variants, in declared order.
pub open spec fn spec_variants_text(vs: Seq<NamedVariantV>) -> Result<Seq<char>, Seq<char>>
    decreases vs,
{
    if vs.len() == 0 {
        Ok(Seq::empty())
    } else {
        match spec_variant_text(vs[0]) {
            Err(e) => Err(e),
            Ok(s) => match spec_variants_text(vs.drop_first()) {
                Ok(r) => Ok(s + r),
                Err(e) => Err(e),
            },
        }
    }
}

/// A whole tagged-union declaration.
pub open spec fn spec_enum_text(name: Seq<char>, vs: Seq<NamedVariantV>) -> Result<
    Seq<char>,
    Seq<char>,
> {
    match spec_variants_text(vs) {
        Ok(body) => Ok(
            spec_derive_line() + "pub enum "@ + name + " {\n"@ + body + "}\n"@ + "\n"@,
        ),
        Err(e) => Err(e),
    }
}

/// What one registry entry appends to the two output halves: the alias text
/// and the type-declaration text, exactly one of them empty.
pub open spec fn spec_gen_decl(t: NamedTypeV) -> Result<(Seq<char>, Seq<char>), Seq<char>> {
    match t.ty {
        DataModelTypeV::Bool => Ok((spec_alias_line(t.name, "bool"@), Seq::empty())),
        DataModelTypeV::I8 => Ok((spec_alias_line(t.name, "i8"@), Seq::empty())),
        DataModelTypeV::I16 => Ok((spec_alias_line(t.name, "i16"@), Seq::empty())),
        DataModelTypeV::I32 => Ok((spec_alias_line(t.name, "i32"@), Seq::empty())),
        DataModelTypeV::I64 => Ok((spec_alias_line(t.name, "i64"@), Seq::empty())),
        DataModelTypeV::I128 => Ok((spec_alias_line(t.name, "i128"@), Seq::empty())),
        DataModelTypeV::U8 => Ok((spec_alias_line(t.name, "u8"@), Seq::empty())),
        DataModelTypeV::U16 => Ok((spec_alias_line(t.name, "u16"@), Seq::empty())),
        DataModelTypeV::U32 => Ok((spec_alias_line(t.name, "u32"@), Seq::empty())),
        DataModelTypeV::U64 => Ok((spec_alias_line(t.name, "u64"@), Seq::empty())),
        DataModelTypeV::U128 => Ok((spec_alias_line(t.name, "u128"@), Seq::empty())),
        DataModelTypeV::Usize => Ok((spec_alias_line(t.name, "usize"@), Seq::empty())),
        DataModelTypeV::Isize => Ok((spec_alias_line(t.name, "isize"@), Seq::empty())),
        DataModelTypeV::F32 => Ok((spec_alias_line(t.name, "f32"@), Seq::empty())),
        DataModelTypeV::F64 => Ok((spec_alias_line(t.name, "f64"@), Seq::empty())),
        DataModelTypeV::Char => Ok((spec_alias_line(t.name, "char"@), Seq::empty())),
        DataModelTypeV::Str => Ok((spec_alias_line(t.name, "String"@), Seq::empty())),
        DataModelTypeV::ByteArray => Ok((spec_alias_line(t.name, "Vec<u8>"@), Seq::empty())),
        DataModelTypeV::Unit => Ok((spec_alias_line(t.name, "()"@), Seq::empty())),
        DataModelTypeV::Optional(inner) => match spec_ty_refr(*inner) {
            Ok(s) => Ok((spec_alias_line(t.name, "Option<"@ + s + ">"@), Seq::empty())),
            Err(e) => Err(e),
        },
        DataModelTypeV::UnitStruct => Ok((Seq::empty(), spec_marker_struct(t.name))),
        DataModelTypeV::NewtypeStruct(_) => Ok((Seq::empty(), spec_marker_struct(t.name))),
        DataModelTypeV::Sequence(inner) => match spec_ty_refr(*inner) {
            Ok(s) => Ok((spec_alias_line(t.name, "Vec<"@ + s + ">"@), Seq::empty())),
            Err(e) => Err(e),
        },
        DataModelTypeV::Tuple(ts) => match spec_tuple_or_array(ts) {
            Ok(s) => Ok((spec_alias_line(t.name, s), Seq::empty())),
            Err(e) => Err(e),
        },
        DataModelTypeV::TupleStruct(_) => Ok((Seq::empty(), spec_marker_struct(t.name))),
        DataModelTypeV::Mapping { key, val } => match spec_ty_refr(*key) {
            Ok(ks) => match spec_ty_refr(*val) {
                Ok(vs) => Ok(
                    (
                        spec_alias_line(t.name, "HashMap<"@ + ks + ", "@ + vs + ">"@),
                        Seq::empty(),
                    ),
                ),
                Err(e) => Err(e),
            },
            Err(e) => Err(e),
        },
        DataModelTypeV::Struct(fs) => match spec_struct_text(t.name, fs) {
            Ok(s) => Ok((Seq::empty(), s)),
            Err(e) => Err(e),
        },
        DataModelTypeV::Enum(vs) => match spec_enum_text(t.name, vs) {
            Ok(s) => Ok((Seq::empty(), s)),
            Err(e) => Err(e),
        },
        DataModelTypeV::Schema => Ok(
            (spec_alias_line(t.name, "OwnedNamedType"@), Seq::empty()),
        ),
    }
}

/// What a whole registry appends, entry by entry in order.
pub open spec fn spec_gen_all(ts: Seq<NamedTypeV>) -> Result<(Seq<char>, Seq<char>), Seq<char>>
    decreases ts,
{
    if ts.len() == 0 {
        Ok((Seq::empty(), Seq::empty()))
    } else {
        match spec_gen_decl(ts[0]) {
            Err(e) => Err(e),
            Ok((a, t)) => match spec_gen_all(ts.drop_first()) {
                Ok((ra, rt)) => Ok((a + ra, t + rt)),
                Err(e) => Err(e),
            },
        }
    }
}


/// Append one alias line binding `name` to the type text `ty`.
pub fn generate_alias(out: &mut Output, name: &str, ty: &str)
    ensures
        final(out).aliases@ == old(out).aliases@ + spec_alias_line(name@, ty@),
        final(out).types@ == old(out).types@,
{
    out.aliases.append("pub type ");
    out.aliases.append(name);
    out.aliases.append(" = ");
    out.aliases.append(ty);
    out.aliases.append(";\n");
}

/// Append the alias binding `name` to the type-descriptor representation.
pub fn generate_schema_alias(out: &mut Output, name: &str)
    ensures
        final(out).aliases@ == old(out).aliases@ + spec_alias_line(name@, "OwnedNamedType"@),
        final(out).types@ == old(out).types@,
{
    generate_alias(out, name, "OwnedNamedType");
}

/// Append a zero-field marker type declaration.
pub fn generate_unit_struct(out: &mut Output, name: &str)
    ensures
        final(out).types@ == old(out).types@ + spec_marker_struct(name@),
        final(out).aliases@ == old(out).aliases@,
{
    out.types.append("#[derive(Serialize, Deserialize, Schema)]\n");
    out.types.append("pub struct ");
    out.types.append(name);
    out.types.append(";\n");
    out.types.append("\n");
}

fn generate_newtype_struct(out: &mut Output, name: &str, _ont: &NamedType)
    ensures
        final(out).types@ == old(out).types@ + spec_marker_struct(name@),
        final(out).aliases@ == old(out).aliases@,
{
    generate_unit_struct(out, name);
}

fn generate_tuple_struct(out: &mut Output, name: &str, _onts: &Vec<NamedType>)
    ensures
        final(out).types@ == old(out).types@ + spec_marker_struct(name@),
        final(out).aliases@ == old(out).aliases@,
{
    generate_unit_struct(out, name);
}

fn generate_option_alias(out: &mut Output, name: &str, ont: &NamedType) -> (r: Result<(), Error>)
    ensures
        match (r, spec_ty_refr(ont@)) {
            (Ok(()), Ok(s)) => final(out).aliases@ == old(out).aliases@ + spec_alias_line(
                name@,
                "Option<"@ + s + ">"@,
            ) && final(out).types@ == old(out).types@,
            (Err(e), Err(nm)) => *final(out) == *old(out) && e@ == ErrorV::Unrepresentable(nm),
            _ => false,
        },
{
    let s = match ty_refr_string(ont) {
        Ok(s) => s,
        Err(e) => {
            return Err(e);
        },
    };
    let mut ty = "Option<".to_owned();
    ty.append(s.as_str());
    ty.append(">");
    generate_alias(out, name, ty.as_str());
    Ok(())
}

fn generate_seq_alias(out: &mut Output, name: &str, ont: &NamedType) -> (r: Result<(), Error>)
    ensures
        match (r, spec_ty_refr(ont@)) {
            (Ok(()), Ok(s)) => final(out).aliases@ == old(out).aliases@ + spec_alias_line(
                name@,
                "Vec<"@ + s + ">"@,
            ) && final(out).types@ == old(out).types@,
            (Err(e), Err(nm)) => *final(out) == *old(out) && e@ == ErrorV::Unrepresentable(nm),
            _ => false,
        },
{
    let s = match ty_refr_string(ont) {
        Ok(s) => s,
        Err(e) => {
            return Err(e);
        },
    };
    let mut ty = "Vec<".to_owned();
    ty.append(s.as_str());
    ty.append(">");
    generate_alias(out, name, ty.as_str());
    Ok(())
}

fn generate_tuple_alias(out: &mut Output, name: &str, onts: &Vec<NamedType>) -> (r: Result<
    (),
    Error,
>)
    ensures
        match (r, spec_tuple_or_array(view_named_types(onts@))) {
            (Ok(()), Ok(s)) => final(out).aliases@ == old(out).aliases@ + spec_alias_line(
                name@,
                s,
            ) && final(out).types@ == old(out).types@,
            (Err(e), Err(nm)) => *final(out) == *old(out) && e@ == ErrorV::Unrepresentable(nm),
            _ => false,
        },
{
    let s = match tuple_or_array_refr(onts) {
        Ok(s) => s,
        Err(e) => {
            return Err(e);
        },
    };
    generate_alias(out, name, s.as_str());
    Ok(())
}

fn generate_map_alias(out: &mut Output, name: &str, key: &NamedType, val: &NamedType) -> (r:
    Result<(), Error>)
    ensures
        match (r, spec_ty_refr(key@), spec_ty_refr(val@)) {
            (Ok(()), Ok(ks), Ok(vs)) => final(out).aliases@ == old(out).aliases@
                + spec_alias_line(name@, "HashMap<"@ + ks + ", "@ + vs + ">"@)
                && final(out).types@ == old(out).types@,
            (Err(e), Err(nm), _) => *final(out) == *old(out) && e@ == ErrorV::Unrepresentable(
                nm,
            ),
            (Err(e), Ok(_), Err(nm)) => *final(out) == *old(out) && e@
                == ErrorV::Unrepresentable(nm),
            _ => false,
        },
{
    let ks = match ty_refr_string(key) {
        Ok(s) => s,
        Err(e) => {
            return Err(e);
        },
    };
    let vs = match ty_refr_string(val) {
        Ok(s) => s,
        Err(e) => {
            return Err(e);
        },
    };
    let mut ty = "HashMap<".to_owned();
    ty.append(ks.as_str());
    ty.append(", ");
    ty.append(vs.as_str());
    ty.append(">");
    generate_alias(out, name, ty.as_str());
    Ok(())
}

#[verifier::loop_isolation(false)]
fn struct_fields_string(fs: &Vec<NamedValue>) -> (r: Result<String, Error>)
    ensures
        refr_matches(r, spec_struct_fields(view_named_values(fs@))),
{
    let ghost fsv = view_named_values(fs@);
    proof {
        lemma_view_named_values(fs@);
        assert(fsv.skip(0) =~= fsv);
    }
    let mut acc = String::new();
    let mut i: usize = 0;
    while i < fs.len()
        invariant
            0 <= i <= fs@.len(),
            match spec_struct_fields(fsv.skip(i as int)) {
                Ok(rest) => spec_struct_fields(fsv) == Ok::<Seq<char>, Seq<char>>(
                    acc@ + rest,
                ),
                Err(nm) => spec_struct_fields(fsv) == Err::<Seq<char>, Seq<char>>(nm),
            },
        decreases fs@.len() - i,
    {
        proof {
            assert(fsv.skip(i as int)[0] == fsv[i as int]);
            assert(fsv[i as int] == view_named_value(fs@[i as int]));
        }
        let s = match ty_refr_string(&fs[i].ty) {
            Err(e) => {
                return Err(e);
            },
            Ok(s) => s,
        };
        let ghost acc_old = acc@;
        acc.append("    pub ");
        acc.append(fs[i].name.as_str());
        acc.append(": ");
        acc.append(s.as_str());
        acc.append(",\n");
        proof {
            assert(fsv.skip(i as int).drop_first() =~= fsv.skip(i + 1));
            let line = "    pub "@ + fsv[i as int].name + ": "@ + s@ + ",\n"@;
            assert(acc@ =~= acc_old + line);
            match spec_struct_fields(fsv.skip(i + 1)) {
                Ok(rest) => {
                    assert(acc_old + (line + rest) =~= acc@ + rest);
                },
                Err(nm) => {},
            }
        }
        i = i + 1;
    }
    proof {
        assert(fsv.skip(i as int).len() == 0);
        assert(acc@ + Seq::<char>::empty() =~= acc@);
    }
    Ok(acc)
}

#[verifier::loop_isolation(false)]
fn variant_fields_string(fs: &Vec<NamedValue>) -> (r: Result<String, Error>)
    ensures
        refr_matches(r, spec_variant_fields(view_named_values(fs@))),
{
    let ghost fsv = view_named_values(fs@);
    proof {
        lemma_view_named_values(fs@);
        assert(fsv.skip(0) =~= fsv);
    }
    let mut acc = String::new();
    let mut i: usize = 0;
    while i < fs.len()
        invariant
            0 <= i <= fs@.len(),
            match spec_variant_fields(fsv.skip(i as int)) {
                Ok(rest) => spec_variant_fields(fsv) == Ok::<Seq<char>, Seq<char>>(
                    acc@ + rest,
                ),
                Err(nm) => spec_variant_fields(fsv) == Err::<Seq<char>, Seq<char>>(nm),
            },
        decreases fs@.len() - i,
    {
        proof {
            assert(fsv.skip(i as int)[0] == fsv[i as int]);
            assert(fsv[i as int] == view_named_value(fs@[i as int]));
        }
        let s = match ty_refr_string(&fs[i].ty) {
            Err(e) => {
                return Err(e);
            },
            Ok(s) => s,
        };
        let ghost acc_old = acc@;
        acc.append("        ");
        acc.append(fs[i].name.as_str());
        acc.append(": ");
        acc.append(s.as_str());
        acc.append(",\n");
        proof {
            assert(fsv.skip(i as int).drop_first() =~= fsv.skip(i + 1));
            let line = "        "@ + fsv[i as int].name + ": "@ + s@ + ",\n"@;
            assert(acc@ =~= acc_old + line);
            match spec_variant_fields(fsv.skip(i + 1)) {
                Ok(rest) => {
                    assert(acc_old + (line + rest) =~= acc@ + rest);
                },
                Err(nm) => {},
            }
        }
        i = i + 1;
    }
    proof {
        assert(fsv.skip(i as int).len() == 0);
        assert(acc@ + Seq::<char>::empty() =~= acc@);
    }
    Ok(acc)
}

fn variant_string(v: &NamedVariant) -> (r: Result<String, Error>)
    ensures
        refr_matches(r, spec_variant_text(v@)),
{
    match &v.ty {
        DataModelVariant::UnitVariant => {
            let mut acc = "    ".to_owned();
            acc.append(v.name.as_str());
            acc.append(",\n");
            Ok(acc)
        },
        DataModelVariant::NewtypeVariant(t) => {
            let s = match ty_refr_string(t) {
                Err(e) => {
                    return Err(e);
                },
                Ok(s) => s,
            };
            let mut acc = "    ".to_owned();
            acc.append(v.name.as_str());
            acc.append("(");
            acc.append(s.as_str());
            acc.append("),\n");
            Ok(acc)
        },
        DataModelVariant::TupleVariant(ts) => {
            let s = match refrs_join(ts) {
                Err(e) => {
                    return Err(e);
                },
                Ok(s) => s,
            };
            let mut acc = "    ".to_owned();
            acc.append(v.name.as_str());
            acc.append("(");
            acc.append(s.as_str());
            acc.append("),\n");
            Ok(acc)
        },
        DataModelVariant::StructVariant(fs) => {
            let s = match variant_fields_string(fs) {
                Err(e) => {
                    return Err(e);
                },
                Ok(s) => s,
            };
            let mut acc = "    ".to_owned();
            acc.append(v.name.as_str());
            acc.append(" {\n");
            acc.append(s.as_str());
            acc.append("    },\n");
            Ok(acc)
        },
    }
}

#[verifier::loop_isolation(false)]
fn variants_string(vs: &Vec<NamedVariant>) -> (r: Result<String, Error>)
    ensures
        refr_matches(r, spec_variants_text(view_named_variants(vs@))),
{
    let ghost vsv = view_named_variants(vs@);
    proof {
        lemma_view_named_variants(vs@);
        assert(vsv.skip(0) =~= vsv);
    }
    let mut acc = String::new();
    let mut i: usize = 0;
    while i < vs.len()
        invariant
            0 <= i <= vs@.len(),
            match spec_variants_text(vsv.skip(i as int)) {
                Ok(rest) => spec_variants_text(vsv) == Ok::<Seq<char>, Seq<char>>(
                    acc@ + rest,
                ),
                Err(nm) => spec_variants_text(vsv) == Err::<Seq<char>, Seq<char>>(nm),
            },
        decreases vs@.len() - i,
    {
        proof {
            assert(vsv.skip(i as int)[0] == vsv[i as int]);
            assert(vsv[i as int] == view_named_variant(vs@[i as int]));
        }
        let s = match variant_string(&vs[i]) {
            Err(e) => {
                return Err(e);
            },
            Ok(s) => s,
        };
        let ghost acc_old = acc@;
        acc.append(s.as_str());
        proof {
            assert(vsv.skip(i as int).drop_first() =~= vsv.skip(i + 1));
            match spec_variants_text(vsv.skip(i + 1)) {
                Ok(rest) => {
                    assert(acc_old + (s@ + rest) =~= acc@ + rest);
                },
                Err(nm) => {},
            }
        }
        i = i + 1;
    }
    proof {
        assert(vsv.skip(i as int).len() == 0);
        assert(acc@ + Seq::<char>::empty() =~= acc@);
    }
    Ok(acc)
}

fn generate_struct(out: &mut Output, name: &str, fields: &Vec<NamedValue>) -> (r: Result<
    (),
    Error,
>)
    ensures
        match (r, spec_struct_text(name@, view_named_values(fields@))) {
            (Ok(()), Ok(s)) => final(out).types@ == old(out).types@ + s
                && final(out).aliases@ == old(out).aliases@,
            (Err(e), Err(nm)) => *final(out) == *old(out) && e@ == ErrorV::Unrepresentable(nm),
            _ => false,
        },
{
    let body = match struct_fields_string(fields) {
        Err(e) => {
            return Err(e);
        },
        Ok(s) => s,
    };
    out.types.append("#[derive(Serialize, Deserialize, Schema)]\n");
    out.types.append("pub struct ");
    out.types.append(name);
    out.types.append(" {\n");
    out.types.append(body.as_str());
    out.types.append("}\n");
    out.types.append("\n");
    Ok(())
}

fn generate_enum(out: &mut Output, name: &str, variants: &Vec<NamedVariant>) -> (r: Result<
    (),
    Error,
>)
    ensures
        match (r, spec_enum_text(name@, view_named_variants(variants@))) {
            (Ok(()), Ok(s)) => final(out).types@ == old(out).types@ + s
                && final(out).aliases@ == old(out).aliases@,
            (Err(e), Err(nm)) => *final(out) == *old(out) && e@ == ErrorV::Unrepresentable(nm),
            _ => false,
        },
{
    let body = match variants_string(variants) {
        Err(e) => {
            return Err(e);
        },
        Ok(s) => s,
    };
    out.types.append("#[derive(Serialize, Deserialize, Schema)]\n");
    out.types.append("pub enum ");
    out.types.append(name);
    out.types.append(" {\n");
    out.types.append(body.as_str());
    out.types.append("}\n");
    out.types.append("\n");
    Ok(())
}

/// Append the one declaration a registry entry projects to; on failure
/// `out` is left unchanged.
fn generate_std_ty(out: &mut Output, ty: &NamedType) -> (r: Result<(), Error>)
    ensures
        match (r, spec_gen_decl(ty@)) {
            (Ok(()), Ok((a, t))) => final(out).aliases@ == old(out).aliases@ + a
                && final(out).types@ == old(out).types@ + t,
            (Err(e), Err(nm)) => *final(out) == *old(out) && e@ == ErrorV::Unrepresentable(nm),
            _ => false,
        },
{
    let name = ty.name.as_str();
    match &ty.ty {
        DataModelType::Bool => {
            generate_alias(out, name, "bool");
            Ok(())
        },
        DataModelType::I8 => {
            generate_alias(out, name, "i8");
            Ok(())
        },
        DataModelType::I16 => {
            generate_alias(out, name, "i16");
            Ok(())
        },
        DataModelType::I32 => {
            generate_alias(out, name, "i32");
            Ok(())
        },
        DataModelType::I64 => {
            generate_alias(out, name, "i64");
            Ok(())
        },
        DataModelType::I128 => {
            generate_alias(out, name, "i128");
            Ok(())
        },
        DataModelType::U8 => {
            generate_alias(out, name, "u8");
            Ok(())
        },
        DataModelType::U16 => {
            generate_alias(out, name, "u16");
            Ok(())
        },
        DataModelType::U32 => {
            generate_alias(out, name, "u32");
            Ok(())
        },
        DataModelType::U64 => {
            generate_alias(out, name, "u64");
            Ok(())
        },
        DataModelType::U128 => {
            generate_alias(out, name, "u128");
            Ok(())
        },
        DataModelType::Usize => {
            generate_alias(out, name, "usize");
            Ok(())
        },
        DataModelType::Isize => {
            generate_alias(out, name, "isize");
            Ok(())
        },
        DataModelType::F32 => {
            generate_alias(out, name, "f32");
            Ok(())
        },
        DataModelType::F64 => {
            generate_alias(out, name, "f64");
            Ok(())
        },
        DataModelType::Char => {
            generate_alias(out, name, "char");
            Ok(())
        },
        DataModelType::Str => {
            generate_alias(out, name, "String");
            Ok(())
        },
        DataModelType::ByteArray => {
            generate_alias(out, name, "Vec<u8>");
            Ok(())
        },
        DataModelType::Unit => {
            generate_alias(out, name, "()");
            Ok(())
        },
        DataModelType::Optional(inner) => generate_option_alias(out, name, inner),
        DataModelType::UnitStruct => {
            generate_unit_struct(out, name);
            Ok(())
        },
        DataModelType::NewtypeStruct(inner) => {
            generate_newtype_struct(out, name, inner);
            Ok(())
        },
        DataModelType::Sequence(inner) => generate_seq_alias(out, name, inner),
        DataModelType::Tuple(ts) => generate_tuple_alias(out, name, ts),
        DataModelType::TupleStruct(ts) => {
            generate_tuple_struct(out, name, ts);
            Ok(())
        },
        DataModelType::Mapping { key, val } => generate_map_alias(
            out,
            name,
            key,
            val,
        ),
        DataModelType::Struct(fs) => generate_struct(out, name, fs),
        DataModelType::Enum(vs) => generate_enum(out, name, vs),
        DataModelType::Schema => {
            generate_schema_alias(out, name);
            Ok(())
        },
    }
}

/// Project every resolved type, in registry order, into Rust declarations.
#[verifier::loop_isolation(false)]
pub fn generate_rust_std(p: &Pidl) -> (r: Result<Output, Error>)
    ensures
        match (r, spec_gen_all(view_named_types(p.types@))) {
            (Ok(out), Ok((a, t))) => out.aliases@ == a && out.types@ == t,
            (Err(e), Err(nm)) => e@ == ErrorV::Unrepresentable(nm),
            _ => false,
        },
{
    let ghost tsv = view_named_types(p.types@);
    proof {
        lemma_view_named_types(p.types@);
        assert(tsv.skip(0) =~= tsv);
    }
    let mut out = Output::default();
    let mut i: usize = 0;
    while i < p.types.len()
        invariant
            0 <= i <= p.types@.len(),
            match spec_gen_all(tsv.skip(i as int)) {
                Ok((ra, rt)) => spec_gen_all(tsv) == Ok::<(Seq<char>, Seq<char>), Seq<char>>(
                    (out.aliases@ + ra, out.types@ + rt),
                ),
                Err(nm) => spec_gen_all(tsv) == Err::<(Seq<char>, Seq<char>), Seq<char>>(nm),
            },
        decreases p.types@.len() - i,
    {
        proof {
            assert(tsv.skip(i as int)[0] == tsv[i as int]);
            assert(tsv[i as int] == view_named_type(p.types@[i as int]));
        }
        let ghost a_old = out.aliases@;
        let ghost t_old = out.types@;
        match generate_std_ty(&mut out, &p.types[i]) {
            Err(e) => {
                return Err(e);
            },
            Ok(()) => {},
        }
        proof {
            assert(tsv.skip(i as int).drop_first() =~= tsv.skip(i + 1));
            match spec_gen_all(tsv.skip(i + 1)) {
                Ok((ra, rt)) => {
                    match spec_gen_decl(tsv[i as int]) {
                        Ok((a, t)) => {
                            assert(a_old + (a + ra) =~= out.aliases@ + ra);
                            assert(t_old + (t + rt) =~= out.types@ + rt);
                        },
                        Err(nm) => {},
                    }
                },
                Err(nm) => {},
            }
        }
        i = i + 1;
    }
    proof {
        assert(tsv.skip(i as int).len() == 0);
        assert(out.aliases@ + Seq::<char>::empty() =~= out.aliases@);
        assert(out.types@ + Seq::<char>::empty() =~= out.types@);
    }
    Ok(out)
}

} // verus!



