use pidl::Error;
use pidl::Pidl;
use pidl::generate::generate_rust_std;
use pidl::ir::DataModelType;
use pidl::ir::DataModelVariant;
use pidl::ir::NamedType;
use pidl::resolve::PidlTypes;
use pidl::resolve::Span;
use pidl::resolve::UnresolvedEnumVariant;
use pidl::resolve::UnresolvedTypeDefn;
use pidl::resolve::defns_wf_check;
use pidl::resolve::defn_wf_check;
use pidl::resolve::refr_wf_check;
use pidl::resolve::looks_adhoc;
use pidl::resolve::new_tyname_legal;
use pidl::resolve::resolve_types;
use pidl::resolve::resolve_ty;
use pidl::parse::UnresolvedTypeRefr;

fn span() -> Span {
    Span { offset: 0, len: 0 }
}

fn refr(s: &str) -> UnresolvedTypeRefr {
    UnresolvedTypeRefr::parse_entirely(s).expect("expression should parse")
}

fn alias(name: &str, ty: &str) -> UnresolvedTypeDefn {
    UnresolvedTypeDefn::Alias { name: name.to_owned(), ty: refr(ty), span: span() }
}

fn strukt(name: &str, fields: &[(&str, &str)]) -> UnresolvedTypeDefn {
    UnresolvedTypeDefn::Struct {
        name: name.to_owned(),
        fields: fields.iter().map(|(f, t)| ((*f).to_owned(), refr(t))).collect(),
        span: span(),
    }
}

fn resolve_all(defns: Vec<UnresolvedTypeDefn>) -> Result<Vec<NamedType>, Error> {
    assert!(defns_wf_check(&defns), "test definitions must be well formed");
    PidlTypes::from_defns(defns).map(|p| p.resolved)
}

fn defn_name_of(d: &UnresolvedTypeDefn) -> &str {
    match d {
        UnresolvedTypeDefn::Alias { name, .. } => name,
        UnresolvedTypeDefn::UnitStruct { name, .. } => name,
        UnresolvedTypeDefn::NewTypeTupleStruct { name, .. } => name,
        UnresolvedTypeDefn::Struct { name, .. } => name,
        UnresolvedTypeDefn::Enum { name, .. } => name,
    }
}

#[test]
fn alias_to_each_primitive_keyword() {
    let cases: &[(&str, DataModelType)] = &[
        ("bool", DataModelType::Bool),
        ("i8", DataModelType::I8),
        ("i16", DataModelType::I16),
        ("i32", DataModelType::I32),
        ("i64", DataModelType::I64),
        ("i128", DataModelType::I128),
        ("u8", DataModelType::U8),
        ("u16", DataModelType::U16),
        ("u32", DataModelType::U32),
        ("u64", DataModelType::U64),
        ("u128", DataModelType::U128),
        ("f32", DataModelType::F32),
        ("f64", DataModelType::F64),
        ("char", DataModelType::Char),
        ("string", DataModelType::Str),
        ("bytearray", DataModelType::ByteArray),
        ("unit", DataModelType::Unit),
    ];
    for (kw, expected) in cases {
        let known = resolve_all(vec![alias("Aliased", kw)]).expect("alias should resolve");
        assert_eq!(known.len(), 1);
        assert_eq!(known[0].name, "Aliased");
        assert!(
            known[0].ty.deep_eq(expected),
            "keyword {kw} resolved to {:?}",
            known[0].ty
        );
    }
}

#[test]
fn meters_example_resolves_and_generates() {
    let known = resolve_all(vec![alias("Meters", "u32")]).expect("should resolve");
    assert_eq!(known.len(), 1);
    assert_eq!(known[0].name, "Meters");
    assert!(known[0].ty.deep_eq(&DataModelType::U32));

    let p = Pidl { types: known };
    let out = generate_rust_std(&p).expect("generation should succeed");
    assert_eq!(out.aliases, "pub type Meters = u32;\n");
    assert_eq!(out.types, "");
}

#[test]
fn point_example_resolves_and_generates() {
    let known = resolve_all(vec![strukt("Point", &[("x", "i32"), ("y", "i32")])])
        .expect("should resolve");
    assert_eq!(known.len(), 1);
    assert_eq!(known[0].name, "Point");
    match &known[0].ty {
        DataModelType::Struct(fields) => {
            assert_eq!(fields.len(), 2);
            assert_eq!(fields[0].name, "x");
            assert!(fields[0].ty.ty.deep_eq(&DataModelType::I32));
            assert_eq!(fields[1].name, "y");
            assert!(fields[1].ty.ty.deep_eq(&DataModelType::I32));
        }
        other => panic!("expected a struct, got {other:?}"),
    }

    let p = Pidl { types: known };
    let out = generate_rust_std(&p).expect("generation should succeed");
    assert_eq!(out.aliases, "");
    assert_eq!(
        out.types,
        "#[derive(Serialize, Deserialize, Schema)]\n\
         pub struct Point {\n    pub x: i32,\n    pub y: i32,\n}\n\n"
    );
}

#[test]
fn forward_references_resolve_in_both_orders() {
    let first = || strukt("Inner", &[("v", "u8")]);
    let second = || strukt("Outer", &[("inner", "Inner")]);

    let a = resolve_all(vec![first(), second()]).expect("declared-first should resolve");
    let b = resolve_all(vec![second(), first()]).expect("forward reference should resolve");

    assert_eq!(a.len(), 2);
    assert_eq!(b.len(), 2);
    // The registry is ordered by resolution, not declaration: the
    // independent definition lands first either way, and shapes agree.
    for (x, y) in a.iter().zip(b.iter()) {
        assert_eq!(x.name, y.name);
        assert!(x.ty.deep_eq(&y.ty));
    }
    assert_eq!(a[0].name, "Inner");
    assert_eq!(a[1].name, "Outer");
}

#[test]
fn mutual_references_fail_as_unresolvable() {
    let a = strukt("A", &[("b", "B")]);
    let b = strukt("B", &[("a", "A")]);
    let mut known = Vec::new();
    let mut unknown = vec![a, b];
    assert!(defns_wf_check(&unknown));
    match resolve_types(&mut known, &mut unknown) {
        Err(Error::Unresolvable) => {}
        other => panic!("expected Unresolvable, got {other:?}"),
    }
    // Both definitions are still pending: only the pending set tells a true
    // cycle apart from a reference to an undeclared name.
    assert_eq!(unknown.len(), 2);
    assert_eq!(defn_name_of(&unknown[0]), "A");
    assert_eq!(defn_name_of(&unknown[1]), "B");
    assert!(known.is_empty());
}

#[test]
fn undeclared_reference_fails_with_smaller_pending_set() {
    let a = strukt("A", &[("b", "Missing")]);
    let ok = strukt("Fine", &[("v", "u8")]);
    let mut known = Vec::new();
    let mut unknown = vec![a, ok];
    assert!(defns_wf_check(&unknown));
    match resolve_types(&mut known, &mut unknown) {
        Err(Error::Unresolvable) => {}
        other => panic!("expected Unresolvable, got {other:?}"),
    }
    assert_eq!(unknown.len(), 1);
    assert_eq!(defn_name_of(&unknown[0]), "A");
    assert_eq!(known.len(), 1);
    assert_eq!(known[0].name, "Fine");
}

#[test]
fn duplicate_names_fail_in_either_order() {
    let first = || alias("Foo", "u8");
    let second = || strukt("Foo", &[("v", "u16")]);
    match resolve_all(vec![first(), second()]) {
        Err(Error::BadName(n)) => assert_eq!(n, "Foo"),
        other => panic!("expected BadName, got {other:?}"),
    }
    match resolve_all(vec![second(), first()]) {
        Err(Error::BadName(n)) => assert_eq!(n, "Foo"),
        other => panic!("expected BadName, got {other:?}"),
    }
}

#[test]
fn keyword_names_are_illegal_at_any_position() {
    match resolve_all(vec![alias("bool", "u8")]) {
        Err(Error::BadName(n)) => assert_eq!(n, "bool"),
        other => panic!("expected BadName, got {other:?}"),
    }
    match resolve_all(vec![alias("Fine", "u8"), alias("seq", "u8")]) {
        Err(Error::BadName(n)) => assert_eq!(n, "seq"),
        other => panic!("expected BadName, got {other:?}"),
    }
    // Even standing after a definition that defers, the keyword name is
    // reached and fails within the first pass.
    match resolve_all(vec![strukt("A", &[("b", "Missing")]), alias("seq", "u8")]) {
        Err(Error::BadName(n)) => assert_eq!(n, "seq"),
        other => panic!("expected BadName, got {other:?}"),
    }
    assert!(!new_tyname_legal("tuplestruct", &Vec::new()));
    assert!(new_tyname_legal("Fine", &Vec::new()));
}

#[test]
fn reserved_structural_keyword_reference_is_invalid() {
    match resolve_all(vec![alias("Foo", "seq")]) {
        Err(Error::Invalid(msg)) => assert_eq!(msg, "don't do that"),
        other => panic!("expected Invalid, got {other:?}"),
    }
}

#[test]
fn tuple_and_array_syntax_resolve_to_identical_kinds() {
    let known = resolve_all(vec![alias("A", "(u8, u8, u8)"), alias("B", "[u8; 3]")])
        .expect("should resolve");
    assert_eq!(known.len(), 2);
    // Both are three-element tuples of the byte kind in the IR.
    assert!(known[0].ty.deep_eq(&known[1].ty));
    match &known[0].ty {
        DataModelType::Tuple(ts) => {
            assert_eq!(ts.len(), 3);
            assert!(ts[0].ty.deep_eq(&DataModelType::U8));
        }
        other => panic!("expected a tuple kind, got {other:?}"),
    }

    // Generation writes the identical fixed-size-array reference for both.
    let p = Pidl { types: known };
    let out = generate_rust_std(&p).expect("generation should succeed");
    assert_eq!(
        out.aliases,
        "pub type A = [u8; 3];\npub type B = [u8; 3];\n"
    );
}

#[test]
fn heterogeneous_tuple_stays_a_tuple() {
    let known = resolve_all(vec![alias("P", "(u8, u16)")]).expect("should resolve");
    let p = Pidl { types: known };
    let out = generate_rust_std(&p).expect("generation should succeed");
    assert_eq!(out.aliases, "pub type P = (u8, u16);\n");
}

#[test]
fn composite_aliases_generate_references() {
    let known = resolve_all(vec![
        alias("MaybeByte", "option<u8>"),
        alias("Bytes", "[u8]"),
        alias("Lookup", "map<string, i32>"),
        alias("Text", "string"),
        alias("Raw", "bytearray"),
        alias("Nothing", "unit"),
    ])
    .expect("should resolve");
    let p = Pidl { types: known };
    let out = generate_rust_std(&p).expect("generation should succeed");
    assert_eq!(
        out.aliases,
        "pub type MaybeByte = Option<u8>;\n\
         pub type Bytes = Vec<u8>;\n\
         pub type Lookup = HashMap<String, i32>;\n\
         pub type Text = String;\n\
         pub type Raw = Vec<u8>;\n\
         pub type Nothing = ();\n"
    );
}

#[test]
fn unit_struct_and_enum_generate_declarations() {
    let defns = vec![
        UnresolvedTypeDefn::UnitStruct { name: "Marker".to_owned(), span: span() },
        UnresolvedTypeDefn::Enum {
            name: "Shape".to_owned(),
            variants: vec![
                UnresolvedEnumVariant::Unit { name: "Empty".to_owned() },
                UnresolvedEnumVariant::NewType { name: "One".to_owned(), ty: refr("u8") },
                UnresolvedEnumVariant::Tuple {
                    name: "Pair".to_owned(),
                    fields: vec![refr("u8"), refr("u16")],
                },
                UnresolvedEnumVariant::Struct {
                    name: "Named".to_owned(),
                    fields: vec![("x".to_owned(), refr("i32"))],
                },
            ],
            span: span(),
        },
    ];
    let known = resolve_all(defns).expect("should resolve");
    assert_eq!(known[0].name, "Marker");
    assert!(known[0].ty.deep_eq(&DataModelType::UnitStruct));
    match &known[1].ty {
        DataModelType::Enum(vs) => {
            assert_eq!(vs.len(), 4);
            assert_eq!(vs[0].name, "Empty");
            assert!(matches!(vs[0].ty, DataModelVariant::UnitVariant));
            assert!(matches!(vs[1].ty, DataModelVariant::NewtypeVariant(_)));
            assert!(matches!(vs[2].ty, DataModelVariant::TupleVariant(_)));
            assert!(matches!(vs[3].ty, DataModelVariant::StructVariant(_)));
        }
        other => panic!("expected an enum, got {other:?}"),
    }

    let p = Pidl { types: known };
    let out = generate_rust_std(&p).expect("generation should succeed");
    assert_eq!(out.aliases, "");
    assert_eq!(
        out.types,
        "#[derive(Serialize, Deserialize, Schema)]\n\
         pub struct Marker;\n\n\
         #[derive(Serialize, Deserialize, Schema)]\n\
         pub enum Shape {\n\
         \x20   Empty,\n\
         \x20   One(u8),\n\
         \x20   Pair(u8, u16),\n\
         \x20   Named {\n        x: i32,\n    },\n\
         }\n\n"
    );
}

#[test]
fn newtype_and_tuple_struct_names_embed_payloads() {
    let defns = vec![
        UnresolvedTypeDefn::NewTypeTupleStruct {
            name: "Wrapper".to_owned(),
            ty: refr("u8"),
            span: span(),
        },
        UnresolvedTypeDefn::NewTypeTupleStruct {
            name: "Pair".to_owned(),
            ty: refr("(u8, u16)"),
            span: span(),
        },
    ];
    let known = resolve_all(defns).expect("should resolve");
    // The canonical names are mangled: the declared name cannot be used to
    // reference these entries later.
    assert_eq!(known[0].name, "Wrapper(u8)");
    assert!(matches!(known[0].ty, DataModelType::NewtypeStruct(_)));
    assert_eq!(known[1].name, "Pair(u8, u16)");
    assert!(matches!(known[1].ty, DataModelType::TupleStruct(_)));

    // A later reference by the declared name cannot resolve.
    let mut known2 = Vec::new();
    let mut unknown = vec![
        UnresolvedTypeDefn::NewTypeTupleStruct {
            name: "Wrapper".to_owned(),
            ty: refr("u8"),
            span: span(),
        },
        alias("Other", "Wrapper"),
    ];
    assert!(defns_wf_check(&unknown));
    assert!(matches!(
        resolve_types(&mut known2, &mut unknown),
        Err(Error::Unresolvable)
    ));

    // Their declarations are zero-field marker types under the mangled name.
    let p = Pidl { types: known };
    let out = generate_rust_std(&p).expect("generation should succeed");
    assert_eq!(
        out.types,
        "#[derive(Serialize, Deserialize, Schema)]\n\
         pub struct Wrapper(u8);\n\n\
         #[derive(Serialize, Deserialize, Schema)]\n\
         pub struct Pair(u8, u16);\n\n"
    );
}

#[test]
fn inline_reference_to_mangled_name_is_unrepresentable() {
    // Resolution can embed a newtype entry inside a composite by looking up
    // its mangled name directly; the backend must then refuse the inline
    // reference rather than guess.
    let defns = vec![
        UnresolvedTypeDefn::NewTypeTupleStruct {
            name: "Wrapper".to_owned(),
            ty: refr("u8"),
            span: span(),
        },
        UnresolvedTypeDefn::Alias {
            name: "Weird".to_owned(),
            ty: UnresolvedTypeRefr::Optional {
                ty: Box::new(UnresolvedTypeRefr::Name { name: "Wrapper(u8)".to_owned() }),
            },
            span: span(),
        },
    ];
    let known = resolve_all(defns).expect("should resolve");
    let p = Pidl { types: known };
    match generate_rust_std(&p) {
        Err(Error::Unrepresentable(n)) => assert_eq!(n, "Wrapper(u8)"),
        other => panic!("expected Unrepresentable, got {other:?}"),
    }
}

#[test]
fn schema_kind_generates_descriptor_alias() {
    let p = Pidl {
        types: vec![NamedType { name: "Meta".to_owned(), ty: DataModelType::Schema }],
    };
    let out = generate_rust_std(&p).expect("generation should succeed");
    assert_eq!(out.aliases, "pub type Meta = OwnedNamedType;\n");
}

#[test]
fn empty_tuple_alias_generates_unit_reference() {
    let known = resolve_all(vec![alias("Nil", "()")]).expect("should resolve");
    let p = Pidl { types: known };
    let out = generate_rust_std(&p).expect("generation should succeed");
    assert_eq!(out.aliases, "pub type Nil = ();\n");
}

#[test]
fn wf_checks_reject_defects() {
    // An empty struct must be rejected before resolution.
    let empty = UnresolvedTypeDefn::Struct {
        name: "Empty".to_owned(),
        fields: Vec::new(),
        span: span(),
    };
    assert!(!defn_wf_check(&empty));

    // A name spelled like an inline composite is a caller defect.
    let adhoc = UnresolvedTypeRefr::Name { name: "option<u8>".to_owned() };
    assert!(!refr_wf_check(&adhoc));
    assert!(looks_adhoc("option<u8>"));
    assert!(looks_adhoc("(u8)"));
    assert!(looks_adhoc("[u8]"));
    assert!(looks_adhoc("map<a, b>"));
    assert!(!looks_adhoc("Meters"));

    // The unit spelling is fine, as are ordinary names.
    assert!(refr_wf_check(&UnresolvedTypeRefr::Name { name: "()".to_owned() }));
    assert!(refr_wf_check(&refr("map<string, [u8; 2]>")));
}

#[test]
fn resolution_round_trip_preserves_structure() {
    // Resolve, generate, and re-parse the generated field lines: the
    // declared field names, their order, and the structural kinds survive.
    let defns = vec![
        strukt("Point", &[("x", "i32"), ("y", "i32")]),
        alias("Meters", "u32"),
        strukt("Line", &[("from", "Point"), ("to", "Point"), ("len", "Meters")]),
    ];
    let known = resolve_all(defns).expect("should resolve");
    let p = Pidl { types: known };
    let out = generate_rust_std(&p).expect("generation should succeed");

    assert_eq!(out.aliases, "pub type Meters = u32;\n");
    let expected_types = "#[derive(Serialize, Deserialize, Schema)]\n\
         pub struct Point {\n    pub x: i32,\n    pub y: i32,\n}\n\n\
         #[derive(Serialize, Deserialize, Schema)]\n\
         pub struct Line {\n    pub from: Point,\n    pub to: Point,\n    pub len: u32,\n}\n\n";
    assert_eq!(out.types, expected_types);

    // Structural re-parse of the generated record: field lines in order.
    let line_decl = out
        .types
        .split("pub struct Line {\n")
        .nth(1)
        .expect("Line declaration present");
    let fields: Vec<(&str, &str)> = line_decl
        .lines()
        .take_while(|l| l.trim() != "}")
        .map(|l| {
            let l = l.trim().strip_prefix("pub ").expect("field is public");
            let l = l.strip_suffix(',').expect("field line ends with a comma");
            let (n, t) = l.split_once(": ").expect("field has a type");
            (n, t)
        })
        .collect();
    // A field whose declaration referenced the alias carries the alias's
    // structural kind: primitives project directly, by kind.
    assert_eq!(fields, vec![("from", "Point"), ("to", "Point"), ("len", "u32")]);
}

#[test]
fn output_default_is_empty() {
    let out = pidl::generate::Output::default();
    assert_eq!(out.aliases, "");
    assert_eq!(out.types, "");
}

#[test]
fn pointer_width_kinds_generate_aliases() {
    let p = Pidl {
        types: vec![
            NamedType { name: "Big".to_owned(), ty: DataModelType::Usize },
            NamedType { name: "Offset".to_owned(), ty: DataModelType::Isize },
        ],
    };
    let out = generate_rust_std(&p).expect("generation should succeed");
    assert_eq!(out.aliases, "pub type Big = usize;
pub type Offset = isize;
");
}

#[test]
fn multi_digit_array_counts_render_in_decimal() {
    let known = resolve_all(vec![alias("Block", "[u8; 512]")]).expect("should resolve");
    assert_eq!(known[0].name, "Block");
    let p = Pidl { types: known };
    let out = generate_rust_std(&p).expect("generation should succeed");
    assert_eq!(out.aliases, "pub type Block = [u8; 512];
");
}

#[test]
fn synthesized_composite_names_are_structural() {
    let known = resolve_all(vec![
        alias("A", "option<[u8; 2]>"),
        alias("B", "map<string, (bool, char)>"),
    ])
    .expect("should resolve");
    // The alias keeps its declared name; the synthesized names of inner
    // composites appear when such an entry is embedded elsewhere.
    assert_eq!(known[0].name, "A");
    assert_eq!(known[1].name, "B");
    match &known[0].ty {
        DataModelType::Optional(inner) => assert_eq!(inner.name, "[u8; 2]"),
        other => panic!("expected an option kind, got {other:?}"),
    }
    match &known[1].ty {
        DataModelType::Mapping { key, val } => {
            assert_eq!(key.name, "str");
            assert_eq!(val.name, "(bool, char)");
        }
        other => panic!("expected a map kind, got {other:?}"),
    }
}

#[test]
fn deep_clone_and_deep_eq_agree() {
    let known = resolve_all(vec![strukt("Point", &[("x", "i32"), ("y", "i32")])])
        .expect("should resolve");
    let copy = known[0].deep_clone();
    assert!(copy.deep_eq(&known[0]));
    assert_eq!(copy.name, known[0].name);

    let other = resolve_all(vec![strukt("Point", &[("x", "i32"), ("y", "i64")])])
        .expect("should resolve");
    assert!(!other[0].deep_eq(&known[0]));
}
