use pidl::parse::take_char;
use pidl::parse::take_num;
use pidl::parse::take_str;
use pidl::parse::take_valid_rust_tyname;
use pidl::parse::is_valid_rust_tyname;
use pidl::parse::trim_start_str;
use pidl::parse::str_eq;
use pidl::parse::UnresolvedTypeRefr;
use pidl::Error;

fn parse_ok(s: &str) -> UnresolvedTypeRefr {
    UnresolvedTypeRefr::parse_entirely(s).expect("expression should parse")
}

fn parse_err(s: &str) -> Error {
    UnresolvedTypeRefr::parse_entirely(s).expect_err("expression should not parse")
}

#[test]
fn take_char_consumes_whitespace_then_char() {
    assert_eq!(take_char("  (rest", '('), Ok("rest"));
    assert_eq!(take_char("(rest", '('), Ok("rest"));
    assert_eq!(take_char("  xrest", '('), Err("xrest"));
    assert_eq!(take_char("", '('), Err(""));
}

#[test]
fn take_str_consumes_token() {
    assert_eq!(take_str("  option<u8>", "option"), Ok("<u8>"));
    assert_eq!(take_str("optional", "option"), Ok("al"));
    assert_eq!(take_str("  opt", "option"), Err("opt"));
}

#[test]
fn take_num_reads_decimal() {
    assert_eq!(take_num(" 42]"), Ok((42, "]")));
    assert_eq!(take_num("007 "), Ok((7, " ")));
    // On failure the rejected digit run itself comes back, not the whole
    // input: before "x" there is no run at all.
    assert_eq!(take_num("1_0"), Err("1_0"));
    assert_eq!(take_num("1_0x"), Err("1_0"));
    assert_eq!(take_num("x"), Err(""));
    assert_eq!(take_num(""), Err(""));
    // Twenty digits overflow a 64-bit usize.
    assert_eq!(take_num("99999999999999999999"), Err("99999999999999999999"));
}

#[test]
fn take_tyname_reads_identifier() {
    assert_eq!(take_valid_rust_tyname("  Foo_9 rest"), Ok(("Foo_9", " rest")));
    assert_eq!(take_valid_rust_tyname("a,b"), Ok(("a", ",b")));
    assert_eq!(take_valid_rust_tyname(" (x"), Err("(x"));
    assert_eq!(take_valid_rust_tyname(""), Err(""));
}

#[test]
fn tyname_validity() {
    assert!(is_valid_rust_tyname("Meters"));
    assert!(is_valid_rust_tyname("u32"));
    assert!(is_valid_rust_tyname("a_b_9"));
    assert!(!is_valid_rust_tyname(""));
    assert!(!is_valid_rust_tyname("a-b"));
    assert!(!is_valid_rust_tyname("(u8)"));
}

#[test]
fn trim_and_eq_helpers() {
    assert_eq!(trim_start_str("  \t\nx y "), "x y ");
    assert!(str_eq("abc", "abc"));
    assert!(!str_eq("abc", "abd"));
    assert!(!str_eq("abc", "ab"));
}

#[test]
fn parse_bare_name() {
    match parse_ok("u32") {
        UnresolvedTypeRefr::Name { name } => assert_eq!(name, "u32"),
        other => panic!("expected a name, got {other:?}"),
    }
}

#[test]
fn parse_option_of_name() {
    match parse_ok("option<u8>") {
        UnresolvedTypeRefr::Optional { ty } => match *ty {
            UnresolvedTypeRefr::Name { name } => assert_eq!(name, "u8"),
            other => panic!("expected a name inside, got {other:?}"),
        },
        other => panic!("expected an option, got {other:?}"),
    }
}

#[test]
fn parse_map_of_names() {
    match parse_ok("map<string, i32>") {
        UnresolvedTypeRefr::Mapping { kty, vty } => {
            assert!(matches!(*kty, UnresolvedTypeRefr::Name { ref name } if name == "string"));
            assert!(matches!(*vty, UnresolvedTypeRefr::Name { ref name } if name == "i32"));
        }
        other => panic!("expected a map, got {other:?}"),
    }
}

#[test]
fn parse_sequence_and_array() {
    match parse_ok("[u8]") {
        UnresolvedTypeRefr::Sequence { ty } => {
            assert!(matches!(*ty, UnresolvedTypeRefr::Name { ref name } if name == "u8"));
        }
        other => panic!("expected a sequence, got {other:?}"),
    }
    match parse_ok("[u8; 4]") {
        UnresolvedTypeRefr::Array { ty, ct } => {
            assert_eq!(ct, 4);
            assert!(matches!(*ty, UnresolvedTypeRefr::Name { ref name } if name == "u8"));
        }
        other => panic!("expected an array, got {other:?}"),
    }
}

#[test]
fn parse_tuple_forms() {
    match parse_ok("(a, b)") {
        UnresolvedTypeRefr::Tuple { tys } => {
            assert_eq!(tys.len(), 2);
            assert!(matches!(&tys[0], UnresolvedTypeRefr::Name { name } if name == "a"));
            assert!(matches!(&tys[1], UnresolvedTypeRefr::Name { name } if name == "b"));
        }
        other => panic!("expected a tuple, got {other:?}"),
    }
    match parse_ok("()") {
        UnresolvedTypeRefr::Tuple { tys } => assert_eq!(tys.len(), 0),
        other => panic!("expected an empty tuple, got {other:?}"),
    }
    // Commas are token separators; extra or missing ones are tolerated.
    match parse_ok("(,a,,b,)") {
        UnresolvedTypeRefr::Tuple { tys } => assert_eq!(tys.len(), 2),
        other => panic!("expected a tuple, got {other:?}"),
    }
    match parse_ok("(a b)") {
        UnresolvedTypeRefr::Tuple { tys } => assert_eq!(tys.len(), 2),
        other => panic!("expected a tuple, got {other:?}"),
    }
}

#[test]
fn parse_nested_expression() {
    match parse_ok("map< [u8; 2] , option<(x, y)> >") {
        UnresolvedTypeRefr::Mapping { kty, vty } => {
            assert!(matches!(*kty, UnresolvedTypeRefr::Array { ct: 2, .. }));
            match *vty {
                UnresolvedTypeRefr::Optional { ty } => {
                    assert!(matches!(*ty, UnresolvedTypeRefr::Tuple { ref tys } if tys.len() == 2));
                }
                other => panic!("expected an option, got {other:?}"),
            }
        }
        other => panic!("expected a map, got {other:?}"),
    }
}

#[test]
fn parse_option_like_names_stay_names() {
    // Without an opening angle bracket these are plain identifiers.
    assert!(matches!(parse_ok("optional"), UnresolvedTypeRefr::Name { ref name } if name == "optional"));
    assert!(matches!(parse_ok("map"), UnresolvedTypeRefr::Name { ref name } if name == "map"));
    assert!(matches!(parse_ok("option"), UnresolvedTypeRefr::Name { ref name } if name == "option"));
}

#[test]
fn parse_whitespace_between_tokens() {
    assert!(matches!(parse_ok("  option < u8 > "), UnresolvedTypeRefr::Optional { .. }));
    assert!(matches!(parse_ok(" ( u8 , u16 ) "), UnresolvedTypeRefr::Tuple { .. }));
    assert!(matches!(parse_ok(" [ u8 ; 3 ] "), UnresolvedTypeRefr::Array { .. }));
}

#[test]
fn parse_trailing_input_is_rejected() {
    match parse_err("u8 junk") {
        Error::Invalid(rem) => assert_eq!(rem, " junk"),
        other => panic!("expected Invalid, got {other:?}"),
    }
}

#[test]
fn parse_malformed_inputs_are_rejected() {
    assert!(matches!(parse_err(""), Error::Invalid(_)));
    assert!(matches!(parse_err("(a !)"), Error::Invalid(_)));
    assert!(matches!(parse_err("[u8; x]"), Error::Invalid(_)));
    assert!(matches!(parse_err("option<u8"), Error::Invalid(_)));
    assert!(matches!(parse_err("map<u8>"), Error::Invalid(_)));
    assert!(matches!(parse_err("a-b"), Error::Invalid(_)));
    assert!(matches!(parse_err("(a,"), Error::Invalid(_)));
}
