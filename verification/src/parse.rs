//! The type-expression parser.
//!
//! A type reference such as `option<u8>`, `map<string, i32>`, `[u8; 4]` or
//! `(a, b)` is parsed by recursive descent into an unresolved expression
//! tree.  Whitespace between tokens is insignificant; identifiers are
//! non-empty runs of ASCII letters, digits and underscores.

use vstd::prelude::*;
use vstd::string::StrSliceExecFns;

use crate::Error;
use crate::ErrorV;

verus! {

/// The whitespace accepted between tokens.
pub open spec fn is_ws_char(c: char) -> bool {
    c == ' ' || c == '\t' || c == '\n' || c == '\r'
}

/// The characters an identifier may consist of: ASCII letters, digits and
/// the underscore.
pub open spec fn is_ident_char(c: char) -> bool {
    (97 <= c as u32 && c as u32 <= 122) || (65 <= c as u32 && c as u32 <= 90) || (48 <= c as u32
        && c as u32 <= 57) || c as u32 == 95
}

/// A decimal digit.
pub open spec fn is_digit_char(c: char) -> bool {
    48 <= c as u32 && c as u32 <= 57
}

/// The value of a decimal digit.
pub open spec fn digit_val(c: char) -> nat {
    (c as u32 - 48) as nat
}

/// `s` with its leading whitespace removed.
pub open spec fn spec_trim(s: Seq<char>) -> Seq<char>
    decreases s.len(),
{
    if s.len() > 0 && is_ws_char(s[0]) {
        spec_trim(s.drop_first())
    } else {
        s
    }
}

pub broadcast proof fn lemma_trim_len(s: Seq<char>)
    ensures
        (#[trigger] spec_trim(s)).len() <= s.len(),
    decreases s.len(),
{
    if s.len() > 0 && is_ws_char(s[0]) {
        lemma_trim_len(s.drop_first());
    }
}

proof fn lemma_trim_step(s: Seq<char>, i: int)
    requires
        0 <= i < s.len(),
        is_ws_char(s[i]),
        spec_trim(s) == spec_trim(s.subrange(i, s.len() as int)),
    ensures
        spec_trim(s) == spec_trim(s.subrange(i + 1, s.len() as int)),
{
    let sub = s.subrange(i, s.len() as int);
    assert(sub.len() > 0 && is_ws_char(sub[0]));
    assert(sub.drop_first() =~= s.subrange(i + 1, s.len() as int));
}

/// `s` with its leading whitespace removed, as a borrowed suffix.
pub fn trim_start_str<'a>(s: &'a str) -> (r: &'a str)
    ensures
        r@ == spec_trim(s@),
{
    let n = s.unicode_len();
    let mut i: usize = 0;
    proof {
        assert(s@.subrange(0, s@.len() as int) =~= s@);
    }
    loop
        invariant
            0 <= i <= n,
            n == s@.len(),
            spec_trim(s@) == spec_trim(s@.subrange(i as int, s@.len() as int)),
        ensures
            0 <= i <= n,
            spec_trim(s@) == s@.subrange(i as int, s@.len() as int),
        decreases n - i,
    {
        if i >= n {
            proof {
                assert(s@.subrange(i as int, s@.len() as int).len() == 0);
            }
            break;
        }
        let c = s.get_char(i);
        let u = c as u32;
        if !(u == 32 || u == 9 || u == 10 || u == 13) {
            proof {
                let sub = s@.subrange(i as int, s@.len() as int);
                assert(sub[0] == s@[i as int]);
                assert(!is_ws_char(sub[0]));
            }
            break;
        }
        proof {
            lemma_trim_step(s@, i as int);
        }
        i = i + 1;
    }
    s.substring_char(i, n)
}

/// Consume leading whitespace and then the single character `c`.
///
/// On success the remainder after `c` is returned; otherwise the
/// whitespace-trimmed input is handed back unchanged.
pub fn take_char<'a>(s: &'a str, c: char) -> (r: Result<&'a str, &'a str>)
    ensures
        ({
            let t = spec_trim(s@);
            match r {
                Ok(rem) => t.len() > 0 && t[0] == c && rem@ == t.drop_first(),
                Err(rem) => (t.len() == 0 || t[0] != c) && rem@ == t,
            }
        }),
{
    let t = trim_start_str(s);
    let n = t.unicode_len();
    if n > 0 && t.get_char(0) == c {
        Ok(t.substring_char(1, n))
    } else {
        Err(t)
    }
}

/// Consume leading whitespace and then the literal token `tok`.
///
/// On success the remainder after the token is returned; otherwise the
/// whitespace-trimmed input is handed back unchanged.
pub fn take_str<'a>(s: &'a str, tok: &str) -> (r: Result<&'a str, &'a str>)
    ensures
        ({
            let t = spec_trim(s@);
            let k = tok@.len();
            match r {
                Ok(rem) => t.len() >= k && t.subrange(0, k as int) == tok@ && rem@ == t.skip(
                    k as int,
                ),
                Err(rem) => !(t.len() >= k && t.subrange(0, k as int) == tok@) && rem@ == t,
            }
        }),
{
    let t = trim_start_str(s);
    let n = t.unicode_len();
    let k = tok.unicode_len();
    if n < k {
        return Err(t);
    }
    let mut i: usize = 0;
    loop
        invariant
            0 <= i <= k,
            k <= n,
            n == t@.len(),
            k == tok@.len(),
            forall|j: int| 0 <= j < i ==> t@[j] == tok@[j],
        ensures
            0 <= i <= k,
            n == t@.len(),
            k == tok@.len(),
            i == k ==> t@.subrange(0, k as int) =~= tok@,
            i < k ==> t@[i as int] != tok@[i as int],
        decreases k - i,
    {
        if i >= k {
            break;
        }
        if t.get_char(i) != tok.get_char(i) {
            break;
        }
        i = i + 1;
    }
    if i == k {
        proof {
            assert(t@.subrange(0, k as int) =~= tok@);
        }
        Ok(t.substring_char(k, n))
    } else {
        proof {
            assert(t@.subrange(0, k as int)[i as int] == t@[i as int]);
        }
        Err(t)
    }
}


/// Length of the leading run of decimal digits and underscores.
pub open spec fn num_run_len(t: Seq<char>) -> int
    decreases t.len(),
{
    if t.len() > 0 && (is_digit_char(t[0]) || t[0] == '_') {
        1 + num_run_len(t.drop_first())
    } else {
        0
    }
}

/// Length of the leading run of identifier characters.
pub open spec fn ident_run_len(t: Seq<char>) -> int
    decreases t.len(),
{
    if t.len() > 0 && is_ident_char(t[0]) {
        1 + ident_run_len(t.drop_first())
    } else {
        0
    }
}

/// Every character is a decimal digit.
pub open spec fn all_digits(t: Seq<char>) -> bool {
    forall|i: int| 0 <= i < t.len() ==> is_digit_char(#[trigger] t[i])
}

/// The value of a sequence of decimal digits, most significant first.
pub open spec fn dec_val(t: Seq<char>) -> nat
    decreases t.len(),
{
    if t.len() == 0 {
        0
    } else {
        dec_val(t.drop_last()) * 10 + digit_val(t.last())
    }
}

proof fn lemma_num_run_bounds(t: Seq<char>)
    ensures
        0 <= num_run_len(t) <= t.len(),
        forall|j: int| 0 <= j < num_run_len(t) ==> is_digit_char(#[trigger] t[j]) || t[j] == '_',
    decreases t.len(),
{
    if t.len() > 0 && (is_digit_char(t[0]) || t[0] == '_') {
        lemma_num_run_bounds(t.drop_first());
        assert forall|j: int| 0 <= j < num_run_len(t) implies is_digit_char(#[trigger] t[j])
            || t[j] == '_' by {
            if j > 0 {
                assert(t.drop_first()[j - 1] == t[j]);
            }
        }
    }
}

proof fn lemma_ident_run_bounds(t: Seq<char>)
    ensures
        0 <= ident_run_len(t) <= t.len(),
        forall|j: int| 0 <= j < ident_run_len(t) ==> is_ident_char(#[trigger] t[j]),
    decreases t.len(),
{
    if t.len() > 0 && is_ident_char(t[0]) {
        lemma_ident_run_bounds(t.drop_first());
        assert forall|j: int| 0 <= j < ident_run_len(t) implies is_ident_char(
            #[trigger] t[j],
        ) by {
            if j > 0 {
                assert(t.drop_first()[j - 1] == t[j]);
            }
        }
    }
}

proof fn lemma_num_run_step(t: Seq<char>, k: int)
    requires
        0 <= k < t.len(),
        is_digit_char(t[k]) || t[k] == '_',
        num_run_len(t) == k + num_run_len(t.skip(k)),
    ensures
        num_run_len(t) == k + 1 + num_run_len(t.skip(k + 1)),
{
    let sub = t.skip(k);
    assert(sub[0] == t[k]);
    assert(sub.drop_first() =~= t.skip(k + 1));
}

proof fn lemma_ident_run_step(t: Seq<char>, k: int)
    requires
        0 <= k < t.len(),
        is_ident_char(t[k]),
        ident_run_len(t) == k + ident_run_len(t.skip(k)),
    ensures
        ident_run_len(t) == k + 1 + ident_run_len(t.skip(k + 1)),
{
    let sub = t.skip(k);
    assert(sub[0] == t[k]);
    assert(sub.drop_first() =~= t.skip(k + 1));
}

proof fn lemma_dec_val_prefix(t: Seq<char>, j: int)
    requires
        0 <= j <= t.len(),
    ensures
        dec_val(t.subrange(0, j)) <= dec_val(t),
    decreases t.len(),
{
    if j == t.len() {
        assert(t.subrange(0, j) =~= t);
    } else {
        assert(t.drop_last().subrange(0, j) =~= t.subrange(0, j));
        lemma_dec_val_prefix(t.drop_last(), j);
    }
}

/// Consume leading whitespace and then an unsigned decimal count.
///
/// The leading run of digits and underscores is taken; it must be non-empty,
/// consist of digits alone, and its value must fit in `usize`, else the run
/// itself (possibly empty) is handed back as the rejected text.
pub fn take_num<'a>(s: &'a str) -> (r: Result<(usize, &'a str), &'a str>)
    ensures
        ({
            let t = spec_trim(s@);
            let k = num_run_len(t);
            let run = t.subrange(0, k);
            match r {
                Ok((val, rem)) => k > 0 && all_digits(run) && dec_val(run) <= usize::MAX
                    && val == dec_val(run) && rem@ == t.skip(k),
                Err(rej) => rej@ == run && (k == 0 || !all_digits(run) || dec_val(run)
                    > usize::MAX),
            }
        }),
{
    let t = trim_start_str(s);
    let n = t.unicode_len();
    proof {
        lemma_num_run_bounds(t@);
        assert(t@.skip(0) =~= t@);
    }
    let mut k: usize = 0;
    loop
        invariant
            0 <= k <= n,
            n == t@.len(),
            num_run_len(t@) == k + num_run_len(t@.skip(k as int)),
        ensures
            0 <= k <= n,
            n == t@.len(),
            k == num_run_len(t@),
        decreases n - k,
    {
        if k >= n {
            proof {
                assert(t@.skip(k as int).len() == 0);
            }
            break;
        }
        let u = t.get_char(k) as u32;
        if !((48 <= u && u <= 57) || u == 95) {
            proof {
                assert(t@.skip(k as int)[0] == t@[k as int]);
            }
            break;
        }
        proof {
            lemma_num_run_step(t@, k as int);
        }
        k = k + 1;
    }
    if k == 0 {
        proof {
            assert(t@.subrange(0, 0) =~= Seq::<char>::empty());
        }
        return Err(t.substring_char(0, 0));
    }
    let ghost run = t@.subrange(0, k as int);
    let mut val: usize = 0;
    let mut i: usize = 0;
    proof {
        assert(run.subrange(0, 0) =~= Seq::<char>::empty());
        lemma_num_run_bounds(t@);
    }
    while i < k
        invariant
            t@ == spec_trim(s@),
            0 <= i <= k,
            k <= n,
            n == t@.len(),
            k == num_run_len(t@),
            run == t@.subrange(0, k as int),
            forall|j: int| 0 <= j < i ==> is_digit_char(#[trigger] run[j]),
            val == dec_val(run.subrange(0, i as int)),
            forall|j: int| 0 <= j < k ==> is_digit_char(#[trigger] t@[j]) || t@[j] == '_',
        decreases k - i,
    {
        let u = t.get_char(i) as u32;
        proof {
            assert(run[i as int] == t@[i as int]);
        }
        if u == 95 {
            proof {
                assert(!is_digit_char(run[i as int]));
            }
            return Err(t.substring_char(0, k));
        }
        assert(48 <= u && u <= 57);
        let d: usize = (u - 48) as usize;
        let next = match val.checked_mul(10) {
            Some(v) => v.checked_add(d),
            None => None,
        };
        match next {
            Some(v) => {
                proof {
                    let pre = run.subrange(0, i as int);
                    let cur = run.subrange(0, i + 1);
                    assert(cur.drop_last() =~= pre);
                    assert(cur.last() == t@[i as int]);
                }
                val = v;
            },
            None => {
                proof {
                    let cur = run.subrange(0, i + 1);
                    assert(cur.drop_last() =~= run.subrange(0, i as int));
                    assert(cur.last() == t@[i as int]);
                    assert(dec_val(cur) > usize::MAX);
                    if all_digits(run) {
                        lemma_dec_val_prefix(run, i + 1);
                    }
                }
                return Err(t.substring_char(0, k));
            },
        }
        i = i + 1;
    }
    proof {
        assert(run.subrange(0, k as int) =~= run);
    }
    Ok((val, t.substring_char(k, n)))
}

/// Consume leading whitespace and then a non-empty identifier.
///
/// The identifier is the maximal run of ASCII letters, digits and
/// underscores; if it is empty the whitespace-trimmed input is handed back
/// unchanged.
pub fn take_valid_rust_tyname<'a>(s: &'a str) -> (r: Result<(&'a str, &'a str), &'a str>)
    ensures
        ({
            let t = spec_trim(s@);
            let k = ident_run_len(t);
            match r {
                Ok((name, rem)) => k > 0 && name@ == t.subrange(0, k) && rem@ == t.skip(k),
                Err(rem) => k == 0 && rem@ == t,
            }
        }),
{
    let t = trim_start_str(s);
    let n = t.unicode_len();
    proof {
        lemma_ident_run_bounds(t@);
        assert(t@.skip(0) =~= t@);
    }
    let mut k: usize = 0;
    loop
        invariant
            0 <= k <= n,
            n == t@.len(),
            ident_run_len(t@) == k + ident_run_len(t@.skip(k as int)),
        ensures
            0 <= k <= n,
            n == t@.len(),
            k == ident_run_len(t@),
        decreases n - k,
    {
        if k >= n {
            proof {
                assert(t@.skip(k as int).len() == 0);
            }
            break;
        }
        let u = t.get_char(k) as u32;
        if !((97 <= u && u <= 122) || (65 <= u && u <= 90) || (48 <= u && u <= 57) || u == 95) {
            proof {
                assert(t@.skip(k as int)[0] == t@[k as int]);
            }
            break;
        }
        proof {
            lemma_ident_run_step(t@, k as int);
        }
        k = k + 1;
    }
    if k == 0 {
        Err(t)
    } else {
        Ok((t.substring_char(0, k), t.substring_char(k, n)))
    }
}

/// Whether the whole of `t` is a legal declared type name: a non-empty run
/// of ASCII letters, digits and underscores.
pub open spec fn spec_valid_tyname(t: Seq<char>) -> bool {
    t.len() > 0 && forall|i: int| 0 <= i < t.len() ==> is_ident_char(#[trigger] t[i])
}

/// Whether `s` as a whole is a legal declared type name.
pub fn is_valid_rust_tyname(s: &str) -> (r: bool)
    ensures
        r == spec_valid_tyname(s@),
{
    let n = s.unicode_len();
    if n == 0 {
        return false;
    }
    let mut i: usize = 0;
    while i < n
        invariant
            0 <= i <= n,
            n == s@.len(),
            forall|j: int| 0 <= j < i ==> is_ident_char(#[trigger] s@[j]),
        decreases n - i,
    {
        let u = s.get_char(i) as u32;
        if !((97 <= u && u <= 122) || (65 <= u && u <= 90) || (48 <= u && u <= 57) || u == 95) {
            return false;
        }
        i = i + 1;
    }
    true
}


/// An unresolved type-reference expression, as written in the IDL.
#[derive(Debug)]
pub enum UnresolvedTypeRefr {
    Name { name: String },
    Optional { ty: Box<UnresolvedTypeRefr> },
    Sequence { ty: Box<UnresolvedTypeRefr> },
    Array { ty: Box<UnresolvedTypeRefr>, ct: usize },
    Mapping { kty: Box<UnresolvedTypeRefr>, vty: Box<UnresolvedTypeRefr> },
    Tuple { tys: Vec<UnresolvedTypeRefr> },
}

/// The mathematical value of an [`UnresolvedTypeRefr`].
pub enum TypeRefrV {
    Name(Seq<char>),
    Optional(Box<TypeRefrV>),
    Sequence(Box<TypeRefrV>),
    Array(Box<TypeRefrV>, nat),
    Mapping(Box<TypeRefrV>, Box<TypeRefrV>),
    Tuple(Seq<TypeRefrV>),
}

pub open spec fn view_refr(t: UnresolvedTypeRefr) -> TypeRefrV
    decreases t,
{
    match t {
        UnresolvedTypeRefr::Name { name } => TypeRefrV::Name(name@),
        UnresolvedTypeRefr::Optional { ty } => TypeRefrV::Optional(Box::new(view_refr(*ty))),
        UnresolvedTypeRefr::Sequence { ty } => TypeRefrV::Sequence(Box::new(view_refr(*ty))),
        UnresolvedTypeRefr::Array { ty, ct } => TypeRefrV::Array(
            Box::new(view_refr(*ty)),
            ct as nat,
        ),
        UnresolvedTypeRefr::Mapping { kty, vty } => TypeRefrV::Mapping(
            Box::new(view_refr(*kty)),
            Box::new(view_refr(*vty)),
        ),
        UnresolvedTypeRefr::Tuple { tys } => TypeRefrV::Tuple(view_refrs(tys@)),
    }
}

pub open spec fn view_refrs(ts: Seq<UnresolvedTypeRefr>) -> Seq<TypeRefrV>
    decreases ts,
{
    if ts.len() == 0 {
        Seq::empty()
    } else {
        view_refrs(ts.drop_last()).push(view_refr(ts[ts.len() - 1]))
    }
}

pub broadcast proof fn lemma_view_refrs(ts: Seq<UnresolvedTypeRefr>)
    ensures
        (#[trigger] view_refrs(ts)).len() == ts.len(),
        forall|i: int| 0 <= i < ts.len() ==> #[trigger] view_refrs(ts)[i] == view_refr(ts[i]),
    decreases ts,
{
    if ts.len() > 0 {
        lemma_view_refrs(ts.drop_last());
    }
}

impl View for UnresolvedTypeRefr {
    type V = TypeRefrV;

    open spec fn view(&self) -> TypeRefrV {
        view_refr(*self)
    }
}

/// What consuming one expected character leaves over, if it is there.
pub open spec fn spec_take_char(s: Seq<char>, c: char) -> Option<Seq<char>> {
    let t = spec_trim(s);
    if t.len() > 0 && t[0] == c {
        Some(t.drop_first())
    } else {
        None
    }
}

/// What consuming one expected token leaves over, if it is there.
pub open spec fn spec_take_str(s: Seq<char>, tok: Seq<char>) -> Option<Seq<char>> {
    let t = spec_trim(s);
    if t.len() >= tok.len() && t.subrange(0, tok.len() as int) == tok {
        Some(t.skip(tok.len() as int))
    } else {
        None
    }
}

/// What consuming a decimal count leaves over, with its value, if one is
/// there and fits in `usize`.
pub open spec fn spec_take_num(s: Seq<char>) -> Option<(nat, Seq<char>)> {
    let t = spec_trim(s);
    let k = num_run_len(t);
    let run = t.subrange(0, k);
    if k > 0 && all_digits(run) && dec_val(run) <= usize::MAX {
        Some((dec_val(run), t.skip(k)))
    } else {
        None
    }
}

/// The outcome of parsing one expression: the parsed tree and the remainder,
/// or the remainder on which parsing stopped.
pub enum ParseStep {
    Parsed(TypeRefrV, Seq<char>),
    NoParse(Seq<char>),
}

/// The outcome of parsing the elements of a tuple.
pub enum ItemsStep {
    Parsed(Seq<TypeRefrV>, Seq<char>),
    NoParse(Seq<char>),
}

/// One expression parsed from the front of `s`: a parenthesised tuple, a
/// bracketed sequence or array, `option<..>`, `map<..,..>`, or a bare name.
pub open spec fn spec_parse(s: Seq<char>) -> ParseStep
    decreases s.len(), 3int,
{
    let t = spec_trim(s);
    if t.len() > 0 && t[0] == '(' {
        spec_parse_tuple(s)
    } else if t.len() > 0 && t[0] == '[' {
        spec_parse_seq_array(s)
    } else {
        let k = ident_run_len(t);
        if k <= 0 {
            ParseStep::NoParse(t)
        } else {
            let id = t.subrange(0, k);
            if id == "option"@ && spec_take_char(t.skip(k), '<') is Some {
                spec_parse_option(s)
            } else if id == "map"@ && spec_take_char(t.skip(k), '<') is Some {
                spec_parse_map(s)
            } else {
                ParseStep::Parsed(TypeRefrV::Name(id), t.skip(k))
            }
        }
    }
}

pub open spec fn spec_parse_tuple(s: Seq<char>) -> ParseStep
    decreases s.len(), 2int,
{
    match spec_take_char(s, '(') {
        Option::None => ParseStep::NoParse(spec_trim(s)),
        Option::Some(r1) => if r1.len() < s.len() {
            match spec_parse_tuple_items(r1) {
                ItemsStep::Parsed(tys, r2) => ParseStep::Parsed(TypeRefrV::Tuple(tys), r2),
                ItemsStep::NoParse(e) => ParseStep::NoParse(e),
            }
        } else {
            ParseStep::NoParse(spec_trim(s))
        },
    }
}

/// The elements of a tuple body: a closing parenthesis ends the list, commas
/// are skipped, and anything else must parse as an expression.
pub open spec fn spec_parse_tuple_items(s: Seq<char>) -> ItemsStep
    decreases s.len(), 4int,
{
    match spec_take_char(s, ')') {
        Option::Some(r) => ItemsStep::Parsed(Seq::empty(), r),
        Option::None => match spec_take_char(s, ',') {
            Option::Some(r) => if r.len() < s.len() {
                spec_parse_tuple_items(r)
            } else {
                ItemsStep::NoParse(s)
            },
            Option::None => match spec_parse(s) {
                ParseStep::Parsed(ty, r) => if r.len() < s.len() {
                    match spec_parse_tuple_items(r) {
                        ItemsStep::Parsed(tys, rr) => ItemsStep::Parsed(
                            seq![ty].add(tys),
                            rr,
                        ),
                        ItemsStep::NoParse(e) => ItemsStep::NoParse(e),
                    }
                } else {
                    ItemsStep::NoParse(s)
                },
                ParseStep::NoParse(e) => ItemsStep::NoParse(s),
            },
        },
    }
}

pub open spec fn spec_parse_seq_array(s: Seq<char>) -> ParseStep
    decreases s.len(), 2int,
{
    match spec_take_char(s, '[') {
        Option::None => ParseStep::NoParse(spec_trim(s)),
        Option::Some(r1) => if r1.len() < s.len() {
            match spec_parse(r1) {
                ParseStep::NoParse(e) => ParseStep::NoParse(e),
                ParseStep::Parsed(ty, r2) => match spec_take_char(r2, ']') {
                    Option::Some(r3) => ParseStep::Parsed(
                        TypeRefrV::Sequence(Box::new(ty)),
                        r3,
                    ),
                    Option::None => match spec_take_char(r2, ';') {
                        Option::None => ParseStep::NoParse(r2),
                        Option::Some(r3) => match spec_take_num(r3) {
                            Option::None => ParseStep::NoParse(r3),
                            Option::Some((ct, r4)) => match spec_take_char(r4, ']') {
                                Option::None => ParseStep::NoParse(r4),
                                Option::Some(r5) => ParseStep::Parsed(
                                    TypeRefrV::Array(Box::new(ty), ct),
                                    r5,
                                ),
                            },
                        },
                    },
                },
            }
        } else {
            ParseStep::NoParse(spec_trim(s))
        },
    }
}

pub open spec fn spec_parse_option(s: Seq<char>) -> ParseStep
    decreases s.len(), 2int,
{
    match spec_take_str(s, "option"@) {
        Option::None => ParseStep::NoParse(spec_trim(s)),
        Option::Some(r1) => match spec_take_char(r1, '<') {
            Option::None => ParseStep::NoParse(spec_trim(r1)),
            Option::Some(r2) => if r2.len() < s.len() {
                match spec_parse(r2) {
                    ParseStep::NoParse(e) => ParseStep::NoParse(e),
                    ParseStep::Parsed(ty, r3) => match spec_take_char(r3, '>') {
                        Option::None => ParseStep::NoParse(spec_trim(r3)),
                        Option::Some(r4) => ParseStep::Parsed(
                            TypeRefrV::Optional(Box::new(ty)),
                            r4,
                        ),
                    },
                }
            } else {
                ParseStep::NoParse(spec_trim(s))
            },
        },
    }
}

pub open spec fn spec_parse_map(s: Seq<char>) -> ParseStep
    decreases s.len(), 2int,
{
    match spec_take_str(s, "map"@) {
        Option::None => ParseStep::NoParse(spec_trim(s)),
        Option::Some(r1) => match spec_take_char(r1, '<') {
            Option::None => ParseStep::NoParse(spec_trim(r1)),
            Option::Some(r2) => if r2.len() < s.len() {
                match spec_parse(r2) {
                    ParseStep::NoParse(e) => ParseStep::NoParse(e),
                    ParseStep::Parsed(kty, r3) => match spec_take_char(r3, ',') {
                        Option::None => ParseStep::NoParse(spec_trim(r3)),
                        Option::Some(r4) => if r4.len() < s.len() {
                            match spec_parse(r4) {
                                ParseStep::NoParse(e) => ParseStep::NoParse(e),
                                ParseStep::Parsed(vty, r5) => match spec_take_char(r5, '>') {
                                    Option::None => ParseStep::NoParse(spec_trim(r5)),
                                    Option::Some(r6) => ParseStep::Parsed(
                                        TypeRefrV::Mapping(Box::new(kty), Box::new(vty)),
                                        r6,
                                    ),
                                },
                            }
                        } else {
                            ParseStep::NoParse(spec_trim(s))
                        },
                    },
                }
            } else {
                ParseStep::NoParse(spec_trim(s))
            },
        },
    }
}

/// One expression parsed from the whole of `s`: trailing whitespace is
/// allowed, any other trailing input is an error.
pub open spec fn spec_parse_entirely(s: Seq<char>) -> Result<TypeRefrV, Seq<char>> {
    match spec_parse(s) {
        ParseStep::Parsed(t, rem) => if spec_trim(rem).len() == 0 {
            Ok(t)
        } else {
            Err(rem)
        },
        ParseStep::NoParse(e) => Err(e),
    }
}

/// How an executable parse result corresponds to a [`ParseStep`].
pub open spec fn parse_matches<'a>(
    r: Result<(UnresolvedTypeRefr, &'a str), Error>,
    ps: ParseStep,
) -> bool {
    match (r, ps) {
        (Ok((t, rem)), ParseStep::Parsed(tv, remv)) => t@ == tv && rem@ == remv,
        (Err(e), ParseStep::NoParse(remv)) => e@ == ErrorV::Invalid(remv),
        _ => false,
    }
}


/// Character-for-character equality of two string slices.
pub fn str_eq(a: &str, b: &str) -> (r: bool)
    ensures
        r == (a@ == b@),
{
    let n = a.unicode_len();
    let m = b.unicode_len();
    if n != m {
        return false;
    }
    let mut i: usize = 0;
    while i < n
        invariant
            0 <= i <= n,
            n == a@.len(),
            n == b@.len(),
            forall|j: int| 0 <= j < i ==> a@[j] == b@[j],
        decreases n - i,
    {
        if a.get_char(i) != b.get_char(i) {
            return false;
        }
        i = i + 1;
    }
    proof {
        assert(a@ =~= b@);
    }
    true
}

impl UnresolvedTypeRefr {
    /// Parse the whole of `s` as one type-reference expression.
    pub fn parse_entirely(s: &str) -> (r: Result<UnresolvedTypeRefr, Error>)
        ensures
            match (r, spec_parse_entirely(s@)) {
                (Ok(t), Ok(tv)) => t@ == tv,
                (Err(e), Err(remv)) => e@ == ErrorV::Invalid(remv),
                _ => false,
            },
    {
        let (me, rem) = match Self::parse(s) {
            Ok(x) => x,
            Err(e) => {
                return Err(e);
            },
        };
        let trimmed = trim_start_str(rem);
        if trimmed.unicode_len() == 0 {
            Ok(me)
        } else {
            Err(Error::Invalid(rem.to_owned()))
        }
    }

    /// Parse one expression from the front of `s`, returning the remainder.
    pub fn parse<'a>(s: &'a str) -> (r: Result<(UnresolvedTypeRefr, &'a str), Error>)
        ensures
            parse_matches(r, spec_parse(s@)),
            r matches Ok((_, rem)) ==> rem@.len() < s@.len(),
        decreases s@.len(), 3int,
    {
        proof {
            lemma_trim_len(s@);
        }
        let t = trim_start_str(s);
        let n = t.unicode_len();
        proof {
            lemma_ident_run_bounds(t@);
        }
        if n > 0 && t.get_char(0) == '(' {
            Self::parse_tuple(s)
        } else if n > 0 && t.get_char(0) == '[' {
            Self::parse_seq_array(s)
        } else {
            match take_valid_rust_tyname(s) {
                Err(rem) => Err(Error::Invalid(rem.to_owned())),
                Ok((tyn, rem)) => {
                    let is_option = str_eq(tyn, "option");
                    let is_map = str_eq(tyn, "map");
                    let peek = match take_char(rem, '<') {
                        Ok(_) => true,
                        Err(_) => false,
                    };
                    if is_option && peek {
                        Self::parse_option(s)
                    } else if is_map && peek {
                        Self::parse_map(s)
                    } else {
                        Ok((UnresolvedTypeRefr::Name { name: tyn.to_owned() }, rem))
                    }
                },
            }
        }
    }

    /// Parse a parenthesised tuple from the front of `s`.
    pub fn parse_tuple<'a>(s: &'a str) -> (r: Result<(UnresolvedTypeRefr, &'a str), Error>)
        ensures
            parse_matches(r, spec_parse_tuple(s@)),
            r matches Ok((_, rem)) ==> rem@.len() < s@.len(),
        decreases s@.len(), 2int,
    {
        proof {
            lemma_trim_len(s@);
        }
        let mut remain = match take_char(s, '(') {
            Ok(r) => r,
            Err(e) => {
                return Err(Error::Invalid(e.to_owned()));
            },
        };
        let ghost r1 = remain@;
        let mut items: Vec<UnresolvedTypeRefr> = Vec::new();
        proof {
            lemma_view_refrs(items@);
            match spec_parse_tuple_items(r1) {
                ItemsStep::Parsed(tys, rr) => {
                    assert(view_refrs(items@).add(tys) =~= tys);
                },
                ItemsStep::NoParse(e) => {},
            }
        }
        loop
            invariant
                r1.len() < s@.len(),
                remain@.len() <= r1.len(),
                spec_parse_tuple(s@) == (match spec_parse_tuple_items(r1) {
                    ItemsStep::Parsed(tys, r2) => ParseStep::Parsed(TypeRefrV::Tuple(tys), r2),
                    ItemsStep::NoParse(e) => ParseStep::NoParse(e),
                }),
                match spec_parse_tuple_items(remain@) {
                    ItemsStep::Parsed(tys, rr) => spec_parse_tuple_items(r1)
                        == ItemsStep::Parsed(view_refrs(items@).add(tys), rr),
                    ItemsStep::NoParse(e) => spec_parse_tuple_items(r1) == ItemsStep::NoParse(
                        e,
                    ),
                },
            decreases remain@.len(),
        {
            proof {
                lemma_trim_len(remain@);
                lemma_view_refrs(items@);
            }
            match take_char(remain, ')') {
                Ok(rem2) => {
                    proof {
                        assert(view_refrs(items@).add(Seq::empty()) =~= view_refrs(items@));
                    }
                    return Ok((UnresolvedTypeRefr::Tuple { tys: items }, rem2));
                },
                Err(_) => {
                },
            }
            match take_char(remain, ',') {
                Ok(rem2) => {
                    remain = rem2;
                    continue;
                },
                Err(_) => {
                },
            }
            match Self::parse(remain) {
                Ok((ty, rem2)) => {
                    proof {
                        let tyv = view_refr(ty);
                        match spec_parse_tuple_items(rem2@) {
                            ItemsStep::Parsed(tys, rr) => {
                                assert(view_refrs(items@).add(seq![tyv].add(tys))
                                    =~= view_refrs(items@).push(tyv).add(tys));
                                assert(items@.push(ty).drop_last() =~= items@);
                                assert(items@.push(ty).last() == ty);
                                assert(view_refrs(items@.push(ty)) == view_refrs(
                                    items@,
                                ).push(tyv));
                            },
                            ItemsStep::NoParse(e) => {
                            },
                        }
                    }
                    items.push(ty);
                    remain = rem2;
                },
                Err(_) => {
                    return Err(Error::Invalid(remain.to_owned()));
                },
            }
        }
    }

    /// Parse a bracketed sequence (`[t]`) or fixed-size array (`[t; n]`).
    pub fn parse_seq_array<'a>(s: &'a str) -> (r: Result<(UnresolvedTypeRefr, &'a str), Error>)
        ensures
            parse_matches(r, spec_parse_seq_array(s@)),
            r matches Ok((_, rem)) ==> rem@.len() < s@.len(),
        decreases s@.len(), 2int,
    {
        proof {
            lemma_trim_len(s@);
        }
        let remain = match take_char(s, '[') {
            Ok(r) => r,
            Err(e) => {
                return Err(Error::Invalid(e.to_owned()));
            },
        };
        let (ty, remain) = match Self::parse(remain) {
            Ok(x) => x,
            Err(e) => {
                return Err(e);
            },
        };
        proof {
            lemma_trim_len(remain@);
        }
        match take_char(remain, ']') {
            Ok(rem2) => {
                return Ok((UnresolvedTypeRefr::Sequence { ty: Box::new(ty) }, rem2));
            },
            Err(_) => {
            },
        }
        let rem3 = match take_char(remain, ';') {
            Ok(r) => r,
            Err(_) => {
                return Err(Error::Invalid(remain.to_owned()));
            },
        };
        proof {
            lemma_trim_len(rem3@);
        }
        let (ct, rem4) = match take_num(rem3) {
            Ok(x) => x,
            Err(_) => {
                return Err(Error::Invalid(rem3.to_owned()));
            },
        };
        proof {
            lemma_trim_len(rem3@);
            lemma_num_run_bounds(spec_trim(rem3@));
            lemma_trim_len(rem4@);
        }
        match take_char(rem4, ']') {
            Ok(rem5) => Ok((UnresolvedTypeRefr::Array { ty: Box::new(ty), ct }, rem5)),
            Err(_) => Err(Error::Invalid(rem4.to_owned())),
        }
    }

    /// Parse an `option<..>` reference from the front of `s`.
    pub fn parse_option<'a>(s: &'a str) -> (r: Result<(UnresolvedTypeRefr, &'a str), Error>)
        ensures
            parse_matches(r, spec_parse_option(s@)),
            r matches Ok((_, rem)) ==> rem@.len() < s@.len(),
        decreases s@.len(), 2int,
    {
        proof {
            lemma_trim_len(s@);
        }
        let remain = match take_str(s, "option") {
            Ok(r) => r,
            Err(e) => {
                return Err(Error::Invalid(e.to_owned()));
            },
        };
        proof {
            lemma_trim_len(remain@);
        }
        let remain = match take_char(remain, '<') {
            Ok(r) => r,
            Err(e) => {
                return Err(Error::Invalid(e.to_owned()));
            },
        };
        let (ty, remain) = match Self::parse(remain) {
            Ok(x) => x,
            Err(e) => {
                return Err(e);
            },
        };
        proof {
            lemma_trim_len(remain@);
        }
        match take_char(remain, '>') {
            Ok(rem2) => Ok((UnresolvedTypeRefr::Optional { ty: Box::new(ty) }, rem2)),
            Err(e) => Err(Error::Invalid(e.to_owned())),
        }
    }

    /// Parse a `map<.., ..>` reference from the front of `s`.
    pub fn parse_map<'a>(s: &'a str) -> (r: Result<(UnresolvedTypeRefr, &'a str), Error>)
        ensures
            parse_matches(r, spec_parse_map(s@)),
            r matches Ok((_, rem)) ==> rem@.len() < s@.len(),
        decreases s@.len(), 2int,
    {
        proof {
            lemma_trim_len(s@);
        }
        let remain = match take_str(s, "map") {
            Ok(r) => r,
            Err(e) => {
                return Err(Error::Invalid(e.to_owned()));
            },
        };
        proof {
            lemma_trim_len(remain@);
        }
        let remain = match take_char(remain, '<') {
            Ok(r) => r,
            Err(e) => {
                return Err(Error::Invalid(e.to_owned()));
            },
        };
        let (kty, remain) = match Self::parse(remain) {
            Ok(x) => x,
            Err(e) => {
                return Err(e);
            },
        };
        proof {
            lemma_trim_len(remain@);
        }
        let remain2 = match take_char(remain, ',') {
            Ok(r) => r,
            Err(e) => {
                return Err(Error::Invalid(e.to_owned()));
            },
        };
        let (vty, remain3) = match Self::parse(remain2) {
            Ok(x) => x,
            Err(e) => {
                return Err(e);
            },
        };
        proof {
            lemma_trim_len(remain3@);
        }
        match take_char(remain3, '>') {
            Ok(rem2) => Ok((
                UnresolvedTypeRefr::Mapping { kty: Box::new(kty), vty: Box::new(vty) },
                rem2,
            )),
            Err(e) => Err(Error::Invalid(e.to_owned())),
        }
    }
}

} // verus!



