//! Engine-level laws: properties of resolution proved once and for all.

use vstd::prelude::*;

use crate::ErrorV;
use crate::ir::NamedTypeV;
use crate::ir::kinds_all_same;
use crate::resolve::DefnV;
use crate::resolve::FixOutcome;
use crate::resolve::PassOutcome;
use crate::resolve::ResolveOutcome;
use crate::parse::TypeRefrV;
use crate::resolve::defn_name;
use crate::resolve::find_known;
use crate::resolve::is_builtin_name;
use crate::resolve::prim_lookup;
use crate::resolve::spec_fix;
use crate::resolve::spec_pass;
use crate::resolve::spec_resolve_defn;
use crate::resolve::spec_resolve_refr;
use crate::resolve::spec_resolve_refr_list;
use crate::resolve::ListOutcome;
use crate::resolve::dec_digits;
use crate::resolve::digit_char;
use crate::parse::all_digits;
use crate::parse::dec_val;
use crate::parse::digit_val;
use crate::parse::ident_run_len;
use crate::parse::is_digit_char;
use crate::parse::is_ident_char;
use crate::parse::is_ws_char;
use crate::parse::num_run_len;
use crate::parse::spec_take_char;
use crate::parse::spec_take_str;
use crate::parse::spec_trim;
use crate::parse::spec_valid_tyname;
use crate::parse::spec_parse;
use crate::parse::spec_parse_entirely;
use crate::parse::spec_parse_tuple_items;
use crate::parse::ParseStep;
use crate::parse::ItemsStep;

verus! {

/// An alias to a primitive keyword resolves to a primitive entry carrying
/// the alias's own canonical name and the keyword's structural kind, against
/// any registry in which the alias's name is still legal.
pub proof fn lemma_alias_to_primitive(name: Seq<char>, kw: Seq<char>, known: Seq<NamedTypeV>)
    requires
        prim_lookup(kw) is Some,
        !is_builtin_name(name),
        find_known(known, name) is None,
    ensures
        spec_resolve_defn(DefnV::Alias(name, TypeRefrV::Name(kw)), known)
            == ResolveOutcome::Resolved(
            NamedTypeV { name: name, ty: prim_lookup(kw).unwrap().ty },
        ),
{
    assert(spec_resolve_refr(TypeRefrV::Name(kw), known) == ResolveOutcome::Resolved(
        prim_lookup(kw).unwrap(),
    ));
}

/// A definition whose declared name is a reserved keyword fails with an
/// illegal-name error against every registry: the check is static and is
/// never deferred, so it fails at whatever position the definition stands.
pub proof fn lemma_keyword_name_illegal(d: DefnV, known: Seq<NamedTypeV>)
    requires
        is_builtin_name(defn_name(d)),
    ensures
        spec_resolve_defn(d, known) == ResolveOutcome::Failed(ErrorV::BadName(defn_name(d))),
{
}

/// A definition with a reserved keyword for a name poisons the whole set,
/// at whatever position it stands: it can never resolve and never defers,
/// so no pass completes and the fixpoint fails — with that definition's
/// illegal-name error, or with one an earlier definition raised first.
pub proof fn lemma_keyword_anywhere_fails(known: Seq<NamedTypeV>, pending: Seq<DefnV>, i: int)
    requires
        0 <= i < pending.len(),
        is_builtin_name(defn_name(pending[i])),
    ensures
        spec_pass(known, pending) matches PassOutcome::Failed(e, k, p),
        spec_fix(known, pending) matches FixOutcome::Failed(e, k, p),
    decreases pending.len(),
{
    if i == 0 {
        lemma_keyword_name_illegal(pending[0], known);
    } else {
        assert(pending.drop_first()[i - 1] == pending[i]);
        match spec_resolve_defn(pending[0], known) {
            ResolveOutcome::Failed(e) => {},
            ResolveOutcome::Resolved(t) => {
                lemma_keyword_anywhere_fails(known.push(t), pending.drop_first(), i - 1);
            },
            ResolveOutcome::Defer => {
                lemma_keyword_anywhere_fails(known, pending.drop_first(), i - 1);
            },
        }
    }
}

/// Forward references resolve regardless of declaration order: if one
/// definition resolves on its own and a second resolves once the first is
/// registered, both input orders produce the identical registry, with the
/// independent entry first.
pub proof fn lemma_forward_reference_order(d1: DefnV, d2: DefnV, r1: NamedTypeV, r2: NamedTypeV)
    requires
        spec_resolve_defn(d1, Seq::empty()) == ResolveOutcome::Resolved(r1),
        spec_resolve_defn(d2, Seq::empty()) == ResolveOutcome::Defer,
        spec_resolve_defn(d2, seq![r1]) == ResolveOutcome::Resolved(r2),
    ensures
        spec_fix(Seq::empty(), seq![d1, d2]) == FixOutcome::Done(seq![r1, r2]),
        spec_fix(Seq::empty(), seq![d2, d1]) == FixOutcome::Done(seq![r1, r2]),
{
    reveal_with_fuel(spec_pass, 4);
    reveal_with_fuel(spec_fix, 3);
    let e = Seq::<NamedTypeV>::empty();
    let p12 = seq![d1, d2];
    let p21 = seq![d2, d1];

    assert(p12.drop_first() =~= seq![d2]);
    assert(p21.drop_first() =~= seq![d1]);
    assert(seq![d2].drop_first() =~= Seq::<DefnV>::empty());
    assert(seq![d1].drop_first() =~= Seq::<DefnV>::empty());
    assert(e.push(r1) =~= seq![r1]);
    assert(seq![r1].push(r2) =~= seq![r1, r2]);

    // First order: the first pass resolves d1 and then d2 against [r1].
    assert(spec_pass(e, p12) == spec_pass(seq![r1], seq![d2]));
    assert(spec_pass(seq![r1], seq![d2]) == spec_pass(seq![r1, r2], Seq::empty()));
    assert(spec_pass(e, p12) == PassOutcome::Done(seq![r1, r2], Seq::empty()));
    assert(spec_fix(e, p12) == spec_fix(seq![r1, r2], Seq::empty()));

    // Second order: d2 defers in the first pass, d1 resolves, and a second
    // pass resolves d2 against [r1].
    assert(spec_pass(e, seq![d1]) == PassOutcome::Done(seq![r1], Seq::empty()));
    assert(seq![d2].add(Seq::empty()) =~= seq![d2]);
    assert(spec_pass(e, p21) == PassOutcome::Done(seq![r1], seq![d2]));
    assert(spec_fix(e, p21) == spec_fix(seq![r1], seq![d2]));
    assert(spec_pass(seq![r1], seq![d2]) == PassOutcome::Done(seq![r1, r2], Seq::empty()));
    assert(spec_fix(seq![r1], seq![d2]) == spec_fix(seq![r1, r2], Seq::empty()));
}

/// Two definitions that each defer against the empty registry can never
/// make progress: the whole set fails as unresolvable with both still
/// pending.  A mutually referencing struct/enum pair is the standing
/// example; the engine does not tell a true cycle apart from a reference to
/// an undeclared name.
pub proof fn lemma_mutual_cycle(d1: DefnV, d2: DefnV)
    requires
        spec_resolve_defn(d1, Seq::empty()) == ResolveOutcome::Defer,
        spec_resolve_defn(d2, Seq::empty()) == ResolveOutcome::Defer,
    ensures
        spec_fix(Seq::empty(), seq![d1, d2]) == FixOutcome::Stuck(Seq::empty(), seq![d1, d2]),
{
    reveal_with_fuel(spec_pass, 4);
    reveal_with_fuel(spec_fix, 3);
    let e = Seq::<NamedTypeV>::empty();
    let p = seq![d1, d2];
    assert(p.drop_first() =~= seq![d2]);
    assert(seq![d2].drop_first() =~= Seq::<DefnV>::empty());
    assert(spec_pass(e, seq![d2]) == PassOutcome::Done(e, seq![d2].add(Seq::empty())));
    assert(seq![d2].add(Seq::empty()) =~= seq![d2]);
    assert(spec_pass(e, p) == PassOutcome::Done(e, seq![d1].add(seq![d2])));
    assert(seq![d1].add(seq![d2]) =~= p);
}

/// Declaring two types with the same name fails the later of the two with
/// an illegal-name error, in either input order.  The hypotheses ask that
/// each definition registers under its declared name when it resolves;
/// newtype and tuple structs are exempt here, as their registry names embed
/// their payload's name and so never equal another declared identifier —
/// collisions on those mangled names are caught by the registration guard
/// instead.
pub proof fn lemma_duplicate_name(d1: DefnV, d2: DefnV, r1: NamedTypeV)
    requires
        defn_name(d2) == defn_name(d1),
        spec_resolve_defn(d1, Seq::empty()) == ResolveOutcome::Resolved(r1),
        r1.name == defn_name(d1),
        spec_resolve_defn(d2, Seq::empty()) matches ResolveOutcome::Resolved(r2) ==> r2.name
            == defn_name(d2),
        !(spec_resolve_defn(d2, Seq::empty()) matches ResolveOutcome::Failed(_)),
    ensures
        spec_fix(Seq::empty(), seq![d1, d2]) matches FixOutcome::Failed(e, k, p) && e
            == ErrorV::BadName(defn_name(d2)),
        spec_fix(Seq::empty(), seq![d2, d1]) matches FixOutcome::Failed(e, k, p) && e
            == ErrorV::BadName(defn_name(d1)),
{
    reveal_with_fuel(spec_pass, 4);
    reveal_with_fuel(spec_fix, 3);
    let e = Seq::<NamedTypeV>::empty();
    let n = defn_name(d1);
    let p12 = seq![d1, d2];
    let p21 = seq![d2, d1];
    assert(p12.drop_first() =~= seq![d2]);
    assert(p21.drop_first() =~= seq![d1]);
    assert(seq![d1].drop_first() =~= Seq::<DefnV>::empty());
    assert(seq![d2].drop_first() =~= Seq::<DefnV>::empty());
    assert(e.push(r1) =~= seq![r1]);

    // First order: d1 registers its name, then d2's legality check sees it.
    assert(find_known(seq![r1], n) is Some);
    assert(spec_resolve_defn(d2, seq![r1]) == ResolveOutcome::Failed(ErrorV::BadName(n)));
    assert(spec_pass(e, p12) == spec_pass(seq![r1], seq![d2]));

    // Second order: either d2 resolves first and d1's check fails at once,
    // or d2 defers, d1 registers the name, and the next pass fails d2; the
    // error is the same illegal name either way.
    match spec_resolve_defn(d2, e) {
        ResolveOutcome::Resolved(r2) => {
            assert(e.push(r2) =~= seq![r2]);
            assert(find_known(seq![r2], n) is Some);
            assert(spec_resolve_defn(d1, seq![r2]) == ResolveOutcome::Failed(
                ErrorV::BadName(n),
            ));
            assert(spec_pass(e, p21) == spec_pass(seq![r2], seq![d1]));
        },
        ResolveOutcome::Defer => {
            assert(spec_pass(e, seq![d1]) == PassOutcome::Done(seq![r1], Seq::empty()));
            assert(seq![d2].add(Seq::empty()) =~= seq![d2]);
            assert(spec_pass(e, p21) == PassOutcome::Done(seq![r1], seq![d2]));
            assert(spec_fix(e, p21) == spec_fix(seq![r1], seq![d2]));
            assert(spec_resolve_defn(d2, seq![r1]) == ResolveOutcome::Failed(
                ErrorV::BadName(n),
            ));
        },
        ResolveOutcome::Failed(_) => {},
    }
}


/// All canonical names in a registry are distinct.
pub open spec fn distinct_names(known: Seq<NamedTypeV>) -> bool {
    forall|i: int, j: int|
        0 <= i < j < known.len() ==> (#[trigger] known[i]).name != (#[trigger] known[j]).name
}

/// A registry entry found by name carries that name.
proof fn lemma_find_known_name(known: Seq<NamedTypeV>, n: Seq<char>)
    ensures
        find_known(known, n) matches Some(e) ==> e.name == n,
        find_known(known, n) is None ==> forall|i: int|
            0 <= i < known.len() ==> (#[trigger] known[i]).name != n,
    decreases known.len(),
{
    if known.len() > 0 {
        lemma_find_known_name(known.drop_first(), n);
        if find_known(known, n) is None {
            assert forall|i: int| 0 <= i < known.len() implies (#[trigger] known[i]).name
                != n by {
                if i > 0 {
                    assert(known.drop_first()[i - 1] == known[i]);
                }
            }
        }
    }
}

/// Whatever a definition resolves to is registered under a name that no
/// registry entry carries yet: the legality check guards the declared name,
/// and a newtype-or-tuple struct additionally guards its mangled name.
proof fn lemma_resolved_fresh(d: DefnV, known: Seq<NamedTypeV>, r: NamedTypeV)
    requires
        spec_resolve_defn(d, known) == ResolveOutcome::Resolved(r),
    ensures
        forall|i: int| 0 <= i < known.len() ==> (#[trigger] known[i]).name != r.name,
{
    lemma_find_known_name(known, defn_name(d));
    lemma_find_known_name(known, r.name);
}

/// One pass keeps registry names distinct.
proof fn lemma_pass_distinct(known: Seq<NamedTypeV>, pending: Seq<DefnV>)
    requires
        distinct_names(known),
    ensures
        spec_pass(known, pending) matches PassOutcome::Done(k2, p2) ==> distinct_names(k2),
    decreases pending.len(),
{
    if pending.len() > 0 {
        match spec_resolve_defn(pending[0], known) {
            ResolveOutcome::Failed(e) => {},
            ResolveOutcome::Resolved(t) => {
                lemma_resolved_fresh(pending[0], known, t);
                assert forall|i: int, j: int|
                    0 <= i < j < known.push(t).len() implies (#[trigger] known.push(
                    t,
                )[i]).name != (#[trigger] known.push(t)[j]).name by {
                    if j < known.len() {
                        assert(known.push(t)[i] == known[i]);
                        assert(known.push(t)[j] == known[j]);
                    } else {
                        assert(known.push(t)[i] == known[i]);
                        assert(known.push(t)[j] == t);
                    }
                }
                lemma_pass_distinct(known.push(t), pending.drop_first());
            },
            ResolveOutcome::Defer => {
                lemma_pass_distinct(known, pending.drop_first());
            },
        }
    }
}

/// The registry invariant: every entry registers under a name checked
/// against the registry as of its own resolution — the declared name, or
/// for a newtype-or-tuple struct the mangled canonical name — so a resolved
/// set's canonical names are pairwise distinct, whatever the definitions.
pub proof fn lemma_registry_names_distinct(
    known: Seq<NamedTypeV>,
    pending: Seq<DefnV>,
    result: Seq<NamedTypeV>,
)
    requires
        distinct_names(known),
        spec_fix(known, pending) == FixOutcome::Done(result),
    ensures
        distinct_names(result),
    decreases pending.len(),
{
    if pending.len() == 0 {
    } else {
        lemma_pass_distinct(known, pending);
        match spec_pass(known, pending) {
            PassOutcome::Failed(e, k, p) => {},
            PassOutcome::Done(k2, p2) => {
                if p2.len() < pending.len() {
                    lemma_registry_names_distinct(k2, p2, result);
                }
            },
        }
    }
}


/// The canonical decimal spelling of a count reads back as the same value:
/// what the backend writes into a fixed-size-array reference is exactly
/// what the expression parser would take it for.
pub proof fn lemma_decimal_round_trip(n: nat)
    ensures
        dec_digits(n).len() > 0,
        all_digits(dec_digits(n)),
        dec_val(dec_digits(n)) == n,
    decreases n,
{
    if n < 10 {
        let s = seq![digit_char(n)];
        assert(dec_digits(n) =~= s);
        assert(s.drop_last() =~= Seq::<char>::empty());
        assert(dec_val(s) == dec_val(Seq::<char>::empty()) * 10 + digit_val(s.last()));
        assert(digit_val(digit_char(n)) == n);
    } else {
        lemma_decimal_round_trip(n / 10);
        let pre = dec_digits(n / 10);
        let whole = pre.push(digit_char(n % 10));
        assert(whole.drop_last() =~= pre);
        assert(dec_val(whole) == dec_val(pre) * 10 + digit_val(whole.last()));
        assert(digit_val(digit_char(n % 10)) == n % 10);
        assert forall|i: int| 0 <= i < whole.len() implies crate::parse::is_digit_char(
            #[trigger] whole[i],
        ) by {
            if i < pre.len() {
                assert(whole[i] == pre[i]);
            } else {
                assert(whole[i] == digit_char(n % 10));
            }
        }
    }
}


/// Whether `s` begins with one of the delimiters that may follow a complete
/// rendered expression, or is exhausted.
pub open spec fn delim_start(s: Seq<char>) -> bool {
    s.len() == 0 || s[0] == ')' || s[0] == ',' || s[0] == ']' || s[0] == '>' || s[0] == ';'
}

proof fn lemma_trim_noop(s: Seq<char>)
    requires
        s.len() == 0 || !is_ws_char(s[0]),
    ensures
        spec_trim(s) == s,
{
}

proof fn lemma_ident_concat(n: Seq<char>, rest: Seq<char>)
    requires
        forall|i: int| 0 <= i < n.len() ==> is_ident_char(#[trigger] n[i]),
        rest.len() == 0 || !is_ident_char(rest[0]),
    ensures
        ident_run_len(n + rest) == n.len(),
    decreases n.len(),
{
    if n.len() == 0 {
        assert(n + rest =~= rest);
    } else {
        assert((n + rest)[0] == n[0]);
        assert((n + rest).drop_first() =~= n.drop_first() + rest);
        lemma_ident_concat(n.drop_first(), rest);
    }
}

proof fn lemma_num_concat(d: Seq<char>, rest: Seq<char>)
    requires
        all_digits(d),
        rest.len() == 0 || (!is_digit_char(rest[0]) && rest[0] != '_'),
    ensures
        num_run_len(d + rest) == d.len(),
    decreases d.len(),
{
    if d.len() == 0 {
        assert(d + rest =~= rest);
    } else {
        assert((d + rest)[0] == d[0]);
        assert((d + rest).drop_first() =~= d.drop_first() + rest);
        assert(all_digits(d.drop_first())) by {
            assert forall|i: int| 0 <= i < d.drop_first().len() implies is_digit_char(
                #[trigger] d.drop_first()[i],
            ) by {
                assert(d.drop_first()[i] == d[i + 1]);
            }
        }
        lemma_num_concat(d.drop_first(), rest);
    }
}

proof fn lemma_take_str_concat(tok: Seq<char>, rest: Seq<char>)
    requires
        tok.len() > 0,
        !is_ws_char(tok[0]),
    ensures
        spec_take_str(tok + rest, tok) == Some(rest),
{
    let s = tok + rest;
    assert(s[0] == tok[0]);
    lemma_trim_noop(s);
    assert(s.subrange(0, tok.len() as int) =~= tok);
    assert(s.skip(tok.len() as int) =~= rest);
}

proof fn lemma_take_char_concat(c: char, rest: Seq<char>)
    requires
        !is_ws_char(c),
    ensures
        spec_take_char(seq![c] + rest, c) == Some(rest),
{
    let s = seq![c] + rest;
    assert(s[0] == c);
    lemma_trim_noop(s);
    assert(s.drop_first() =~= rest);
}


/// A reference tree the grammar itself could have produced: every name is a
/// plain identifier and every array count fits the machine.
pub open spec fn grammar_wf(t: TypeRefrV) -> bool
    decreases t, 1int,
{
    match t {
        TypeRefrV::Name(n) => spec_valid_tyname(n),
        TypeRefrV::Optional(ty) => grammar_wf(*ty),
        TypeRefrV::Sequence(ty) => grammar_wf(*ty),
        TypeRefrV::Array(ty, ct) => grammar_wf(*ty) && ct <= usize::MAX,
        TypeRefrV::Mapping(kty, vty) => grammar_wf(*kty) && grammar_wf(*vty),
        TypeRefrV::Tuple(tys) => grammar_wf_list(tys),
    }
}

pub open spec fn grammar_wf_list(ts: Seq<TypeRefrV>) -> bool
    decreases ts, 0int,
{
    ts.len() == 0 || (grammar_wf(ts[0]) && grammar_wf_list(ts.drop_first()))
}

/// The canonical spelling of a reference tree in the expression grammar.
pub open spec fn render_refr(t: TypeRefrV) -> Seq<char>
    decreases t, 1int,
{
    match t {
        TypeRefrV::Name(n) => n,
        TypeRefrV::Optional(ty) => "option<"@ + render_refr(*ty) + ">"@,
        TypeRefrV::Sequence(ty) => "["@ + render_refr(*ty) + "]"@,
        TypeRefrV::Array(ty, ct) => "["@ + render_refr(*ty) + "; "@ + dec_digits(ct) + "]"@,
        TypeRefrV::Mapping(kty, vty) => "map<"@ + render_refr(*kty) + ","@ + render_refr(*vty)
            + ">"@,
        TypeRefrV::Tuple(tys) => "("@ + render_items(tys) + ")"@,
    }
}

/// The comma-separated canonical spellings of a tuple's elements.
pub open spec fn render_items(ts: Seq<TypeRefrV>) -> Seq<char>
    decreases ts, 0int,
{
    if ts.len() == 0 {
        Seq::empty()
    } else {
        render_refr(ts[0]) + render_items_tail(ts.drop_first())
    }
}

pub open spec fn render_items_tail(ts: Seq<TypeRefrV>) -> Seq<char>
    decreases ts, 1int,
{
    if ts.len() == 0 {
        Seq::empty()
    } else {
        ","@ + render_refr(ts[0]) + render_items_tail(ts.drop_first())
    }
}

/// A rendered expression starts with an identifier character, a
/// parenthesis or a bracket: never whitespace, a delimiter or an angle
/// bracket.
proof fn lemma_render_head(t: TypeRefrV)
    requires
        grammar_wf(t),
    ensures
        render_refr(t).len() > 0,
        is_ident_char(render_refr(t)[0]) || render_refr(t)[0] == '(' || render_refr(t)[0]
            == '[',
{
    match t {
        TypeRefrV::Name(n) => {},
        TypeRefrV::Optional(ty) => {
            reveal_strlit("option<");
            assert(render_refr(t)[0] == 'o');
        },
        TypeRefrV::Sequence(ty) => {
            reveal_strlit("[");
            assert(render_refr(t)[0] == '[');
        },
        TypeRefrV::Array(ty, ct) => {
            reveal_strlit("[");
            assert(render_refr(t)[0] == '[');
        },
        TypeRefrV::Mapping(kty, vty) => {
            reveal_strlit("map<");
            assert(render_refr(t)[0] == 'm');
        },
        TypeRefrV::Tuple(tys) => {
            reveal_strlit("(");
            assert(render_refr(t)[0] == '(');
        },
    }
}


proof fn lemma_parse_render_name(t: TypeRefrV, rest: Seq<char>)
    requires
        t matches TypeRefrV::Name(n) && spec_valid_tyname(n),
        delim_start(rest),
    ensures
        spec_parse(render_refr(t) + rest) == ParseStep::Parsed(t, rest),
{
    let n = t->Name_0;
    let s = n + rest;
    assert(s[0] == n[0]);
    lemma_trim_noop(s);
    lemma_ident_concat(n, rest);
    assert(s.subrange(0, n.len() as int) =~= n);
    assert(s.skip(n.len() as int) =~= rest);
    if rest.len() > 0 {
        lemma_trim_noop(rest);
    }
}

proof fn lemma_parse_render_optional(t: TypeRefrV, rest: Seq<char>)
    requires
        t matches TypeRefrV::Optional(ty) && grammar_wf(*ty) && spec_parse(
            render_refr(*ty) + (">"@ + rest),
        ) == ParseStep::Parsed(*ty, ">"@ + rest),
        delim_start(rest),
    ensures
        spec_parse(render_refr(t) + rest) == ParseStep::Parsed(t, rest),
{
    reveal_strlit("option<");
    reveal_strlit("option");
    reveal_strlit("<");
    reveal_strlit(">");
    let ty = t->Optional_0;
    let s = render_refr(t) + rest;
    let r = render_refr(*ty);
    let rest_gt = ">"@ + rest;
    let rest_inner = r + rest_gt;
    assert(s =~= "option"@ + ("<"@ + rest_inner));
    assert(s[0] == "option"@[0]);
    lemma_trim_noop(s);
    assert(spec_valid_tyname("option"@));
    lemma_ident_concat("option"@, "<"@ + rest_inner);
    assert(s.subrange(0, 6) =~= "option"@);
    assert(s.skip(6) =~= seq!['<'] + rest_inner);
    lemma_take_char_concat('<', rest_inner);
    lemma_take_str_concat("option"@, "<"@ + rest_inner);
    assert("<"@ + rest_inner =~= seq!['<'] + rest_inner);
    assert(rest_gt =~= seq!['>'] + rest);
    lemma_take_char_concat('>', rest);
    assert(rest_inner.len() < s.len());
}

proof fn lemma_parse_render_sequence(t: TypeRefrV, rest: Seq<char>)
    requires
        t matches TypeRefrV::Sequence(ty) && grammar_wf(*ty) && spec_parse(
            render_refr(*ty) + ("]"@ + rest),
        ) == ParseStep::Parsed(*ty, "]"@ + rest),
        delim_start(rest),
    ensures
        spec_parse(render_refr(t) + rest) == ParseStep::Parsed(t, rest),
{
    reveal_strlit("[");
    reveal_strlit("]");
    let ty = t->Sequence_0;
    let s = render_refr(t) + rest;
    let r = render_refr(*ty);
    let rest_sq = "]"@ + rest;
    let inner = r + rest_sq;
    assert(s =~= seq!['['] + inner);
    assert(s[0] == '[');
    lemma_trim_noop(s);
    lemma_take_char_concat('[', inner);
    assert(rest_sq =~= seq![']'] + rest);
    lemma_take_char_concat(']', rest);
    assert(inner.len() < s.len());
}

proof fn lemma_parse_render_array(t: TypeRefrV, rest: Seq<char>)
    requires
        t matches TypeRefrV::Array(ty, ct) && grammar_wf(*ty) && ct <= usize::MAX
            && spec_parse(render_refr(*ty) + ("; "@ + dec_digits(ct) + "]"@ + rest))
            == ParseStep::Parsed(*ty, "; "@ + dec_digits(ct) + "]"@ + rest),
        delim_start(rest),
    ensures
        spec_parse(render_refr(t) + rest) == ParseStep::Parsed(t, rest),
{
    reveal_strlit("[");
    reveal_strlit("]");
    reveal_strlit("; ");
    let ty = t->Array_0;
    let ct = t->Array_1;
    let s = render_refr(t) + rest;
    let r = render_refr(*ty);
    let d = dec_digits(ct);
    let rest_sq = "]"@ + rest;
    let rest_num = seq![' '] + (d + rest_sq);
    let rest_ct = "; "@ + d + rest_sq;
    assert(rest_ct =~= "; "@ + dec_digits(ct) + "]"@ + rest);
    let inner = r + rest_ct;
    assert(inner =~= render_refr(*ty) + ("; "@ + dec_digits(ct) + "]"@ + rest));
    assert(s =~= seq!['['] + inner);
    assert(s[0] == '[');
    lemma_trim_noop(s);
    lemma_take_char_concat('[', inner);
    assert(rest_ct[0] == ';');
    lemma_trim_noop(rest_ct);
    assert(rest_ct =~= seq![';'] + rest_num);
    lemma_take_char_concat(';', rest_num);
    lemma_decimal_round_trip(ct);
    assert(rest_num.drop_first() =~= d + rest_sq);
    assert((d + rest_sq)[0] == d[0]);
    lemma_trim_noop(d + rest_sq);
    assert(spec_trim(rest_num) == d + rest_sq) by {
        assert(rest_num[0] == ' ');
        assert(is_ws_char(rest_num[0]));
    }
    assert(rest_sq[0] == ']');
    lemma_num_concat(d, rest_sq);
    assert((d + rest_sq).subrange(0, d.len() as int) =~= d);
    assert((d + rest_sq).skip(d.len() as int) =~= rest_sq);
    assert(rest_sq =~= seq![']'] + rest);
    lemma_take_char_concat(']', rest);
    assert(inner.len() < s.len());
}

proof fn lemma_parse_render_mapping(t: TypeRefrV, rest: Seq<char>)
    requires
        t matches TypeRefrV::Mapping(kty, vty) && grammar_wf(*kty) && grammar_wf(*vty)
            && spec_parse(render_refr(*kty) + (","@ + render_refr(*vty) + ">"@ + rest))
            == ParseStep::Parsed(*kty, ","@ + render_refr(*vty) + ">"@ + rest) && spec_parse(
            render_refr(*vty) + (">"@ + rest),
        ) == ParseStep::Parsed(*vty, ">"@ + rest),
        delim_start(rest),
    ensures
        spec_parse(render_refr(t) + rest) == ParseStep::Parsed(t, rest),
{
    reveal_strlit("map<");
    reveal_strlit("map");
    reveal_strlit("option");
    reveal_strlit("<");
    reveal_strlit(",");
    reveal_strlit(">");
    let kty = t->Mapping_0;
    let vty = t->Mapping_1;
    let s = render_refr(t) + rest;
    let rk = render_refr(*kty);
    let rv = render_refr(*vty);
    let rest_gt = ">"@ + rest;
    let rest_v = rv + rest_gt;
    let rest_comma = ","@ + rv + ">"@ + rest;
    let rest_k = rk + rest_comma;
    assert(s =~= "map"@ + ("<"@ + rest_k));
    assert(s[0] == "map"@[0]);
    lemma_trim_noop(s);
    assert(spec_valid_tyname("map"@));
    lemma_ident_concat("map"@, "<"@ + rest_k);
    assert(s.subrange(0, 3) =~= "map"@);
    assert(s.skip(3) =~= seq!['<'] + rest_k);
    lemma_take_char_concat('<', rest_k);
    lemma_take_str_concat("map"@, "<"@ + rest_k);
    assert("<"@ + rest_k =~= seq!['<'] + rest_k);
    assert(rest_comma =~= seq![','] + rest_v);
    lemma_take_char_concat(',', rest_v);
    assert(rest_gt =~= seq!['>'] + rest);
    lemma_take_char_concat('>', rest);
    assert(rest_k.len() < s.len());
    assert(rest_v.len() < s.len());
}

proof fn lemma_parse_render_tuple(t: TypeRefrV, rest: Seq<char>)
    requires
        t matches TypeRefrV::Tuple(tys) && spec_parse_tuple_items(
            render_items(tys) + seq![')'] + rest,
        ) == ItemsStep::Parsed(tys, rest),
        delim_start(rest),
    ensures
        spec_parse(render_refr(t) + rest) == ParseStep::Parsed(t, rest),
{
    reveal_strlit("(");
    reveal_strlit(")");
    let tys = t->Tuple_0;
    let s = render_refr(t) + rest;
    let inner = render_items(tys) + seq![')'] + rest;
    assert(s =~= seq!['('] + inner);
    assert(s[0] == '(');
    lemma_trim_noop(s);
    lemma_take_char_concat('(', inner);
    assert(inner.len() < s.len());
}

/// The round trip of the expression grammar: a reference tree spelled back
/// canonically parses to the identical tree, with any following delimiter
/// left unconsumed.
pub proof fn lemma_parse_render(t: TypeRefrV, rest: Seq<char>)
    requires
        grammar_wf(t),
        delim_start(rest),
    ensures
        spec_parse(render_refr(t) + rest) == ParseStep::Parsed(t, rest),
    decreases t, 2int,
{
    match t {
        TypeRefrV::Name(n) => {
            lemma_parse_render_name(t, rest);
        },
        TypeRefrV::Optional(ty) => {
            reveal_strlit(">");
            assert((">"@ + rest)[0] == ">"@[0]);
            lemma_parse_render(*ty, ">"@ + rest);
            lemma_parse_render_optional(t, rest);
        },
        TypeRefrV::Sequence(ty) => {
            reveal_strlit("]");
            assert(("]"@ + rest)[0] == "]"@[0]);
            lemma_parse_render(*ty, "]"@ + rest);
            lemma_parse_render_sequence(t, rest);
        },
        TypeRefrV::Array(ty, ct) => {
            reveal_strlit("; ");
            assert(("; "@ + dec_digits(ct) + "]"@ + rest)[0] == "; "@[0]);
            lemma_parse_render(*ty, "; "@ + dec_digits(ct) + "]"@ + rest);
            lemma_parse_render_array(t, rest);
        },
        TypeRefrV::Mapping(kty, vty) => {
            reveal_strlit(",");
            reveal_strlit(">");
            assert((","@ + render_refr(*vty) + ">"@ + rest)[0] == ","@[0]);
            assert(((">"@ + rest))[0] == ">"@[0]);
            lemma_parse_render(*kty, ","@ + render_refr(*vty) + ">"@ + rest);
            lemma_parse_render(*vty, ">"@ + rest);
            lemma_parse_render_mapping(t, rest);
        },
        TypeRefrV::Tuple(tys) => {
            lemma_parse_render_items(tys, rest);
            lemma_parse_render_tuple(t, rest);
        },
    }
}

proof fn lemma_parse_render_items(ts: Seq<TypeRefrV>, rest: Seq<char>)
    requires
        grammar_wf_list(ts),
        delim_start(rest),
    ensures
        spec_parse_tuple_items(render_items(ts) + seq![')'] + rest) == ItemsStep::Parsed(
            ts,
            rest,
        ),
    decreases ts, 0int,
{
    let s = render_items(ts) + seq![')'] + rest;
    if ts.len() == 0 {
        assert(s =~= seq![')'] + rest);
        lemma_take_char_concat(')', rest);
        assert(ts =~= Seq::<TypeRefrV>::empty());
    } else {
        lemma_render_head(ts[0]);
        let rest_tail = render_items_tail(ts.drop_first()) + seq![')'] + rest;
        assert(s =~= render_refr(ts[0]) + rest_tail);
        assert(s[0] == render_refr(ts[0])[0]);
        lemma_trim_noop(s);
        if ts.drop_first().len() == 0 {
            assert(rest_tail =~= seq![')'] + rest);
            assert(delim_start(rest_tail));
        } else {
            reveal_strlit(",");
            assert(render_items_tail(ts.drop_first())[0] == ","@[0]);
            assert(rest_tail[0] == ',');
        }
        lemma_parse_render(ts[0], rest_tail);
        lemma_parse_render_items_tail(ts.drop_first(), rest);
        assert(rest_tail.len() < s.len());
        assert(seq![ts[0]].add(ts.drop_first()) =~= ts);
    }
}

proof fn lemma_parse_render_items_tail(ts: Seq<TypeRefrV>, rest: Seq<char>)
    requires
        grammar_wf_list(ts),
        delim_start(rest),
    ensures
        spec_parse_tuple_items(render_items_tail(ts) + seq![')'] + rest) == ItemsStep::Parsed(
            ts,
            rest,
        ),
    decreases ts, 1int,
{
    let s = render_items_tail(ts) + seq![')'] + rest;
    if ts.len() == 0 {
        assert(s =~= seq![')'] + rest);
        lemma_take_char_concat(')', rest);
        assert(ts =~= Seq::<TypeRefrV>::empty());
    } else {
        reveal_strlit(",");
        let after = render_items(ts) + seq![')'] + rest;
        assert(render_items(ts) =~= render_refr(ts[0]) + render_items_tail(ts.drop_first()));
        assert(s =~= seq![','] + after);
        lemma_take_char_concat(',', after);
        lemma_parse_render_items(ts, rest);
        assert(after.len() < s.len());
    }
}


/// The whole-input round trip: the canonical spelling of a reference tree,
/// parsed entirely, gives back exactly that tree.
pub proof fn lemma_render_round_trip(t: TypeRefrV)
    requires
        grammar_wf(t),
    ensures
        spec_parse_entirely(render_refr(t)) == Ok::<TypeRefrV, Seq<char>>(t),
{
    lemma_parse_render(t, Seq::empty());
    assert(render_refr(t) + Seq::<char>::empty() =~= render_refr(t));
}


proof fn lemma_repeated_refr_list(ty: TypeRefrV, e: NamedTypeV, ct: nat, known: Seq<NamedTypeV>)
    requires
        spec_resolve_refr(ty, known) == ResolveOutcome::Resolved(e),
    ensures
        spec_resolve_refr_list(Seq::new(ct, |i: int| ty), known) == ListOutcome::Resolved(
            Seq::new(ct, |i: int| e),
        ),
    decreases ct,
{
    let ts = Seq::new(ct, |i: int| ty);
    let rs = Seq::new(ct, |i: int| e);
    if ct == 0 {
        assert(rs =~= Seq::<NamedTypeV>::empty());
    } else {
        assert(ts[0] == ty);
        assert(ts.drop_first() =~= Seq::new((ct - 1) as nat, |i: int| ty));
        lemma_repeated_refr_list(ty, e, (ct - 1) as nat, known);
        assert(seq![e].add(Seq::new((ct - 1) as nat, |i: int| e)) =~= rs);
    }
}

/// The tuple-versus-array disambiguation is structural: a tuple written as
/// the same reference repeated `ct` times resolves to the identical
/// structural kind as the fixed-size array of that reference and count,
/// and for more than one element the two resolve to the identical entry,
/// canonical name included.
pub proof fn lemma_tuple_array_same_kind(
    ty: TypeRefrV,
    e: NamedTypeV,
    ct: nat,
    known: Seq<NamedTypeV>,
)
    requires
        spec_resolve_refr(ty, known) == ResolveOutcome::Resolved(e),
    ensures
        spec_resolve_refr(TypeRefrV::Array(Box::new(ty), ct), known) matches
            ResolveOutcome::Resolved(a) && spec_resolve_refr(
            TypeRefrV::Tuple(Seq::new(ct, |i: int| ty)),
            known,
        ) matches ResolveOutcome::Resolved(b) && a.ty == b.ty && (ct > 1 ==> a == b),
{
    lemma_repeated_refr_list(ty, e, ct, known);
    let rs = Seq::new(ct, |i: int| e);
    if ct > 1 {
        assert(kinds_all_same(rs)) by {
            assert(forall|i: int| 0 <= i < rs.len() ==> (#[trigger] rs[i]).ty == e.ty);
        }
        assert(rs[0].name == e.name);
    }
}

} // verus!







