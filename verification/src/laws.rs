//! The guarantees of the generation pass, stated and proved.
//!
//! `generate_layout_tests` already pins the program text down as a
//! function of the registry view.  The lemmas here state the properties a
//! consumer relies on: which types receive a verification unit (exactly
//! the declared, non-suppressed ones, each exactly once), that exclusion
//! rules are applied at generation time against the final rule list, and
//! that the text depends only on the registry *content* — the set of
//! headers, the map from type names to field sets and the rule list — so
//! any event order producing the same content yields byte-identical
//! output.

use vstd::prelude::*;

use crate::builder::unit_text;
use crate::model::{
    excluded, has_type, lemma_lookup_at, rule_matches, tests_text, type_names, units_text,
    with_entry, with_field, RegistryView, RuleView, TypeView,
};
use crate::names::{lemma_sorted_same_elements_equal, strictly_sorted};
use crate::text::{lemma_lex_irreflexive, lex_lt};

verus! {

/// The entries that survive exclusion, in registry order.
pub open spec fn retained(types: Seq<TypeView>, rules: Seq<RuleView>) -> Seq<TypeView>
    decreases types.len(),
{
    if types.len() == 0 {
        Seq::<TypeView>::empty()
    } else {
        retained(types.drop_last(), rules) + (if excluded(rules, types.last().name) {
            Seq::<TypeView>::empty()
        } else {
            seq![types.last()]
        })
    }
}

/// The concatenation of the verification units of the given entries.
pub open spec fn retained_units_text(types: Seq<TypeView>) -> Seq<char>
    decreases types.len(),
{
    if types.len() == 0 {
        Seq::<char>::empty()
    } else {
        retained_units_text(types.drop_last()) + unit_text(types.last())
    }
}

/// Each retained entry comes from the registry and is not excluded, and
/// each non-excluded registry entry is retained.
proof fn lemma_retained_entries(types: Seq<TypeView>, rules: Seq<RuleView>)
    ensures
        forall|i: int| 0 <= i < retained(types, rules).len() ==> types.contains(
            #[trigger] retained(types, rules)[i],
        ) && !excluded(rules, retained(types, rules)[i].name),
        forall|k: int| 0 <= k < types.len() && !excluded(rules, types[k].name) ==> retained(
            types,
            rules,
        ).contains(#[trigger] types[k]),
    decreases types.len(),
{
    if types.len() > 0 {
        let dl = types.drop_last();
        lemma_retained_entries(dl, rules);
        let r = retained(types, rules);
        let rd = retained(dl, rules);
        assert forall|i: int| 0 <= i < r.len() implies types.contains(#[trigger] r[i])
            && !excluded(rules, r[i].name) by {
            if i < rd.len() {
                assert(r[i] == rd[i]);
                assert(dl.contains(rd[i]));
                let k = choose|k: int| 0 <= k < dl.len() && dl[k] == rd[i];
                assert(types[k] == rd[i]);
            } else {
                assert(!excluded(rules, types.last().name));
                assert(r[i] == types.last());
                assert(types[types.len() - 1] == types.last());
            }
        }
        assert forall|k: int|
            0 <= k < types.len() && !excluded(rules, types[k].name) implies retained(
            types,
            rules,
        ).contains(#[trigger] types[k]) by {
            if k < types.len() - 1 {
                assert(dl[k] == types[k]);
                assert(rd.contains(types[k]));
                let j = choose|j: int| 0 <= j < rd.len() && rd[j] == types[k];
                assert(r[j] == types[k]);
            } else {
                assert(types[k] == types.last());
                assert(r[rd.len() as int] == types.last());
            }
        }
    }
}

/// A subsequence of a name-sorted registry is name-sorted.
proof fn lemma_retained_sorted(types: Seq<TypeView>, rules: Seq<RuleView>)
    requires
        strictly_sorted(type_names(types)),
    ensures
        strictly_sorted(type_names(retained(types, rules))),
    decreases types.len(),
{
    if types.len() > 0 {
        let dl = types.drop_last();
        assert forall|p: int, q: int|
            0 <= p < q < type_names(dl).len() implies lex_lt(type_names(dl)[p], type_names(dl)[q]) by {
            assert(type_names(dl)[p] == types[p].name);
            assert(type_names(dl)[q] == types[q].name);
            assert(lex_lt(type_names(types)[p], type_names(types)[q]));
        }
        lemma_retained_sorted(dl, rules);
        lemma_retained_entries(dl, rules);
        let r = retained(types, rules);
        let rd = retained(dl, rules);
        let names = type_names(r);
        assert forall|p: int, q: int| 0 <= p < q < names.len() implies lex_lt(
            names[p],
            names[q],
        ) by {
            assert(names[p] == r[p].name);
            assert(names[q] == r[q].name);
            if q < rd.len() {
                assert(r[p] == rd[p]);
                assert(r[q] == rd[q]);
                assert(lex_lt(type_names(rd)[p], type_names(rd)[q]));
            } else {
                // q points at the freshly kept last entry
                assert(r[q] == types.last());
                assert(r[p] == rd[p]);
                assert(dl.contains(rd[p]));
                let k = choose|k: int| 0 <= k < dl.len() && dl[k] == rd[p];
                assert(types[k] == rd[p]);
                assert(lex_lt(type_names(types)[k], type_names(types)[types.len() - 1]));
            }
        }
    }
}

/// The generated program body is the concatenation of one verification
/// unit per retained entry, in order.
pub proof fn lemma_units_text_is_retained(types: Seq<TypeView>, rules: Seq<RuleView>)
    ensures
        units_text(types, rules) == retained_units_text(retained(types, rules)),
    decreases types.len(),
{
    if types.len() == 0 {
    } else {
        let dl = types.drop_last();
        lemma_units_text_is_retained(dl, rules);
        let rd = retained(dl, rules);
        if excluded(rules, types.last().name) {
            assert(retained(types, rules) =~= rd);
            assert(units_text(types, rules) =~= retained_units_text(rd));
        } else {
            let r = retained(types, rules);
            assert(r.drop_last() =~= rd);
            assert(r.last() == types.last());
            assert(retained_units_text(r) == retained_units_text(rd) + unit_text(types.last()));
            assert(units_text(types, rules) == units_text(dl, rules) + unit_text(types.last()));
        }
    }
}

/// Every type that was declared (by a type or field event), and that no
/// exclusion rule of the final rule list matches, owns exactly one
/// verification unit in the generated program.
pub proof fn lemma_one_unit_per_retained_type(v: RegistryView, name: Seq<char>)
    requires
        v.wf(),
        v.contents().dom().contains(name),
        !excluded(v.rules, name),
    ensures
        exists|i: int|
            {
                &&& 0 <= i < retained(v.types, v.rules).len()
                &&& #[trigger] retained(v.types, v.rules)[i].name == name
                &&& forall|j: int|
                    0 <= j < retained(v.types, v.rules).len() && #[trigger] retained(
                        v.types,
                        v.rules,
                    )[j].name == name ==> j == i
            },
        units_text(v.types, v.rules) == retained_units_text(retained(v.types, v.rules)),
{
    lemma_retained_entries(v.types, v.rules);
    lemma_retained_sorted(v.types, v.rules);
    lemma_units_text_is_retained(v.types, v.rules);
    let r = retained(v.types, v.rules);
    assert(has_type(v.types, name));
    let k = choose|k: int| 0 <= k < v.types.len() && v.types[k].name == name;
    assert(r.contains(v.types[k]));
    let i = choose|i: int| 0 <= i < r.len() && r[i] == v.types[k];
    assert(r[i].name == name);
    assert forall|j: int| 0 <= j < r.len() && #[trigger] r[j].name == name implies j == i by {
        if j != i {
            let names = type_names(r);
            assert(names[j] == r[j].name);
            assert(names[i] == r[i].name);
            if i < j {
                assert(lex_lt(names[i], names[j]));
            } else {
                assert(lex_lt(names[j], names[i]));
            }
            lemma_lex_irreflexive(name);
        }
    }
}

/// A type matched by any rule of the final rule list is not retained: no
/// verification unit carries its name.
pub proof fn lemma_excluded_type_not_retained(types: Seq<TypeView>, rules: Seq<RuleView>, name: Seq<char>)
    requires
        excluded(rules, name),
    ensures
        forall|i: int| 0 <= i < retained(types, rules).len() ==> (#[trigger] retained(
            types,
            rules,
        )[i]).name != name,
{
    lemma_retained_entries(types, rules);
}

/// A type recorded as a union is registered as an exact-name exclusion,
/// so it never produces a verification unit, whatever field events
/// mention it.
pub proof fn lemma_union_type_suppressed(v: RegistryView, name: Seq<char>)
    requires
        v.rules.contains(RuleView::Exact(name)),
    ensures
        excluded(v.rules, name),
        forall|i: int| 0 <= i < retained(v.types, v.rules).len() ==> (#[trigger] retained(
            v.types,
            v.rules,
        )[i]).name != name,
{
    let k = choose|k: int| 0 <= k < v.rules.len() && v.rules[k] == RuleView::Exact(name);
    assert(rule_matches(v.rules[k], name));
    lemma_excluded_type_not_retained(v.types, v.rules, name);
}

/// Exclusion is decided at generation time, against the final rule list:
/// however late a matching rule is appended — even after fields were
/// recorded for the type — the type is not retained.
pub proof fn lemma_exclusion_applies_at_generation(
    v: RegistryView,
    rule: RuleView,
    name: Seq<char>,
)
    requires
        rule_matches(rule, name),
    ensures
        excluded(v.rules.push(rule), name),
        forall|i: int|
            0 <= i < retained(v.types, v.rules.push(rule)).len() ==> (#[trigger] retained(
                v.types,
                v.rules.push(rule),
            )[i]).name != name,
{
    let rules2 = v.rules.push(rule);
    assert(rule_matches(rules2[rules2.len() - 1], name));
    lemma_excluded_type_not_retained(v.types, rules2, name);
}

/// Rendering is a function of the registry alone: two renderings of the
/// same registry are byte-identical.
pub proof fn lemma_generation_idempotent(v: RegistryView, r1: Seq<char>, r2: Seq<char>)
    requires
        r1 == tests_text(v),
        r2 == tests_text(v),
    ensures
        r1 == r2,
{
}

/// Recording the same field twice leaves the registry content where one
/// recording left it.
pub proof fn lemma_field_event_idempotent(
    m: Map<Seq<char>, Set<Seq<char>>>,
    t: Seq<char>,
    f: Seq<char>,
)
    ensures
        with_field(with_field(m, t, f), t, f) == with_field(m, t, f),
{
    let s = if m.dom().contains(t) {
        m[t]
    } else {
        Set::<Seq<char>>::empty()
    };
    let m1 = with_field(m, t, f);
    assert(m1[t] == s.insert(f));
    assert(s.insert(f).insert(f) =~= s.insert(f));
    assert(with_field(m1, t, f) =~= m1);
}

/// Two field recordings commute: the registry content does not depend on
/// the order in which the events arrived.
pub proof fn lemma_field_events_commute(
    m: Map<Seq<char>, Set<Seq<char>>>,
    t1: Seq<char>,
    f1: Seq<char>,
    t2: Seq<char>,
    f2: Seq<char>,
)
    ensures
        with_field(with_field(m, t1, f1), t2, f2) == with_field(with_field(m, t2, f2), t1, f1),
{
    if t1 == t2 {
        let s = if m.dom().contains(t1) {
            m[t1]
        } else {
            Set::<Seq<char>>::empty()
        };
        assert(with_field(m, t1, f1)[t1] == s.insert(f1));
        assert(with_field(m, t2, f2)[t1] == s.insert(f2));
        assert(s.insert(f1).insert(f2) =~= s.insert(f2).insert(f1));
        assert(with_field(with_field(m, t1, f1), t2, f2) =~= with_field(
            with_field(m, t2, f2),
            t1,
            f1,
        ));
    } else {
        assert(with_field(m, t1, f1).dom().contains(t2) == m.dom().contains(t2));
        assert(with_field(m, t2, f2).dom().contains(t1) == m.dom().contains(t1));
        assert(with_field(with_field(m, t1, f1), t2, f2) =~= with_field(
            with_field(m, t2, f2),
            t1,
            f1,
        ));
    }
}

/// A type event that arrives after a field event for the same type keeps
/// the recorded fields: the entry already exists, so nothing changes.
pub proof fn lemma_type_event_keeps_fields(
    m: Map<Seq<char>, Set<Seq<char>>>,
    t: Seq<char>,
    f: Seq<char>,
)
    ensures
        with_entry(with_field(m, t, f), t) == with_field(m, t, f),
{
    assert(with_field(m, t, f).dom().contains(t));
}

/// The generated text depends only on the registry content: two
/// well-formed registries with the same header set, the same map from
/// type names to field sets and the same rule list render byte-identical
/// programs.  In particular the order in which headers, types and fields
/// were reported does not show in the output, and rendering the same
/// registry twice gives the same bytes.
pub proof fn lemma_generation_canonical(a: RegistryView, b: RegistryView)
    requires
        a.wf(),
        b.wf(),
        a.header_set() == b.header_set(),
        a.contents() == b.contents(),
        a.rules == b.rules,
    ensures
        a.headers == b.headers,
        a.types == b.types,
        tests_text(a) == tests_text(b),
{
    // headers: sorted sequences with the same element set coincide
    assert forall|e: Seq<char>| a.headers.contains(e) <==> b.headers.contains(e) by {
        assert(a.headers.to_set().contains(e) == a.headers.contains(e));
        assert(b.headers.to_set().contains(e) == b.headers.contains(e));
        assert(a.headers.to_set().contains(e) == b.headers.to_set().contains(e));
    }
    lemma_sorted_same_elements_equal(a.headers, b.headers);

    // type names: same domain, both sorted, hence the same sequence
    assert forall|n: Seq<char>| has_type(a.types, n) <==> has_type(b.types, n) by {
        assert(a.contents().dom().contains(n) == has_type(a.types, n));
        assert(b.contents().dom().contains(n) == has_type(b.types, n));
        assert(a.contents().dom().contains(n) == b.contents().dom().contains(n));
    }
    let an = type_names(a.types);
    let bn = type_names(b.types);
    assert forall|n: Seq<char>| an.contains(n) <==> bn.contains(n) by {
        if an.contains(n) {
            let k = choose|k: int| 0 <= k < an.len() && an[k] == n;
            assert(a.types[k].name == n);
            assert(has_type(b.types, n));
            let m = choose|m: int| 0 <= m < b.types.len() && b.types[m].name == n;
            assert(bn[m] == n);
        }
        if bn.contains(n) {
            let k = choose|k: int| 0 <= k < bn.len() && bn[k] == n;
            assert(b.types[k].name == n);
            assert(has_type(a.types, n));
            let m = choose|m: int| 0 <= m < a.types.len() && a.types[m].name == n;
            assert(an[m] == n);
        }
    }
    lemma_sorted_same_elements_equal(an, bn);
    assert(a.types.len() == b.types.len());

    // entries: names agree position by position, and the sorted field
    // sequences are determined by the field sets the content map gives
    assert forall|i: int| 0 <= i < a.types.len() implies a.types[i] == b.types[i] by {
        assert(an[i] == a.types[i].name);
        assert(bn[i] == b.types[i].name);
        let n = a.types[i].name;
        lemma_lookup_at(a.types, i);
        lemma_lookup_at(b.types, i);
        assert(a.contents()[n] == a.types[i].fields.to_set());
        assert(b.contents()[n] == b.types[i].fields.to_set());
        assert(a.contents().dom().contains(n));
        assert(a.contents()[n] == b.contents()[n]);
        assert forall|e: Seq<char>| a.types[i].fields.contains(e) <==> b.types[i].fields.contains(
            e,
        ) by {
            assert(a.types[i].fields.to_set().contains(e) == b.types[i].fields.to_set().contains(
                e,
            ));
        }
        lemma_sorted_same_elements_equal(a.types[i].fields, b.types[i].fields);
        assert(a.types[i] =~= b.types[i]);
    }
    assert(a.types =~= b.types);
}

} // verus!
