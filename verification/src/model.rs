//! The mathematical model of the registry.
//!
//! A registry is abstracted as a `RegistryView`: the sorted sequence of
//! header paths, the sorted sequence of type entries (each with its sorted
//! field names), and the ordered list of exclusion rules.  On top of the
//! sequences, `fields_map` gives the order-free content — which types are
//! known and which set of fields each has — and the listener contracts are
//! stated against that map, so that any event order producing the same
//! content is provably indistinguishable.

use vstd::prelude::*;

use crate::matcher::regex_match;
use crate::names::strictly_sorted;
use crate::text::lex_lt;
use crate::text::lemma_lex_irreflexive;

verus! {

/// One exclusion rule: either the exact name of a type, or a pattern
/// applied to full type names.
pub enum RuleView {
    Exact(Seq<char>),
    Pattern(Seq<char>),
}

/// Whether a rule suppresses the given type name.
pub open spec fn rule_matches(r: RuleView, name: Seq<char>) -> bool {
    match r {
        RuleView::Exact(p) => p == name,
        RuleView::Pattern(p) => regex_match(p, name),
    }
}

/// A type is excluded as soon as any rule matches its full name.
pub open spec fn excluded(rules: Seq<RuleView>, name: Seq<char>) -> bool {
    exists|i: int| 0 <= i < rules.len() && rule_matches(rules[i], name)
}

/// One known type: its name and its recorded field names.
#[verifier::ext_equal]
pub struct TypeView {
    pub name: Seq<char>,
    pub fields: Seq<Seq<char>>,
}

/// The names of the known types, in registry order.
pub open spec fn type_names(types: Seq<TypeView>) -> Seq<Seq<char>> {
    types.map_values(|t: TypeView| t.name)
}

/// Whether some entry carries the given name.
pub open spec fn has_type(types: Seq<TypeView>, name: Seq<char>) -> bool {
    exists|i: int| 0 <= i < types.len() && types[i].name == name
}

/// The index of the entry carrying the given name (meaningful only when
/// the names are unique and the type is present).
pub open spec fn type_index(types: Seq<TypeView>, name: Seq<char>) -> int {
    choose|i: int| 0 <= i < types.len() && types[i].name == name
}

/// The recorded fields of the named type, in registry order.
pub open spec fn fields_of(types: Seq<TypeView>, name: Seq<char>) -> Seq<Seq<char>> {
    types[type_index(types, name)].fields
}

/// The order-free content of the type registry: each known type name,
/// mapped to the set of its recorded field names.
pub open spec fn fields_map(types: Seq<TypeView>) -> Map<Seq<char>, Set<Seq<char>>> {
    Map::new(
        |name: Seq<char>| has_type(types, name),
        |name: Seq<char>| fields_of(types, name).to_set(),
    )
}

/// Content after making sure an (initially field-less) entry exists.
pub open spec fn with_entry(
    m: Map<Seq<char>, Set<Seq<char>>>,
    name: Seq<char>,
) -> Map<Seq<char>, Set<Seq<char>>> {
    if m.dom().contains(name) {
        m
    } else {
        m.insert(name, Set::empty())
    }
}

/// Content after recording a field for a type, creating the entry when it
/// is missing.
pub open spec fn with_field(
    m: Map<Seq<char>, Set<Seq<char>>>,
    name: Seq<char>,
    field: Seq<char>,
) -> Map<Seq<char>, Set<Seq<char>>> {
    m.insert(name, (if m.dom().contains(name) { m[name] } else { Set::empty() }).insert(field))
}

/// The whole registry, abstracted.
#[verifier::ext_equal]
pub struct RegistryView {
    pub headers: Seq<Seq<char>>,
    pub types: Seq<TypeView>,
    pub rules: Seq<RuleView>,
}

impl RegistryView {
    /// Well-formedness: every name collection is strictly sorted, so each
    /// sequence is the canonical arrangement of its elements.
    pub open spec fn wf(self) -> bool {
        &&& strictly_sorted(self.headers)
        &&& strictly_sorted(type_names(self.types))
        &&& forall|i: int| 0 <= i < self.types.len() ==> strictly_sorted(
            #[trigger] self.types[i].fields,
        )
    }

    /// The set of recorded header paths.
    pub open spec fn header_set(self) -> Set<Seq<char>> {
        self.headers.to_set()
    }

    /// The order-free content of the type registry.
    pub open spec fn contents(self) -> Map<Seq<char>, Set<Seq<char>>> {
        fields_map(self.types)
    }
}

/// The program text for a sequence of type entries: one verification unit
/// per entry that no exclusion rule suppresses, in entry order.
pub open spec fn units_text(types: Seq<TypeView>, rules: Seq<RuleView>) -> Seq<char>
    decreases types.len(),
{
    if types.len() == 0 {
        Seq::<char>::empty()
    } else {
        units_text(types.drop_last(), rules) + (if excluded(rules, types.last().name) {
            Seq::<char>::empty()
        } else {
            crate::builder::unit_text(types.last())
        })
    }
}

/// The whole generated test program: the fixed preamble, then the
/// verification units.
pub open spec fn tests_text(v: RegistryView) -> Seq<char> {
    crate::builder::preamble_text() + units_text(v.types, v.rules)
}

/// Strictly sorted names are unique.
pub proof fn lemma_unique_names(types: Seq<TypeView>)
    requires
        strictly_sorted(type_names(types)),
    ensures
        forall|i: int, j: int|
            0 <= i < types.len() && 0 <= j < types.len() && i != j ==> #[trigger] types[i].name
                != #[trigger] types[j].name,
{
    assert forall|i: int, j: int|
        0 <= i < types.len() && 0 <= j < types.len() && i != j implies #[trigger] types[i].name
        != #[trigger] types[j].name by {
        let names = type_names(types);
        if types[i].name == types[j].name {
            if i < j {
                assert(lex_lt(names[i], names[j]));
            } else {
                assert(lex_lt(names[j], names[i]));
            }
            lemma_lex_irreflexive(types[i].name);
        }
    }
}

/// With unique names, the entry found for `types[i].name` is entry `i`.
pub proof fn lemma_lookup_at(types: Seq<TypeView>, i: int)
    requires
        strictly_sorted(type_names(types)),
        0 <= i < types.len(),
    ensures
        has_type(types, types[i].name),
        type_index(types, types[i].name) == i,
        fields_of(types, types[i].name) == types[i].fields,
{
    lemma_unique_names(types);
    assert(has_type(types, types[i].name));
    let k = type_index(types, types[i].name);
    assert(0 <= k < types.len() && types[k].name == types[i].name);
    assert(k == i);
}

} // verus!
