//! The declaration registry and its listener operations.
//!
//! A binding translator reports each header it read, each type it
//! translated and each field of such a type.  `LayoutTestGenerator` records
//! those events: header paths and field names land in sorted, deduplicated
//! collections; union types and capability queries append exact-name
//! exclusion rules; `blocklist_type` appends pattern rules.  Every
//! operation is specified against the order-free content of the registry
//! (`RegistryView::contents`), so any event order with the same logical
//! content leaves an identical registry.

use vstd::prelude::*;
use vstd::string::StringExecFns;

use crate::matcher::{regex_valid, Matcher};
use crate::model::{
    excluded, fields_map, fields_of, has_type, lemma_lookup_at, lemma_unique_names, rule_matches,
    tests_text, type_index, type_names, units_text, with_entry, with_field, RegistryView,
    RuleView, TypeView,
};
use crate::names::{strictly_sorted, NameList};
use crate::text::{lemma_lex_connected, lemma_lex_transitive, lex_lt, str_eq, str_lt};
use crate::Error;

verus! {

/// The category a declaration event reports for a type.
#[derive(Clone, Copy, Debug, PartialEq, Eq, Structural)]
pub enum TypeKind {
    Struct,
    Enum,
    Union,
}

/// One exclusion entry of the registry.
pub enum ExclusionRule {
    /// Suppresses exactly this type name.
    Exact(String),
    /// Suppresses every type name the pattern matches.
    Pattern(Matcher),
}

impl View for ExclusionRule {
    type V = RuleView;

    closed spec fn view(&self) -> RuleView {
        match self {
            ExclusionRule::Exact(s) => RuleView::Exact(s@),
            ExclusionRule::Pattern(m) => RuleView::Pattern(m@),
        }
    }
}

/// One known type: its name and the sorted collection of its field names.
pub struct TypeEntry {
    name: String,
    fields: NameList,
}

impl View for TypeEntry {
    type V = TypeView;

    closed spec fn view(&self) -> TypeView {
        TypeView { name: self.name@, fields: self.fields@ }
    }
}

/// The registry of declaration events, and the generator of the
/// verification program derived from it.
pub struct LayoutTestGenerator {
    headers: NameList,
    types: Vec<TypeEntry>,
    blocklist: Vec<ExclusionRule>,
}

impl View for LayoutTestGenerator {
    type V = RegistryView;

    closed spec fn view(&self) -> RegistryView {
        RegistryView {
            headers: self.headers@,
            types: self.types@.map_values(|t: TypeEntry| t@),
            rules: self.blocklist@.map_values(|r: ExclusionRule| r@),
        }
    }
}

impl LayoutTestGenerator {
    pub open spec fn wf(&self) -> bool {
        self@.wf()
    }

    /// An empty registry: no headers, no types, no exclusions.
    pub fn new() -> (r: LayoutTestGenerator)
        ensures
            r.wf(),
            r@.headers == Seq::<Seq<char>>::empty(),
            r@.types == Seq::<TypeView>::empty(),
            r@.rules == Seq::<RuleView>::empty(),
    {
        let r = LayoutTestGenerator {
            headers: NameList::new(),
            types: Vec::new(),
            blocklist: Vec::new(),
        };
        proof {
            assert(r@.types =~= Seq::<TypeView>::empty());
            assert(r@.rules =~= Seq::<RuleView>::empty());
        }
        r
    }

    /// The recorded header paths, sorted and deduplicated.
    pub fn headers(&self) -> (r: &NameList)
        ensures
            r@ == self@.headers,
    {
        &self.headers
    }

    /// Records a header the translator has read.  Idempotent.
    pub fn on_header_seen(&mut self, path: &str)
        requires
            old(self).wf(),
        ensures
            final(self).wf(),
            forall|e: Seq<char>|
                final(self)@.headers.contains(e) <==> (old(self)@.headers.contains(e) || e
                    == path@),
            final(self)@.types == old(self)@.types,
            final(self)@.rules == old(self)@.rules,
    {
        self.headers.insert(path);
    }

    /// Records the translator's question whether an already-excluded type
    /// takes part in some capability.  The registry defensively registers
    /// the name as excluded; the caller reports "no information" so the
    /// asker falls back to its own conservative default.
    pub fn on_exclusion_query(&mut self, name: &str)
        requires
            old(self).wf(),
        ensures
            final(self).wf(),
            final(self)@.headers == old(self)@.headers,
            final(self)@.types == old(self)@.types,
            final(self)@.rules == old(self)@.rules.push(RuleView::Exact(name@)),
    {
        let rule = ExclusionRule::Exact(name.to_owned());
        proof {
            assert(rule@ == RuleView::Exact(name@));
        }
        self.blocklist.push(rule);
        proof {
            assert(final(self)@.rules =~= old(self)@.rules.push(RuleView::Exact(name@)));
        }
    }

    /// Compiles an exclusion pattern and appends it to the rule list.
    /// Fails with `InvalidPattern`, leaving the registry unchanged, when
    /// the pattern is not a valid expression.
    pub fn blocklist_type(&mut self, pattern: &str) -> (r: Result<(), Error>)
        requires
            old(self).wf(),
        ensures
            final(self).wf(),
            final(self)@.headers == old(self)@.headers,
            final(self)@.types == old(self)@.types,
            match r {
                Ok(()) => regex_valid(pattern@) && final(self)@.rules == old(self)@.rules.push(
                    RuleView::Pattern(pattern@),
                ),
                Err(e) => !regex_valid(pattern@) && e == Error::InvalidPattern && final(self)@.rules
                    == old(self)@.rules,
            },
    {
        match Matcher::new(pattern) {
            Ok(m) => {
                let rule = ExclusionRule::Pattern(m);
                proof {
                    assert(rule@ == RuleView::Pattern(pattern@));
                }
                self.blocklist.push(rule);
                proof {
                    assert(final(self)@.rules =~= old(self)@.rules.push(
                        RuleView::Pattern(pattern@),
                    ));
                }
                Ok(())
            },
            Err(e) => Err(e),
        }
    }

    /// Whether any exclusion rule matches the full type name.  Stops at
    /// the first matching rule.
    pub fn is_excluded(&self, name: &str) -> (r: bool)
        ensures
            r == excluded(self@.rules, name@),
    {
        let n = self.blocklist.len();
        let mut i: usize = 0;
        while i < n
            invariant
                i <= n,
                n == self@.rules.len(),
                self@.rules.len() == self.blocklist@.len(),
                forall|k: int| 0 <= k < i ==> !rule_matches(self@.rules[k], name@),
            decreases n - i,
        {
            let hit = match &self.blocklist[i] {
                ExclusionRule::Exact(s) => str_eq(s.as_str(), name),
                ExclusionRule::Pattern(m) => m.is_match(name),
            };
            proof {
                assert(self@.rules[i as int] == self.blocklist@[i as int]@);
            }
            if hit {
                assert(rule_matches(self@.rules[i as int], name@));
                return true;
            }
            i = i + 1;
        }
        false
    }

    /// Renders the generated test program: the fixed preamble, then one
    /// verification unit per type that no exclusion rule suppresses, in
    /// registry (name) order.  The text is a function of the registry
    /// content alone, so generation is deterministic and repeatable.
    pub fn generate_layout_tests(&self) -> (r: String)
        ensures
            r@ == tests_text(self@),
    {
        let mut s = crate::builder::build_preamble();
        let n = self.types.len();
        let mut i: usize = 0;
        proof {
            assert(self@.types.take(0) =~= Seq::<TypeView>::empty());
            assert(s@ + units_text(self@.types.take(0), self@.rules) =~= s@);
        }
        let ghost head = s@;
        while i < n
            invariant
                i <= n,
                n == self@.types.len(),
                self@.types.len() == self.types@.len(),
                head == crate::builder::preamble_text(),
                s@ == head + units_text(self@.types.take(i as int), self@.rules),
            decreases n - i,
        {
            proof {
                assert(self@.types[i as int] == self.types@[i as int]@);
            }
            let entry = &self.types[i];
            if !self.is_excluded(entry.name.as_str()) {
                let unit = crate::builder::build_struct_test(entry.name.as_str(), &entry.fields);
                s.append(unit.as_str());
            }
            proof {
                assert(self@.types.take(i as int + 1).drop_last() =~= self@.types.take(i as int));
                assert(self@.types.take(i as int + 1).last() == self@.types[i as int]);
                assert(self@.types[i as int] == TypeView {
                    name: entry.name@,
                    fields: entry.fields@,
                });
                assert(s@ =~= head + units_text(self@.types.take(i as int + 1), self@.rules));
            }
            i = i + 1;
        }
        proof {
            assert(self@.types.take(n as int) =~= self@.types);
            assert(s@ =~= tests_text(self@));
        }
        s
    }

    /// Finds the entry for `name`, creating an empty one in name order
    /// when it is missing; returns its position.
    fn ensure_type_entry(&mut self, name: &str) -> (i: usize)
        requires
            old(self).wf(),
        ensures
            final(self).wf(),
            final(self)@.headers == old(self)@.headers,
            final(self)@.rules == old(self)@.rules,
            i < final(self)@.types.len(),
            final(self)@.types[i as int].name == name@,
            fields_map(final(self)@.types) == with_entry(fields_map(old(self)@.types), name@),
            final(self)@.types[i as int].fields == (if has_type(old(self)@.types, name@) {
                fields_of(old(self)@.types, name@)
            } else {
                Seq::<Seq<char>>::empty()
            }),
    {
        let ghost prev = self@.types;
        let n = self.types.len();
        let mut i: usize = 0;
        while i < n && str_lt(self.types[i].name.as_str(), name)
            invariant
                i <= n,
                n == self@.types.len(),
                self@.types == prev,
                forall|k: int| 0 <= k < i ==> lex_lt(prev[k].name, name@),
            decreases n - i,
        {
            proof {
                assert(self@.types[i as int] == self.types@[i as int]@);
            }
            i = i + 1;
        }
        proof {
            if i < n {
                assert(prev[i as int] == self.types@[i as int]@);
            }
        }
        if i < n && str_eq(self.types[i].name.as_str(), name) {
            // the entry already exists: the registry is unchanged
            proof {
                lemma_lookup_at(prev, i as int);
                assert(has_type(prev, name@));
                assert(fields_map(prev).dom().contains(name@));
                assert(with_entry(fields_map(prev), name@) == fields_map(prev));
            }
            return i;
        }
        proof {
            if i < n {
                lemma_lex_connected(prev[i as int].name, name@);
                assert(lex_lt(name@, prev[i as int].name));
            }
            // name is nowhere in the registry: everything before position i
            // is below it, everything from i on is above it
            assert forall|k: int| 0 <= k < prev.len() implies prev[k].name != name@ by {
                if k < i {
                    assert(lex_lt(prev[k].name, name@));
                } else if k > i {
                    assert(lex_lt(type_names(prev)[i as int], type_names(prev)[k]));
                    assert(lex_lt(prev[i as int].name, prev[k].name));
                    lemma_lex_transitive(name@, prev[i as int].name, prev[k].name);
                    assert(lex_lt(name@, prev[k].name));
                }
                crate::text::lemma_lex_irreflexive(name@);
            }
            assert(!has_type(prev, name@));
        }
        let ghost prev_items = self.types@;
        let entry = TypeEntry { name: name.to_owned(), fields: NameList::new() };
        self.types.insert(i, entry);
        proof {
            prev_items.insert_ensures(i as int, entry);
            let cur = self@.types;
            assert(cur.len() == prev.len() + 1);
            assert forall|k: int| 0 <= k < cur.len() implies cur[k] == (if k < i {
                prev[k]
            } else if k == i {
                entry@
            } else {
                prev[k - 1]
            }) by {
                assert(cur[k] == self.types@[k]@);
                if k < i {
                    assert(self.types@[k] == prev_items[k]);
                    assert(prev[k] == prev_items[k]@);
                } else if k > i {
                    assert(self.types@[(k - 1) + 1] == prev_items[k - 1]);
                    assert(prev[k - 1] == prev_items[k - 1]@);
                }
            }
            assert(entry@.name == name@);
            assert(entry@.fields =~= Seq::<Seq<char>>::empty());
            // the name sequence is still strictly sorted
            let names = type_names(cur);
            assert forall|p: int, q: int| 0 <= p < q < names.len() implies lex_lt(
                names[p],
                names[q],
            ) by {
                assert(names[p] == cur[p].name);
                assert(names[q] == cur[q].name);
                let old_names = type_names(prev);
                if q < i {
                    assert(lex_lt(old_names[p], old_names[q]));
                } else if p < i && q == i {
                    assert(lex_lt(prev[p].name, name@));
                } else if p < i && q > i {
                    assert(p < q - 1);
                    assert(lex_lt(old_names[p], old_names[q - 1]));
                } else if p == i {
                    assert(lex_lt(name@, prev[i as int].name));
                    if q - 1 > i {
                        assert(lex_lt(old_names[i as int], old_names[q - 1]));
                        lemma_lex_transitive(name@, prev[i as int].name, prev[q - 1].name);
                    }
                } else {
                    assert(lex_lt(old_names[p - 1], old_names[q - 1]));
                }
            }
            assert(strictly_sorted(type_names(cur)));
            assert(self.wf());
            // content: one fresh, field-less entry was added
            lemma_unique_names(cur);
            lemma_lookup_at(cur, i as int);
            assert forall|m: Seq<char>| has_type(cur, m) implies (has_type(prev, m) || m
                == name@) by {
                let k = choose|k: int| 0 <= k < cur.len() && cur[k].name == m;
                if k < i {
                    assert(prev[k].name == m);
                } else if k > i {
                    assert(prev[k - 1].name == m);
                }
            }
            assert forall|m: Seq<char>| has_type(prev, m) implies has_type(cur, m) by {
                let k = choose|k: int| 0 <= k < prev.len() && prev[k].name == m;
                if k < i {
                    assert(cur[k].name == m);
                } else {
                    assert(cur[k + 1].name == m);
                }
            }
            assert forall|m: Seq<char>| has_type(prev, m) implies fields_of(cur, m).to_set()
                =~= fields_of(prev, m).to_set() by {
                lemma_unique_names(prev);
                let k = type_index(prev, m);
                assert(0 <= k < prev.len() && prev[k].name == m);
                if k < i {
                    lemma_lookup_at(cur, k);
                    assert(fields_of(cur, m) == cur[k].fields);
                    assert(fields_of(prev, m) == prev[k].fields);
                } else {
                    lemma_lookup_at(cur, k + 1);
                    assert(fields_of(cur, m) == cur[k + 1].fields);
                    assert(fields_of(prev, m) == prev[k].fields);
                }
            }
            assert(fields_of(cur, name@).to_set() =~= Set::<Seq<char>>::empty());
            assert(fields_map(cur) =~= with_entry(fields_map(prev), name@));
        }
        i
    }

    /// Records a translated type.  A struct or enum gets an (initially
    /// empty) field entry, kept as is when it already exists; a union is
    /// registered as excluded by exact name and gets no field entry.
    pub fn on_type_seen(&mut self, name: &str, kind: TypeKind)
        requires
            old(self).wf(),
        ensures
            final(self).wf(),
            final(self)@.headers == old(self)@.headers,
            kind == TypeKind::Union ==> final(self)@.types == old(self)@.types && final(self)@.rules
                == old(self)@.rules.push(RuleView::Exact(name@)),
            kind != TypeKind::Union ==> final(self)@.rules == old(self)@.rules && fields_map(
                final(self)@.types,
            ) == with_entry(fields_map(old(self)@.types), name@),
    {
        match kind {
            TypeKind::Union => {
                self.on_exclusion_query(name);
            },
            _ => {
                let _ = self.ensure_type_entry(name);
            },
        }
    }

    /// Records a field of a type, creating the type's entry when it is
    /// missing.  Safe in any order relative to `on_type_seen`, and
    /// idempotent per (type, field) pair.
    pub fn on_field_seen(&mut self, owner: &str, field_name: &str)
        requires
            old(self).wf(),
        ensures
            final(self).wf(),
            final(self)@.headers == old(self)@.headers,
            final(self)@.rules == old(self)@.rules,
            fields_map(final(self)@.types) == with_field(
                fields_map(old(self)@.types),
                owner@,
                field_name@,
            ),
    {
        let ghost m0 = fields_map(old(self)@.types);
        let i = self.ensure_type_entry(owner);
        let ghost mid = self@.types;
        let ghost m1 = fields_map(mid);
        let ghost mid_items = self.types@;
        let mut entry = self.types.remove(i);
        proof {
            assert(entry@ == mid[i as int]);
            assert(strictly_sorted(entry@.fields));
        }
        let ghost entry_before = entry@;
        entry.fields.insert(field_name);
        let ghost removed_items = self.types@;
        self.types.insert(i, entry);
        proof {
            mid_items.remove_ensures(i as int);
            removed_items.insert_ensures(i as int, entry);
            let cur = self@.types;
            let t = owner@;
            let f = field_name@;
            assert(entry@.name == entry_before.name);
            assert(entry@.name == t);
            assert(cur.len() == mid.len());
            // the new sequence is the old one with entry i replaced
            assert forall|k: int| 0 <= k < cur.len() implies cur[k] == (if k == i {
                entry@
            } else {
                mid[k]
            }) by {
                assert(cur[k] == self.types@[k]@);
                if k < i {
                    assert(self.types@[k] == removed_items[k]);
                    assert(removed_items[k] == mid_items[k]);
                } else if k > i {
                    assert(self.types@[(k - 1) + 1] == removed_items[k - 1]);
                    assert(removed_items[k - 1] == mid_items[(k - 1) + 1]);
                }
                if k != i {
                    assert(mid[k] == mid_items[k]@);
                }
            }
            // well-formedness: the names did not move, and every field
            // collection is still sorted
            assert(type_names(cur) =~= type_names(mid));
            assert(self.wf());
            // content: field f was added to type t, nothing else changed
            lemma_unique_names(mid);
            lemma_unique_names(cur);
            assert forall|n: Seq<char>| has_type(cur, n) <==> has_type(mid, n) by {
                if has_type(cur, n) {
                    let k = choose|k: int| 0 <= k < cur.len() && cur[k].name == n;
                    assert(mid[k].name == n);
                }
                if has_type(mid, n) {
                    let k = choose|k: int| 0 <= k < mid.len() && mid[k].name == n;
                    assert(cur[k].name == n);
                }
            }
            assert forall|n: Seq<char>| has_type(mid, n) && n != t implies fields_of(
                cur,
                n,
            ).to_set() =~= fields_of(mid, n).to_set() by {
                let k = type_index(mid, n);
                assert(0 <= k < mid.len() && mid[k].name == n);
                assert(k != i);
                lemma_lookup_at(mid, k);
                lemma_lookup_at(cur, k);
            }
            lemma_lookup_at(mid, i as int);
            lemma_lookup_at(cur, i as int);
            assert(fields_of(cur, t) == entry@.fields);
            assert(fields_of(mid, t) == entry_before.fields);
            assert(fields_of(cur, t).to_set() =~= fields_of(mid, t).to_set().insert(f));
            assert(m1[t] == fields_of(mid, t).to_set());
            assert(fields_map(cur) =~= m1.insert(t, m1[t].insert(f)));
            // and the intermediate map relates to the starting content
            if m0.dom().contains(t) {
                assert(m1 == m0);
                assert(fields_map(cur) =~= with_field(m0, t, f));
            } else {
                assert(m1 == m0.insert(t, Set::<Seq<char>>::empty()));
                assert(m1[t] =~= Set::<Seq<char>>::empty());
                assert(fields_map(cur) =~= with_field(m0, t, f));
            }
        }
    }
}

} // verus!
