//! Rendering of the verification program.
//!
//! Every function here states the exact text it produces, as a
//! concatenation over the views of the names involved, so the whole
//! artifact is pinned down byte for byte by the registry content.
//!
//! One verification unit is one test function per retained type.  It
//! compares, against the native compiler's answer, the size and alignment
//! of the whole type and the size, alignment and byte offset of every
//! recorded field.  The field queries go through a projection function
//! (`size_of_ret`, `align_of_ret` in the preamble) that determines the
//! field's type from a projection closure's return type, so they need not
//! read a field value; the native side of each comparison is an embedded
//! native-code expression evaluated through the `cpp` crate from within
//! the generated program.

use vstd::prelude::*;
use vstd::string::StringExecFns;

use crate::model::TypeView;
use crate::names::NameList;

verus! {

/// The fixed head of the generated program: the import of the native-code
/// embedding macro and the two projection-based layout queries.
pub open spec fn preamble_text() -> Seq<char> {
    "use cpp::cpp;\n\nfn size_of_ret<T, U>(_f: impl Fn(U) -> T) -> usize {\n    ::std::mem::size_of::<T>()\n}\n\nfn align_of_ret<T, U>(_f: impl Fn(U) -> T) -> usize {\n    ::std::mem::align_of::<T>()\n}\n\n"@
}

/// One assertion comparing a target-language expression with a
/// native-compiler expression evaluated in the embedded code block.
pub open spec fn assert_eq_text(lhs: Seq<char>, rhs: Seq<char>) -> Seq<char> {
    "    assert_eq!(\n        "@ + lhs + ",\n        cpp!(unsafe [] -> usize as \"size_t\" { return "@
        + rhs + "; }),\n        \"{} != {}\",\n        \""@ + lhs + "\",\n        \""@ + rhs
        + "\",\n    );\n"@
}

/// The three per-field assertions: field size, field alignment, field
/// byte offset.
pub open spec fn field_asserts_text(name: Seq<char>, field: Seq<char>) -> Seq<char> {
    assert_eq_text(
        "size_of_ret(|x: "@ + name + "| x."@ + field + ")"@,
        "sizeof("@ + name + "::"@ + field + ")"@,
    ) + assert_eq_text(
        "align_of_ret(|x: "@ + name + "| x."@ + field + ")"@,
        "alignof("@ + name + "::"@ + field + ")"@,
    ) + assert_eq_text(
        "::std::mem::offset_of!("@ + name + ", "@ + field + ")"@,
        "offsetof("@ + name + ", "@ + field + ")"@,
    )
}

/// The per-field assertions for every field, in field order.
pub open spec fn fields_text(name: Seq<char>, fields: Seq<Seq<char>>) -> Seq<char>
    decreases fields.len(),
{
    if fields.len() == 0 {
        Seq::<char>::empty()
    } else {
        fields_text(name, fields.drop_last()) + field_asserts_text(name, fields.last())
    }
}

/// One whole verification unit: a test function, deterministically named
/// after the type, holding the two whole-type assertions and then the
/// per-field assertions.  A type without recorded fields keeps just the
/// two whole-type assertions.
pub open spec fn unit_text(t: TypeView) -> Seq<char> {
    "#[test]\nfn layout_test_"@ + t.name + "() {\n"@ + assert_eq_text(
        "::std::mem::size_of::<"@ + t.name + ">()"@,
        "sizeof("@ + t.name + ")"@,
    ) + assert_eq_text(
        "::std::mem::align_of::<"@ + t.name + ">()"@,
        "alignof("@ + t.name + ")"@,
    ) + fields_text(t.name, t.fields) + "}\n\n"@
}

/// Renders one assertion.
pub fn build_assert_eq(lhs: &str, rhs: &str) -> (r: String)
    ensures
        r@ == assert_eq_text(lhs@, rhs@),
{
    let mut s = String::new();
    s.append("    assert_eq!(\n        ");
    s.append(lhs);
    s.append(",\n        cpp!(unsafe [] -> usize as \"size_t\" { return ");
    s.append(rhs);
    s.append("; }),\n        \"{} != {}\",\n        \"");
    s.append(lhs);
    s.append("\",\n        \"");
    s.append(rhs);
    s.append("\",\n    );\n");
    proof {
        assert(s@ =~= assert_eq_text(lhs@, rhs@));
    }
    s
}

/// Renders the fixed preamble.
pub fn build_preamble() -> (r: String)
    ensures
        r@ == preamble_text(),
{
    let mut s = String::new();
    s.append(
        "use cpp::cpp;\n\nfn size_of_ret<T, U>(_f: impl Fn(U) -> T) -> usize {\n    ::std::mem::size_of::<T>()\n}\n\nfn align_of_ret<T, U>(_f: impl Fn(U) -> T) -> usize {\n    ::std::mem::align_of::<T>()\n}\n\n",
    );
    proof {
        assert(s@ =~= preamble_text());
    }
    s
}

/// Renders the three assertions for one field.
pub fn build_field_asserts(name: &str, field: &str) -> (r: String)
    ensures
        r@ == field_asserts_text(name@, field@),
{
    let mut lhs = String::new();
    lhs.append("size_of_ret(|x: ");
    lhs.append(name);
    lhs.append("| x.");
    lhs.append(field);
    lhs.append(")");
    let mut rhs = String::new();
    rhs.append("sizeof(");
    rhs.append(name);
    rhs.append("::");
    rhs.append(field);
    rhs.append(")");
    let mut s = build_assert_eq(lhs.as_str(), rhs.as_str());

    let mut lhs2 = String::new();
    lhs2.append("align_of_ret(|x: ");
    lhs2.append(name);
    lhs2.append("| x.");
    lhs2.append(field);
    lhs2.append(")");
    let mut rhs2 = String::new();
    rhs2.append("alignof(");
    rhs2.append(name);
    rhs2.append("::");
    rhs2.append(field);
    rhs2.append(")");
    let a2 = build_assert_eq(lhs2.as_str(), rhs2.as_str());
    s.append(a2.as_str());

    let mut lhs3 = String::new();
    lhs3.append("::std::mem::offset_of!(");
    lhs3.append(name);
    lhs3.append(", ");
    lhs3.append(field);
    lhs3.append(")");
    let mut rhs3 = String::new();
    rhs3.append("offsetof(");
    rhs3.append(name);
    rhs3.append(", ");
    rhs3.append(field);
    rhs3.append(")");
    let a3 = build_assert_eq(lhs3.as_str(), rhs3.as_str());
    s.append(a3.as_str());
    proof {
        assert(lhs@ =~= "size_of_ret(|x: "@ + name@ + "| x."@ + field@ + ")"@);
        assert(rhs@ =~= "sizeof("@ + name@ + "::"@ + field@ + ")"@);
        assert(lhs2@ =~= "align_of_ret(|x: "@ + name@ + "| x."@ + field@ + ")"@);
        assert(rhs2@ =~= "alignof("@ + name@ + "::"@ + field@ + ")"@);
        assert(lhs3@ =~= "::std::mem::offset_of!("@ + name@ + ", "@ + field@ + ")"@);
        assert(rhs3@ =~= "offsetof("@ + name@ + ", "@ + field@ + ")"@);
        assert(s@ =~= field_asserts_text(name@, field@));
    }
    s
}

/// Renders one verification unit for a type and its sorted field names.
pub fn build_struct_test(name: &str, fields: &NameList) -> (r: String)
    ensures
        r@ == unit_text(TypeView { name: name@, fields: fields@ }),
{
    let mut s = String::new();
    s.append("#[test]\nfn layout_test_");
    s.append(name);
    s.append("() {\n");

    let mut lhs = String::new();
    lhs.append("::std::mem::size_of::<");
    lhs.append(name);
    lhs.append(">()");
    let mut rhs = String::new();
    rhs.append("sizeof(");
    rhs.append(name);
    rhs.append(")");
    let a1 = build_assert_eq(lhs.as_str(), rhs.as_str());
    s.append(a1.as_str());

    let mut lhs2 = String::new();
    lhs2.append("::std::mem::align_of::<");
    lhs2.append(name);
    lhs2.append(">()");
    let mut rhs2 = String::new();
    rhs2.append("alignof(");
    rhs2.append(name);
    rhs2.append(")");
    let a2 = build_assert_eq(lhs2.as_str(), rhs2.as_str());
    s.append(a2.as_str());

    proof {
        assert(lhs@ =~= "::std::mem::size_of::<"@ + name@ + ">()"@);
        assert(rhs@ =~= "sizeof("@ + name@ + ")"@);
        assert(lhs2@ =~= "::std::mem::align_of::<"@ + name@ + ">()"@);
        assert(rhs2@ =~= "alignof("@ + name@ + ")"@);
        assert(s@ =~= "#[test]\nfn layout_test_"@ + name@ + "() {\n"@ + assert_eq_text(
            "::std::mem::size_of::<"@ + name@ + ">()"@,
            "sizeof("@ + name@ + ")"@,
        ) + assert_eq_text(
            "::std::mem::align_of::<"@ + name@ + ">()"@,
            "alignof("@ + name@ + ")"@,
        ));
    }
    let ghost head = s@;

    let n = fields.len();
    let mut j: usize = 0;
    proof {
        assert(head + fields_text(name@, fields@.take(0)) =~= head);
    }
    while j < n
        invariant
            j <= n,
            n == fields@.len(),
            s@ == head + fields_text(name@, fields@.take(j as int)),
        decreases n - j,
    {
        let fa = build_field_asserts(name, fields.get(j));
        s.append(fa.as_str());
        proof {
            assert(fields@.take(j as int + 1).drop_last() =~= fields@.take(j as int));
            assert(fields@.take(j as int + 1).last() == fields@[j as int]);
            assert(s@ =~= head + fields_text(name@, fields@.take(j as int + 1)));
        }
        j = j + 1;
    }
    s.append("}\n\n");
    proof {
        assert(fields@.take(n as int) =~= fields@);
        assert(s@ =~= unit_text(TypeView { name: name@, fields: fields@ }));
    }
    s
}

} // verus!
