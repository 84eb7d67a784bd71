use binding_helpers::builder::{build_assert_eq, build_preamble};
use binding_helpers::gen::{LayoutTestGenerator, TypeKind};
use binding_helpers::Error;

fn unit_count(s: &str) -> usize {
    s.matches("fn layout_test_").count()
}

fn assert_count(s: &str) -> usize {
    s.matches("assert_eq!(").count()
}

#[test]
fn scenario_point_struct() {
    let mut g = LayoutTestGenerator::new();
    g.on_type_seen("Point", TypeKind::Struct);
    g.on_field_seen("Point", "x");
    g.on_field_seen("Point", "y");
    let out = g.generate_layout_tests();
    assert_eq!(unit_count(&out), 1);
    assert!(out.contains("fn layout_test_Point()"));
    // two whole-type assertions plus three per field
    assert_eq!(assert_count(&out), 8);
}

#[test]
fn scenario_union_is_excluded() {
    let mut g = LayoutTestGenerator::new();
    g.on_type_seen("Blob", TypeKind::Union);
    let out = g.generate_layout_tests();
    assert_eq!(unit_count(&out), 0);
    assert!(g.is_excluded("Blob"));
}

#[test]
fn scenario_post_hoc_exclusion() {
    let mut g = LayoutTestGenerator::new();
    g.on_type_seen("Foo", TypeKind::Struct);
    g.on_field_seen("Foo", "a");
    g.blocklist_type("Fo.*").unwrap();
    let out = g.generate_layout_tests();
    assert_eq!(unit_count(&out), 0);
}

#[test]
fn scenario_field_order_does_not_show() {
    let mut g1 = LayoutTestGenerator::new();
    g1.on_type_seen("Point", TypeKind::Struct);
    g1.on_field_seen("Point", "x");
    g1.on_field_seen("Point", "y");
    let mut g2 = LayoutTestGenerator::new();
    g2.on_type_seen("Point", TypeKind::Struct);
    g2.on_field_seen("Point", "y");
    g2.on_field_seen("Point", "x");
    assert_eq!(g1.generate_layout_tests(), g2.generate_layout_tests());
}

#[test]
fn generation_is_idempotent() {
    let mut g = LayoutTestGenerator::new();
    g.on_header_seen("3ds.h");
    g.on_type_seen("Point", TypeKind::Struct);
    g.on_field_seen("Point", "x");
    let first = g.generate_layout_tests();
    let second = g.generate_layout_tests();
    assert_eq!(first, second);
}

#[test]
fn type_order_does_not_show() {
    let mut g1 = LayoutTestGenerator::new();
    g1.on_type_seen("Beta", TypeKind::Struct);
    g1.on_type_seen("Alpha", TypeKind::Struct);
    let mut g2 = LayoutTestGenerator::new();
    g2.on_type_seen("Alpha", TypeKind::Struct);
    g2.on_type_seen("Beta", TypeKind::Struct);
    let out1 = g1.generate_layout_tests();
    let out2 = g2.generate_layout_tests();
    assert_eq!(out1, out2);
    // and the units come in name order
    let a = out1.find("fn layout_test_Alpha()").unwrap();
    let b = out1.find("fn layout_test_Beta()").unwrap();
    assert!(a < b);
}

#[test]
fn headers_are_sorted_and_deduplicated() {
    let mut g = LayoutTestGenerator::new();
    g.on_header_seen("b.h");
    g.on_header_seen("a.h");
    g.on_header_seen("b.h");
    let headers = g.headers();
    assert_eq!(headers.len(), 2);
    assert_eq!(headers.get(0), "a.h");
    assert_eq!(headers.get(1), "b.h");
}

#[test]
fn duplicate_field_events_are_idempotent() {
    let mut g = LayoutTestGenerator::new();
    g.on_type_seen("Point", TypeKind::Struct);
    g.on_field_seen("Point", "x");
    g.on_field_seen("Point", "x");
    let out = g.generate_layout_tests();
    // two whole-type assertions plus three for the single distinct field
    assert_eq!(assert_count(&out), 5);
}

#[test]
fn field_event_before_type_event() {
    let mut g = LayoutTestGenerator::new();
    g.on_field_seen("Late", "v");
    g.on_type_seen("Late", TypeKind::Struct);
    let out = g.generate_layout_tests();
    assert_eq!(unit_count(&out), 1);
    assert_eq!(assert_count(&out), 5);
}

#[test]
fn enum_kind_gets_a_unit() {
    let mut g = LayoutTestGenerator::new();
    g.on_type_seen("Mode", TypeKind::Enum);
    let out = g.generate_layout_tests();
    assert_eq!(unit_count(&out), 1);
    assert!(out.contains("fn layout_test_Mode()"));
    // a field-less type keeps just the two whole-type assertions
    assert_eq!(assert_count(&out), 2);
}

#[test]
fn union_fields_are_never_emitted() {
    let mut g = LayoutTestGenerator::new();
    g.on_type_seen("Blob", TypeKind::Union);
    g.on_field_seen("Blob", "data");
    let out = g.generate_layout_tests();
    assert_eq!(unit_count(&out), 0);
}

#[test]
fn exclusion_query_registers_exact_name() {
    let mut g = LayoutTestGenerator::new();
    g.on_exclusion_query("Opaque");
    g.on_type_seen("Opaque", TypeKind::Struct);
    g.on_type_seen("OpaqueExtra", TypeKind::Struct);
    let out = g.generate_layout_tests();
    // the queried name is suppressed exactly; a longer name is not
    assert!(g.is_excluded("Opaque"));
    assert!(!g.is_excluded("OpaqueExtra"));
    assert_eq!(unit_count(&out), 1);
    assert!(out.contains("fn layout_test_OpaqueExtra()"));
}

#[test]
fn invalid_pattern_is_rejected() {
    let mut g = LayoutTestGenerator::new();
    g.on_type_seen("Point", TypeKind::Struct);
    let before = g.generate_layout_tests();
    assert_eq!(g.blocklist_type("("), Err(Error::InvalidPattern));
    let after = g.generate_layout_tests();
    assert_eq!(before, after);
}

#[test]
fn pattern_matches_decide_exclusion() {
    let mut g = LayoutTestGenerator::new();
    g.blocklist_type("Wid.*").unwrap();
    assert!(g.is_excluded("Widget"));
    assert!(!g.is_excluded("Gadget"));
}

#[test]
fn empty_registry_renders_the_preamble_alone() {
    let g = LayoutTestGenerator::new();
    assert_eq!(g.generate_layout_tests(), build_preamble());
}

#[test]
fn assert_text_is_exact() {
    let built = build_assert_eq("a", "b");
    let expected = "    assert_eq!(\n        a,\n        cpp!(unsafe [] -> usize as \"size_t\" { return b; }),\n        \"{} != {}\",\n        \"a\",\n        \"b\",\n    );\n";
    assert_eq!(built, expected);
}

#[test]
fn preamble_declares_the_projection_queries() {
    let p = build_preamble();
    assert!(p.starts_with("use cpp::cpp;\n"));
    assert!(p.contains("fn size_of_ret<T, U>(_f: impl Fn(U) -> T) -> usize"));
    assert!(p.contains("fn align_of_ret<T, U>(_f: impl Fn(U) -> T) -> usize"));
}

#[test]
fn field_assertions_cover_size_align_offset() {
    let mut g = LayoutTestGenerator::new();
    g.on_type_seen("Point", TypeKind::Struct);
    g.on_field_seen("Point", "x");
    let out = g.generate_layout_tests();
    assert!(out.contains("size_of_ret(|x: Point| x.x)"));
    assert!(out.contains("sizeof(Point::x)"));
    assert!(out.contains("align_of_ret(|x: Point| x.x)"));
    assert!(out.contains("alignof(Point::x)"));
    assert!(out.contains("::std::mem::offset_of!(Point, x)"));
    assert!(out.contains("offsetof(Point, x)"));
    assert!(out.contains("::std::mem::size_of::<Point>()"));
    assert!(out.contains("sizeof(Point)"));
    assert!(out.contains("::std::mem::align_of::<Point>()"));
    assert!(out.contains("alignof(Point)"));
}
