use std::collections::HashMap;

use ctru_sys::generator::{Event, GenerateError, LayoutTestGenerator, Response, TypeKind};
use ctru_sys::synth::build_tests;

fn field_seen(owner: &str, field: &str) -> Event {
    Event::FieldSeen { owner: owner.to_string(), field: field.to_string() }
}

fn count(haystack: &str, needle: &str) -> usize {
    haystack.matches(needle).count()
}

#[test]
fn construct_hash_map() {
    let mut input = vec![
        (1_i32, String::from("123")),
        (2, String::from("2")),
        (6, String::from("six")),
    ];

    let map: HashMap<i32, String> = HashMap::from_iter(input.clone());

    let mut actual: Vec<_> = map.into_iter().collect();
    input.sort();
    actual.sort();

    assert_eq!(input, actual);
}

#[test]
fn scenario_no_rules_two_fields() {
    let mut g = LayoutTestGenerator::new();
    g.handle_event(field_seen("Foo", "a")).unwrap();
    g.handle_event(field_seen("Foo", "b")).unwrap();
    let (suite, notices) = build_tests(&g.facts, &g.blocklist);
    assert_eq!(count(&suite, "fn layout_test_"), 1);
    assert_eq!(count(&suite, "assert_eq!"), 8);
    assert!(suite.contains("fn layout_test_Foo()"));
    assert!(notices.is_empty());
}

#[test]
fn scenario_field_rule_drops_one_field() {
    let mut g = LayoutTestGenerator::new();
    g.handle_event(field_seen("Foo", "a")).unwrap();
    g.handle_event(field_seen("Foo", "b")).unwrap();
    g.blocklist_field("Foo", "b").unwrap();
    let (suite, notices) = build_tests(&g.facts, &g.blocklist);
    assert_eq!(count(&suite, "fn layout_test_"), 1);
    assert_eq!(count(&suite, "assert_eq!"), 5);
    assert!(suite.contains("Foo::a"));
    assert!(!suite.contains("Foo::b"));
    assert_eq!(notices, vec!["Skipping layout tests for Foo::b".to_string()]);
}

#[test]
fn scenario_type_rule_drops_unit() {
    let mut g = LayoutTestGenerator::new();
    g.handle_event(field_seen("Foo", "a")).unwrap();
    g.handle_event(field_seen("Foo", "b")).unwrap();
    g.blocklist_type("Foo").unwrap();
    let (suite, notices) = build_tests(&g.facts, &g.blocklist);
    assert_eq!(count(&suite, "fn layout_test_"), 0);
    assert_eq!(suite, "");
    assert_eq!(notices, vec!["Skipping layout tests for Foo".to_string()]);
}

#[test]
fn scenario_union_auto_exclusion() {
    let mut g = LayoutTestGenerator::new();
    let handled = g
        .handle_event(Event::TypeDiscovered { name: "Bar".to_string(), kind: TypeKind::Union })
        .unwrap();
    assert!(matches!(handled.response, Response::NoExtraDerives));
    assert_eq!(handled.notice, Some("Skipping layout tests for union Bar".to_string()));
    let (suite, notices) = build_tests(&g.facts, &g.blocklist);
    assert_eq!(suite, "");
    assert!(notices.is_empty());
}

#[test]
fn union_excluded_even_with_field_facts() {
    let mut g = LayoutTestGenerator::new();
    g.handle_event(Event::TypeDiscovered { name: "U".to_string(), kind: TypeKind::Union })
        .unwrap();
    g.handle_event(field_seen("U", "x")).unwrap();
    g.handle_event(field_seen("Safe", "y")).unwrap();
    let (suite, notices) = build_tests(&g.facts, &g.blocklist);
    assert_eq!(count(&suite, "fn layout_test_"), 1);
    assert!(suite.contains("fn layout_test_Safe()"));
    assert!(!suite.contains("fn layout_test_U()"));
    assert_eq!(notices, vec!["Skipping layout tests for U".to_string()]);
}

#[test]
fn struct_kind_is_not_excluded() {
    let mut g = LayoutTestGenerator::new();
    let handled = g
        .handle_event(Event::TypeDiscovered { name: "Foo".to_string(), kind: TypeKind::Struct })
        .unwrap();
    assert!(matches!(handled.response, Response::NoExtraDerives));
    assert!(handled.notice.is_none());
    g.handle_event(field_seen("Foo", "a")).unwrap();
    let (suite, _) = build_tests(&g.facts, &g.blocklist);
    assert!(suite.contains("fn layout_test_Foo()"));
}

#[test]
fn opaque_query_excludes_and_declines() {
    let mut g = LayoutTestGenerator::new();
    g.handle_event(field_seen("Hidden", "a")).unwrap();
    let handled = g
        .handle_event(Event::OpaqueTraitQuery { name: "Hidden".to_string() })
        .unwrap();
    assert!(matches!(handled.response, Response::Unknown));
    assert!(handled.notice.is_none());
    let (suite, notices) = build_tests(&g.facts, &g.blocklist);
    assert_eq!(suite, "");
    assert_eq!(notices, vec!["Skipping layout tests for Hidden".to_string()]);
}

#[test]
fn output_is_deterministic_across_runs_and_arrival_order() {
    let mut g1 = LayoutTestGenerator::new();
    g1.handle_event(field_seen("B", "y")).unwrap();
    g1.handle_event(field_seen("A", "x")).unwrap();
    g1.handle_event(field_seen("B", "z")).unwrap();

    let mut g2 = LayoutTestGenerator::new();
    g2.handle_event(field_seen("B", "z")).unwrap();
    g2.handle_event(field_seen("A", "x")).unwrap();
    g2.handle_event(field_seen("B", "y")).unwrap();

    let (s1, n1) = build_tests(&g1.facts, &g1.blocklist);
    let (s1_again, _) = build_tests(&g1.facts, &g1.blocklist);
    let (s2, n2) = build_tests(&g2.facts, &g2.blocklist);
    assert_eq!(s1, s1_again);
    assert_eq!(s1, s2);
    assert_eq!(n1, n2);
    // types come out sorted, so A's unit precedes B's
    let a = s1.find("fn layout_test_A()").unwrap();
    let b = s1.find("fn layout_test_B()").unwrap();
    assert!(a < b);
}

#[test]
fn repeated_facts_change_nothing() {
    let mut once = LayoutTestGenerator::new();
    once.handle_event(Event::HeaderSeen { path: "3ds.h".to_string() }).unwrap();
    once.handle_event(field_seen("Foo", "a")).unwrap();

    let mut twice = LayoutTestGenerator::new();
    twice.handle_event(Event::HeaderSeen { path: "3ds.h".to_string() }).unwrap();
    twice.handle_event(Event::HeaderSeen { path: "3ds.h".to_string() }).unwrap();
    twice.handle_event(field_seen("Foo", "a")).unwrap();
    twice.handle_event(field_seen("Foo", "a")).unwrap();

    assert_eq!(once.headers(), twice.headers());
    let (s1, n1) = build_tests(&once.facts, &once.blocklist);
    let (s2, n2) = build_tests(&twice.facts, &twice.blocklist);
    assert_eq!(s1, s2);
    assert_eq!(n1, n2);
    assert_eq!(count(&s1, "assert_eq!"), 5);
}

#[test]
fn headers_keep_arrival_order() {
    let mut g = LayoutTestGenerator::new();
    g.handle_event(Event::HeaderSeen { path: "b.h".to_string() }).unwrap();
    g.handle_event(Event::HeaderSeen { path: "a.h".to_string() }).unwrap();
    g.handle_event(Event::HeaderSeen { path: "b.h".to_string() }).unwrap();
    assert_eq!(g.headers(), &vec!["b.h".to_string(), "a.h".to_string()]);
}

#[test]
fn overlapping_rules_exclude_once() {
    let mut g = LayoutTestGenerator::new();
    g.handle_event(field_seen("Foo", "a")).unwrap();
    g.handle_event(field_seen("Foo", "b")).unwrap();
    g.blocklist_field("Foo", "b").unwrap();
    g.blocklist_field("Fo", "^b$").unwrap();
    let (suite, notices) = build_tests(&g.facts, &g.blocklist);
    assert_eq!(count(&suite, "fn layout_test_"), 1);
    assert_eq!(count(&suite, "assert_eq!"), 5);
    assert_eq!(notices, vec!["Skipping layout tests for Foo::b".to_string()]);
}

#[test]
fn patterns_match_as_regular_expressions() {
    let mut g = LayoutTestGenerator::new();
    g.handle_event(field_seen("Foo", "a")).unwrap();
    g.blocklist_type("Fo+").unwrap();
    let (suite, notices) = build_tests(&g.facts, &g.blocklist);
    assert_eq!(suite, "");
    assert_eq!(notices, vec!["Skipping layout tests for Foo".to_string()]);

    let mut g2 = LayoutTestGenerator::new();
    g2.handle_event(field_seen("Foo", "a")).unwrap();
    g2.blocklist_type("oo").unwrap();
    let (suite2, _) = build_tests(&g2.facts, &g2.blocklist);
    assert_eq!(suite2, "");
}

#[test]
fn bad_pattern_is_reported() {
    let mut g = LayoutTestGenerator::new();
    let err = g.blocklist_type("[").unwrap_err();
    assert_eq!(err.pattern, "[".to_string());
    let err2 = g.blocklist_field("Foo", "(").unwrap_err();
    assert_eq!(err2.pattern, "(".to_string());
    // a failed registration leaves the rules unchanged
    g.handle_event(field_seen("Foo", "a")).unwrap();
    let (suite, _) = build_tests(&g.facts, &g.blocklist);
    assert!(suite.contains("fn layout_test_Foo()"));
}

#[test]
fn all_fields_excluded_still_emits_unit() {
    let mut g = LayoutTestGenerator::new();
    g.handle_event(field_seen("Foo", "a")).unwrap();
    g.blocklist_field("Foo", ".*").unwrap();
    let (suite, notices) = build_tests(&g.facts, &g.blocklist);
    assert_eq!(count(&suite, "fn layout_test_"), 1);
    assert_eq!(count(&suite, "assert_eq!"), 2);
    assert_eq!(notices, vec!["Skipping layout tests for Foo::a".to_string()]);
}

#[test]
fn assertion_text_names_both_expressions() {
    let mut g = LayoutTestGenerator::new();
    g.handle_event(field_seen("Foo", "a")).unwrap();
    let (suite, _) = build_tests(&g.facts, &g.blocklist);
    assert!(suite.contains("size_of!(Foo)"));
    assert!(suite.contains("sizeof(Foo)"));
    assert!(suite.contains("align_of!(Foo)"));
    assert!(suite.contains("alignof(Foo)"));
    assert!(suite.contains("size_of!(Foo::a)"));
    assert!(suite.contains("offset_of!(Foo, a)"));
    assert!(suite.contains("offsetof(Foo, a)"));
    assert!(suite.contains("stringify!(size_of!(Foo))"));
    assert!(suite.contains("\"{} != {}\""));
}

#[test]
fn generated_suite_is_formatted() {
    let mut g = LayoutTestGenerator::new();
    g.handle_event(Event::HeaderSeen { path: "3ds.h".to_string() }).unwrap();
    g.handle_event(field_seen("Foo", "a")).unwrap();
    g.handle_event(field_seen("Foo", "b")).unwrap();
    let out = g.generate_layout_tests().unwrap();
    assert!(out.suite.contains("fn layout_test_Foo()"));
    assert_eq!(count(&out.suite, "assert_eq!"), 8);
    assert!(out.notices.is_empty());
    // pretty-printing normalizes the long single-line assertions
    let (raw, _) = build_tests(&g.facts, &g.blocklist);
    assert_ne!(out.suite, raw);
}

#[test]
fn fields_come_out_sorted() {
    let mut g = LayoutTestGenerator::new();
    g.handle_event(field_seen("Foo", "b")).unwrap();
    g.handle_event(field_seen("Foo", "a")).unwrap();
    assert_eq!(g.facts.types(), vec!["Foo".to_string()]);
    assert_eq!(g.facts.fields_of("Foo"), vec!["a".to_string(), "b".to_string()]);
    assert_eq!(g.facts.fields_of("Missing"), Vec::<String>::new());
}

#[test]
fn ipc_header_packs_the_fields() {
    assert_eq!(ctru_sys::ipc::IPC_MakeHeader(0x11, 2, 2), 0x0011_0082);
    assert_eq!(ctru_sys::ipc::IPC_MakeHeader(0, 0, 0), 0);
    assert_eq!(ctru_sys::ipc::IPC_MakeHeader(0xFFFF, 63, 63), 0xFFFF_0FFF);
    // parameter counts are capped to six bits
    assert_eq!(
        ctru_sys::ipc::IPC_MakeHeader(1, 64, 65),
        ctru_sys::ipc::IPC_MakeHeader(1, 0, 1)
    );
}

#[test]
fn current_process_handle_is_the_pseudo_handle() {
    assert_eq!(ctru_sys::svc::get_current_process(), 0xFFFF8001);
    assert_eq!(ctru_sys::svc::CUR_PROCESS_HANDLE, 0xFFFF8001);
}

#[test]
fn process_info_codes_skip_the_stubbed_range() {
    assert_eq!(ctru_sys::svc::ProcessInfoType::TotalPhysicalMemory.code(), 0);
    assert_eq!(ctru_sys::svc::ProcessInfoType::MaxThreads.code(), 8);
    assert_eq!(ctru_sys::svc::ProcessInfoType::MemRegion.code(), 19);
    assert_eq!(ctru_sys::svc::ProcessInfoType::QTMSize.code(), 23);
}

#[test]
fn unembeddable_name_is_refused() {
    let mut g = LayoutTestGenerator::new();
    g.handle_event(field_seen("Evil Name", "a")).unwrap();
    match g.generate_layout_tests() {
        Err(GenerateError::Name { name }) => assert_eq!(name, "Evil Name"),
        other => panic!("expected a name error, got {other:?}"),
    }

    let mut g2 = LayoutTestGenerator::new();
    g2.handle_event(field_seen("Fine", "bad field")).unwrap();
    match g2.generate_layout_tests() {
        Err(GenerateError::Name { name }) => assert_eq!(name, "bad field"),
        other => panic!("expected a name error, got {other:?}"),
    }
}

#[test]
fn artifact_holds_verbatim_directives_then_suite() {
    let mut g = LayoutTestGenerator::new();
    g.handle_event(Event::HeaderSeen { path: "3ds.h".to_string() }).unwrap();
    g.handle_event(Event::HeaderSeen { path: "other/path.h".to_string() }).unwrap();
    g.handle_event(field_seen("Foo", "a")).unwrap();
    let out = g.generate_layout_tests().unwrap();
    let artifact = g.render_artifact(&out.suite);
    let expected_block = "cpp! {{    #include \"3ds.h\"\n    #include \"other/path.h\"\n}}\n";
    assert!(artifact.starts_with(expected_block));
    assert_eq!(artifact[expected_block.len()..], out.suite);
}
