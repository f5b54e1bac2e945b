use dd::app::parse_passes;
use dd::app::App;
use dd::driver::u64_to_string;
use dd::error::Error;
use dd::passes::classify_outcome;
use dd::passes::joined_dir;
use dd::passes::PassId;
use dd::passes::PassImports;
use dd::passes::PassTop;
use dd::passes::TestOutcome;
use dd::rewrite::delete_ranges;
use dd::rewrite::node_source;

#[test]
fn parse_passes_single() {
    let c = parse_passes(Some("imports")).unwrap();
    assert!(c.imports);
    assert!(!c.top);
    assert_eq!(c.order, vec![PassId::Imports]);
    let c = parse_passes(Some("top")).unwrap();
    assert!(!c.imports);
    assert!(c.top);
    assert_eq!(c.order, vec![PassId::Top]);
}

#[test]
fn parse_passes_both_orders() {
    let c = parse_passes(Some("imports;top")).unwrap();
    assert!(c.imports && c.top);
    assert_eq!(c.order, vec![PassId::Imports, PassId::Top]);
    let c = parse_passes(Some("top;imports")).unwrap();
    assert!(c.imports && c.top);
    assert_eq!(c.order, vec![PassId::Top, PassId::Imports]);
}

#[test]
fn parse_passes_repeats_keep_first_position() {
    let c = parse_passes(Some("top;top;imports;top")).unwrap();
    assert_eq!(c.order, vec![PassId::Top, PassId::Imports]);
}

#[test]
fn parse_passes_unknown_name() {
    let e = parse_passes(Some("imports;loops")).unwrap_err();
    assert_eq!(e, "Unknown pass: loops");
}

#[test]
fn parse_passes_empty_segment() {
    let e = parse_passes(Some("top;")).unwrap_err();
    assert_eq!(e, "Unknown pass: ");
}

#[test]
fn parse_passes_missing() {
    let e = parse_passes(None).unwrap_err();
    assert_eq!(e, "No passes enabled");
}

#[test]
fn app_defaults() {
    let app = App::new();
    assert_eq!(app.script, "");
    assert_eq!(app.file, "");
    assert_eq!(app.output_dir, "/tmp/dd/");
    assert!(app.timeout.is_none());
    assert!(!app.force);
    assert!(!app.recursive);
    assert!(app.passes.imports && app.passes.top);
    assert_eq!(app.passes.order, vec![PassId::Imports, PassId::Top]);
}

#[test]
fn classify_outcomes() {
    assert_eq!(classify_outcome(true, true), TestOutcome::Pass);
    assert_eq!(classify_outcome(true, false), TestOutcome::Fail);
    assert_eq!(classify_outcome(false, true), TestOutcome::Unresolved);
    assert_eq!(classify_outcome(false, false), TestOutcome::Unresolved);
}

#[test]
fn error_messages() {
    let e = Error::new(String::from("boom"));
    assert_eq!(e.message(), "boom");
    assert_eq!(Error::NoChange.message(), "input did not cause a failure");
    let from: Error = String::from("late").into();
    assert_eq!(from.message(), "late");
}

#[test]
fn delete_ranges_drops_exactly_the_spans() {
    let src: Vec<u8> = b"abcdefghij".to_vec();
    let out = delete_ranges(&src, &vec![(1, 3), (5, 6), (8, 10)]);
    assert_eq!(out, b"adegh".to_vec());
    let none = delete_ranges(&src, &vec![]);
    assert_eq!(none, src);
    let all = delete_ranges(&src, &vec![(0, 10)]);
    assert_eq!(all, b"".to_vec());
}

#[test]
fn node_source_returns_the_span_text() {
    let src: Vec<u8> = b"local x = 1".to_vec();
    assert_eq!(node_source(&src, (0, 5)), b"local".to_vec());
    assert_eq!(node_source(&src, (6, 7)), b"x".to_vec());
}

#[test]
fn pass_names_and_temp_dirs() {
    let mut app = App::new();
    let imports = PassImports::from_app(&app).unwrap();
    assert_eq!(imports.name(), "Imports");
    assert_eq!(imports.temp_dir(), "/tmp/dd/Imports");
    let top = PassTop::from_app(&app).unwrap();
    assert_eq!(top.name(), "Top");
    assert_eq!(top.temp_dir(), "/tmp/dd/Top");
    app.output_dir = String::from("/var/out");
    let top = PassTop::from_app(&app).unwrap();
    assert_eq!(top.temp_dir(), "/var/out/Top");
    assert_eq!(joined_dir("", "Top"), "/Top");
}

#[test]
fn counters_render_in_decimal() {
    assert_eq!(u64_to_string(0), "0");
    assert_eq!(u64_to_string(7), "7");
    assert_eq!(u64_to_string(42), "42");
    assert_eq!(u64_to_string(1000), "1000");
    assert_eq!(u64_to_string(18446744073709551615), "18446744073709551615");
}

#[test]
fn select_top_finds_the_statements() {
    let app = App::new();
    let top = PassTop::from_app(&app).unwrap();
    let src = b"function foo() end\nfunction bar() end\n".to_vec();
    let spans = top.select(&src).unwrap();
    assert_eq!(spans.len(), 2);
    assert_eq!(node_source(&src, spans[0]), b"function foo() end".to_vec());
    assert_eq!(node_source(&src, spans[1]), b"function bar() end".to_vec());
}

#[test]
fn select_imports_finds_only_requires() {
    let app = App::new();
    let imports = PassImports::from_app(&app).unwrap();
    let src = b"require(\"mod1\")\nprint(\"x\")\nrequire(\"mod2\")\n".to_vec();
    let spans = imports.select(&src).unwrap();
    assert_eq!(spans.len(), 2);
    assert_eq!(node_source(&src, spans[0]), b"require(\"mod1\")".to_vec());
    assert_eq!(node_source(&src, spans[1]), b"require(\"mod2\")".to_vec());
}

#[test]
fn select_copes_with_multibyte_text() {
    let app = App::new();
    let top = PassTop::from_app(&app).unwrap();
    let src = "print(\"\u{e9}t\u{e9}\")\nfunction f() end\n".as_bytes().to_vec();
    let spans = top.select(&src).unwrap();
    assert_eq!(spans.len(), 2);
    assert_eq!(
        node_source(&src, spans[0]),
        "print(\"\u{e9}t\u{e9}\")".as_bytes().to_vec()
    );
}
