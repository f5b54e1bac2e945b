use dd::app::parse_passes;
use dd::app::App;
use dd::driver::run_app;
use dd::driver::Action;
use dd::error::Error;
use dd::passes::TestOutcome;

/// Runs the reducer over `source` with the given passes, classifying each
/// candidate with `pred` in place of an external script.
fn scenario_reduce(
    source: &str,
    passes: &str,
    pred: fn(&str) -> TestOutcome,
) -> Result<String, Error> {
    let mut app = App::new();
    app.passes = parse_passes(Some(passes)).unwrap();
    let mut r = run_app(&app, source.as_bytes().to_vec())?;
    loop {
        match r.current_action() {
            Action::Run { path: _, content } => {
                let text = String::from_utf8(content).unwrap();
                r.step(pred(&text));
            }
            Action::Done { result } => {
                return result.map(|bytes| String::from_utf8(bytes).unwrap());
            }
        }
    }
}

fn scenario_wants_assert_false(s: &str) -> TestOutcome {
    if s.contains("assert(false)") {
        TestOutcome::Fail
    } else {
        TestOutcome::Pass
    }
}

/// A predicate that never finishes in time: every trial is unresolved, as
/// with a script that sleeps past its timeout.
fn sleepy(_s: &str) -> TestOutcome {
    TestOutcome::Unresolved
}

/// When every trial times out, the reducer finishes with the unmodified
/// input.
#[test]
fn timeout_keeps_input_unmodified() {
    let source = "
function foo()  assert(false) end
function bar()  return false  end
function baz()  assert(false) end
function main() foo() end
";
    let got = scenario_reduce(source, "top", sleepy).unwrap();
    assert_eq!(got, source);
}

/// Running the reducer a second time, on its own output and with the same
/// deterministic predicate, reproduces that output.
#[test]
fn reducing_twice_is_idempotent() {
    let source = "
function foo()  assert(false) end
function bar()  return false  end
function baz()  assert(false) end
function main() foo() end
";
    let first = scenario_reduce(source, "top", scenario_wants_assert_false).unwrap();
    let second = scenario_reduce(&first, "top", scenario_wants_assert_false).unwrap();
    assert_eq!(first, second);
}

/// The reduced source is never longer than the input, and still fails the
/// predicate.
#[test]
fn reduction_is_monotone_and_sound() {
    let source = "
require(\"mod1\")
function main() print(\"test\") end
function test() assert(false) end
";
    let got = scenario_reduce(source, "top", scenario_wants_assert_false).unwrap();
    assert!(got.len() <= source.len());
    assert_eq!(scenario_wants_assert_false(&got), TestOutcome::Fail);
}

/// The `--passes` string sets the run order: the first trial file of a run
/// lives under the directory of the first-named pass.
#[test]
fn passes_run_in_string_order() {
    let source = "require(\"mod1\")\nfunction f() assert(false) end\n";
    let mut app = App::new();
    app.passes = parse_passes(Some("top;imports")).unwrap();
    let r = run_app(&app, source.as_bytes().to_vec()).unwrap();
    match r.current_action() {
        Action::Run { path, content: _ } => assert!(path.starts_with("/tmp/dd/Top/")),
        Action::Done { result: _ } => panic!("expected a first trial"),
    }
    let mut app = App::new();
    app.passes = parse_passes(Some("imports;top")).unwrap();
    let r = run_app(&app, source.as_bytes().to_vec()).unwrap();
    match r.current_action() {
        Action::Run { path, content: _ } => assert!(path.starts_with("/tmp/dd/Imports/")),
        Action::Done { result: _ } => panic!("expected a first trial"),
    }
}

/// A single pass can be run on its own through the pass type itself.
#[test]
fn single_pass_runner_reduces() {
    let app = App::new();
    let top = dd::passes::PassTop::from_app(&app).unwrap();
    let source = "
function foo()  assert(false) end
function bar()  return false  end
";
    let mut r = top.run(source.as_bytes().to_vec()).unwrap();
    let got = loop {
        match r.current_action() {
            Action::Run { path: _, content } => {
                let text = String::from_utf8(content).unwrap();
                r.step(scenario_wants_assert_false(&text));
            }
            Action::Done { result } => break result.unwrap(),
        }
    };
    assert_eq!(
        String::from_utf8(got).unwrap().replace("\n", ""),
        "function foo()  assert(false) end"
    );
}

/// Every trial gets a fresh file path under the pass's temporary directory.
#[test]
fn trial_paths_are_unique() {
    let mut app = App::new();
    app.passes = parse_passes(Some("top")).unwrap();
    let source = "
function foo()  assert(false) end
function bar()  return false  end
function baz()  assert(false) end
function main() foo() end
";
    let mut r = run_app(&app, source.as_bytes().to_vec()).unwrap();
    let mut paths: Vec<String> = Vec::new();
    loop {
        match r.current_action() {
            Action::Run { path, content } => {
                assert!(path.starts_with("/tmp/dd/Top/"));
                assert!(!paths.contains(&path));
                paths.push(path);
                let text = String::from_utf8(content).unwrap();
                r.step(scenario_wants_assert_false(&text));
            }
            Action::Done { result: _ } => break,
        }
    }
    assert_eq!(paths[0], "/tmp/dd/Top/1");
    assert!(paths.len() >= 2);
}
