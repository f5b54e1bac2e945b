use dd::app::parse_passes;
use dd::app::App;
use dd::driver::run_app;
use dd::driver::Action;
use dd::error::Error;
use dd::passes::TestOutcome;

/// Runs the reducer over `source` with the given passes, classifying each
/// candidate with `pred` in place of an external script.
fn top_reduce(source: &str, passes: &str, pred: fn(&str) -> TestOutcome) -> Result<String, Error> {
    let mut app = App::new();
    app.passes = parse_passes(Some(passes)).unwrap();
    let mut r = run_app(&app, source.as_bytes().to_vec())?;
    loop {
        match r.current_action() {
            Action::Run { path: _, content } => {
                let text = String::from_utf8(content).unwrap();
                r.step(pred(&text));
            }
            Action::Done { result } => {
                return result.map(|bytes| String::from_utf8(bytes).unwrap());
            }
        }
    }
}

/// The predicate of the script `! grep -q -E "assert\(false\)" $1`: the
/// candidate is interesting exactly when it contains `assert(false)`.
fn top_wants_assert_false(s: &str) -> TestOutcome {
    if s.contains("assert(false)") {
        TestOutcome::Fail
    } else {
        TestOutcome::Pass
    }
}

#[test]
fn lua_top_1() {
    let got = top_reduce(
        "
function foo()  assert(false) end
function bar()  return false  end
function baz()  assert(false) end
function main() foo() end
",
        "top",
        top_wants_assert_false,
    )
    .unwrap();
    assert_eq!(
        got.replace("\n", ""),
        "function foo()  assert(false) end".replace("\n", "")
    );
}
