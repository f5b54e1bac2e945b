use dd::app::parse_passes;
use dd::app::App;
use dd::driver::run_app;
use dd::driver::Action;
use dd::error::Error;
use dd::passes::TestOutcome;

/// Runs the reducer over `source` with the given passes, classifying each
/// candidate with `pred` in place of an external script.
fn imports_reduce(
    source: &str,
    passes: &str,
    pred: fn(&str) -> TestOutcome,
) -> Result<String, Error> {
    let mut app = App::new();
    app.passes = parse_passes(Some(passes)).unwrap();
    let mut r = run_app(&app, source.as_bytes().to_vec())?;
    loop {
        match r.current_action() {
            Action::Run { path: _, content } => {
                let text = String::from_utf8(content).unwrap();
                r.step(pred(&text));
            }
            Action::Done { result } => {
                return result.map(|bytes| String::from_utf8(bytes).unwrap());
            }
        }
    }
}

/// The predicate of the script `! grep -q -E "require\(\"mod2\"\)" $1`: the
/// candidate is interesting exactly when it still requires `mod2`.
fn wants_mod2(s: &str) -> TestOutcome {
    if s.contains("require(\"mod2\")") {
        TestOutcome::Fail
    } else {
        TestOutcome::Pass
    }
}

#[test]
fn lua_requires_1() {
    let got = imports_reduce(
        "require(\"mod1\")
require(\"mod2\")
require(\"mod3\")
require(\"mod4\")
",
        "imports",
        wants_mod2,
    )
    .unwrap();
    assert_eq!(got.replace("\n", ""), "require(\"mod2\")".replace("\n", ""));
}
