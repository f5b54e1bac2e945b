use dd::app::parse_passes;
use dd::app::App;
use dd::driver::run_app;
use dd::driver::Action;
use dd::error::Error;
use dd::passes::TestOutcome;

/// Runs the reducer over `source` with the given passes, classifying each
/// candidate with `pred` in place of an external script.
fn multi_reduce(
    source: &str,
    passes: &str,
    pred: fn(&str) -> TestOutcome,
) -> Result<String, Error> {
    let mut app = App::new();
    app.passes = parse_passes(Some(passes)).unwrap();
    let mut r = run_app(&app, source.as_bytes().to_vec())?;
    loop {
        match r.current_action() {
            Action::Run { path: _, content } => {
                let text = String::from_utf8(content).unwrap();
                r.step(pred(&text));
            }
            Action::Done { result } => {
                return result.map(|bytes| String::from_utf8(bytes).unwrap());
            }
        }
    }
}

/// The predicate of the script
/// `! grep -q -E "assert\(false\)" $1 && ! grep -q -E 'require\("mod1"\)' $1`:
/// the candidate is interesting when it contains `assert(false)` or still
/// requires `mod1`.
fn wants_assert_or_mod1(s: &str) -> TestOutcome {
    if s.contains("assert(false)") || s.contains("require(\"mod1\")") {
        TestOutcome::Fail
    } else {
        TestOutcome::Pass
    }
}

#[test]
fn multiple_passes_multiple_passes_1() {
    let got = multi_reduce(
        "
require(\"mod1\")
function main() print(\"test\") end
function test() assert(false) end
",
        "top;imports",
        wants_assert_or_mod1,
    )
    .unwrap();
    assert_eq!(got.replace("\n", ""), "require(\"mod1\")".replace("\n", ""));
}
