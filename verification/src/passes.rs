//! The reduction passes and the outcome of one run of the interestingness
//! script.

use crate::app::App;
use crate::app::PassesConfig;
use crate::app::PassesV;
use crate::error::Error;
use crate::error::ErrorV;
use crate::rewrite::spans_wf;
use crate::rewrite::Span;
use crate::treesitter::select_imports;
use crate::treesitter::select_imports_spec;
use crate::treesitter::select_top;
use crate::treesitter::select_top_spec;
use vstd::prelude::*;
use vstd::string::StrSliceExecFns;
use vstd::string::StringExecFns;

verus! {

/// Outcomes for test frameworks defined at POSIX 1003.3.
/// See: POSIX 1003.3: 1.4 A POSIX compliant test framework.
#[derive(Debug, Clone, Copy, PartialEq, Eq, Structural)]
pub enum TestOutcome {
    /// Test succeeds
    Pass,
    /// Test produced a failure
    Fail,
    /// Test produced intermediate results
    Unresolved,
}

/// How one run of the script is classified.  `ran` says whether the script
/// was spawned and exited on its own (neither a spawn failure nor a timeout
/// nor a wait failure); `exit_zero` whether its exit status was zero.
pub open spec fn classify_spec(ran: bool, exit_zero: bool) -> TestOutcome {
    if !ran {
        TestOutcome::Unresolved
    } else if exit_zero {
        TestOutcome::Pass
    } else {
        TestOutcome::Fail
    }
}

/// Classifies one run of the interestingness script: exit code zero means
/// the candidate passes (is uninteresting), a non-zero exit means it fails
/// (is interesting), and a run that could not be completed — spawn failure,
/// timeout, wait failure — is unresolved.
pub fn classify_outcome(ran: bool, exit_zero: bool) -> (r: TestOutcome)
    ensures
        r == classify_spec(ran, exit_zero),
{
    if !ran {
        TestOutcome::Unresolved
    } else if exit_zero {
        TestOutcome::Pass
    } else {
        TestOutcome::Fail
    }
}

/// The reduction passes, in their run order.
#[derive(Debug, Clone, Copy, PartialEq, Eq, Structural)]
pub enum PassId {
    /// Remove top-level `require(...)` calls.
    Imports,
    /// Remove top-level statements.
    Top,
}

/// The name of a pass, used for its temporary directory.
pub open spec fn pass_name_spec(p: PassId) -> Seq<char> {
    match p {
        PassId::Imports => "Imports"@,
        PassId::Top => "Top"@,
    }
}

/// The name of a pass.
pub fn pass_name(p: PassId) -> (r: String)
    ensures
        r@ == pass_name_spec(p),
{
    match p {
        PassId::Imports => String::from_str("Imports"),
        PassId::Top => String::from_str("Top"),
    }
}

/// A directory name under the output directory: the output directory joined
/// with `name`, inserting a `/` unless one is already there.
pub open spec fn joined_dir_spec(outdir: Seq<char>, name: Seq<char>) -> Seq<char> {
    if outdir.len() > 0 && outdir.last() == '/' {
        outdir + name
    } else {
        outdir + "/"@ + name
    }
}

/// Joins the output directory with a name.
pub fn joined_dir(outdir: &str, name: &str) -> (r: String)
    ensures
        r@ == joined_dir_spec(outdir@, name@),
{
    let n = outdir.unicode_len();
    let mut out = String::from_str(outdir);
    if n == 0 || outdir.get_char(n - 1) != '/' {
        out.append("/");
    }
    out.append(name);
    out
}

/// What selecting a pass's candidates yields on a source: the byte ranges of
/// the removable nodes, in ascending source order.
pub open spec fn select_spec(p: PassId, src: Seq<u8>) -> Result<Seq<Span>, ErrorV> {
    match p {
        PassId::Imports => select_imports_spec(src),
        PassId::Top => select_top_spec(src),
    }
}

/// Selects a pass's candidates.
pub fn select_pass(p: PassId, src: &Vec<u8>) -> (r: Result<Vec<Span>, Error>)
    ensures
        match r {
            Ok(rs) => select_spec(p, src@) == Ok::<Seq<Span>, ErrorV>(rs@) && spans_wf(
                rs@,
                src@.len(),
            ),
            Err(e) => select_spec(p, src@) == Err::<Seq<Span>, ErrorV>(e@),
        },
{
    match p {
        PassId::Imports => select_imports(src),
        PassId::Top => select_top(src),
    }
}

/// The pass that reduces the set of `require(...)` calls.
pub struct PassImports {
    /// The root of the temporary directories of the run.
    pub output_dir: String,
}

impl PassImports {
    /// Builds the pass from a configuration.
    pub fn from_app(app: &App) -> (r: Result<PassImports, String>)
        ensures
            r matches Ok(p) && p.output_dir@ == app.output_dir@,
    {
        Ok(PassImports { output_dir: app.output_dir.clone() })
    }

    /// Returns name of this pass.
    pub fn name(&self) -> (r: String)
        ensures
            r@ == pass_name_spec(PassId::Imports),
    {
        pass_name(PassId::Imports)
    }

    /// Returns the temporary directory used by this pass.
    pub fn temp_dir(&self) -> (r: String)
        ensures
            r@ == joined_dir_spec(self.output_dir@, pass_name_spec(PassId::Imports)),
    {
        let name = self.name();
        joined_dir(self.output_dir.as_str(), name.as_str())
    }

    /// Returns the candidate sequence of this pass on a source: the byte
    /// ranges of every error-free top-level `require(...)` call.
    pub fn select(&self, source: &Vec<u8>) -> (r: Result<Vec<Span>, Error>)
        ensures
            match r {
                Ok(rs) => select_spec(PassId::Imports, source@) == Ok::<Seq<Span>, ErrorV>(rs@),
                Err(e) => select_spec(PassId::Imports, source@) == Err::<Seq<Span>, ErrorV>(e@),
            },
    {
        select_pass(PassId::Imports, source)
    }

    /// Builds the reducer that runs this pass alone over `source`.
    pub fn run(&self, source: Vec<u8>) -> (r: Result<crate::driver::Reducer, Error>)
        ensures
            match r {
                Ok(m) => crate::driver::init_model(
                    self.output_dir@,
                    PassesV { imports: true, top: false, order: seq![PassId::Imports] },
                    source@,
                ) == Ok::<crate::driver::MState, ErrorV>(m@) && crate::driver::m_wf(m@),
                Err(e) => crate::driver::init_model(
                    self.output_dir@,
                    PassesV { imports: true, top: false, order: seq![PassId::Imports] },
                    source@,
                ) == Err::<crate::driver::MState, ErrorV>(e@),
            },
    {
        let mut order: Vec<PassId> = Vec::new();
        order.push(PassId::Imports);
        let cfg = PassesConfig { imports: true, top: false, order };
        proof {
            assert(cfg@.order =~= seq![PassId::Imports]);
        }
        crate::driver::build_reducer(&self.output_dir, &cfg, source)
    }
}

/// The pass that reduces whole top-level statements.
pub struct PassTop {
    /// The root of the temporary directories of the run.
    pub output_dir: String,
}

impl PassTop {
    /// Builds the pass from a configuration.
    pub fn from_app(app: &App) -> (r: Result<PassTop, Error>)
        ensures
            r matches Ok(p) && p.output_dir@ == app.output_dir@,
    {
        Ok(PassTop { output_dir: app.output_dir.clone() })
    }

    /// Returns name of this pass.
    pub fn name(&self) -> (r: String)
        ensures
            r@ == pass_name_spec(PassId::Top),
    {
        pass_name(PassId::Top)
    }

    /// Returns the temporary directory used by this pass.
    pub fn temp_dir(&self) -> (r: String)
        ensures
            r@ == joined_dir_spec(self.output_dir@, pass_name_spec(PassId::Top)),
    {
        let name = self.name();
        joined_dir(self.output_dir.as_str(), name.as_str())
    }

    /// Returns the candidate sequence of this pass on a source: the byte
    /// ranges of the error-free top-level statements.
    pub fn select(&self, source: &Vec<u8>) -> (r: Result<Vec<Span>, Error>)
        ensures
            match r {
                Ok(rs) => select_spec(PassId::Top, source@) == Ok::<Seq<Span>, ErrorV>(rs@),
                Err(e) => select_spec(PassId::Top, source@) == Err::<Seq<Span>, ErrorV>(e@),
            },
    {
        select_pass(PassId::Top, source)
    }

    /// Builds the reducer that runs this pass alone over `source`.
    pub fn run(&self, source: Vec<u8>) -> (r: Result<crate::driver::Reducer, Error>)
        ensures
            match r {
                Ok(m) => crate::driver::init_model(
                    self.output_dir@,
                    PassesV { imports: false, top: true, order: seq![PassId::Top] },
                    source@,
                ) == Ok::<crate::driver::MState, ErrorV>(m@) && crate::driver::m_wf(m@),
                Err(e) => crate::driver::init_model(
                    self.output_dir@,
                    PassesV { imports: false, top: true, order: seq![PassId::Top] },
                    source@,
                ) == Err::<crate::driver::MState, ErrorV>(e@),
            },
    {
        let mut order: Vec<PassId> = Vec::new();
        order.push(PassId::Top);
        let cfg = PassesConfig { imports: false, top: true, order };
        proof {
            assert(cfg@.order =~= seq![PassId::Top]);
        }
        crate::driver::build_reducer(&self.output_dir, &cfg, source)
    }
}

} // verus!
