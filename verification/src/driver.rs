//! The driver: runs the enabled passes in the order the pass list names
//! them, feeding each pass the reduced source of the previous one, as a
//! state machine.
//!
//! [`run_app`] builds a [`Reducer`].  The caller repeatedly asks for the
//! [`Action`] to perform: on `Run`, it writes the candidate to the given
//! path, runs the interestingness script on it, and feeds the resulting
//! outcome back through [`Reducer::step`]; `Done` carries the final result.
//! Every transition equals the mathematical [`step_model`], so a whole run
//! is a function of the configuration, the input source and the sequence of
//! outcomes the environment reports.

use crate::app::App;
use crate::app::PassesConfig;
use crate::app::PassesV;
use crate::delta::dd_pending;
use crate::delta::dd_running;
use crate::delta::trial_source_at;
use crate::delta::trial_source;
use crate::delta::chunk_end;
use crate::delta::dd_step;
use crate::delta::dd_step_model;
use crate::delta::dd_wf;
use crate::delta::lemma_dd_step;
use crate::delta::DdState;
use crate::delta::DdStep;
use crate::delta::DdStepV;
use crate::delta::DdV;
use crate::error::Error;
use crate::error::ErrorV;
use crate::passes::joined_dir;
use crate::passes::joined_dir_spec;
use crate::passes::pass_name;
use crate::passes::pass_name_spec;
use crate::passes::select_pass;
use crate::passes::select_spec;
use crate::passes::PassId;
use crate::passes::TestOutcome;
use crate::rewrite::copy_bytes;
use crate::rewrite::copy_spans;
use crate::rewrite::utf8_check;
use crate::rewrite::Span;
use vstd::prelude::*;
use vstd::string::StringExecFns;
use vstd::utf8::valid_utf8;

verus! {

/// The decimal digits of `n`.
pub open spec fn dec_str(n: nat) -> Seq<char>
    decreases n,
{
    if n < 10 {
        digit_seq(n)
    } else {
        dec_str(n / 10) + digit_seq(n % 10)
    }
}

/// One decimal digit as text.
pub open spec fn digit_seq(d: nat) -> Seq<char> {
    if d == 0 {
        "0"@
    } else if d == 1 {
        "1"@
    } else if d == 2 {
        "2"@
    } else if d == 3 {
        "3"@
    } else if d == 4 {
        "4"@
    } else if d == 5 {
        "5"@
    } else if d == 6 {
        "6"@
    } else if d == 7 {
        "7"@
    } else if d == 8 {
        "8"@
    } else {
        "9"@
    }
}

/// One decimal digit as text.
fn digit_str(d: u64) -> (r: String)
    requires
        d < 10,
    ensures
        r@ == digit_seq(d as nat),
{
    if d == 0 {
        String::from_str("0")
    } else if d == 1 {
        String::from_str("1")
    } else if d == 2 {
        String::from_str("2")
    } else if d == 3 {
        String::from_str("3")
    } else if d == 4 {
        String::from_str("4")
    } else if d == 5 {
        String::from_str("5")
    } else if d == 6 {
        String::from_str("6")
    } else if d == 7 {
        String::from_str("7")
    } else if d == 8 {
        String::from_str("8")
    } else {
        String::from_str("9")
    }
}

/// Renders `n` in decimal.
pub fn u64_to_string(n: u64) -> (r: String)
    ensures
        r@ == dec_str(n as nat),
    decreases n,
{
    if n < 10 {
        digit_str(n)
    } else {
        let mut s = u64_to_string(n / 10);
        let d = digit_str(n % 10);
        s.append(d.as_str());
        s
    }
}

/// The path of the next trial's file: the pass's temporary directory, then
/// the trial counter as the file name.
pub open spec fn path_spec(outdir: Seq<char>, p: PassId, counter: u64) -> Seq<char> {
    joined_dir_spec(outdir, pass_name_spec(p)) + "/"@ + dec_str(counter as nat)
}

/// Builds the path of the next trial's file.
fn next_path(outdir: &String, p: PassId, counter: u64) -> (r: String)
    ensures
        r@ == path_spec(outdir@, p, counter),
{
    let name = pass_name(p);
    let mut s = joined_dir(outdir.as_str(), name.as_str());
    s.append("/");
    let num = u64_to_string(counter);
    s.append(num.as_str());
    s
}

/// The counter after one trial; the name sequence wraps rather than stop.
pub open spec fn bump(counter: u64) -> u64 {
    if counter == u64::MAX {
        0
    } else {
        (counter + 1) as u64
    }
}

/// The mathematical model of a [`Reducer`].
pub struct MState {
    /// The root of the temporary directories.
    pub output_dir: Seq<char>,
    /// The number of the next trial file.
    pub counter: u64,
    /// The passes not yet run.
    pub todo: Seq<PassId>,
    /// The input source of the whole run.
    pub original: Seq<u8>,
    /// The reduced source of the last pass that reported one.
    pub best: Option<Seq<u8>>,
    /// The delta-debugging engine of the current pass.
    pub dd: Option<DdV>,
    /// The candidate whose outcome the machine awaits.
    pub pending: Option<Seq<u8>>,
    /// The file path of the pending candidate.
    pub path: Seq<char>,
    /// The final result, once every pass has run or one has aborted.
    pub finished: Option<Result<Seq<u8>, ErrorV>>,
    /// Every candidate the environment reported `Fail` for.
    pub failed: Set<Seq<u8>>,
    /// Every candidate the environment reported `Pass` or `Unresolved` for.
    pub nonfailed: Set<Seq<u8>>,
}

/// The view of an optional byte vector.
pub open spec fn opt_bytes_view(o: &Option<Vec<u8>>) -> Option<Seq<u8>> {
    match o {
        Some(v) => Some(v@),
        None => None,
    }
}

/// The view of a result of bytes or error.
pub open spec fn result_view(r: &Result<Vec<u8>, Error>) -> Result<Seq<u8>, ErrorV> {
    match r {
        Ok(v) => Ok(v@),
        Err(e) => Err(e@),
    }
}

/// The reducer: a state machine over the outcomes of the interestingness
/// script.
pub struct Reducer {
    output_dir: String,
    counter: u64,
    todo: Vec<PassId>,
    original: Vec<u8>,
    best: Option<Vec<u8>>,
    dd: Option<DdState>,
    pending: Option<Vec<u8>>,
    path: String,
    finished: Option<Result<Vec<u8>, Error>>,
    failed: Ghost<Set<Seq<u8>>>,
    nonfailed: Ghost<Set<Seq<u8>>>,
}

impl View for Reducer {
    type V = MState;

    closed spec fn view(&self) -> MState {
        MState {
            output_dir: self.output_dir@,
            counter: self.counter,
            todo: self.todo@,
            original: self.original@,
            best: opt_bytes_view(&self.best),
            dd: match self.dd {
                Some(dd) => Some(dd@),
                None => None,
            },
            pending: opt_bytes_view(&self.pending),
            path: self.path@,
            finished: match &self.finished {
                Some(r) => Some(result_view(r)),
                None => None,
            },
            failed: self.failed@,
            nonfailed: self.nonfailed@,
        }
    }
}

/// What the environment must do next.
pub enum Action {
    /// Write `content` to the file at `path` and run the script on it.
    Run { path: String, content: Vec<u8> },
    /// The run is over: the reduced source, or why there is none.
    Done { result: Result<Vec<u8>, Error> },
}

/// The mathematical model of an [`Action`].
pub enum ActionV {
    Run(Seq<char>, Seq<u8>),
    Done(Result<Seq<u8>, ErrorV>),
}

impl View for Action {
    type V = ActionV;

    open spec fn view(&self) -> ActionV {
        match self {
            Action::Run { path, content } => ActionV::Run(path@, content@),
            Action::Done { result } => ActionV::Done(result_view(result)),
        }
    }
}

/// The action a machine state calls for.
pub open spec fn action_model(m: MState) -> ActionV {
    match m.finished {
        Some(res) => ActionV::Done(res),
        None => match m.pending {
            Some(c) => ActionV::Run(m.path, c),
            None => ActionV::Done(Err(ErrorV::NoChange)),
        },
    }
}

/// The passes a configuration enables, in their run order: the order the
/// `--passes` argument named them.
pub open spec fn todo_spec(cfg: PassesV) -> Seq<PassId> {
    cfg.order
}

/// Hands a candidate out: records it as pending under a fresh trial path.
pub open spec fn emit_model(m: MState, c: Seq<u8>) -> MState {
    match m.dd {
        Some(dd) => MState {
            pending: Some(c),
            path: path_spec(m.output_dir, dd.pass, m.counter),
            counter: bump(m.counter),
            ..m
        },
        None => m,
    }
}

/// Moves to the next pass: selects its candidates on the best source so far
/// and hands its initial test out; with no pass left, finishes with the best
/// source, or `NoChange` when no pass reduced anything.
pub open spec fn advance_model(m: MState) -> MState {
    if m.todo.len() == 0 {
        MState {
            finished: Some(
                match m.best {
                    Some(b) => Ok(b),
                    None => Err(ErrorV::NoChange),
                },
            ),
            ..m
        }
    } else {
        let p = m.todo[0];
        let input = match m.best {
            Some(b) => b,
            None => m.original,
        };
        match select_spec(p, input) {
            Err(e) => MState { finished: Some(Err(e)), todo: m.todo.skip(1), ..m },
            Ok(cands) => {
                let dd = DdV {
                    pass: p,
                    base: input,
                    cands: cands,
                    seq: cands,
                    source: input,
                    granularity: 2,
                    subset: 0,
                    start: 0,
                    initial: true,
                };
                emit_model(MState { dd: Some(dd), todo: m.todo.skip(1), ..m }, input)
            },
        }
    }
}

/// One transition of the reducer: record the outcome of the pending
/// candidate, let the engine decide, and either hand the next candidate out,
/// finish the pass and move on, or abort.
pub open spec fn step_model(m: MState, o: TestOutcome) -> MState {
    match (m.pending, m.dd) {
        (Some(c), Some(dd)) => {
            let m1 = MState {
                failed: if o is Fail {
                    m.failed.insert(c)
                } else {
                    m.failed
                },
                nonfailed: if !(o is Fail) {
                    m.nonfailed.insert(c)
                } else {
                    m.nonfailed
                },
                pending: None,
                ..m
            };
            let (dd2, s) = dd_step_model(dd, o);
            let m2 = MState { dd: Some(dd2), ..m1 };
            match s {
                DdStepV::Trial(tc) => emit_model(m2, tc),
                DdStepV::Reduced(r) => advance_model(MState { best: Some(r), ..m2 }),
                DdStepV::NoChange => advance_model(m2),
                DdStepV::Abort(e) => MState { finished: Some(Err(e)), ..m2 },
            }
        },
        _ => m,
    }
}

/// The data the machine keeps about the current pass, in every state: the
/// pass input comes from the run input or a failed candidate, the current
/// source never grew, and everything handed around is valid UTF-8.
pub open spec fn dd_ok(dd: DdV, m: MState) -> bool {
    &&& dd_wf(dd)
    &&& dd.base.len() <= m.original.len()
    &&& valid_utf8(dd.base)
    &&& valid_utf8(dd.source)
    &&& (dd.base == m.original || m.failed.contains(dd.base))
    &&& (dd.source == dd.base || m.failed.contains(dd.source))
}

/// The machine's data invariant.
pub open spec fn m_inv(m: MState) -> bool {
    &&& valid_utf8(m.original)
    &&& (m.best matches Some(b) ==> (b == m.original || m.failed.contains(b)) && b.len()
        <= m.original.len() && valid_utf8(b))
    &&& (m.dd matches Some(dd) ==> dd_ok(dd, m))
    &&& (m.finished matches Some(r) ==> (r matches Ok(s) ==> (s == m.original
        || m.failed.contains(s)) && s.len() <= m.original.len() && valid_utf8(s)))
}

/// Every chunk tried before the current one in this sweep was rejected: its
/// candidate source is among those the environment reported as not failing.
pub open spec fn sweep_rejected(dd: DdV, nonfailed: Set<Seq<u8>>) -> bool {
    forall|k: int|
        0 <= k && k * dd.subset < dd.start ==> nonfailed.contains(
            #[trigger] trial_source_at(dd, k * dd.subset),
        )
}

/// A machine at rest: it awaits exactly one of an outcome or nothing; a
/// pending candidate is the engine's, valid UTF-8, and within a sweep every
/// earlier chunk of the sweep was rejected.
pub open spec fn m_wf(m: MState) -> bool {
    &&& m_inv(m)
    &&& (m.finished is None <==> m.pending is Some)
    &&& (m.pending matches Some(c) ==> m.dd matches Some(dd) && dd_running(dd) && c
        == dd_pending(dd) && valid_utf8(c) && (!dd.initial ==> sweep_rejected(dd, m.nonfailed)
        && (dd.start as int) % (dd.subset as int) == 0))
}

/// Advancing from a well-formed state yields a well-formed state.
pub proof fn lemma_advance_model(m: MState)
    requires
        m_inv(m),
        m.finished is None,
        m.pending is None,
    ensures
        m_wf(advance_model(m)),
        advance_model(m).original == m.original,
        advance_model(m).failed == m.failed,
        advance_model(m).finished matches Some(r) ==> (r matches Ok(s) ==> s == m.original
            || m.failed.contains(s)),
{
}

/// Stepping a well-formed machine with any outcome yields a well-formed
/// machine; the input and the sets only record what the environment said.
pub proof fn lemma_step_model(m: MState, o: TestOutcome)
    requires
        m_wf(m),
        m.pending is Some,
    ensures
        m_wf(step_model(m, o)),
        step_model(m, o).original == m.original,
        step_model(m, o).failed == if o is Fail {
            m.failed.insert(m.pending->Some_0)
        } else {
            m.failed
        },
        step_model(m, o).nonfailed == if !(o is Fail) {
            m.nonfailed.insert(m.pending->Some_0)
        } else {
            m.nonfailed
        },
{
    let c = m.pending->Some_0;
    let dd = m.dd->Some_0;
    let m1 = MState {
        failed: if o is Fail {
            m.failed.insert(c)
        } else {
            m.failed
        },
        nonfailed: if !(o is Fail) {
            m.nonfailed.insert(c)
        } else {
            m.nonfailed
        },
        pending: None,
        ..m
    };
    lemma_dd_step(dd, o);
    let (dd2, s) = dd_step_model(dd, o);
    let m2 = MState { dd: Some(dd2), ..m1 };
    assert(dd_ok(dd2, m2));
    match s {
        DdStepV::Trial(tc) => {
            let dd2 = m2.dd->Some_0;
            let sub = dd2.subset as int;
            if !dd.initial && !(o is Fail) && chunk_end(
                dd.seq.len() as int,
                dd.start as int,
                dd.subset as int,
            ) < dd.seq.len() {
                let ns = chunk_end(dd.seq.len() as int, dd.start as int, dd.subset as int);
                assert(dd2 == DdV { start: ns as usize, ..dd });
                assert(ns == dd.start + dd.subset);
                let j = (dd.start as int) / sub;
                vstd::arithmetic::div_mod::lemma_fundamental_div_mod(dd.start as int, sub);
                assert(dd.start as int == sub * j);
                assert(dd2.start as int == sub * (j + 1)) by (nonlinear_arith)
                    requires
                        dd.start as int == sub * j,
                        dd2.start == dd.start + dd.subset,
                        sub == dd.subset,
                ;
                assert((dd2.start as int) % sub == 0) by {
                    vstd::arithmetic::div_mod::lemma_mod_multiples_basic(j + 1, sub);
                }
                assert(j >= 0) by (nonlinear_arith)
                    requires
                        sub * j == dd.start as int,
                        0 <= dd.start,
                        sub >= 1,
                ;
                assert forall|k: int|
                    0 <= k && k * dd2.subset < dd2.start implies m1.nonfailed.contains(
                    #[trigger] trial_source_at(dd2, k * dd2.subset),
                ) by {
                    if k * sub < dd.start {
                        assert(m.nonfailed.contains(trial_source_at(dd, k * sub)));
                        assert(trial_source_at(dd2, k * sub) == trial_source_at(dd, k * sub));
                    } else {
                        assert(k == j) by (nonlinear_arith)
                            requires
                                sub >= 1,
                                sub * j <= k * sub,
                                k * sub < sub * j + sub,
                        ;
                        assert(k * sub == dd.start as int) by (nonlinear_arith)
                            requires
                                k == j,
                                sub * j == dd.start as int,
                        ;
                        assert(trial_source_at(dd2, dd.start as int) == trial_source(dd));
                        assert(c == trial_source(dd));
                        assert(m1.nonfailed.contains(c));
                    }
                }
                assert(sweep_rejected(dd2, m1.nonfailed));
            } else {
                assert(dd2.start == 0);
                assert forall|k: int| 0 <= k && k * dd2.subset < dd2.start implies
                    m1.nonfailed.contains(#[trigger] trial_source_at(dd2, k * dd2.subset)) by {
                    assert(k * dd2.subset >= 0) by (nonlinear_arith)
                        requires
                            0 <= k,
                            0 <= dd2.subset,
                    ;
                }
                assert(sweep_rejected(dd2, m1.nonfailed));
            }
            assert(m_wf(emit_model(m2, tc)));
        },
        DdStepV::Reduced(r) => {
            let m3 = MState { best: Some(r), ..m2 };
            assert(m_inv(m3));
            lemma_advance_model(m3);
        },
        DdStepV::NoChange => {
            lemma_advance_model(m2);
        },
        DdStepV::Abort(e) => {
            assert(m_wf(MState { finished: Some(Err(e)), ..m2 }));
        },
    }
}

impl Reducer {
    /// Records a candidate as pending under a fresh trial path.
    fn emit(&mut self, c: Vec<u8>)
        requires
            old(self)@.dd is Some,
        ensures
            final(self)@ == emit_model(old(self)@, c@),
    {
        let p: PassId = match &self.dd {
            Some(dd) => dd.pass,
            None => {
                proof {
                    assert(false);
                }
                PassId::Imports
            },
        };
        self.path = next_path(&self.output_dir, p, self.counter);
        self.counter = if self.counter == u64::MAX {
            0
        } else {
            self.counter + 1
        };
        self.pending = Some(c);
    }

    /// Moves to the next pass, or finishes the run.
    fn advance(&mut self)
        ensures
            final(self)@ == advance_model(old(self)@),
    {
        if self.todo.len() == 0 {
            let result = match &self.best {
                Some(b) => Ok(copy_bytes(b)),
                None => Err(Error::NoChange),
            };
            self.finished = Some(result);
        } else {
            let p = self.todo.remove(0);
            proof {
                assert(old(self)@.todo.remove(0) =~= old(self)@.todo.skip(1));
            }
            let input: Vec<u8> = match &self.best {
                Some(b) => copy_bytes(b),
                None => copy_bytes(&self.original),
            };
            match select_pass(p, &input) {
                Err(e) => {
                    self.finished = Some(Err(e));
                },
                Ok(cands) => {
                    let seq = copy_spans(&cands);
                    let source = copy_bytes(&input);
                    let pending = copy_bytes(&input);
                    let dd = DdState {
                        pass: p,
                        base: input,
                        cands,
                        seq,
                        source,
                        granularity: 2,
                        subset: 0,
                        start: 0,
                        initial: true,
                    };
                    self.dd = Some(dd);
                    self.emit(pending);
                },
            }
        }
    }

    /// Consumes the outcome of the pending candidate and moves the machine
    /// on, exactly as [`step_model`] says.
    pub fn step(&mut self, o: TestOutcome)
        requires
            m_wf(old(self)@),
            old(self)@.pending is Some,
        ensures
            final(self)@ == step_model(old(self)@, o),
            m_wf(final(self)@),
    {
        let c: Vec<u8> = match self.pending.take() {
            Some(c) => c,
            None => {
                proof {
                    assert(false);
                }
                Vec::new()
            },
        };
        if matches!(o, TestOutcome::Fail) {
            self.failed = Ghost(self.failed@.insert(c@));
        } else {
            self.nonfailed = Ghost(self.nonfailed@.insert(c@));
        }
        let mut dd: DdState = match self.dd.take() {
            Some(dd) => dd,
            None => {
                proof {
                    assert(false);
                }
                vstd::pervasive::unreached()
            },
        };
        let ghost dd0 = dd@;
        let s = dd_step(&mut dd, o);
        proof {
            lemma_dd_step(dd0, o);
        }
        self.dd = Some(dd);
        match s {
            DdStep::Trial(tc) => {
                self.emit(tc);
            },
            DdStep::Reduced(r) => {
                self.best = Some(r);
                self.advance();
            },
            DdStep::NoChange => {
                self.advance();
            },
            DdStep::Abort(e) => {
                self.finished = Some(Err(e));
            },
        }
        proof {
            lemma_step_model(old(self)@, o);
        }
    }

    /// The action the machine currently calls for.  `Run` hands out the
    /// pending candidate and its trial path; `Done` the final result.
    pub fn current_action(&self) -> (a: Action)
        requires
            m_wf(self@),
        ensures
            a@ == action_model(self@),
    {
        match &self.finished {
            Some(res) => Action::Done { result: copy_result(res) },
            None => {
                let content: Vec<u8> = match &self.pending {
                    Some(c) => copy_bytes(c),
                    None => {
                        proof {
                            assert(false);
                        }
                        Vec::new()
                    },
                };
                Action::Run { path: self.path.clone(), content }
            },
        }
    }

    /// Whether the machine still awaits an outcome.
    pub fn is_running(&self) -> (r: bool)
        ensures
            r == (self@.pending is Some),
    {
        self.pending.is_some()
    }
}

/// Copies an error.
fn copy_error(e: &Error) -> (r: Error)
    ensures
        r@ == e@,
{
    match e {
        Error::NoChange => Error::NoChange,
        Error::Error(s) => Error::Error(s.clone()),
    }
}

/// Copies a result.
fn copy_result(r: &Result<Vec<u8>, Error>) -> (out: Result<Vec<u8>, Error>)
    ensures
        result_view(&out) == result_view(r),
{
    match r {
        Ok(b) => Ok(copy_bytes(b)),
        Err(e) => Err(copy_error(e)),
    }
}

/// What building the machine yields: the machine awaiting the first pass's
/// initial test, or the error that stops the run before any test — an input
/// that is not valid UTF-8, a source that does not parse, or no enabled
/// pass.
pub open spec fn init_model(outdir: Seq<char>, cfg: PassesV, source: Seq<u8>) -> Result<
    MState,
    ErrorV,
> {
    if !valid_utf8(source) {
        Err(ErrorV::Msg("Input source is not valid UTF-8"@))
    } else {
        let m0 = MState {
            output_dir: outdir,
            counter: 1,
            todo: todo_spec(cfg),
            original: source,
            best: None,
            dd: None,
            pending: None,
            path: Seq::empty(),
            finished: None,
            failed: Set::empty(),
            nonfailed: Set::empty(),
        };
        let m1 = advance_model(m0);
        match m1.finished {
            Some(r) => match r {
                Err(e) => Err(e),
                Ok(s) => Ok(m1),
            },
            None => Ok(m1),
        }
    }
}

/// Builds the reducer for a configuration and an input source.  On success
/// the machine awaits the outcome of the first pass's initial test; the
/// errors are exactly those of [`init_model`].
pub fn run_app(app: &App, source: Vec<u8>) -> (r: Result<Reducer, Error>)
    ensures
        match r {
            Ok(m) => init_model(app.output_dir@, app.passes@, source@) == Ok::<MState, ErrorV>(m@)
                && m_wf(m@) && m@.pending is Some,
            Err(e) => init_model(app.output_dir@, app.passes@, source@) == Err::<MState, ErrorV>(
                e@,
            ),
        },
{
    build_reducer(&app.output_dir, &app.passes, source)
}

/// Builds the reducer that runs the enabled passes over `source`, writing
/// its trials under `output_dir`.
pub fn build_reducer(output_dir: &String, cfg: &PassesConfig, source: Vec<u8>) -> (r: Result<
    Reducer,
    Error,
>)
    ensures
        match r {
            Ok(m) => init_model(output_dir@, cfg@, source@) == Ok::<MState, ErrorV>(m@) && m_wf(m@)
                && m@.pending is Some,
            Err(e) => init_model(output_dir@, cfg@, source@) == Err::<MState, ErrorV>(e@),
        },
{
    if !utf8_check(&source) {
        return Err(Error::new(String::from_str("Input source is not valid UTF-8")));
    }
    let mut todo: Vec<PassId> = Vec::new();
    let mut i: usize = 0;
    while i < cfg.order.len()
        invariant
            i <= cfg.order@.len(),
            todo@ == cfg.order@.take(i as int),
        decreases cfg.order@.len() - i,
    {
        todo.push(cfg.order[i]);
        proof {
            assert(cfg.order@.take(i + 1) =~= cfg.order@.take(i as int).push(cfg.order@[i as int]));
        }
        i = i + 1;
    }
    proof {
        assert(cfg.order@.take(cfg.order@.len() as int) =~= cfg.order@);
        assert(todo@ == todo_spec(cfg@));
    }
    let mut r = Reducer {
        output_dir: output_dir.clone(),
        counter: 1,
        todo,
        original: source,
        best: None,
        dd: None,
        pending: None,
        path: String::new(),
        finished: None,
        failed: Ghost(Set::empty()),
        nonfailed: Ghost(Set::empty()),
    };
    let ghost m0 = r@;
    proof {
        assert(m_inv(m0));
        lemma_advance_model(m0);
    }
    r.advance();
    match r.finished.take() {
        Some(res) => match res {
            Err(e) => Err(e),
            Ok(_) => {
                proof {
                    assert(false);
                }
                Err(Error::NoChange)
            },
        },
        None => Ok(r),
    }
}

} // verus!
