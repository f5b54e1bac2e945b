//! The reducer's guarantees, stated over whole runs of the state machine.
//!
//! A run is the fold of [`step_model`] over the outcomes the environment
//! reports, starting from the machine [`init_model`] builds; the executable
//! machine follows `step_model` exactly (see [`crate::driver::Reducer::step`]).

use crate::app::PassesV;
use crate::delta::dd_running;
use crate::delta::dd_step_model;
use crate::delta::lemma_dd_step;
use crate::delta::DdV;
use crate::driver::action_model;
use crate::driver::dec_str;
use crate::driver::digit_seq;
use crate::driver::advance_model;
use crate::driver::ActionV;
use crate::driver::init_model;
use crate::driver::lemma_advance_model;
use crate::driver::lemma_step_model;
use crate::driver::m_wf;
use crate::driver::step_model;
use crate::driver::MState;
use crate::error::ErrorV;
use crate::passes::select_spec;
use crate::passes::TestOutcome;
use vstd::prelude::*;
use vstd::utf8::valid_utf8;

verus! {

/// The machine after consuming the given outcomes in order.
pub open spec fn run_model(m: MState, evs: Seq<TestOutcome>) -> MState
    decreases evs.len(),
{
    if evs.len() == 0 {
        m
    } else {
        run_model(step_model(m, evs[0]), evs.skip(1))
    }
}

/// A run keeps the machine well formed, never changes the input it reduces,
/// and only ever adds to the set of sources the environment failed.
pub proof fn lemma_run_wf(m: MState, evs: Seq<TestOutcome>)
    requires
        m_wf(m),
    ensures
        m_wf(run_model(m, evs)),
        run_model(m, evs).original == m.original,
        m.failed.subset_of(run_model(m, evs).failed),
    decreases evs.len(),
{
    if evs.len() > 0 {
        let m2 = step_model(m, evs[0]);
        if m.pending is Some {
            lemma_step_model(m, evs[0]);
        } else {
            assert(m2 == m);
        }
        lemma_run_wf(m2, evs.skip(1));
    }
}

/// Soundness: whatever outcomes the environment reports, every source the
/// reducer finishes with is either the unchanged input or one the
/// environment reported `Fail` for.  (When the predicate never fails — it
/// times out on every trial, say — the reducer finishes with the unchanged
/// input, which the environment never reported as failing.)
pub proof fn lemma_soundness(m: MState, evs: Seq<TestOutcome>)
    requires
        m_wf(m),
    ensures
        run_model(m, evs).finished matches Some(r) ==> (r matches Ok(s) ==> s == m.original
            || run_model(m, evs).failed.contains(s)),
{
    lemma_run_wf(m, evs);
}

/// What holds of a machine that has seen no `Unresolved` outcome: everything
/// it has reduced to so far was reported `Fail` — including the pass input,
/// once its initial test was answered.
pub open spec fn decisive_inv(m: MState) -> bool {
    &&& (m.best matches Some(b) ==> m.failed.contains(b))
    &&& (m.dd matches Some(dd) ==> !dd.initial ==> m.failed.contains(dd.base) && (dd.source
        == dd.base || m.failed.contains(dd.source)))
    &&& (m.finished matches Some(r) ==> (r matches Ok(s) ==> m.failed.contains(s)))
}

/// One step with an answered outcome (`Pass` or `Fail`) preserves the
/// decisive invariant.
proof fn lemma_step_decisive(m: MState, o: TestOutcome)
    requires
        m_wf(m),
        decisive_inv(m),
        m.pending is Some,
        o is Pass || o is Fail,
    ensures
        decisive_inv(step_model(m, o)),
{
    lemma_step_model(m, o);
    let c = m.pending->Some_0;
    let dd = m.dd->Some_0;
    lemma_dd_step(dd, o);
    if dd.initial {
        assert(c == dd.base);
    } else {
        assert(c == crate::delta::trial_source(dd));
    }
}

/// A run whose every outcome is answered preserves the decisive invariant.
proof fn lemma_run_decisive(m: MState, evs: Seq<TestOutcome>)
    requires
        m_wf(m),
        decisive_inv(m),
        forall|i: int| 0 <= i < evs.len() ==> (#[trigger] evs[i]) is Pass || evs[i] is Fail,
    ensures
        m_wf(run_model(m, evs)),
        decisive_inv(run_model(m, evs)),
    decreases evs.len(),
{
    if evs.len() > 0 {
        let m2 = step_model(m, evs[0]);
        if m.pending is Some {
            lemma_step_model(m, evs[0]);
            lemma_step_decisive(m, evs[0]);
        } else {
            assert(m2 == m);
        }
        lemma_run_decisive(m2, evs.skip(1));
    }
}

/// Soundness under a predicate that always answers: when no outcome is ever
/// `Unresolved`, every source the reducer finishes with — the unchanged
/// input included — was reported `Fail` by the environment.
pub proof fn lemma_soundness_decisive(m: MState, evs: Seq<TestOutcome>)
    requires
        m_wf(m),
        decisive_inv(m),
        forall|i: int| 0 <= i < evs.len() ==> (#[trigger] evs[i]) is Pass || evs[i] is Fail,
    ensures
        run_model(m, evs).finished matches Some(r) ==> (r matches Ok(s) ==> run_model(
            m,
            evs,
        ).failed.contains(s)),
{
    lemma_run_decisive(m, evs);
}

/// A freshly built machine satisfies the decisive invariant: nothing has
/// been reduced and the first pass still awaits its initial test.
pub proof fn lemma_init_decisive(outdir: Seq<char>, cfg: PassesV, source: Seq<u8>)
    requires
        init_model(outdir, cfg, source) is Ok,
    ensures
        decisive_inv(init_model(outdir, cfg, source)->Ok_0),
{
    let m0 = MState {
        output_dir: outdir,
        counter: 1,
        todo: crate::driver::todo_spec(cfg),
        original: source,
        best: None,
        dd: None,
        pending: None,
        path: Seq::empty(),
        finished: None,
        failed: Set::empty(),
        nonfailed: Set::empty(),
    };
    lemma_advance_model(m0);
}

/// Monotone size: whatever outcomes the environment reports, every source
/// the reducer finishes with is no longer than the input.
pub proof fn lemma_monotone_size(m: MState, evs: Seq<TestOutcome>)
    requires
        m_wf(m),
    ensures
        run_model(m, evs).finished matches Some(r) ==> (r matches Ok(s) ==> s.len()
            <= m.original.len()),
{
    lemma_run_wf(m, evs);
}

/// Monotone candidate sequence: one transition of the delta-debugging
/// engine never grows its candidate sequence.
pub proof fn lemma_seq_never_grows(dd: DdV, o: TestOutcome)
    requires
        dd_running(dd),
    ensures
        dd_step_model(dd, o).0.seq.len() <= dd.seq.len(),
{
    lemma_dd_step(dd, o);
}

/// Determinism: the reducer is a function of its starting state and the
/// outcomes the environment reports.  Two runs from equal machines that see
/// equal outcomes end in equal machines — in particular, with a predicate
/// that is deterministic over identical inputs, running the reducer twice on
/// the same input produces the same final source.
pub proof fn lemma_deterministic(m1: MState, m2: MState, evs1: Seq<TestOutcome>, evs2: Seq<
    TestOutcome,
>)
    requires
        m1 == m2,
        evs1 == evs2,
    ensures
        run_model(m1, evs1) == run_model(m2, evs2),
{
}

/// The machine a successful [`init_model`] yields is well formed, reduces
/// the given source, and has witnessed no outcome yet.
pub proof fn lemma_init_wf(outdir: Seq<char>, cfg: PassesV, source: Seq<u8>)
    requires
        init_model(outdir, cfg, source) is Ok,
    ensures
        ({
            let m = init_model(outdir, cfg, source)->Ok_0;
            &&& m_wf(m)
            &&& m.original == source
            &&& m.failed == Set::<Seq<u8>>::empty()
            &&& m.best is None
        }),
{
    let m0 = MState {
        output_dir: outdir,
        counter: 1,
        todo: crate::driver::todo_spec(cfg),
        original: source,
        best: None,
        dd: None,
        pending: None,
        path: Seq::empty(),
        finished: None,
        failed: Set::empty(),
        nonfailed: Set::empty(),
    };
    lemma_advance_model(m0);
}

/// A machine that awaits the outcome of a pass's initial test on the
/// unchanged input, with nothing reduced yet.
pub open spec fn at_initial_test(m: MState) -> bool {
    &&& m_wf(m)
    &&& m.best is None
    &&& m.pending is Some
    &&& (m.dd matches Some(dd) && dd.initial && dd.base == m.original)
}

/// NoChange preservation: when the predicate passes on the input — so every
/// pass's initial test comes back `Pass` — the reducer reports `NoChange`
/// and never produces a modified source.  The remaining passes must select
/// their candidates without error, which holds of any source the grammar
/// parses.
pub proof fn lemma_nochange(m: MState, evs: Seq<TestOutcome>)
    requires
        at_initial_test(m),
        evs.len() == m.todo.len() + 1,
        forall|i: int| 0 <= i < evs.len() ==> evs[i] == TestOutcome::Pass,
        forall|i: int| 0 <= i < m.todo.len() ==> select_spec(#[trigger] m.todo[i], m.original)
            is Ok,
    ensures
        run_model(m, evs).finished == Some(Err::<Seq<u8>, ErrorV>(ErrorV::NoChange)),
    decreases evs.len(),
{
    lemma_step_model(m, TestOutcome::Pass);
    let m2 = step_model(m, TestOutcome::Pass);
    assert(evs[0] == TestOutcome::Pass);
    if m.todo.len() == 0 {
        assert(m2.finished == Some(Err::<Seq<u8>, ErrorV>(ErrorV::NoChange)));
        lemma_run_wf(m2, evs.skip(1));
        assert(run_model(m2, evs.skip(1)) == m2) by {
            lemma_run_finished(m2, evs.skip(1));
        }
    } else {
        assert(select_spec(m.todo[0], m.original) is Ok);
        assert(at_initial_test(m2));
        assert(m2.todo =~= m.todo.skip(1));
        assert forall|i: int| 0 <= i < m2.todo.len() implies select_spec(
            #[trigger] m2.todo[i],
            m2.original,
        ) is Ok by {
            assert(m2.todo[i] == m.todo[i + 1]);
        }
        lemma_nochange(m2, evs.skip(1));
    }
}

/// Parseability, the checkable half: every candidate the machine hands to
/// the environment is valid UTF-8.  (That deleting whole grammar nodes
/// keeps the rest parseable is a property of the grammar and its parser,
/// which nothing here can state.)
pub proof fn lemma_candidates_utf8(m: MState)
    requires
        m_wf(m),
    ensures
        action_model(m) matches ActionV::Run(p, c) ==> valid_utf8(c),
{
}

/// The source that removing element `i` of the candidate sequence alone
/// yields: the pass input with that node and every already-removed candidate
/// deleted.
pub open spec fn removal_of(dd: DdV, i: int) -> Seq<u8> {
    crate::rewrite::spec_delete(
        dd.base,
        crate::rewrite::spec_excluded(dd.cands, dd.seq.remove(i)),
    )
}

/// One-minimality at the granularity the search reaches: when a full sweep
/// over a two-element candidate sequence makes no progress, the engine ends
/// the pass, and for each remaining element the environment was asked about
/// the source with that element alone removed and reported it as not
/// failing.  (A pass can also end while more than two candidates remain —
/// the granularity has then reached the sequence length without single
/// elements ever being tried on their own; minimality at single-element
/// granularity is guaranteed only for the final sweeps that reach it.)
pub proof fn lemma_one_minimal_pair(m: MState, o: TestOutcome)
    requires
        m_wf(m),
        m.pending is Some,
        !(o is Fail),
        m.dd matches Some(dd) && !dd.initial && dd.seq.len() == 2 && dd.start == 1
            && dd.granularity == 2,
    ensures
        ({
            let dd = m.dd->Some_0;
            let m2 = step_model(m, o);
            &&& dd_step_model(dd, o).1 == crate::delta::DdStepV::Reduced(dd.source)
            &&& m2.nonfailed.contains(removal_of(dd, 0))
            &&& m2.nonfailed.contains(removal_of(dd, 1))
        }),
{
    let dd = m.dd->Some_0;
    let c = m.pending->Some_0;
    lemma_step_model(m, o);
    assert(dd.subset == 1);
    assert(crate::delta::chunk_at(dd, 0) =~= dd.seq.remove(1));
    assert(crate::delta::chunk_at(dd, 1) =~= dd.seq.remove(0));
    assert(m.nonfailed.contains(crate::delta::trial_source_at(dd, 0))) by {
        assert(0 * dd.subset < dd.start);
        assert(crate::delta::trial_source_at(dd, 0 * dd.subset) == crate::delta::trial_source_at(
            dd,
            0,
        ));
    }
    assert(c == crate::delta::trial_source_at(dd, 1));
    assert(step_model(m, o).nonfailed.contains(c));
}

/// The ten digits render as ten distinct one-character strings.
proof fn lemma_digit_seq(d1: nat, d2: nat)
    requires
        d1 < 10,
        d2 < 10,
    ensures
        digit_seq(d1).len() == 1,
        digit_seq(d2).len() == 1,
        digit_seq(d1) == digit_seq(d2) ==> d1 == d2,
{
    reveal_strlit("0");
    reveal_strlit("1");
    reveal_strlit("2");
    reveal_strlit("3");
    reveal_strlit("4");
    reveal_strlit("5");
    reveal_strlit("6");
    reveal_strlit("7");
    reveal_strlit("8");
    reveal_strlit("9");
    if digit_seq(d1) == digit_seq(d2) {
        assert(digit_seq(d1)[0] == digit_seq(d2)[0]);
    }
}

/// A number of ten or more renders with at least two digits.
proof fn lemma_dec_str_len(n: nat)
    ensures
        dec_str(n).len() >= 1,
        n < 10 ==> dec_str(n).len() == 1,
        n >= 10 ==> dec_str(n).len() >= 2,
    decreases n,
{
    lemma_digit_seq(n % 10, n % 10);
    if n >= 10 {
        lemma_dec_str_len(n / 10);
    }
}

/// Distinct numbers render as distinct decimal strings.
pub proof fn lemma_dec_str_injective(n1: nat, n2: nat)
    requires
        dec_str(n1) == dec_str(n2),
    ensures
        n1 == n2,
    decreases n1 + n2,
{
    lemma_dec_str_len(n1);
    lemma_dec_str_len(n2);
    lemma_digit_seq(n1 % 10, n2 % 10);
    if n1 < 10 && n2 < 10 {
    } else if n1 >= 10 && n2 >= 10 {
        assert(dec_str(n1) == dec_str(n1 / 10) + digit_seq(n1 % 10));
        assert(dec_str(n2) == dec_str(n2 / 10) + digit_seq(n2 % 10));
        assert(dec_str(n1).last() == digit_seq(n1 % 10)[0]);
        assert(dec_str(n2).last() == digit_seq(n2 % 10)[0]);
        assert(digit_seq(n1 % 10) =~= digit_seq(n2 % 10));
        assert(n1 % 10 == n2 % 10);
        assert(dec_str(n1).drop_last() =~= dec_str(n1 / 10));
        assert(dec_str(n2).drop_last() =~= dec_str(n2 / 10));
        lemma_dec_str_injective(n1 / 10, n2 / 10);
        assert(n1 == 10 * (n1 / 10) + n1 % 10);
        assert(n2 == 10 * (n2 / 10) + n2 % 10);
    } else {
        assert(false);
    }
}

/// Unique trial files: within one pass, distinct values of the trial counter
/// name distinct file paths.
pub proof fn lemma_trial_paths_unique(
    outdir: Seq<char>,
    p: crate::passes::PassId,
    c1: u64,
    c2: u64,
)
    requires
        c1 != c2,
    ensures
        crate::driver::path_spec(outdir, p, c1) != crate::driver::path_spec(outdir, p, c2),
{
    let pre = crate::passes::joined_dir_spec(outdir, crate::passes::pass_name_spec(p)) + "/"@;
    let s1 = pre + dec_str(c1 as nat);
    let s2 = pre + dec_str(c2 as nat);
    if s1 == s2 {
        assert(dec_str(c1 as nat) =~= s1.skip(pre.len() as int));
        assert(dec_str(c2 as nat) =~= s2.skip(pre.len() as int));
        lemma_dec_str_injective(c1 as nat, c2 as nat);
    }
}

/// A finished machine no longer moves: every outcome leaves it unchanged.
pub proof fn lemma_run_finished(m: MState, evs: Seq<TestOutcome>)
    requires
        m.pending is None,
    ensures
        run_model(m, evs) == m,
    decreases evs.len(),
{
    if evs.len() > 0 {
        assert(step_model(m, evs[0]) == m);
        lemma_run_finished(m, evs.skip(1));
    }
}

} // verus!
