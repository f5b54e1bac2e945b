//! The minimizing delta-debugging engine (Zeller & Hildebrandt, 2002), as a
//! state machine over one pass's candidate sequence.
//!
//! The engine never runs the interestingness predicate itself.  It hands a
//! candidate source out through [`DdStep::Trial`]; the caller runs the
//! predicate and feeds the [`TestOutcome`] back into [`dd_step`].  Every
//! candidate is synthesized by deleting candidate node ranges from the
//! source the pass started from, so the byte offsets of the one parse stay
//! valid throughout the pass.

use crate::error::Error;
use crate::error::ErrorV;
use crate::passes::PassId;
use crate::passes::TestOutcome;
use crate::rewrite::copy_bytes;
use crate::rewrite::delete_ranges;
use crate::rewrite::excluded_spans;
use crate::rewrite::lemma_delete_len;
use crate::rewrite::lemma_excluded_wf;
use crate::rewrite::spans_subrange;
use crate::rewrite::spans_wf;
use crate::rewrite::spec_delete;
use crate::rewrite::spec_excluded;
use crate::rewrite::utf8_check;
use crate::rewrite::Span;
use vstd::prelude::*;
use vstd::string::StringExecFns;
use vstd::utf8::valid_utf8;

verus! {

/// The state of the engine while it reduces one pass's candidate sequence.
pub struct DdState {
    /// The pass whose candidates are being reduced.
    pub pass: PassId,
    /// The source the pass started from; all byte ranges point into it.
    pub base: Vec<u8>,
    /// Every candidate node of the pass, by byte range, in source order.
    pub cands: Vec<Span>,
    /// The candidate sequence that is still present in `source`.
    pub seq: Vec<Span>,
    /// The smallest source seen to fail so far (the pass input before any
    /// trial failed).
    pub source: Vec<u8>,
    /// The granularity of the search.
    pub granularity: usize,
    /// The chunk length of the current sweep.
    pub subset: usize,
    /// The start of the chunk under trial.
    pub start: usize,
    /// Whether the engine still awaits the outcome for the unmodified input.
    pub initial: bool,
}

/// The mathematical model of a [`DdState`].
pub struct DdV {
    pub pass: PassId,
    pub base: Seq<u8>,
    pub cands: Seq<Span>,
    pub seq: Seq<Span>,
    pub source: Seq<u8>,
    pub granularity: usize,
    pub subset: usize,
    pub start: usize,
    pub initial: bool,
}

impl View for DdState {
    type V = DdV;

    open spec fn view(&self) -> DdV {
        DdV {
            pass: self.pass,
            base: self.base@,
            cands: self.cands@,
            seq: self.seq@,
            source: self.source@,
            granularity: self.granularity,
            subset: self.subset,
            start: self.start,
            initial: self.initial,
        }
    }
}

/// What the engine asks of its caller after consuming one outcome.
pub enum DdStep {
    /// Run the predicate on this candidate source.
    Trial(Vec<u8>),
    /// The pass is finished; this is the reduced source.
    Reduced(Vec<u8>),
    /// The unmodified input already passes: the pass changes nothing.
    NoChange,
    /// A candidate could not be synthesized; the pass is abandoned.
    Abort(Error),
}

/// The mathematical model of a [`DdStep`].
pub enum DdStepV {
    Trial(Seq<u8>),
    Reduced(Seq<u8>),
    NoChange,
    Abort(ErrorV),
}

impl View for DdStep {
    type V = DdStepV;

    open spec fn view(&self) -> DdStepV {
        match self {
            DdStep::Trial(c) => DdStepV::Trial(c@),
            DdStep::Reduced(s) => DdStepV::Reduced(s@),
            DdStep::NoChange => DdStepV::NoChange,
            DdStep::Abort(e) => DdStepV::Abort(e@),
        }
    }
}

/// Where the chunk that starts at `start` ends: after `subset` elements, or
/// at the end of the sequence for the final, shorter chunk.
pub open spec fn chunk_end(len: int, start: int, subset: int) -> int {
    if len - start <= subset {
        len
    } else {
        start + subset
    }
}

/// The chunk that starts at `st` in the current sweep.
pub open spec fn chunk_at(dd: DdV, st: int) -> Seq<Span> {
    dd.seq.subrange(st, chunk_end(dd.seq.len() as int, st, dd.subset as int))
}

/// The candidate source of the trial whose chunk starts at `st`: the pass
/// input with every candidate node outside the kept chunk deleted.
pub open spec fn trial_source_at(dd: DdV, st: int) -> Seq<u8> {
    spec_delete(dd.base, spec_excluded(dd.cands, chunk_at(dd, st)))
}

/// The chunk of the candidate sequence under trial: the elements that stay
/// when everything else is deleted.
pub open spec fn trial_chunk(dd: DdV) -> Seq<Span> {
    chunk_at(dd, dd.start as int)
}

/// The candidate source of the trial: the pass input with every candidate
/// node outside the kept chunk deleted.
pub open spec fn trial_source(dd: DdV) -> Seq<u8> {
    spec_delete(dd.base, spec_excluded(dd.cands, trial_chunk(dd)))
}

/// The source whose outcome the engine awaits: the unmodified input for the
/// initial test, the current trial's candidate afterwards.
pub open spec fn dd_pending(dd: DdV) -> Seq<u8> {
    if dd.initial {
        dd.base
    } else {
        trial_source(dd)
    }
}

/// `max(granularity - 1, 2)`: the reset applied after a successful trial.
pub open spec fn dec_gran(g: usize) -> usize {
    if g >= 3 {
        (g - 1) as usize
    } else {
        2
    }
}

/// `min(granularity * 2, len)`: the doubling applied after a sweep without
/// progress.
pub open spec fn double_gran(g: usize, len: usize) -> usize {
    if g > len / 2 {
        len
    } else {
        (g * 2) as usize
    }
}

/// A new sweep over the current sequence: chunks of half its length, first
/// chunk first.
pub open spec fn start_sweep(dd: DdV) -> DdV {
    DdV { subset: (dd.seq.len() / 2) as usize, start: 0, initial: false, ..dd }
}

/// Hands the current trial out, unless its bytes are not valid UTF-8, which
/// abandons the pass.
pub open spec fn dd_emit(dd: DdV) -> (DdV, DdStepV) {
    let c = trial_source(dd);
    if valid_utf8(c) {
        (dd, DdStepV::Trial(c))
    } else {
        (dd, DdStepV::Abort(ErrorV::Msg("Candidate source is not valid UTF-8"@)))
    }
}

/// One transition of the engine, given the outcome of the pending run.
///
/// For the initial test: `Pass` means the input is not interesting and the
/// pass reports no change; any other outcome starts the search, or ends it
/// at once when fewer than two candidates exist.  For a trial: `Fail`
/// commits the candidate — the kept chunk becomes the sequence — and any
/// other outcome rejects it and moves to the next chunk; when a full sweep
/// makes no progress the granularity doubles, until it reaches the sequence
/// length.
pub open spec fn dd_step_model(dd: DdV, o: TestOutcome) -> (DdV, DdStepV) {
    if dd.initial {
        if o is Pass {
            (dd, DdStepV::NoChange)
        } else if dd.seq.len() < 2 {
            (dd, DdStepV::Reduced(dd.source))
        } else {
            dd_emit(start_sweep(dd))
        }
    } else {
        if o is Fail {
            let committed = DdV {
                seq: trial_chunk(dd),
                source: trial_source(dd),
                granularity: dec_gran(dd.granularity),
                ..dd
            };
            if committed.seq.len() < 2 {
                (committed, DdStepV::Reduced(committed.source))
            } else {
                dd_emit(start_sweep(committed))
            }
        } else {
            let ns = chunk_end(dd.seq.len() as int, dd.start as int, dd.subset as int);
            if ns < dd.seq.len() {
                dd_emit(DdV { start: ns as usize, ..dd })
            } else if dd.granularity == dd.seq.len() {
                (dd, DdStepV::Reduced(dd.source))
            } else {
                dd_emit(start_sweep(DdV { granularity: double_gran(dd.granularity, dd.seq.len() as usize), ..dd }))
            }
        }
    }
}

/// The engine's well-formedness: ranges point into the pass input and the
/// current source never grew past it.
pub open spec fn dd_wf(dd: DdV) -> bool {
    &&& spans_wf(dd.cands, dd.base.len())
    &&& dd.seq.len() <= usize::MAX
    &&& dd.source.len() <= dd.base.len()
    &&& dd.initial ==> dd.source == dd.base
}

/// A state in which the engine awaits an outcome: well formed, and in a
/// sweep the position marks a real chunk of the current sequence.
pub open spec fn dd_running(dd: DdV) -> bool {
    &&& dd_wf(dd)
    &&& dd.granularity >= 2
    &&& !dd.initial ==> {
        &&& dd.seq.len() >= 2
        &&& dd.start < dd.seq.len()
        &&& dd.subset == dd.seq.len() / 2
    }
}

/// The engine's transition preserves well-formedness, never grows the
/// candidate sequence, and hands out only candidates derived from the pass
/// input.
pub proof fn lemma_dd_step(dd: DdV, o: TestOutcome)
    requires
        dd_running(dd),
    ensures
        ({
            let (dd2, s) = dd_step_model(dd, o);
            &&& dd_wf(dd2)
            &&& (s is Trial ==> dd_running(dd2))
            &&& dd2.base == dd.base
            &&& dd2.cands == dd.cands
            &&& dd2.pass == dd.pass
            &&& dd2.seq.len() <= dd.seq.len()
            &&& dd2.source.len() <= dd.base.len()
            &&& (s matches DdStepV::Trial(c) ==> c == trial_source(dd2) && valid_utf8(c)
                && c.len() <= dd.base.len() && !dd2.initial)
            &&& (s matches DdStepV::Reduced(r) ==> r == dd2.source)
            &&& (s is NoChange ==> dd2 == dd && dd.initial && o is Pass)
        }),
{
    lemma_excluded_wf(dd.cands, trial_chunk(dd), dd.base.len());
    lemma_delete_len(dd.base, spec_excluded(dd.cands, trial_chunk(dd)));
    let (dd2, s) = dd_step_model(dd, o);
    lemma_excluded_wf(dd.cands, trial_chunk(dd2), dd.base.len());
    lemma_delete_len(dd.base, spec_excluded(dd.cands, trial_chunk(dd2)));
    if dd.initial {
        if o is Pass {
        } else if dd.seq.len() < 2 {
            assert(dd_wf(dd2));
        } else {
            assert(dd2 == start_sweep(dd));
            assert(dd_wf(dd2));
            assert(s matches DdStepV::Trial(c) ==> c == trial_source(dd2) && valid_utf8(c)
                && c.len() <= dd.base.len());
        }
    } else if o is Fail {
        let committed = DdV {
            seq: trial_chunk(dd),
            source: trial_source(dd),
            granularity: dec_gran(dd.granularity),
            ..dd
        };
        assert(committed.source.len() <= dd.base.len());
        assert(committed.seq.len() <= dd.seq.len());
        if committed.seq.len() < 2 {
            assert(dd2 == committed);
        } else {
            assert(dd2 == start_sweep(committed));
            lemma_excluded_wf(dd.cands, trial_chunk(dd2), dd.base.len());
            lemma_delete_len(dd.base, spec_excluded(dd.cands, trial_chunk(dd2)));
            assert(dd_wf(dd2));
        }
    } else {
        let ns = chunk_end(dd.seq.len() as int, dd.start as int, dd.subset as int);
        if ns < dd.seq.len() {
            assert(dd2 == DdV { start: ns as usize, ..dd });
            assert(dd_wf(dd2));
        } else if dd.granularity == dd.seq.len() {
            assert(dd2 == dd);
        } else {
            assert(dd2 == start_sweep(
                DdV { granularity: double_gran(dd.granularity, dd.seq.len() as usize), ..dd },
            ));
            assert(dd_wf(dd2));
        }
    }
}

/// The engine's progress measure: a tuple that every trial-producing
/// transition strictly decreases in lexicographic order, so a pass can only
/// ask for finitely many trials.
pub open spec fn dd_measure(dd: DdV) -> (nat, nat, nat, nat, nat) {
    (
        if dd.initial {
            1nat
        } else {
            0nat
        },
        dd.seq.len(),
        if dd.granularity > dd.seq.len() {
            1nat
        } else {
            0nat
        },
        if dd.granularity <= dd.seq.len() {
            (dd.seq.len() - dd.granularity) as nat
        } else {
            0nat
        },
        if dd.start <= dd.seq.len() {
            (dd.seq.len() - dd.start) as nat
        } else {
            0nat
        },
    )
}

/// Strict lexicographic order on the progress measure.
pub open spec fn measure_lt(a: (nat, nat, nat, nat, nat), b: (nat, nat, nat, nat, nat)) -> bool {
    ||| a.0 < b.0
    ||| (a.0 == b.0 && a.1 < b.1)
    ||| (a.0 == b.0 && a.1 == b.1 && a.2 < b.2)
    ||| (a.0 == b.0 && a.1 == b.1 && a.2 == b.2 && a.3 < b.3)
    ||| (a.0 == b.0 && a.1 == b.1 && a.2 == b.2 && a.3 == b.3 && a.4 < b.4)
}

/// Progress: whenever the engine hands out another trial, its measure
/// strictly decreases, so every pass ends after finitely many trials.
pub proof fn lemma_dd_progress(dd: DdV, o: TestOutcome)
    requires
        dd_running(dd),
    ensures
        dd_step_model(dd, o).1 is Trial ==> measure_lt(dd_measure(dd_step_model(dd, o).0), dd_measure(dd)),
{
    let (dd2, s) = dd_step_model(dd, o);
    if s is Trial {
        if dd.initial {
            assert(dd_measure(dd2).0 < dd_measure(dd).0);
        } else if o is Fail {
            let committed = DdV {
                seq: trial_chunk(dd),
                source: trial_source(dd),
                granularity: dec_gran(dd.granularity),
                ..dd
            };
            assert(committed.seq.len() < dd.seq.len()) by {
                let len = dd.seq.len() as int;
                let end = chunk_end(len, dd.start as int, dd.subset as int);
                if dd.start == 0 {
                    assert(len - 0 > dd.subset);
                }
            }
        } else {
            let ns = chunk_end(dd.seq.len() as int, dd.start as int, dd.subset as int);
            if ns < dd.seq.len() {
                assert(dd2.start > dd.start);
                assert(dd_measure(dd2).4 < dd_measure(dd).4);
            } else {
                let g = dd.granularity;
                let len = dd.seq.len();
                let g2 = double_gran(g, len as usize);
                if g > len {
                    assert(dd_measure(dd2).2 < dd_measure(dd).2);
                } else {
                    assert(g < len);
                    assert(g2 > g);
                    assert(dd_measure(dd2).3 < dd_measure(dd).3);
                }
            }
        }
    }
}

/// One transition of the engine.  Consumes the outcome of the pending run
/// and reports what to do next, exactly as [`dd_step_model`] says.
pub fn dd_step(dd: &mut DdState, o: TestOutcome) -> (r: DdStep)
    requires
        dd_running(old(dd)@),
    ensures
        (final(dd)@, r@) == dd_step_model(old(dd)@, o),
{
    if dd.initial {
        if matches!(o, TestOutcome::Pass) {
            return DdStep::NoChange;
        }
        if dd.seq.len() < 2 {
            let out = copy_bytes(&dd.source);
            return DdStep::Reduced(out);
        }
        dd.subset = dd.seq.len() / 2;
        dd.start = 0;
        dd.initial = false;
        emit_trial(dd)
    } else {
        if matches!(o, TestOutcome::Fail) {
            let len = dd.seq.len();
            let end = if len - dd.start <= dd.subset {
                len
            } else {
                dd.start + dd.subset
            };
            let chunk = spans_subrange(&dd.seq, dd.start, end);
            let content = synthesize(&dd.base, &dd.cands, &chunk);
            let g = dd.granularity;
            dd.granularity = if g >= 3 {
                g - 1
            } else {
                2
            };
            dd.seq = chunk;
            dd.source = content;
            if dd.seq.len() < 2 {
                let out = copy_bytes(&dd.source);
                return DdStep::Reduced(out);
            }
            dd.subset = dd.seq.len() / 2;
            dd.start = 0;
            emit_trial(dd)
        } else {
            let len = dd.seq.len();
            let ns = if len - dd.start <= dd.subset {
                len
            } else {
                dd.start + dd.subset
            };
            if ns < len {
                dd.start = ns;
                emit_trial(dd)
            } else if dd.granularity == len {
                let out = copy_bytes(&dd.source);
                DdStep::Reduced(out)
            } else {
                let g = dd.granularity;
                dd.granularity = if g > len / 2 {
                    len
                } else {
                    g * 2
                };
                dd.subset = dd.seq.len() / 2;
                dd.start = 0;
                emit_trial(dd)
            }
        }
    }
}

/// Synthesizes the candidate source that keeps only `chunk` of the
/// candidates: the pass input with every other candidate node deleted.
fn synthesize(base: &Vec<u8>, cands: &Vec<Span>, chunk: &Vec<Span>) -> (out: Vec<u8>)
    requires
        spans_wf(cands@, base@.len()),
    ensures
        out@ == spec_delete(base@, spec_excluded(cands@, chunk@)),
{
    let removed = excluded_spans(cands, chunk);
    proof {
        lemma_excluded_wf(cands@, chunk@, base@.len());
    }
    delete_ranges(base, &removed)
}

/// Builds the current trial's step: the candidate source, or an abort when
/// its bytes are not valid UTF-8.
fn emit_trial(dd: &DdState) -> (r: DdStep)
    requires
        spans_wf(dd@.cands, dd@.base.len()),
        !dd@.initial,
        dd@.start < dd@.seq.len(),
    ensures
        (dd@, r@) == dd_emit(dd@),
{
    let len = dd.seq.len();
    let end = if len - dd.start <= dd.subset {
        len
    } else {
        dd.start + dd.subset
    };
    let chunk = spans_subrange(&dd.seq, dd.start, end);
    let content = synthesize(&dd.base, &dd.cands, &chunk);
    if utf8_check(&content) {
        DdStep::Trial(content)
    } else {
        DdStep::Abort(Error::new(String::from_str("Candidate source is not valid UTF-8")))
    }
}

} // verus!
