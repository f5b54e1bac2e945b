//! Byte-exact source rewriting: deleting the byte ranges of a set of
//! concrete-syntax nodes from a source string.

use vstd::prelude::*;
use vstd::utf8::valid_utf8;

verus! {

/// A byte range `[start, end)` into a source string.
pub type Span = (usize, usize);

/// The span lies inside a source of `n` bytes.
pub open spec fn span_wf(s: Span, n: nat) -> bool {
    s.0 <= s.1 <= n
}

/// The spans all lie inside a source of `n` bytes, are ordered by ascending
/// source position, and are pairwise non-overlapping.
pub open spec fn spans_wf(rs: Seq<Span>, n: nat) -> bool {
    &&& forall|i: int| 0 <= i < rs.len() ==> span_wf(#[trigger] rs[i], n)
    &&& forall|i: int, j: int|
        #![trigger rs[i], rs[j]]
        0 <= i < j < rs.len() ==> rs[i].1 <= rs[j].0
}

/// The suffix of `s` starting at `from`, with the given spans deleted.
pub open spec fn spec_delete_from(s: Seq<u8>, from: int, rs: Seq<Span>) -> Seq<u8>
    decreases rs.len(),
{
    if rs.len() == 0 {
        s.subrange(from, s.len() as int)
    } else {
        s.subrange(from, rs[0].0 as int) + spec_delete_from(s, rs[0].1 as int, rs.skip(1))
    }
}

/// `s` with the given spans deleted: the bytes of `s` that fall in no span,
/// in their original order.
pub open spec fn spec_delete(s: Seq<u8>, rs: Seq<Span>) -> Seq<u8> {
    spec_delete_from(s, 0, rs)
}

/// Dropping the first span keeps the remaining spans well formed.
proof fn lemma_spans_wf_skip(rs: Seq<Span>, n: nat)
    requires
        spans_wf(rs, n),
        rs.len() > 0,
    ensures
        spans_wf(rs.skip(1), n),
        rs.skip(1).len() > 0 ==> rs[0].1 <= rs.skip(1)[0].0,
{
    assert forall|i: int| 0 <= i < rs.skip(1).len() implies span_wf(#[trigger] rs.skip(1)[i], n) by {
        assert(rs.skip(1)[i] == rs[i + 1]);
    }
    assert forall|i: int, j: int|
        #![trigger rs.skip(1)[i], rs.skip(1)[j]]
        0 <= i < j < rs.skip(1).len() implies rs.skip(1)[i].1 <= rs.skip(1)[j].0 by {
        assert(rs.skip(1)[i] == rs[i + 1]);
        assert(rs.skip(1)[j] == rs[j + 1]);
    }
}

/// Deleting spans never lengthens the remaining suffix.
pub proof fn lemma_delete_from_len(s: Seq<u8>, from: int, rs: Seq<Span>)
    requires
        spans_wf(rs, s.len()),
        0 <= from <= s.len(),
        rs.len() > 0 ==> from <= rs[0].0,
    ensures
        spec_delete_from(s, from, rs).len() <= s.len() - from,
    decreases rs.len(),
{
    if rs.len() == 0 {
    } else {
        lemma_spans_wf_skip(rs, s.len() as nat);
        lemma_delete_from_len(s, rs[0].1 as int, rs.skip(1));
    }
}

/// Deleting spans never lengthens a source.
pub proof fn lemma_delete_len(s: Seq<u8>, rs: Seq<Span>)
    requires
        spans_wf(rs, s.len()),
    ensures
        spec_delete(s, rs).len() <= s.len(),
{
    if rs.len() > 0 {
        lemma_delete_from_len(s, 0, rs);
    }
}

/// Appends `s[from..to]` to `out`.
fn extend_bytes(out: &mut Vec<u8>, s: &Vec<u8>, from: usize, to: usize)
    requires
        from <= to <= s@.len(),
    ensures
        final(out)@ == old(out)@ + s@.subrange(from as int, to as int),
{
    let mut i: usize = from;
    while i < to
        invariant
            from <= i <= to <= s@.len(),
            out@ == old(out)@ + s@.subrange(from as int, i as int),
        decreases to - i,
    {
        out.push(s[i]);
        proof {
            assert(s@.subrange(from as int, i + 1) =~= s@.subrange(from as int, i as int).push(
                s@[i as int],
            ));
        }
        i = i + 1;
    }
    proof {
        assert(out@ =~= old(out)@ + s@.subrange(from as int, to as int));
    }
}

/// Produces `s` with the given spans deleted.  This is the whole of the
/// source rewriting the reducer performs: candidate sources are synthesized
/// by deleting node spans from the source the pass started from.
pub fn delete_ranges(s: &Vec<u8>, rs: &Vec<Span>) -> (out: Vec<u8>)
    requires
        spans_wf(rs@, s@.len()),
    ensures
        out@ == spec_delete(s@, rs@),
        out@.len() <= s@.len(),
{
    let mut out: Vec<u8> = Vec::new();
    let mut i: usize = 0;
    let mut prev: usize = 0;
    proof {
        assert(rs@.skip(0) =~= rs@);
    }
    while i < rs.len()
        invariant
            spans_wf(rs@, s@.len()),
            i <= rs@.len(),
            prev <= s@.len(),
            i < rs@.len() ==> prev <= rs@[i as int].0,
            spec_delete(s@, rs@) == out@ + spec_delete_from(s@, prev as int, rs@.skip(i as int)),
        decreases rs@.len() - i,
    {
        let (a, b): (usize, usize) = rs[i];
        let ghost rest = rs@.skip(i as int);
        proof {
            assert(rest[0] == rs@[i as int]);
            lemma_spans_wf_skip(rest, s@.len() as nat);
            assert(rest.skip(1) =~= rs@.skip(i + 1));
            assert(spec_delete_from(s@, prev as int, rest) == s@.subrange(prev as int, a as int)
                + spec_delete_from(s@, b as int, rs@.skip(i + 1)));
        }
        extend_bytes(&mut out, s, prev, a);
        proof {
            assert(out@ + spec_delete_from(s@, b as int, rs@.skip(i + 1)) =~= spec_delete(
                s@,
                rs@,
            ));
            if i + 1 < rs@.len() {
                assert(rs@[i as int].1 <= rs@[i + 1].0);
            }
        }
        prev = b;
        i = i + 1;
    }
    proof {
        assert(rs@.skip(rs@.len() as int) =~= Seq::<Span>::empty());
        assert(spec_delete_from(s@, prev as int, Seq::<Span>::empty()) == s@.subrange(
            prev as int,
            s@.len() as int,
        ));
    }
    extend_bytes(&mut out, s, prev, s.len());
    proof {
        lemma_delete_len(s@, rs@);
    }
    out
}

/// The spans of `rs` that do not occur in `keep`, in their original order.
pub open spec fn spec_excluded(rs: Seq<Span>, keep: Seq<Span>) -> Seq<Span> {
    rs.filter(|r: Span| !keep.contains(r))
}

/// Whether `x` occurs in `v`.
pub fn span_list_contains(v: &Vec<Span>, x: Span) -> (r: bool)
    ensures
        r == v@.contains(x),
{
    let mut i: usize = 0;
    while i < v.len()
        invariant
            i <= v@.len(),
            forall|j: int| 0 <= j < i ==> v@[j] != x,
        decreases v@.len() - i,
    {
        let (a, b): (usize, usize) = v[i];
        if a == x.0 && b == x.1 {
            proof {
                assert(v@[i as int] == x);
            }
            return true;
        }
        proof {
            assert(v@[i as int] != x);
        }
        i = i + 1;
    }
    false
}

/// Produces the spans of `rs` that do not occur in `keep`.
pub fn excluded_spans(rs: &Vec<Span>, keep: &Vec<Span>) -> (out: Vec<Span>)
    ensures
        out@ == spec_excluded(rs@, keep@),
{
    let ghost pred = |r: Span| !keep@.contains(r);
    let mut out: Vec<Span> = Vec::new();
    let mut i: usize = 0;
    proof {
        reveal(Seq::filter);
        assert(rs@.take(0) =~= Seq::<Span>::empty());
    }
    while i < rs.len()
        invariant
            i <= rs@.len(),
            pred == (|r: Span| !keep@.contains(r)),
            out@ == rs@.take(i as int).filter(pred),
        decreases rs@.len() - i,
    {
        let x = rs[i];
        proof {
            reveal(Seq::filter);
            assert(rs@.take(i + 1).drop_last() =~= rs@.take(i as int));
            assert(rs@.take(i + 1).last() == rs@[i as int]);
        }
        if !span_list_contains(keep, x) {
            out.push(x);
        }
        i = i + 1;
    }
    proof {
        assert(rs@.take(rs@.len() as int) =~= rs@);
    }
    out
}

/// Filtering spans keeps them well formed: the survivors are still in
/// ascending order and non-overlapping.
pub proof fn lemma_filter_spans_wf(rs: Seq<Span>, pred: spec_fn(Span) -> bool, n: nat)
    requires
        spans_wf(rs, n),
    ensures
        spans_wf(rs.filter(pred), n),
    decreases rs.len(),
{
    reveal(Seq::filter);
    if rs.len() == 0 {
    } else {
        let pre = rs.drop_last();
        assert(spans_wf(pre, n));
        lemma_filter_spans_wf(pre, pred, n);
        let fpre = pre.filter(pred);
        if pred(rs.last()) {
            let f = fpre.push(rs.last());
            assert forall|i: int, j: int|
                #![trigger f[i], f[j]]
                0 <= i < j < f.len() implies f[i].1 <= f[j].0 by {
                if j < f.len() - 1 {
                    assert(f[i] == fpre[i] && f[j] == fpre[j]);
                } else {
                    assert(f[i] == fpre[i]);
                    assert(fpre.contains(fpre[i]));
                    pre.lemma_filter_contains_rev(pred, fpre[i]);
                    let k = choose|k: int| 0 <= k < pre.len() && pre[k] == fpre[i];
                    assert(rs[k] == fpre[i]);
                    assert(rs[k].1 <= rs[rs.len() - 1].0);
                }
            }
            assert forall|i: int| 0 <= i < f.len() implies span_wf(#[trigger] f[i], n) by {
                if i < f.len() - 1 {
                    assert(f[i] == fpre[i]);
                } else {
                    assert(f[i] == rs.last());
                    assert(span_wf(rs[rs.len() - 1], n));
                }
            }
        }
    }
}

/// The spans excluded from a well-formed list are well formed.
pub proof fn lemma_excluded_wf(rs: Seq<Span>, keep: Seq<Span>, n: nat)
    requires
        spans_wf(rs, n),
    ensures
        spans_wf(spec_excluded(rs, keep), n),
{
    lemma_filter_spans_wf(rs, |r: Span| !keep.contains(r), n);
}

/// Relies on `std::str::from_utf8`: it returns `Ok` exactly when the bytes
/// are valid UTF-8, which vstd's `valid_utf8` formalizes.
#[verifier::external_body]
pub fn utf8_check(v: &Vec<u8>) -> (r: bool)
    ensures
        r == valid_utf8(v@),
{
    std::str::from_utf8(v.as_slice()).is_ok()
}

/// The bytes of the given node span.  The grammar adapter uses it to show a
/// node's source text.
pub fn node_source(source: &Vec<u8>, span: Span) -> (out: Vec<u8>)
    requires
        span_wf(span, source@.len()),
    ensures
        out@ == source@.subrange(span.0 as int, span.1 as int),
{
    let mut out: Vec<u8> = Vec::new();
    extend_bytes(&mut out, source, span.0, span.1);
    out
}

/// Copies a byte vector.
pub fn copy_bytes(v: &Vec<u8>) -> (out: Vec<u8>)
    ensures
        out@ == v@,
{
    let mut out: Vec<u8> = Vec::new();
    extend_bytes(&mut out, v, 0, v.len());
    proof {
        assert(v@.subrange(0, v@.len() as int) =~= v@);
    }
    out
}

/// Copies a span list.
pub fn copy_spans(v: &Vec<Span>) -> (out: Vec<Span>)
    ensures
        out@ == v@,
{
    let mut out: Vec<Span> = Vec::new();
    let mut i: usize = 0;
    while i < v.len()
        invariant
            i <= v@.len(),
            out@ == v@.take(i as int),
        decreases v@.len() - i,
    {
        out.push(v[i]);
        proof {
            assert(v@.take(i + 1) =~= v@.take(i as int).push(v@[i as int]));
        }
        i = i + 1;
    }
    proof {
        assert(v@.take(v@.len() as int) =~= v@);
    }
    out
}

/// The sub-list `v[from..to]`.
pub fn spans_subrange(v: &Vec<Span>, from: usize, to: usize) -> (out: Vec<Span>)
    requires
        from <= to <= v@.len(),
    ensures
        out@ == v@.subrange(from as int, to as int),
{
    let mut out: Vec<Span> = Vec::new();
    let mut i: usize = from;
    while i < to
        invariant
            from <= i <= to <= v@.len(),
            out@ == v@.subrange(from as int, i as int),
        decreases to - i,
    {
        out.push(v[i]);
        proof {
            assert(v@.subrange(from as int, i + 1) =~= v@.subrange(from as int, i as int).push(
                v@[i as int],
            ));
        }
        i = i + 1;
    }
    out
}

/// Checks that the spans are ordered, non-overlapping and inside a source of
/// `n` bytes.
pub fn check_spans_wf(rs: &Vec<Span>, n: usize) -> (r: bool)
    ensures
        r == spans_wf(rs@, n as nat),
{
    let mut i: usize = 0;
    while i < rs.len()
        invariant
            i <= rs@.len(),
            forall|k: int| 0 <= k < i ==> span_wf(#[trigger] rs@[k], n as nat),
            forall|k: int, j: int|
                #![trigger rs@[k], rs@[j]]
                0 <= k < j < i ==> rs@[k].1 <= rs@[j].0,
        decreases rs@.len() - i,
    {
        let (a, b): (usize, usize) = rs[i];
        if !(a <= b && b <= n) {
            return false;
        }
        if i > 0 {
            let (_pa, pb): (usize, usize) = rs[i - 1];
            if pb > a {
                return false;
            }
            proof {
                assert(rs@[i - 1].1 == pb);
                assert(rs@[i as int].0 == a);
                assert forall|k: int, j: int|
                    #![trigger rs@[k], rs@[j]]
                    0 <= k < j < i + 1 implies rs@[k].1 <= rs@[j].0 by {
                    if j == i && k < i - 1 {
                        assert(rs@[k].1 <= rs@[i - 1].0);
                        assert(span_wf(rs@[i - 1], n as nat));
                    }
                }
            }
        }
        i = i + 1;
    }
    true
}

} // verus!
