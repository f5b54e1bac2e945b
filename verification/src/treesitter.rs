//! The grammar adapter: a narrow interface over the tree-sitter parser and
//! the Lua grammar.
//!
//! Only three operations are taken on trust, each a pure function of its
//! arguments: listing the root's children, running a query, and looking up a
//! capture index.  Everything around them — dropping nodes with parse errors,
//! checking that candidate ranges are ordered and non-overlapping — is
//! verified code.

use crate::error::Error;
use crate::error::ErrorV;
use crate::rewrite::spans_wf;
use crate::rewrite::Span;
use tree_sitter::StreamingIterator;
use vstd::prelude::*;
use vstd::string::StringExecFns;

verus! {

/// What parsing a byte string with the Lua grammar yields for the root's
/// children: `(start_byte, end_byte, has_error)` for each child of the root,
/// in tree order, or `None` when the parser yields no tree.
pub uninterp spec fn lua_top_nodes(src: Seq<u8>) -> Option<Seq<(usize, usize, bool)>>;

/// Relies on tree_sitter's `Parser::parse` with the grammar of the
/// tree_sitter_lua crate: the concrete-syntax tree is a function of the
/// parsed bytes alone, and each root child carries its byte range
/// (`Node::start_byte`, `Node::end_byte`) and error flag (`Node::has_error`).
#[verifier::external_body]
fn top_nodes_raw(src: &Vec<u8>) -> (r: Option<Vec<(usize, usize, bool)>>)
    ensures
        match r {
            Some(v) => lua_top_nodes(src@) == Some(v@),
            None => lua_top_nodes(src@) is None,
        },
{
    let mut parser = tree_sitter::Parser::new();
    let language = tree_sitter::Language::new(tree_sitter_lua::LANGUAGE);
    parser.set_language(&language).ok()?;
    let tree = parser.parse(src.as_slice(), None)?;
    let root = tree.root_node();
    let mut cursor = tree.walk();
    let mut out = Vec::new();
    for child in root.children(&mut cursor) {
        out.push((child.start_byte(), child.end_byte(), child.has_error()));
    }
    Some(out)
}

/// What running a query over the parse of `src` captures: one entry
/// `(capture_index, start_byte, end_byte, has_error)` per capture of every
/// match, in the order tree-sitter reports them; `None` when the source does
/// not parse or the query is malformed.
pub uninterp spec fn lua_query_captures(src: Seq<u8>, query: Seq<char>) -> Option<
    Seq<(u32, usize, usize, bool)>,
>;

/// Relies on tree_sitter's `Query::new` and `QueryCursor::matches` with the
/// tree_sitter_lua grammar: the matches of a query over the tree of `src`
/// are a function of the source bytes and the query text alone.
#[verifier::external_body]
fn query_captures_raw(src: &Vec<u8>, query: &str) -> (r: Option<Vec<(u32, usize, usize, bool)>>)
    ensures
        match r {
            Some(v) => lua_query_captures(src@, query@) == Some(v@),
            None => lua_query_captures(src@, query@) is None,
        },
{
    let mut parser = tree_sitter::Parser::new();
    let language = tree_sitter::Language::new(tree_sitter_lua::LANGUAGE);
    parser.set_language(&language).ok()?;
    let tree = parser.parse(src.as_slice(), None)?;
    let q = tree_sitter::Query::new(&language, query).ok()?;
    let mut cursor = tree_sitter::QueryCursor::new();
    let mut matches = cursor.matches(&q, tree.root_node(), src.as_slice());
    let mut out = Vec::new();
    while let Some(m) = matches.next() {
        for c in m.captures() {
            out.push((c.index, c.node.start_byte(), c.node.end_byte(), c.node.has_error()));
        }
    }
    Some(out)
}

/// The index that a query assigns to the capture of the given name, a
/// function of the query text and the name.
pub uninterp spec fn lua_capture_index(query: Seq<char>, name: Seq<char>) -> Option<u32>;

/// Relies on tree_sitter's `Query::capture_index_for_name`: the index of a
/// named capture is a function of the query text and the name.
#[verifier::external_body]
fn capture_index_raw(query: &str, name: &str) -> (r: Option<u32>)
    ensures
        r == lua_capture_index(query@, name@),
{
    let language = tree_sitter::Language::new(tree_sitter_lua::LANGUAGE);
    let q = tree_sitter::Query::new(&language, query).ok()?;
    q.capture_index_for_name(name)
}

/// The query that finds calls to `require`: a `function_call` whose name is
/// the identifier `require` and whose arguments are an `arguments` node.
/// The capture of interest is the whole call, named `func_call`.
pub open spec fn imports_query_spec() -> Seq<char> {
    "((function_call name: ((identifier) @p (#eq? @p \"require\")) arguments: (arguments) @args) @func_call)"@
}

/// The text of the imports query.
pub fn imports_query() -> (r: String)
    ensures
        r@ == imports_query_spec(),
{
    String::from_str(
        "((function_call name: ((identifier) @p (#eq? @p \"require\")) arguments: (arguments) @args) @func_call)",
    )
}

/// The name of the capture of interest in the imports query.
pub open spec fn func_call_capture_spec() -> Seq<char> {
    "func_call"@
}

/// The spans of the error-free root children: the candidates of the pass
/// over top-level statements.
pub open spec fn top_spans(ns: Seq<(usize, usize, bool)>) -> Seq<Span> {
    ns.filter(|n: (usize, usize, bool)| !n.2).map_values(|n: (usize, usize, bool)| (n.0, n.1))
}

/// The spans of the error-free captures with the given capture index: the
/// candidates of the imports pass.
pub open spec fn capture_spans(caps: Seq<(u32, usize, usize, bool)>, ix: u32) -> Seq<Span> {
    caps.filter(|c: (u32, usize, usize, bool)| c.0 == ix && !c.3).map_values(
        |c: (u32, usize, usize, bool)| (c.1, c.2),
    )
}

/// Keeps the error-free children and drops the flags.
fn keep_top_spans(ns: &Vec<(usize, usize, bool)>) -> (out: Vec<Span>)
    ensures
        out@ == top_spans(ns@),
{
    let mut out: Vec<Span> = Vec::new();
    let mut i: usize = 0;
    proof {
        reveal(Seq::filter);
        assert(ns@.take(0) =~= Seq::<(usize, usize, bool)>::empty());
        assert(top_spans(ns@.take(0)) =~= Seq::<Span>::empty());
    }
    while i < ns.len()
        invariant
            i <= ns@.len(),
            out@ == top_spans(ns@.take(i as int)),
        decreases ns@.len() - i,
    {
        let (a, b, e): (usize, usize, bool) = ns[i];
        proof {
            reveal(Seq::filter);
            assert(ns@.take(i + 1).drop_last() =~= ns@.take(i as int));
            assert(ns@.take(i + 1).last() == ns@[i as int]);
        }
        if !e {
            out.push((a, b));
            proof {
                assert(top_spans(ns@.take(i + 1)) =~= top_spans(ns@.take(i as int)).push((a, b)));
            }
        } else {
            proof {
                assert(top_spans(ns@.take(i + 1)) =~= top_spans(ns@.take(i as int)));
            }
        }
        i = i + 1;
    }
    proof {
        assert(ns@.take(ns@.len() as int) =~= ns@);
    }
    out
}

/// Keeps the error-free captures with the given index and drops the flags.
fn keep_capture_spans(caps: &Vec<(u32, usize, usize, bool)>, ix: u32) -> (out: Vec<Span>)
    ensures
        out@ == capture_spans(caps@, ix),
{
    let mut out: Vec<Span> = Vec::new();
    let mut i: usize = 0;
    proof {
        reveal(Seq::filter);
        assert(caps@.take(0) =~= Seq::<(u32, usize, usize, bool)>::empty());
        assert(capture_spans(caps@.take(0), ix) =~= Seq::<Span>::empty());
    }
    while i < caps.len()
        invariant
            i <= caps@.len(),
            out@ == capture_spans(caps@.take(i as int), ix),
        decreases caps@.len() - i,
    {
        let (ci, a, b, e): (u32, usize, usize, bool) = caps[i];
        proof {
            reveal(Seq::filter);
            assert(caps@.take(i + 1).drop_last() =~= caps@.take(i as int));
            assert(caps@.take(i + 1).last() == caps@[i as int]);
        }
        if ci == ix && !e {
            out.push((a, b));
            proof {
                assert(capture_spans(caps@.take(i + 1), ix) =~= capture_spans(
                    caps@.take(i as int),
                    ix,
                ).push((a, b)));
            }
        } else {
            proof {
                assert(capture_spans(caps@.take(i + 1), ix) =~= capture_spans(
                    caps@.take(i as int),
                    ix,
                ));
            }
        }
        i = i + 1;
    }
    proof {
        assert(caps@.take(caps@.len() as int) =~= caps@);
    }
    out
}

/// What selecting the candidates of the top-level pass yields on a source.
pub open spec fn select_top_spec(src: Seq<u8>) -> Result<Seq<Span>, ErrorV> {
    match lua_top_nodes(src) {
        None => Err(ErrorV::Msg("Cannot parse the given source"@)),
        Some(ns) => {
            let rs = top_spans(ns);
            if spans_wf(rs, src.len()) && rs.len() <= usize::MAX {
                Ok(rs)
            } else {
                Err(ErrorV::Msg("Cannot reconcile the candidate nodes"@))
            }
        },
    }
}

/// Selects the candidates of the top-level pass: the error-free children of
/// the root, each as its byte range, checked to be ordered and
/// non-overlapping.
pub fn select_top(src: &Vec<u8>) -> (r: Result<Vec<Span>, Error>)
    ensures
        match r {
            Ok(rs) => select_top_spec(src@) == Ok::<Seq<Span>, ErrorV>(rs@) && spans_wf(
                rs@,
                src@.len(),
            ),
            Err(e) => select_top_spec(src@) == Err::<Seq<Span>, ErrorV>(e@),
        },
{
    let ns = match top_nodes_raw(src) {
        None => {
            return Err(Error::new(String::from_str("Cannot parse the given source")));
        },
        Some(ns) => ns,
    };
    let rs = keep_top_spans(&ns);
    let n_rs = rs.len();
    proof {
        assert(rs@.len() == n_rs <= usize::MAX);
    }
    if check_spans_wf_src(&rs, src) {
        Ok(rs)
    } else {
        Err(Error::new(String::from_str("Cannot reconcile the candidate nodes")))
    }
}

/// What selecting the candidates of the imports pass yields on a source.
pub open spec fn select_imports_spec(src: Seq<u8>) -> Result<Seq<Span>, ErrorV> {
    match lua_query_captures(src, imports_query_spec()) {
        None => Err(ErrorV::Msg("Cannot parse the given source"@)),
        Some(caps) => match lua_capture_index(imports_query_spec(), func_call_capture_spec()) {
            None => Err(ErrorV::Msg("Cannot resolve the imports query"@)),
            Some(ix) => {
                let rs = capture_spans(caps, ix);
                if spans_wf(rs, src.len()) && rs.len() <= usize::MAX {
                    Ok(rs)
                } else {
                    Err(ErrorV::Msg("Cannot reconcile the candidate nodes"@))
                }
            },
        },
    }
}

/// Selects the candidates of the imports pass: every captured `require(...)`
/// call without parse errors, each as its byte range, checked to be ordered
/// and non-overlapping.
pub fn select_imports(src: &Vec<u8>) -> (r: Result<Vec<Span>, Error>)
    ensures
        match r {
            Ok(rs) => select_imports_spec(src@) == Ok::<Seq<Span>, ErrorV>(rs@) && spans_wf(
                rs@,
                src@.len(),
            ),
            Err(e) => select_imports_spec(src@) == Err::<Seq<Span>, ErrorV>(e@),
        },
{
    let query = imports_query();
    let caps = match query_captures_raw(src, query.as_str()) {
        None => {
            return Err(Error::new(String::from_str("Cannot parse the given source")));
        },
        Some(caps) => caps,
    };
    let ix = match capture_index_raw(query.as_str(), "func_call") {
        None => {
            return Err(Error::new(String::from_str("Cannot resolve the imports query")));
        },
        Some(ix) => ix,
    };
    let rs = keep_capture_spans(&caps, ix);
    let n_rs = rs.len();
    proof {
        assert(rs@.len() == n_rs <= usize::MAX);
    }
    if check_spans_wf_src(&rs, src) {
        Ok(rs)
    } else {
        Err(Error::new(String::from_str("Cannot reconcile the candidate nodes")))
    }
}

/// Checks the spans against the length of the source.
fn check_spans_wf_src(rs: &Vec<Span>, src: &Vec<u8>) -> (r: bool)
    ensures
        r == spans_wf(rs@, src@.len()),
{
    crate::rewrite::check_spans_wf(rs, src.len())
}

} // verus!
