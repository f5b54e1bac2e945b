//! Run configuration: which passes run, where temporary files go, and how the
//! pass list named on the command line is parsed.

use crate::passes::PassId;
use vstd::prelude::*;
use vstd::string::StrSliceExecFns;
use vstd::string::StringExecFns;

verus! {

/// Which reduction passes are enabled, and in which order they run.
#[derive(Debug)]
pub struct PassesConfig {
    pub imports: bool,
    pub top: bool,
    /// The enabled passes, in the order they were named (a pass runs once,
    /// at the place of its first naming).
    pub order: Vec<PassId>,
}

/// The mathematical model of a [`PassesConfig`].
pub struct PassesV {
    pub imports: bool,
    pub top: bool,
    pub order: Seq<PassId>,
}

impl View for PassesConfig {
    type V = PassesV;

    open spec fn view(&self) -> PassesV {
        PassesV { imports: self.imports, top: self.top, order: self.order@ }
    }
}

/// The reducer's configuration.  The caller fills it from the command line;
/// the defaults of [`App::new`] mirror an empty invocation.
#[derive(Debug)]
pub struct App {
    /// Absolute path to the script that checks failure.
    pub script: String,
    /// Path to file to be tested.
    pub file: String,
    /// Path to the temporary directory created for the run.
    pub output_dir: String,
    /// Timeout for one execution of the script, in seconds.
    pub timeout: Option<u32>,
    /// Remove the existent temporary directory if it exists.
    pub force: bool,
    /// Use files in the directory that contains the target file.
    pub recursive: bool,
    /// Passes to run.
    pub passes: PassesConfig,
}

impl App {
    /// A configuration with every field at its default.
    pub fn new() -> (r: App)
        ensures
            r.script@ == Seq::<char>::empty(),
            r.file@ == Seq::<char>::empty(),
            r.output_dir@ == "/tmp/dd/"@,
            r.timeout is None,
            !r.force,
            !r.recursive,
            r.passes.imports,
            r.passes.top,
            r.passes@.order == seq![PassId::Imports, PassId::Top],
    {
        let mut order: Vec<PassId> = Vec::new();
        order.push(PassId::Imports);
        order.push(PassId::Top);
        proof {
            assert(order@ =~= seq![PassId::Imports, PassId::Top]);
        }
        App {
            script: String::new(),
            file: String::new(),
            output_dir: String::from_str("/tmp/dd/"),
            timeout: None,
            force: false,
            recursive: false,
            passes: PassesConfig { imports: true, top: true, order },
        }
    }
}

/// The position of the first `;` in `s`, or `s.len()` if there is none.
pub open spec fn find_semi(s: Seq<char>) -> int
    decreases s.len(),
{
    if s.len() == 0 {
        0
    } else if s[0] == ';' {
        0
    } else {
        1 + find_semi(s.skip(1))
    }
}

/// `find_semi` points at the first `;`.
pub proof fn lemma_find_semi(s: Seq<char>)
    ensures
        0 <= find_semi(s) <= s.len(),
        forall|j: int| 0 <= j < find_semi(s) ==> s[j] != ';',
        find_semi(s) < s.len() ==> s[find_semi(s)] == ';',
    decreases s.len(),
{
    if s.len() == 0 {
    } else if s[0] == ';' {
    } else {
        lemma_find_semi(s.skip(1));
        assert forall|j: int| 0 <= j < find_semi(s) implies s[j] != ';' by {
            if j > 0 {
                assert(s.skip(1)[j - 1] == s[j]);
            }
        }
        if find_semi(s) < s.len() {
            assert(s.skip(1)[find_semi(s) - 1] == s[find_semi(s)]);
        }
    }
}

/// Enables the imports pass: it joins the run order at its first naming.
pub open spec fn enable_imports(acc: PassesV) -> PassesV {
    PassesV {
        imports: true,
        top: acc.top,
        order: if acc.imports {
            acc.order
        } else {
            acc.order.push(PassId::Imports)
        },
    }
}

/// Enables the top pass: it joins the run order at its first naming.
pub open spec fn enable_top(acc: PassesV) -> PassesV {
    PassesV {
        imports: acc.imports,
        top: true,
        order: if acc.top {
            acc.order
        } else {
            acc.order.push(PassId::Top)
        },
    }
}

/// Parses the pass list from position `p` on, with `acc` holding the passes
/// named so far.  A segment is the text up to the next `;` or the end; the
/// names `imports` and `top` enable their passes, in the order of their
/// first naming; any other segment is an error carrying the message
/// `Unknown pass: ` followed by the segment.
pub open spec fn parse_passes_from(s: Seq<char>, p: int, acc: PassesV) -> Result<
    PassesV,
    Seq<char>,
>
    recommends
        0 <= p <= s.len(),
    decreases s.len() - p, 1nat,
        when 0 <= p <= s.len()
        via parse_passes_from_decreases
{
    let k = p + find_semi(s.skip(p));
    let seg = s.subrange(p, k);
    if seg == "imports"@ {
        parse_passes_next(s, k, enable_imports(acc))
    } else if seg == "top"@ {
        parse_passes_next(s, k, enable_top(acc))
    } else {
        Err("Unknown pass: "@ + seg)
    }
}

/// Shows that scanning for the next segment makes progress: the segment end
/// `p + find_semi(s.skip(p))` stays within the string.
#[via_fn]
proof fn parse_passes_from_decreases(s: Seq<char>, p: int, acc: PassesV) {
    lemma_find_semi(s.skip(p));
}

/// Continues after a recognized segment ending at `k`.
pub open spec fn parse_passes_next(s: Seq<char>, k: int, acc: PassesV) -> Result<
    PassesV,
    Seq<char>,
>
    recommends
        0 <= k <= s.len(),
    decreases s.len() - k, 0nat,
        when 0 <= k <= s.len()
{
    if k >= s.len() {
        Ok(acc)
    } else {
        parse_passes_from(s, k + 1, acc)
    }
}

/// The view of an optional string argument.
pub open spec fn arg_view(arg: Option<&str>) -> Option<Seq<char>> {
    match arg {
        Some(s) => Some(s@),
        None => None,
    }
}

/// What [`parse_passes`] returns for a given argument.
pub open spec fn parse_passes_spec(arg: Option<Seq<char>>) -> Result<PassesV, Seq<char>> {
    match arg {
        None => Err("No passes enabled"@),
        Some(s) => parse_passes_from(
            s,
            0,
            PassesV { imports: false, top: false, order: Seq::empty() },
        ),
    }
}

/// Whether `s[from..to]` equals `pat`.
fn str_range_eq(s: &str, from: usize, to: usize, pat: &str) -> (r: bool)
    requires
        from <= to <= s@.len(),
    ensures
        r == (s@.subrange(from as int, to as int) == pat@),
{
    let m = pat.unicode_len();
    if to - from != m {
        proof {
            assert(s@.subrange(from as int, to as int).len() != pat@.len());
        }
        return false;
    }
    let mut i: usize = 0;
    while i < m
        invariant
            from <= to <= s@.len(),
            to - from == m == pat@.len(),
            i <= m,
            forall|j: int| 0 <= j < i ==> s@[from + j] == pat@[j],
        decreases m - i,
    {
        let a = s.get_char(from + i);
        let b = pat.get_char(i);
        if a != b {
            proof {
                assert(s@.subrange(from as int, to as int)[i as int] == s@[from + i]);
            }
            return false;
        }
        i = i + 1;
    }
    proof {
        assert(s@.subrange(from as int, to as int) =~= pat@);
    }
    true
}

/// Returns the passes configuration that the command-line argument names:
/// which passes are enabled, in the run order the argument gives.  The
/// argument is a `;`-separated list of pass names; an unknown name is an
/// error, and so is a missing argument.
pub fn parse_passes(arg: Option<&str>) -> (r: Result<PassesConfig, String>)
    ensures
        match r {
            Ok(c) => parse_passes_spec(arg_view(arg)) == Ok::<PassesV, Seq<char>>(c@),
            Err(e) => parse_passes_spec(arg_view(arg)) == Err::<PassesV, Seq<char>>(e@),
        },
{
    let s = match arg {
        None => {
            return Err(String::from_str("No passes enabled"));
        },
        Some(s) => s,
    };
    proof {
        assert(arg_view(arg) == Some(s@));
    }
    let n = s.unicode_len();
    let mut imports = false;
    let mut top = false;
    let mut order: Vec<PassId> = Vec::new();
    let mut p: usize = 0;
    loop
        invariant
            arg_view(arg) == Some(s@),
            p <= n == s@.len(),
            parse_passes_spec(Some(s@)) == parse_passes_from(
                s@,
                p as int,
                PassesV { imports, top, order: order@ },
            ),
        decreases n - p,
    {
        let ghost acc = PassesV { imports, top, order: order@ };
        let mut k: usize = p;
        while k < n && s.get_char(k) != ';'
            invariant
                p <= k <= n == s@.len(),
                forall|j: int| p <= j < k ==> s@[j] != ';',
            decreases n - k,
        {
            k = k + 1;
        }
        proof {
            lemma_find_semi(s@.skip(p as int));
            let f = find_semi(s@.skip(p as int));
            assert forall|j: int| 0 <= j < k - p implies s@.skip(p as int)[j] != ';' by {
                assert(s@.skip(p as int)[j] == s@[p + j]);
            }
            if f < k - p {
                assert(s@.skip(p as int)[f] == s@[p + f]);
                assert(false);
            }
            if (k - p) < f {
                assert(k < n);
                assert(s@.skip(p as int)[k - p] == s@[k as int]);
                assert(false);
            }
            assert(k - p == f);
        }
        let seg_is_imports = str_range_eq(s, p, k, "imports");
        let seg_is_top = str_range_eq(s, p, k, "top");
        proof {
            assert(k as int == p + find_semi(s@.skip(p as int)));
            assert(s@.subrange(p as int, k as int) == s@.subrange(
                p as int,
                p + find_semi(s@.skip(p as int)),
            ));
        }
        if seg_is_imports {
            if !imports {
                imports = true;
                order.push(PassId::Imports);
            }
            proof {
                assert(PassesV { imports, top, order: order@ } == enable_imports(acc));
                assert(parse_passes_from(s@, p as int, acc) == parse_passes_next(
                    s@,
                    k as int,
                    PassesV { imports, top, order: order@ },
                ));
            }
        } else if seg_is_top {
            if !top {
                top = true;
                order.push(PassId::Top);
            }
            proof {
                assert(PassesV { imports, top, order: order@ } == enable_top(acc));
                assert(parse_passes_from(s@, p as int, acc) == parse_passes_next(
                    s@,
                    k as int,
                    PassesV { imports, top, order: order@ },
                ));
            }
        } else {
            let mut msg = String::from_str("Unknown pass: ");
            let seg = s.substring_char(p, k);
            msg.append(seg);
            proof {
                assert(parse_passes_from(s@, p as int, acc) == Err::<PassesV, Seq<char>>(
                    "Unknown pass: "@ + s@.subrange(p as int, k as int),
                ));
                assert(msg@ == "Unknown pass: "@ + s@.subrange(p as int, k as int));
                assert(parse_passes_spec(Some(s@)) == Err::<PassesV, Seq<char>>(msg@));
            }
            return Err(msg);
        }
        if k == n {
            proof {
                assert(parse_passes_next(s@, k as int, PassesV { imports, top, order: order@ })
                    == Ok::<PassesV, Seq<char>>(PassesV { imports, top, order: order@ }));
                assert(parse_passes_spec(Some(s@)) == Ok::<PassesV, Seq<char>>(
                    PassesV { imports, top, order: order@ },
                ));
            }
            return Ok(PassesConfig { imports, top, order });
        }
        proof {
            assert(parse_passes_next(s@, k as int, PassesV { imports, top, order: order@ })
                == parse_passes_from(s@, k + 1, PassesV { imports, top, order: order@ }));
        }
        p = k + 1;
    }
}

} // verus!
