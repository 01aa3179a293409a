//! Static call hierarchy: the lines that call a function, or define it,
//! found by two regular expressions built from its name.
use vstd::prelude::*;
use crate::error::ToolError;
use crate::pattern::{escape, escaped, regex_compiles, regex_error_text, regex_finds, Pattern};
use crate::text::{chars_of, lines_of, lines_str, owned, push_str, str_eq, string_of, trim, trim_str};

verus! {

/// Parameters of `call_hierarchy`.
pub struct CallHierarchyParams {
    pub symbol: String,
    /// "callers" (default) | "callees" | "both"
    pub direction: Option<String>,
    /// Most sites listed (default 50, at most 200).
    pub limit: Option<usize>,
    /// Relative sub-path to search.
    pub path: Option<String>,
}

/// One line that calls or defines the symbol.
pub struct CallSite {
    pub path: String,
    pub line: usize,
    pub preview: String,
    /// "caller" | "callee"
    pub kind: String,
}

/// Result of `call_hierarchy`.
pub struct CallHierarchyResult {
    pub kind: String,
    pub symbol: String,
    pub direction: String,
    pub total: usize,
    pub truncated: bool,
    pub sites: Vec<CallSite>,
}

/// The search stops after this many hits.
pub const HIT_CAP: usize = 400;

/// `limit.unwrap_or(50).min(200)`.
pub open spec fn site_limit(l: Option<usize>) -> nat {
    let n: nat = match l {
        Some(x) => x as nat,
        None => 50,
    };
    if n < 200 { n } else { 200 }
}

/// The direction and the limit of a search, or the error for a blank symbol.
pub fn call_hierarchy_setup(params: &CallHierarchyParams) -> (r: Result<(String, usize), ToolError>)
    ensures
        trim(params.symbol@).len() == 0 ==> (r matches Err(ToolError::MissingParameter { missing, hint })
            && missing@ == "symbol"@ && hint@ == "Provide a non-empty symbol name."@),
        trim(params.symbol@).len() > 0 ==> (r matches Ok((d, l)) && d@ == match params.direction {
            Some(x) => x@,
            None => "callers"@,
        } && l == site_limit(params.limit)),
{
    let t = trim_str(params.symbol.as_str());
    if t.as_str().is_empty() {
        return Err(ToolError::MissingParameter {
            missing: owned("symbol"),
            hint: owned("Provide a non-empty symbol name."),
        });
    }
    let direction = match &params.direction {
        Some(d) => d.clone(),
        None => owned("callers"),
    };
    let limit: usize = match params.limit {
        Some(x) => if x < 200 { x } else { 200 },
        None => 50,
    };
    Ok((direction, limit))
}

/// The pattern of a call: the name as a word, then an opening parenthesis.
pub open spec fn caller_pattern(sym: Seq<char>) -> Seq<char> {
    "\\b"@ + escaped(sym) + "\\s*\\("@
}

/// The pattern of a definition: a defining keyword, then the name.
pub open spec fn callee_pattern(sym: Seq<char>) -> Seq<char> {
    "(?:fn|def|func|function|async fn|async def)\\s+"@ + escaped(sym)
}

/// The two compiled patterns for `sym`, or the error of the first that
/// does not compile.
pub fn call_patterns(sym: &str) -> (r: Result<(Pattern, Pattern), ToolError>)
    ensures
        !regex_compiles(caller_pattern(sym@)) ==> (r matches Err(ToolError::IoError { message })
            && message@ == "Regex error: "@ + regex_error_text(caller_pattern(sym@))),
        regex_compiles(caller_pattern(sym@)) && !regex_compiles(callee_pattern(sym@)) ==> (r matches Err(ToolError::IoError { message })
            && message@ == "Regex error: "@ + regex_error_text(callee_pattern(sym@))),
        regex_compiles(caller_pattern(sym@)) && regex_compiles(callee_pattern(sym@)) ==> (r matches Ok((a, b))
            && a.source() == caller_pattern(sym@) && b.source() == callee_pattern(sym@)),
{
    let e = escape(sym);
    let mut c = chars_of("\\b");
    push_str(&mut c, e.as_str());
    push_str(&mut c, "\\s*\\(");
    let cp = string_of(&c);
    let mut d = chars_of("(?:fn|def|func|function|async fn|async def)\\s+");
    push_str(&mut d, e.as_str());
    let dp = string_of(&d);
    let caller = match Pattern::new(cp.as_str()) {
        Ok(p) => p,
        Err(m) => {
            let mut v = chars_of("Regex error: ");
            push_str(&mut v, m.as_str());
            return Err(ToolError::IoError { message: string_of(&v) });
        },
    };
    let callee = match Pattern::new(dp.as_str()) {
        Ok(p) => p,
        Err(m) => {
            let mut v = chars_of("Regex error: ");
            push_str(&mut v, m.as_str());
            return Err(ToolError::IoError { message: string_of(&v) });
        },
    };
    Ok((caller, callee))
}

/// The kind of a line for a direction, if it is listed.
pub open spec fn line_kind(dir: Seq<char>, is_caller: bool, is_callee: bool) -> Option<Seq<char>> {
    if dir == "callers"@ && is_caller && !is_callee {
        Some("caller"@)
    } else if dir == "callees"@ && is_callee {
        Some("callee"@)
    } else if dir == "both"@ && is_caller && !is_callee {
        Some("caller"@)
    } else if dir == "both"@ && is_callee {
        Some("callee"@)
    } else {
        None
    }
}

/// The hits among `lines`: 1-based line number, trimmed text and kind.
pub open spec fn hits(lines: Seq<Seq<char>>, caller: Seq<char>, callee: Seq<char>, dir: Seq<char>) -> Seq<(nat, Seq<char>, Seq<char>)>
    decreases lines.len(),
{
    if lines.len() == 0 {
        seq![]
    } else {
        let prev = hits(lines.drop_last(), caller, callee, dir);
        let l = lines.last();
        match line_kind(dir, regex_finds(caller, l), regex_finds(callee, l)) {
            Some(k) => prev.push((lines.len() as nat, trim(l), k)),
            None => prev,
        }
    }
}

/// Progress of a search over the files of a workspace.
pub struct CallScan {
    pub sites: Vec<CallSite>,
    /// Hits so far, listed or not.
    pub total: usize,
}

pub open spec fn site_of(rel: Seq<char>, h: (nat, Seq<char>, Seq<char>)) -> (Seq<char>, nat, Seq<char>, Seq<char>) {
    (rel, h.0, h.1, h.2)
}

pub open spec fn site_view(s: CallSite) -> (Seq<char>, nat, Seq<char>, Seq<char>) {
    (s.path@, s.line as nat, s.preview@, s.kind@)
}

/// Scans the lines of one file (path `rel` relative to the workspace):
/// each hit counts, the first ones are listed while fewer than `limit`
/// sites are, and the scan stops at the hit cap.
pub fn scan_file(
    scan: &mut CallScan,
    rel: &str,
    content: &str,
    caller: &Pattern,
    callee: &Pattern,
    direction: &str,
    limit: usize,
)
    requires
        old(scan).total < HIT_CAP,
        old(scan).sites.len() <= limit,
    ensures
        ({
            let h = hits(lines_of(content@), caller.source(), callee.source(), direction@);
            let taken: int = if h.len() < HIT_CAP - old(scan).total { h.len() as int } else { HIT_CAP - old(scan).total };
            let listed: int = if taken < limit - old(scan).sites.len() { taken } else { limit - old(scan).sites.len() };
            &&& final(scan).total == old(scan).total + taken
            &&& final(scan).sites.len() == old(scan).sites.len() + listed
            &&& forall|i: int| 0 <= i < old(scan).sites.len() ==> #[trigger] final(scan).sites@[i] == old(scan).sites@[i]
            &&& forall|i: int| 0 <= i < listed ==> site_view(#[trigger] final(scan).sites@[old(scan).sites.len() + i]) == site_of(rel@, h[i])
        }),
{
    let lines = lines_str(content);
    let ghost ls = crate::text::strs(lines@);
    let ghost before = scan.sites@;
    let ghost t0 = scan.total;
    let ghost h_all = hits(ls, caller.source(), callee.source(), direction@);
    let mut i: usize = 0;
    while i < lines.len() && scan.total < HIT_CAP
        invariant
            i <= lines.len(),
            ls == crate::text::strs(lines@),
            ls == lines_of(content@),
            h_all == hits(ls, caller.source(), callee.source(), direction@),
            t0 < HIT_CAP,
            before.len() <= limit,
            scan.total <= HIT_CAP,
            scan.total == HIT_CAP || i <= lines.len(),
            scan.total == t0 + hits(ls.take(i as int), caller.source(), callee.source(), direction@).len(),
            scan.sites.len() <= limit,
            scan.sites.len() == before.len() + (if hits(ls.take(i as int), caller.source(), callee.source(), direction@).len() < limit - before.len() {
                hits(ls.take(i as int), caller.source(), callee.source(), direction@).len() as int
            } else {
                limit - before.len()
            }),
            forall|q: int| 0 <= q < before.len() ==> #[trigger] scan.sites@[q] == before[q],
            forall|q: int| 0 <= q < scan.sites.len() - before.len() ==> site_view(#[trigger] scan.sites@[before.len() + q]) == site_of(rel@, hits(ls.take(i as int), caller.source(), callee.source(), direction@)[q]),
        decreases lines.len() - i,
    {
        let ghost pre = ls.take(i as int);
        assert(ls.take(i + 1).drop_last() =~= pre);
        assert(ls.take(i + 1).last() == lines@[i as int]@);
        let line = lines[i].as_str();
        let is_caller = caller.is_match(line);
        let is_callee = callee.is_match(line);
        let kind: Option<&str> = if str_eq(direction, "callers") && is_caller && !is_callee {
            Some("caller")
        } else if str_eq(direction, "callees") && is_callee {
            Some("callee")
        } else if str_eq(direction, "both") && is_caller && !is_callee {
            Some("caller")
        } else if str_eq(direction, "both") && is_callee {
            Some("callee")
        } else {
            None
        };
        match kind {
            Some(k) => {
                let ghost hp = hits(pre, caller.source(), callee.source(), direction@);
                assert(hits(ls.take(i + 1), caller.source(), callee.source(), direction@) == hp.push(((i + 1) as nat, trim(line@), k@)));
                scan.total = scan.total + 1;
                if scan.sites.len() < limit {
                    scan.sites.push(CallSite {
                        path: owned(rel),
                        line: i + 1,
                        preview: trim_str(line),
                        kind: owned(k),
                    });
                }
            },
            None => {
                assert(hits(ls.take(i + 1), caller.source(), callee.source(), direction@) == hits(pre, caller.source(), callee.source(), direction@));
            },
        }
        i = i + 1;
    }
    proof {
        lemma_hits_prefix(ls, caller.source(), callee.source(), direction@, i as int);
        if i == lines.len() {
            assert(ls.take(lines.len() as int) =~= ls);
        }
        let hp = hits(ls.take(i as int), caller.source(), callee.source(), direction@);
        assert forall|q: int| 0 <= q < scan.sites.len() - before.len() implies site_view(#[trigger] scan.sites@[before.len() + q]) == site_of(rel@, h_all[q]) by {
            assert(hp[q] == h_all.take(hp.len() as int)[q]);
        }
    }
}

/// The hits of a prefix are the first hits of the whole.
proof fn lemma_hits_prefix(ls: Seq<Seq<char>>, caller: Seq<char>, callee: Seq<char>, dir: Seq<char>, k: int)
    requires
        0 <= k <= ls.len(),
    ensures
        hits(ls.take(k), caller, callee, dir).len() <= hits(ls, caller, callee, dir).len(),
        hits(ls.take(k), caller, callee, dir) == hits(ls, caller, callee, dir).take(hits(ls.take(k), caller, callee, dir).len() as int),
    decreases ls.len() - k,
{
    if k < ls.len() {
        lemma_hits_prefix(ls, caller, callee, dir, k + 1);
        assert(ls.take(k + 1).drop_last() =~= ls.take(k));
        let a = hits(ls.take(k), caller, callee, dir);
        let b = hits(ls.take(k + 1), caller, callee, dir);
        let all = hits(ls, caller, callee, dir);
        assert(b == a || b == a.push(b.last()));
        if b != a {
            assert(b.drop_last() =~= a);
            assert(all.take(a.len() as int) =~= b.take(a.len() as int));
        }
    } else {
        assert(ls.take(k) =~= ls);
        let all = hits(ls, caller, callee, dir);
        assert(all.take(all.len() as int) =~= all);
    }
}

/// The answer once the search is over.
pub fn call_hierarchy_result(symbol: &str, direction: String, limit: usize, scan: CallScan) -> (r: CallHierarchyResult)
    ensures
        r.kind@ == "success"@,
        r.symbol@ == symbol@,
        r.direction == direction,
        r.total == scan.total,
        r.truncated == (scan.total > limit),
        r.sites@ == scan.sites@,
{
    CallHierarchyResult {
        kind: owned("success"),
        symbol: owned(symbol),
        direction,
        total: scan.total,
        truncated: scan.total > limit,
        sites: scan.sites,
    }
}

} // verus!
