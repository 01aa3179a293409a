//! The process list: rows of `tasklist /FO CSV /NH`, filtered by name and
//! by the processes that hold a TCP port according to `netstat -ano`.
use vstd::prelude::*;
use crate::git::{splitn_spec, splitn_chars};
use crate::search::{replace_spec, replace_all_str};
use crate::text::{chars_of, contains, dec, dec_chars_u64, is_ws, lines_of, lines_str, lower_text, owned, parse_uint,
    parse_uint_str, push_chars, str_contains, string_of, strs, to_lowercase, trim, trim_chars, trim_end,
    trim_end_chars};

verus! {

/// Parameters of `process_list`.
pub struct ProcessListParams {
    /// Only processes whose name holds this (case-insensitive).
    pub filter_name: Option<String>,
    /// Only processes that hold this TCP port, where any does.
    pub filter_port: Option<u16>,
    /// At most this many (default 50, at most 200).
    pub limit: Option<usize>,
}

/// One process.
pub struct ProcessEntry {
    pub name: String,
    pub pid: u32,
    pub mem_kb: Option<u64>,
    pub session: Option<String>,
}

/// Result of `process_list`.
pub struct ProcessListResult {
    /// "success" | "empty"
    pub kind: String,
    pub total: usize,
    pub truncated: bool,
    pub processes: Vec<ProcessEntry>,
    pub port_pids: Vec<u32>,
}

pub type EntryView = (Seq<char>, u32, Option<u64>, Option<Seq<char>>);

pub open spec fn entry_view(e: ProcessEntry) -> EntryView {
    (
        e.name@,
        e.pid,
        e.mem_kb,
        match e.session {
            Some(s) => Some(s@),
            None => None,
        },
    )
}

pub open spec fn strip_leading_quotes(s: Seq<char>) -> Seq<char>
    decreases s.len(),
{
    if s.len() > 0 && s[0] == '"' {
        strip_leading_quotes(s.drop_first())
    } else {
        s
    }
}

pub open spec fn strip_trailing_quotes(s: Seq<char>) -> Seq<char>
    decreases s.len(),
{
    if s.len() > 0 && s.last() == '"' {
        strip_trailing_quotes(s.drop_last())
    } else {
        s
    }
}

/// `s.trim_matches('"')`.
pub open spec fn strip_quotes(s: Seq<char>) -> Seq<char> {
    strip_trailing_quotes(strip_leading_quotes(s))
}

/// The memory column: quotes, " K" and thousands separators gone, trimmed.
pub open spec fn mem_text(col: Seq<char>) -> Seq<char> {
    trim(replace_spec(replace_spec(strip_quotes(col), " K"@, ""@, None), ","@, ""@, None))
}

/// A row of `tasklist`: "Image Name","PID","Session Name","Session#","Mem
/// Usage"; none where it has fewer columns, no PID, an empty name or PID 0.
pub open spec fn tasklist_row(line: Seq<char>) -> Option<EntryView> {
    let cols = splitn_spec(line, ","@, 5);
    if cols.len() < 5 {
        None
    } else {
        let name = strip_quotes(cols[0]);
        match parse_uint(strip_quotes(cols[1]), u32::MAX as nat) {
            Some(pid) => if name.len() == 0 || pid == 0 {
                None
            } else {
                Some(
                    (
                        name,
                        pid as u32,
                        match parse_uint(mem_text(cols[4]), u64::MAX as nat) {
                            Some(m) => Some(m as u64),
                            None => None,
                        },
                        Some(strip_quotes(cols[2])),
                    ),
                )
            },
            None => None,
        }
    }
}

fn strip_quotes_chars(s: &Vec<char>) -> (r: Vec<char>)
    ensures
        r@ == strip_quotes(s@),
{
    let mut lo: usize = 0;
    assert(s@.skip(0) =~= s@);
    while lo < s.len() && s[lo] == '"'
        invariant
            lo <= s.len(),
            strip_leading_quotes(s@) == strip_leading_quotes(s@.skip(lo as int)),
        decreases s.len() - lo,
    {
        assert(s@.skip(lo as int).drop_first() =~= s@.skip(lo + 1));
        lo = lo + 1;
    }
    let ghost a = s@.skip(lo as int);
    assert(strip_leading_quotes(a) == a);
    let mut hi: usize = s.len();
    assert(a =~= s@.subrange(lo as int, s.len() as int));
    while hi > lo && s[hi - 1] == '"'
        invariant
            lo <= hi <= s.len(),
            a == s@.skip(lo as int),
            strip_trailing_quotes(a) == strip_trailing_quotes(s@.subrange(lo as int, hi as int)),
        decreases hi,
    {
        assert(s@.subrange(lo as int, hi as int).drop_last() =~= s@.subrange(lo as int, hi - 1));
        hi = hi - 1;
    }
    assert(a =~= s@.subrange(lo as int, s.len() as int));
    let mut r: Vec<char> = Vec::new();
    let mut i = lo;
    while i < hi
        invariant
            lo <= i <= hi <= s.len(),
            r@ == s@.subrange(lo as int, i as int),
        decreases hi - i,
    {
        r.push(s[i]);
        i = i + 1;
        assert(r@ =~= s@.subrange(lo as int, i as int));
    }
    r
}

/// One row of `tasklist`, as `tasklist_row` says.
pub fn parse_tasklist_csv(line: &str) -> (r: Option<ProcessEntry>)
    ensures
        match r {
            Some(e) => tasklist_row(line@) == Some(entry_view(e)),
            None => tasklist_row(line@) is None,
        },
{
    let lc = chars_of(line);
    let comma = chars_of(",");
    proof {
        reveal_strlit(",");
    }
    let cols = splitn_chars(&lc, &comma, 5);
    let ghost cv = cols@.map_values(|v: Vec<char>| v@);
    assert(cv.len() == cols@.len());
    if cols.len() < 5 {
        return None;
    }
    assert(cv[0] == cols@[0]@ && cv[1] == cols@[1]@ && cv[2] == cols@[2]@ && cv[4] == cols@[4]@);
    let name = strip_quotes_chars(&cols[0]);
    let pid_s = strip_quotes_chars(&cols[1]);
    let session = strip_quotes_chars(&cols[2]);
    let mem0 = strip_quotes_chars(&cols[4]);
    let mem1 = replace_all_str(string_of(&mem0).as_str(), " K", "");
    let mem2 = replace_all_str(mem1.as_str(), ",", "");
    let mem3 = trim_chars(&chars_of(mem2.as_str()));
    proof {
        reveal_strlit(" K");
        reveal_strlit("");
    }
    let pid = match parse_uint_str(string_of(&pid_s).as_str(), 0xffff_ffff) {
        Some(p) => p,
        None => return None,
    };
    let mem_kb = parse_uint_str(string_of(&mem3).as_str(), 0xffff_ffff_ffff_ffff);
    if name.len() == 0 || pid == 0 {
        return None;
    }
    Some(ProcessEntry { name: string_of(&name), pid: pid as u32, mem_kb, session: Some(string_of(&session)) })
}

/// Whether a process is kept by the name filter (given lower-cased).
pub open spec fn name_kept(name: Seq<char>, filter: Option<Seq<char>>) -> bool {
    match filter {
        Some(f) => contains(lower_text(name), f),
        None => true,
    }
}

/// The processes of `tasklist`'s rows that pass the name filter, in order.
pub open spec fn listed(ls: Seq<Seq<char>>, filter: Option<Seq<char>>) -> Seq<EntryView>
    decreases ls.len(),
{
    if ls.len() == 0 {
        seq![]
    } else {
        let r = listed(ls.drop_last(), filter);
        match tasklist_row(ls.last()) {
            Some(e) => if name_kept(e.0, filter) {
                r.push(e)
            } else {
                r
            },
            None => r,
        }
    }
}

/// The rows of `tasklist`'s output that pass the name filter (`filter` is
/// compared lower-cased with the lower-cased name).
pub fn process_entries(stdout: &str, filter_name: Option<&str>) -> (r: Vec<ProcessEntry>)
    ensures
        r@.map_values(|e: ProcessEntry| entry_view(e)) == listed(
            lines_of(stdout@),
            match filter_name {
                Some(f) => Some(lower_text(f@)),
                None => None,
            },
        ),
{
    let ghost fl = match filter_name {
        Some(f) => Some(lower_text(f@)),
        None => None::<Seq<char>>,
    };
    let filter: Option<String> = match filter_name {
        Some(f) => Some(to_lowercase(f)),
        None => None,
    };
    let ls = lines_str(stdout);
    let mut out: Vec<ProcessEntry> = Vec::new();
    let mut i: usize = 0;
    while i < ls.len()
        invariant
            i <= ls.len(),
            strs(ls@) == lines_of(stdout@),
            match filter {
                Some(f) => fl == Some(f@),
                None => fl is None,
            },
            out@.map_values(|e: ProcessEntry| entry_view(e)) == listed(lines_of(stdout@).take(i as int), fl),
        decreases ls.len() - i,
    {
        let ghost pre = lines_of(stdout@).take(i + 1);
        assert(pre.drop_last() =~= lines_of(stdout@).take(i as int));
        assert(pre.last() == ls@[i as int]@);
        match parse_tasklist_csv(ls[i].as_str()) {
            Some(e) => {
                let keep = match &filter {
                    Some(f) => {
                        let ln = to_lowercase(e.name.as_str());
                        str_contains(ln.as_str(), f.as_str())
                    },
                    None => true,
                };
                if keep {
                    let ghost before = out@.map_values(|e: ProcessEntry| entry_view(e));
                    let ghost ev = entry_view(e);
                    out.push(e);
                    assert(out@.map_values(|e: ProcessEntry| entry_view(e)) =~= before.push(ev));
                }
            },
            None => {},
        }
        i = i + 1;
    }
    assert(lines_of(stdout@).take(ls.len() as int) =~= lines_of(stdout@));
    out
}

/// The word at the end of `t` (after its last white space).
pub open spec fn trailing_word(t: Seq<char>) -> Seq<char>
    decreases t.len(),
{
    if t.len() == 0 || is_ws(t.last()) {
        seq![]
    } else {
        trailing_word(t.drop_last()).push(t.last())
    }
}

/// `line.split_whitespace().last()`.
pub open spec fn last_word(line: Seq<char>) -> Option<Seq<char>> {
    if trim_end(line).len() == 0 {
        None
    } else {
        Some(trailing_word(trim_end(line)))
    }
}

/// The PID a `netstat` line names for the port: the last word of a line that
/// holds ":port", read as a number.
pub open spec fn line_pid(line: Seq<char>, port: u16) -> Option<u32> {
    if contains(line, ":"@ + dec(port as nat)) {
        match last_word(line) {
            Some(w) => match parse_uint(w, u32::MAX as nat) {
                Some(p) => Some(p as u32),
                None => None,
            },
            None => None,
        }
    } else {
        None
    }
}

fn last_word_of(line: &str) -> (r: Option<String>)
    ensures
        match r {
            Some(w) => last_word(line@) == Some(w@),
            None => last_word(line@) is None,
        },
{
    let t = trim_end_chars(&chars_of(line));
    if t.len() == 0 {
        return None;
    }
    let mut k: usize = t.len();
    assert(t@.take(k as int) =~= t@);
    assert(t@.skip(k as int) =~= Seq::<char>::empty());
    while k > 0 && !crate::text::char_is_ws(t[k - 1])
        invariant
            k <= t.len(),
            trailing_word(t@) == trailing_word(t@.take(k as int)) + t@.skip(k as int),
        decreases k,
    {
        assert(t@.take(k as int).drop_last() =~= t@.take(k - 1));
        assert(t@.skip(k - 1) =~= seq![t@[k - 1]] + t@.skip(k as int));
        assert(trailing_word(t@.take(k as int)) =~= trailing_word(t@.take(k - 1)).push(t@[k - 1]));
        k = k - 1;
    }
    assert(trailing_word(t@.take(k as int)) =~= Seq::<char>::empty());
    let mut w: Vec<char> = Vec::new();
    let mut i = k;
    while i < t.len()
        invariant
            k <= i <= t.len(),
            w@ == t@.subrange(k as int, i as int),
        decreases t.len() - i,
    {
        w.push(t[i]);
        i = i + 1;
        assert(w@ =~= t@.subrange(k as int, i as int));
    }
    assert(t@.skip(k as int) =~= t@.subrange(k as int, t.len() as int));
    Some(string_of(&w))
}

/// Some line among the first `n` names `q` for the port.
pub open spec fn pid_seen(ls: Seq<Seq<char>>, port: u16, n: int, q: u32) -> bool {
    exists|k: int| 0 <= k < n && k < ls.len() && #[trigger] line_pid(ls[k], port) == Some(q)
}

/// The PIDs `netstat`'s output names for `port`, each once, in the order
/// they first occur.
pub fn port_pids(stdout: &str, port: u16) -> (r: Vec<u32>)
    ensures
        forall|i: int, j: int| 0 <= i < j < r@.len() ==> r@[i] != r@[j],
        forall|q: u32| #[trigger] r@.contains(q) <==> pid_seen(lines_of(stdout@), port, lines_of(stdout@).len() as int, q),
{
    let mut pat = chars_of(":");
    let d = dec_chars_u64(port as u64);
    push_chars(&mut pat, &d);
    let pats = string_of(&pat);
    let ls = lines_str(stdout);
    let ghost lv = lines_of(stdout@);
    let mut out: Vec<u32> = Vec::new();
    let mut i: usize = 0;
    while i < ls.len()
        invariant
            i <= ls.len(),
            lv == lines_of(stdout@),
            strs(ls@) == lv,
            pats@ == ":"@ + dec(port as nat),
            forall|a: int, b: int| 0 <= a < b < out@.len() ==> out@[a] != out@[b],
            forall|q: u32| #[trigger] out@.contains(q) <==> pid_seen(lv, port, i as int, q),
        decreases ls.len() - i,
    {
        assert(ls@[i as int]@ == lv[i as int]);
        let mut found: Option<u32> = None;
        if str_contains(ls[i].as_str(), pats.as_str()) {
            match last_word_of(ls[i].as_str()) {
                Some(w) => {
                    match parse_uint_str(w.as_str(), 0xffff_ffff) {
                        Some(p) => {
                            found = Some(p as u32);
                        },
                        None => {},
                    }
                },
                None => {},
            }
        }
        assert(found == line_pid(lv[i as int], port));
        let ghost prev = out@;
        match found {
            Some(p) => {
                let mut seen = false;
                let mut j: usize = 0;
                while j < out.len()
                    invariant
                        j <= out.len(),
                        out@ == prev,
                        seen ==> prev.contains(p),
                        !seen ==> forall|m: int| 0 <= m < j ==> prev[m] != p,
                    decreases out.len() - j,
                {
                    if out[j] == p {
                        seen = true;
                        assert(prev[j as int] == p);
                    }
                    j = j + 1;
                }
                if !seen {
                    out.push(p);
                    assert forall|q: u32| #[trigger] out@.contains(q) <==> (prev.contains(q) || q == p) by {
                        if out@.contains(q) {
                            let m = choose|m: int| 0 <= m < out@.len() && out@[m] == q;
                            if m < prev.len() {
                                assert(prev[m] == q);
                            }
                        }
                        if prev.contains(q) {
                            let m = choose|m: int| 0 <= m < prev.len() && prev[m] == q;
                            assert(out@[m] == q);
                        }
                        if q == p {
                            assert(out@[prev.len() as int] == q);
                        }
                    }
                }
                assert(forall|q: u32| #[trigger] out@.contains(q) <==> (prev.contains(q) || q == p));
            },
            None => {},
        }
        proof {
            assert forall|q: u32| #[trigger] out@.contains(q) <==> pid_seen(lv, port, i + 1, q) by {
                if pid_seen(lv, port, i + 1, q) {
                    let k = choose|k: int| 0 <= k < i + 1 && k < lv.len() && #[trigger] line_pid(lv[k], port) == Some(q);
                    if k < i {
                        assert(pid_seen(lv, port, i as int, q));
                        assert(prev.contains(q));
                    }
                }
                if pid_seen(lv, port, i as int, q) {
                    let k = choose|k: int| 0 <= k < i && k < lv.len() && #[trigger] line_pid(lv[k], port) == Some(q);
                    assert(pid_seen(lv, port, i + 1, q));
                }
                if found == Some(q) {
                    assert(line_pid(lv[i as int], port) == Some(q));
                    assert(pid_seen(lv, port, i + 1, q));
                }
            }
        }
        i = i + 1;
    }
    out
}

/// How many processes are listed: the limit asked (default 50), at most 200.
pub open spec fn list_limit(limit: Option<usize>) -> nat {
    let l: nat = match limit {
        Some(l) => l as nat,
        None => 50,
    };
    if l < 200 { l } else { 200 }
}

/// The processes kept by the port filter: those holding the port, where the
/// filter found any; all of them otherwise.
pub open spec fn port_kept(es: Seq<EntryView>, pids: Seq<u32>) -> Seq<EntryView>
    decreases es.len(),
{
    if es.len() == 0 {
        seq![]
    } else {
        let r = port_kept(es.drop_last(), pids);
        if pids.len() == 0 || pids.contains(es.last().1) {
            r.push(es.last())
        } else {
            r
        }
    }
}

/// `process_list` over the processes found and the PIDs holding the port
/// asked for (empty when none was asked or none holds it).
pub fn process_list_result(params: &ProcessListParams, entries: Vec<ProcessEntry>, port_pids: Vec<u32>) -> (r:
    ProcessListResult)
    ensures
        ({
            let kept = port_kept(entries@.map_values(|e: ProcessEntry| entry_view(e)), port_pids@);
            let lim = list_limit(params.limit);
            &&& r.total == kept.len()
            &&& r.truncated == (kept.len() > lim)
            &&& r.processes@.map_values(|e: ProcessEntry| entry_view(e)) == (if kept.len() > lim {
                kept.take(lim as int)
            } else {
                kept
            })
            &&& r.kind@ == (if r.processes@.len() == 0 { "empty"@ } else { "success"@ })
            &&& r.port_pids@ == port_pids@
        }),
{
    let lim: usize = match params.limit {
        Some(l) => if l < 200 { l } else { 200 },
        None => 50,
    };
    let ghost ev = entries@.map_values(|e: ProcessEntry| entry_view(e));
    let ghost orig = entries@;
    assert(orig.len() == entries.len());
    let mut rest = entries;
    let mut kept: Vec<ProcessEntry> = Vec::new();
    let mut i: usize = 0;
    assert(orig.skip(0) =~= orig);
    while rest.len() > 0
        invariant
            i <= orig.len(),
            orig.len() <= usize::MAX,
            rest@ == orig.skip(i as int),
            ev == orig.map_values(|e: ProcessEntry| entry_view(e)),
            kept@.map_values(|e: ProcessEntry| entry_view(e)) == port_kept(ev.take(i as int), port_pids@),
        decreases rest.len(),
    {
        let ghost r0 = rest@;
        assert(r0.len() == orig.len() - i);
        let e = rest.remove(0);
        assert(r0[0] == orig[i as int]);
        assert(ev.take(i + 1).drop_last() =~= ev.take(i as int));
        assert(ev.take(i + 1).last() == entry_view(e));
        let mut keep = port_pids.len() == 0;
        if !keep {
            let mut j: usize = 0;
            while j < port_pids.len()
                invariant
                    j <= port_pids.len(),
                    keep == (exists|m: int| 0 <= m < j && port_pids@[m] == e.pid),
                decreases port_pids.len() - j,
            {
                if port_pids[j] == e.pid {
                    keep = true;
                }
                j = j + 1;
            }
        }
        if keep {
            let ghost before = kept@.map_values(|e: ProcessEntry| entry_view(e));
            let ghost v = entry_view(e);
            kept.push(e);
            assert(kept@.map_values(|e: ProcessEntry| entry_view(e)) =~= before.push(v));
        }
        i = i + 1;
        assert(rest@ =~= orig.skip(i as int));
    }
    assert(ev.take(orig.len() as int) =~= ev);
    let total = kept.len();
    let truncated = total > lim;
    if truncated {
        let ghost before = kept@;
        kept.truncate(lim);
        assert(kept@.map_values(|e: ProcessEntry| entry_view(e)) =~= before.map_values(
            |e: ProcessEntry| entry_view(e),
        ).take(lim as int));
    }
    proof {
        reveal_strlit("empty");
        reveal_strlit("success");
    }
    ProcessListResult {
        kind: if kept.len() == 0 { owned("empty") } else { owned("success") },
        total,
        truncated,
        processes: kept,
        port_pids,
    }
}

/// The PIDs a port filter uses: those `netstat`'s output names for the port
/// asked for, when one was asked for and `netstat` answered.
pub open spec fn port_pid_asked(port: Option<u16>, netstat: Option<Seq<char>>, q: u32) -> bool {
    match (port, netstat) {
        (Some(p), Some(out)) => pid_seen(lines_of(out), p, lines_of(out).len() as int, q),
        _ => false,
    }
}

/// `process_list` from the output of `tasklist /FO CSV /NH` and, where a
/// port was asked for, of `netstat -ano -p TCP` (`None` when it could not
/// be run): the processes that pass the name filter and, where any process
/// holds the port, the port filter; the first `limit` of them (default 50,
/// at most 200).
pub fn run_process_list(params: &ProcessListParams, tasklist_stdout: &str, netstat_stdout: Option<&str>) -> (r:
    ProcessListResult)
    ensures
        forall|i: int, j: int| 0 <= i < j < r.port_pids@.len() ==> r.port_pids@[i] != r.port_pids@[j],
        forall|q: u32| #[trigger] r.port_pids@.contains(q) <==> port_pid_asked(
            params.filter_port,
            match netstat_stdout {
                Some(o) => Some(o@),
                None => None,
            },
            q,
        ),
        ({
            let found = listed(
                lines_of(tasklist_stdout@),
                match params.filter_name {
                    Some(f) => Some(lower_text(f@)),
                    None => None,
                },
            );
            let kept = port_kept(found, r.port_pids@);
            let lim = list_limit(params.limit);
            &&& r.total == kept.len()
            &&& r.truncated == (kept.len() > lim)
            &&& r.processes@.map_values(|e: ProcessEntry| entry_view(e)) == (if kept.len() > lim {
                kept.take(lim as int)
            } else {
                kept
            })
            &&& r.kind@ == (if r.processes@.len() == 0 { "empty"@ } else { "success"@ })
        }),
{
    let filter: Option<&str> = match &params.filter_name {
        Some(f) => Some(f.as_str()),
        None => None,
    };
    let entries = process_entries(tasklist_stdout, filter);
    let pids: Vec<u32> = match (params.filter_port, netstat_stdout) {
        (Some(port), Some(out)) => port_pids(out, port),
        _ => Vec::new(),
    };
    process_list_result(params, entries, pids)
}

} // verus!
