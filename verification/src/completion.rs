//! Completions offered for prompt arguments and resource URIs.
use vstd::prelude::*;
use crate::git::{first_match_from, find_first};
use crate::text::{chars_of, lower_text, owned, starts_with, str_eq, str_starts_with, string_of, strs, to_lowercase,
    trim, trim_chars};

verus! {

/// Values a built-in argument takes.
pub open spec fn builtin_candidates(arg: Seq<char>) -> Seq<Seq<char>> {
    if arg == "language"@ {
        seq!["rust"@, "python"@, "typescript"@, "javascript"@, "go"@, "java"@, "c"@, "cpp"@]
    } else if arg == "linter"@ {
        seq!["clippy"@, "eslint"@, "ruff"@, "auto"@]
    } else if arg == "registry"@ {
        seq!["crates"@, "npm"@, "pypi"@]
    } else if arg == "direction"@ {
        seq!["callers"@, "callees"@]
    } else {
        seq![]
    }
}

/// The entries of `s` that start with `prefix`, in order.
pub open spec fn with_prefix(s: Seq<Seq<char>>, prefix: Seq<char>) -> Seq<Seq<char>>
    decreases s.len(),
{
    if s.len() == 0 {
        seq![]
    } else {
        let r = with_prefix(s.drop_last(), prefix);
        if starts_with(s.last(), prefix) {
            r.push(s.last())
        } else {
            r
        }
    }
}

/// The entries of `s` whose lower-cased form starts with `prefix`, in order.
pub open spec fn with_lower_prefix(s: Seq<Seq<char>>, prefix: Seq<char>) -> Seq<Seq<char>>
    decreases s.len(),
{
    if s.len() == 0 {
        seq![]
    } else {
        let r = with_lower_prefix(s.drop_last(), prefix);
        if starts_with(lower_text(s.last()), prefix) {
            r.push(s.last())
        } else {
            r
        }
    }
}

fn filter_prefix(cands: &Vec<&str>, prefix: &str, lower: bool) -> (r: Vec<String>)
    ensures
        strs(r@) == (if lower {
            with_lower_prefix(cands@.map_values(|c: &str| c@), prefix@)
        } else {
            with_prefix(cands@.map_values(|c: &str| c@), prefix@)
        }),
{
    let ghost cv = cands@.map_values(|c: &str| c@);
    let mut out: Vec<String> = Vec::new();
    let mut i: usize = 0;
    while i < cands.len()
        invariant
            i <= cands.len(),
            cv == cands@.map_values(|c: &str| c@),
            strs(out@) == (if lower {
                with_lower_prefix(cv.take(i as int), prefix@)
            } else {
                with_prefix(cv.take(i as int), prefix@)
            }),
        decreases cands.len() - i,
    {
        assert(cv.take(i + 1).drop_last() =~= cv.take(i as int));
        assert(cv.take(i + 1).last() == cands@[i as int]@);
        let c = cands[i];
        let keep = if lower {
            let l = to_lowercase(c);
            str_starts_with(l.as_str(), prefix)
        } else {
            str_starts_with(c, prefix)
        };
        if keep {
            let ghost before = strs(out@);
            out.push(owned(c));
            assert(strs(out@) =~= before.push(c@));
        }
        i = i + 1;
    }
    assert(cv.take(cands.len() as int) =~= cv);
    out
}

/// The built-in values of `arg_name` that start with `prefix`.
pub fn builtin_param_completions(arg_name: &str, prefix: &str) -> (r: Vec<String>)
    ensures
        strs(r@) == with_prefix(builtin_candidates(arg_name@), prefix@),
{
    let mut c: Vec<&str> = Vec::new();
    if str_eq(arg_name, "language") {
        c.push("rust");
        c.push("python");
        c.push("typescript");
        c.push("javascript");
        c.push("go");
        c.push("java");
        c.push("c");
        c.push("cpp");
    } else if str_eq(arg_name, "linter") {
        c.push("clippy");
        c.push("eslint");
        c.push("ruff");
        c.push("auto");
    } else if str_eq(arg_name, "registry") {
        c.push("crates");
        c.push("npm");
        c.push("pypi");
    } else if str_eq(arg_name, "direction") {
        c.push("callers");
        c.push("callees");
    }
    assert(c@.map_values(|s: &str| s@) =~= builtin_candidates(arg_name@));
    filter_prefix(&c, prefix, false)
}

/// The resources a URI is completed from.
pub open spec fn known_resources() -> Seq<Seq<char>> {
    seq![
        "workflow://session"@,
        "workflow://task-graph"@,
        "workflow://journal"@,
        "workflow://questions"@,
        "workflow://inputs"@,
        "workflow://dashboard"@,
        "memory://index"@,
        "workspace://errors"@,
    ]
}

/// The known resource URIs whose lower-cased form starts with `prefix`.
pub fn resource_completions(prefix: &str) -> (r: Vec<String>)
    ensures
        strs(r@) == with_lower_prefix(known_resources(), prefix@),
{
    let mut c: Vec<&str> = Vec::new();
    c.push("workflow://session");
    c.push("workflow://task-graph");
    c.push("workflow://journal");
    c.push("workflow://questions");
    c.push("workflow://inputs");
    c.push("workflow://dashboard");
    c.push("memory://index");
    c.push("workspace://errors");
    assert(c@.map_values(|s: &str| s@) =~= known_resources());
    filter_prefix(&c, prefix, true)
}

/// The arguments completed with skill names.
pub open spec fn names_a_skill(arg: Seq<char>) -> bool {
    arg == "$ARGUMENTS"@ || arg == "skill"@ || arg == "name"@ || arg == "skill_name"@
}

pub fn is_skill_argument(arg: &str) -> (r: bool)
    ensures
        r == names_a_skill(arg@),
{
    str_eq(arg, "$ARGUMENTS") || str_eq(arg, "skill") || str_eq(arg, "name") || str_eq(arg, "skill_name")
}

/// The skill names whose lower-cased form starts with `prefix`, the first
/// twenty of them.
pub fn skill_name_completions(names: &Vec<String>, prefix: &str) -> (r: Vec<String>)
    ensures
        ({
            let m = with_lower_prefix(strs(names@), prefix@);
            strs(r@) == (if m.len() > 20 { m.take(20) } else { m })
        }),
{
    let mut c: Vec<&str> = Vec::new();
    let mut i: usize = 0;
    while i < names.len()
        invariant
            i <= names.len(),
            c@.map_values(|s: &str| s@) == strs(names@).take(i as int),
        decreases names.len() - i,
    {
        let ghost before = c@.map_values(|s: &str| s@);
        c.push(names[i].as_str());
        assert(c@.map_values(|s: &str| s@) =~= before.push(names@[i as int]@));
        assert(strs(names@).take(i + 1) =~= strs(names@).take(i as int).push(names@[i as int]@));
        i = i + 1;
    }
    assert(strs(names@).take(names.len() as int) =~= strs(names@));
    let mut r = filter_prefix(&c, prefix, true);
    if r.len() > 20 {
        let ghost before = r@;
        r.truncate(20);
        assert(strs(r@) =~= strs(before).take(20));
    }
    r
}

/// `s.split(c)`.
pub open spec fn split_char(s: Seq<char>, c: char) -> Seq<Seq<char>>
    decreases s.len(),
{
    if s.len() == 0 {
        seq![seq![]]
    } else {
        let r = split_char(s.drop_last(), c);
        if s.last() == c {
            r.push(seq![])
        } else {
            r.update(r.len() - 1, r.last().push(s.last()))
        }
    }
}

pub proof fn lemma_split_char_nonempty(s: Seq<char>, c: char)
    ensures
        split_char(s, c).len() >= 1,
    decreases s.len(),
{
    if s.len() > 0 {
        lemma_split_char_nonempty(s.drop_last(), c);
    }
}

/// The text of a description between its first "one of:" and the next one.
pub open spec fn one_of_part(desc: Seq<char>) -> Option<Seq<char>> {
    let i = first_match_from(desc, "one of:"@, 0);
    if i < 0 {
        None
    } else {
        let rest = desc.skip(i + 7);
        let j = first_match_from(rest, "one of:"@, 0);
        Some(if j < 0 { rest } else { rest.take(j) })
    }
}

/// The trimmed pieces of `parts` that are not empty and whose lower-cased
/// form starts with `prefix`.
pub open spec fn choice_values(parts: Seq<Seq<char>>, prefix: Seq<char>) -> Seq<Seq<char>>
    decreases parts.len(),
{
    if parts.len() == 0 {
        seq![]
    } else {
        let r = choice_values(parts.drop_last(), prefix);
        let t = trim(parts.last());
        if t.len() > 0 && starts_with(lower_text(t), prefix) {
            r.push(t)
        } else {
            r
        }
    }
}

/// The values an argument's description lists after "one of:", separated
/// by "|".
pub open spec fn description_values(desc: Seq<char>, prefix: Seq<char>) -> Seq<Seq<char>> {
    match one_of_part(desc) {
        Some(p) => choice_values(split_char(p, '|'), prefix),
        None => seq![],
    }
}

fn split_on_char(s: &Vec<char>, c: char) -> (r: Vec<Vec<char>>)
    ensures
        r@.map_values(|v: Vec<char>| v@) == split_char(s@, c),
{
    let mut out: Vec<Vec<char>> = Vec::new();
    let mut cur: Vec<char> = Vec::new();
    let mut i: usize = 0;
    assert(s@.take(0) =~= Seq::<char>::empty());
    while i < s.len()
        invariant
            i <= s.len(),
            out@.map_values(|v: Vec<char>| v@).push(cur@) == split_char(s@.take(i as int), c),
        decreases s.len() - i,
    {
        let ghost pre = s@.take(i + 1);
        assert(pre.drop_last() =~= s@.take(i as int));
        let ghost o0 = out@.map_values(|v: Vec<char>| v@);
        let ghost c0 = cur@;
        if s[i] == c {
            let done = cur;
            out.push(done);
            cur = Vec::new();
            assert(out@.map_values(|v: Vec<char>| v@) =~= o0.push(c0));
            assert(out@.map_values(|v: Vec<char>| v@).push(cur@) =~= o0.push(c0).push(Seq::<char>::empty()));
        } else {
            cur.push(s[i]);
            assert(o0.push(cur@) =~= o0.push(c0).update(o0.len() as int, c0.push(s@[i as int])));
        }
        i = i + 1;
    }
    assert(s@.take(s.len() as int) =~= s@);
    out.push(cur);
    out
}

/// The completions an argument's description offers.
pub fn description_completions(desc: &str, prefix: &str) -> (r: Vec<String>)
    ensures
        strs(r@) == description_values(desc@, prefix@),
{
    let d = chars_of(desc);
    let mark = chars_of("one of:");
    proof {
        reveal_strlit("one of:");
    }
    let i = match find_first(&d, &mark) {
        Some(i) => i,
        None => return Vec::new(),
    };
    let mut rest: Vec<char> = Vec::new();
    let mut k = i + 7;
    while k < d.len()
        invariant
            i + 7 <= k <= d.len(),
            rest@ == d@.subrange(i + 7, k as int),
        decreases d.len() - k,
    {
        rest.push(d[k]);
        k = k + 1;
        assert(rest@ =~= d@.subrange(i + 7, k as int));
    }
    assert(rest@ =~= d@.skip(i + 7));
    let part = match find_first(&rest, &mark) {
        Some(j) => crate::git::take_vec(&rest, j),
        None => rest,
    };
    let pieces = split_on_char(&part, '|');
    let ghost pv = pieces@.map_values(|v: Vec<char>| v@);
    let mut out: Vec<String> = Vec::new();
    let mut q: usize = 0;
    while q < pieces.len()
        invariant
            q <= pieces.len(),
            pv == pieces@.map_values(|v: Vec<char>| v@),
            strs(out@) == choice_values(pv.take(q as int), prefix@),
        decreases pieces.len() - q,
    {
        assert(pv.take(q + 1).drop_last() =~= pv.take(q as int));
        assert(pv.take(q + 1).last() == pieces@[q as int]@);
        let t = trim_chars(&pieces[q]);
        if t.len() > 0 {
            let ts = string_of(&t);
            let l = to_lowercase(ts.as_str());
            if str_starts_with(l.as_str(), prefix) {
                let ghost before = strs(out@);
                out.push(ts);
                assert(strs(out@) =~= before.push(t@));
            }
        }
        q = q + 1;
    }
    assert(pv.take(pieces.len() as int) =~= pv);
    out
}

/// What a completion is asked for.
pub enum CompletionRef {
    Prompt,
    Resource,
}

/// The completions of an argument whose current text is `value`: for a
/// resource, the known URIs; for a prompt, skill names where the argument
/// names a skill, else the values its description lists after "one of:",
/// else the built-in values of the argument. Matching is by the lower-cased
/// text.
pub fn complete_values(
    target: CompletionRef,
    arg_name: &str,
    value: &str,
    skill_names: &Vec<String>,
    arg_description: Option<&str>,
) -> (r: Vec<String>)
    ensures
        ({
            let prefix = lower_text(value@);
            strs(r@) == match target {
                CompletionRef::Resource => with_lower_prefix(known_resources(), prefix),
                CompletionRef::Prompt => if names_a_skill(arg_name@) {
                    let m = with_lower_prefix(strs(skill_names@), prefix);
                    if m.len() > 20 { m.take(20) } else { m }
                } else {
                    match arg_description {
                        Some(d) => description_values(d@, prefix),
                        None => with_prefix(builtin_candidates(arg_name@), prefix),
                    }
                },
            }
        }),
{
    let prefix = to_lowercase(value);
    match target {
        CompletionRef::Resource => resource_completions(prefix.as_str()),
        CompletionRef::Prompt => {
            if is_skill_argument(arg_name) {
                skill_name_completions(skill_names, prefix.as_str())
            } else {
                match arg_description {
                    Some(d) => description_completions(d, prefix.as_str()),
                    None => builtin_param_completions(arg_name, prefix.as_str()),
                }
            }
        },
    }
}

} // verus!
