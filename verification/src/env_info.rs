//! The description of the machine and workspace the server runs in.
use vstd::prelude::*;
use crate::text::{chars_of, dec, dec_chars_u64, owned, push_chars, push_str, string_of};

verus! {

/// Result of `env_info`.
pub struct EnvInfoResult {
    pub kind: String,
    pub os: String,
    pub arch: String,
    pub workspace: String,
    pub codepage: u32,
    pub codepage_name: String,
    pub line_ending: String,
    pub volume_kind: String,
    pub disk_free_mb: u64,
    pub rust_analyzer_available: bool,
    pub git_available: bool,
    pub agent_editor_version: String,
}

/// The name of a Windows code page: the common ones by name, others as
/// "CP" and the number.
pub open spec fn codepage_label(cp: u32) -> Seq<char> {
    if cp == 936 {
        "GBK"@
    } else if cp == 932 {
        "Shift-JIS"@
    } else if cp == 65001 {
        "UTF-8"@
    } else {
        "CP"@ + dec(cp as nat)
    }
}

pub fn codepage_name(codepage: u32) -> (r: String)
    ensures
        r@ == codepage_label(codepage),
{
    if codepage == 936 {
        owned("GBK")
    } else if codepage == 932 {
        owned("Shift-JIS")
    } else if codepage == 65001 {
        owned("UTF-8")
    } else {
        let mut v = chars_of("CP");
        let d = dec_chars_u64(codepage as u64);
        push_chars(&mut v, &d);
        string_of(&v)
    }
}

/// The name of a Windows system: "Windows major.minor (build)" where its
/// version is known.
pub open spec fn windows_label(v: Option<(u32, u32, u32)>) -> Seq<char> {
    match v {
        Some((a, b, c)) => "Windows "@ + dec(a as nat) + "."@ + dec(b as nat) + " ("@ + dec(c as nat) + ")"@,
        None => "Windows"@,
    }
}

pub fn windows_os_string(version: Option<(u32, u32, u32)>) -> (r: String)
    ensures
        r@ == windows_label(version),
{
    match version {
        Some((a, b, c)) => {
            let mut v = chars_of("Windows ");
            push_chars(&mut v, &dec_chars_u64(a as u64));
            push_str(&mut v, ".");
            push_chars(&mut v, &dec_chars_u64(b as u64));
            push_str(&mut v, " (");
            push_chars(&mut v, &dec_chars_u64(c as u64));
            push_str(&mut v, ")");
            string_of(&v)
        },
        None => owned("Windows"),
    }
}

/// What the machine reports, before it is put in a result.
pub struct EnvFacts {
    pub os: String,
    pub arch: String,
    pub workspace: String,
    pub codepage: u32,
    pub windows: bool,
    pub volume_kind: Option<String>,
    pub disk_free_mb: Option<u64>,
    pub rust_analyzer_available: bool,
    pub git_available: bool,
    pub version: String,
}

/// `env_info` from what the machine reports: the code page named, CRLF
/// line endings on Windows, "Unknown" and 0 where the volume could not be
/// asked.
pub fn run_env_info(facts: EnvFacts) -> (r: EnvInfoResult)
    ensures
        r.kind@ == "success"@,
        r.os@ == facts.os@,
        r.arch@ == facts.arch@,
        r.workspace@ == facts.workspace@,
        r.codepage == facts.codepage,
        r.codepage_name@ == codepage_label(facts.codepage),
        r.line_ending@ == (if facts.windows { "CRLF"@ } else { "LF"@ }),
        r.volume_kind@ == match facts.volume_kind {
            Some(v) => v@,
            None => "Unknown"@,
        },
        r.disk_free_mb == match facts.disk_free_mb {
            Some(m) => m,
            None => 0,
        },
        r.rust_analyzer_available == facts.rust_analyzer_available,
        r.git_available == facts.git_available,
        r.agent_editor_version@ == facts.version@,
{
    proof {
        reveal_strlit("success");
        reveal_strlit("CRLF");
        reveal_strlit("LF");
        reveal_strlit("Unknown");
    }
    let codepage_name = codepage_name(facts.codepage);
    EnvInfoResult {
        kind: owned("success"),
        os: facts.os,
        arch: facts.arch,
        workspace: facts.workspace,
        codepage: facts.codepage,
        codepage_name,
        line_ending: if facts.windows { owned("CRLF") } else { owned("LF") },
        volume_kind: match facts.volume_kind {
            Some(v) => v,
            None => owned("Unknown"),
        },
        disk_free_mb: match facts.disk_free_mb {
            Some(m) => m,
            None => 0,
        },
        rust_analyzer_available: facts.rust_analyzer_available,
        git_available: facts.git_available,
        agent_editor_version: facts.version,
    }
}

/// Free space in whole MiB from free bytes.
pub fn free_mb(free_bytes: u64) -> (r: u64)
    ensures
        r == free_bytes / 1024 / 1024,
{
    free_bytes / 1024 / 1024
}

} // verus!
