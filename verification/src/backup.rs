//! Backups of files before they are edited: which edits are backed up, and
//! the names and metadata of the backup files.
use vstd::prelude::*;
use crate::active_filter::trim_start_matches;
use crate::text::{chars_of, owned, push_str, str_eq, string_of};

verus! {

/// When files are backed up.
#[derive(PartialEq, Eq, Structural, Clone, Copy)]
pub enum BackupTrigger {
    /// The first edit of each file in a session.
    FirstEdit,
    AllWrites,
    Never,
}

/// Backup settings.
pub struct BackupConfig {
    pub directory: String,
    pub trigger: BackupTrigger,
    pub retention_days: u32,
    pub max_size_mb: u64,
}

impl Default for BackupConfig {
    fn default() -> (r: Self)
        ensures
            r.directory@ == ".agent-backups"@,
            r.trigger == BackupTrigger::FirstEdit,
            r.retention_days == 7,
            r.max_size_mb == 500,
    {
        BackupConfig {
            directory: owned(".agent-backups"),
            trigger: BackupTrigger::FirstEdit,
            retention_days: 7,
            max_size_mb: 500,
        }
    }
}

/// The metadata stored beside a backup.
pub struct BackupMeta {
    pub original_path: String,
    pub backup_path: String,
    pub trigger: String,
    pub tool: String,
    pub session_id: String,
    pub captured_at: String,
    pub file_size: u64,
    pub raw_hash: String,
    pub encoding: String,
    pub line_ending: String,
}

/// A backup that was written.
pub struct BackupRecord {
    pub backup_path: String,
    pub meta: BackupMeta,
}

/// The backups of a session.
pub struct BackupManager {
    config: BackupConfig,
    session_id: String,
    backed_up: Vec<String>,
}

impl BackupManager {
    pub closed spec fn config(&self) -> BackupConfig {
        self.config
    }

    pub closed spec fn session(&self) -> Seq<char> {
        self.session_id@
    }

    /// The files backed up so far.
    pub closed spec fn backed_up(&self) -> Set<Seq<char>> {
        self.backed_up@.map_values(|s: String| s@).to_set()
    }

    /// A manager with nothing backed up yet.
    pub fn new(config: BackupConfig, session_id: String) -> (r: Self)
        ensures
            r.config() == config,
            r.session() == session_id@,
            r.backed_up() == Set::<Seq<char>>::empty(),
    {
        let r = BackupManager { config, session_id, backed_up: Vec::new() };
        assert(r.backed_up@.map_values(|s: String| s@).to_set() =~= Set::<Seq<char>>::empty());
        r
    }

    /// Whether `path` was backed up in this session.
    pub fn was_backed_up(&self, path: &str) -> (r: bool)
        ensures
            r == self.backed_up().contains(path@),
    {
        let mut i: usize = 0;
        while i < self.backed_up.len()
            invariant
                i <= self.backed_up.len(),
                forall|k: int| 0 <= k < i ==> (#[trigger] self.backed_up@[k])@ != path@,
            decreases self.backed_up.len() - i,
        {
            if str_eq(self.backed_up[i].as_str(), path) {
                assert(self.backed_up@.map_values(|s: String| s@)[i as int] == path@);
                return true;
            }
            i = i + 1;
        }
        proof {
            if self.backed_up@.map_values(|s: String| s@).to_set().contains(path@) {
                let m = self.backed_up@.map_values(|s: String| s@);
                let k = choose|k: int| 0 <= k < m.len() && #[trigger] m[k] == path@;
                assert(self.backed_up@[k]@ == path@);
            }
        }
        false
    }

    /// Whether an edit of `path` is backed up: backups are on, a first-edit
    /// policy has not backed the file up yet, the file exists, and the
    /// backup directory (its size in MB, when known) is below the limit.
    pub fn should_backup(&self, path: &str, exists: bool, dir_size_mb: Option<u64>) -> (r: bool)
        ensures
            r == backup_due(self.config().trigger, self.config().max_size_mb, self.backed_up(), path@, exists, dir_size_mb),
    {
        if self.config.trigger == BackupTrigger::Never {
            return false;
        }
        if self.config.trigger == BackupTrigger::FirstEdit && self.was_backed_up(path) {
            return false;
        }
        if !exists {
            return false;
        }
        match dir_size_mb {
            Some(s) => s < self.config.max_size_mb,
            None => true,
        }
    }

    /// Notes that `path` was backed up.
    pub fn record_backup(&mut self, path: String)
        ensures
            final(self).config() == old(self).config(),
            final(self).session() == old(self).session(),
            final(self).backed_up() == old(self).backed_up().insert(path@),
    {
        let ghost before = self.backed_up@.map_values(|s: String| s@);
        let p = path;
        self.backed_up.push(p);
        proof {
            let after = self.backed_up@.map_values(|s: String| s@);
            assert(after =~= before.push(path@));
            before.lemma_push_to_set_commute(path@);
        }
    }

    /// The metadata of a backup of `original` written to `backup_path`.
    pub fn backup_meta(
        &self,
        original: &str,
        backup_path: &str,
        trigger: BackupTrigger,
        tool: &str,
        captured_at: &str,
        file_size: u64,
        raw_hash: &str,
        encoding: &str,
        line_ending: &str,
    ) -> (m: BackupMeta)
        ensures
            m.original_path@ == original@,
            m.backup_path@ == backup_path@,
            m.trigger@ == trigger_text(trigger),
            m.tool@ == tool@,
            m.session_id@ == self.session(),
            m.captured_at@ == captured_at@,
            m.file_size == file_size,
            m.raw_hash@ == raw_hash@,
            m.encoding@ == encoding@,
            m.line_ending@ == line_ending@,
    {
        BackupMeta {
            original_path: owned(original),
            backup_path: owned(backup_path),
            trigger: trigger_name(trigger),
            tool: owned(tool),
            session_id: self.session_id.clone(),
            captured_at: owned(captured_at),
            file_size,
            raw_hash: owned(raw_hash),
            encoding: owned(encoding),
            line_ending: owned(line_ending),
        }
    }
}

/// The name of a trigger as it is recorded; `Never` is recorded as "None".
pub open spec fn trigger_text(t: BackupTrigger) -> Seq<char> {
    match t {
        BackupTrigger::FirstEdit => "FirstEdit"@,
        BackupTrigger::AllWrites => "AllWrites"@,
        BackupTrigger::Never => "None"@,
    }
}

pub fn trigger_name(t: BackupTrigger) -> (r: String)
    ensures
        r@ == trigger_text(t),
{
    match t {
        BackupTrigger::FirstEdit => owned("FirstEdit"),
        BackupTrigger::AllWrites => owned("AllWrites"),
        BackupTrigger::Never => owned("None"),
    }
}

/// Path separators turned into underscores.
pub open spec fn underscored(p: Seq<char>) -> Seq<char> {
    p.map_values(|c: char| if c == '/' || c == '\\' { '_' } else { c })
}

/// The file name part of a backup: the path with separators replaced by
/// underscores, without leading underscores.
pub fn safe_name(path: &str) -> (r: String)
    ensures
        r@ == trim_start_matches(underscored(path@), '_'),
{
    let c = chars_of(path);
    let mut v: Vec<char> = Vec::new();
    let mut i: usize = 0;
    while i < c.len()
        invariant
            i <= c.len(),
            c@ == path@,
            v@ == underscored(path@.take(i as int)),
        decreases c.len() - i,
    {
        let ch = c[i];
        v.push(if ch == '/' || ch == '\\' { '_' } else { ch });
        i = i + 1;
        assert(underscored(path@.take(i as int)) =~= underscored(path@.take(i - 1)).push(
            if path@[i - 1] == '/' || path@[i - 1] == '\\' { '_' } else { path@[i - 1] },
        ));
    }
    assert(path@.take(c.len() as int) =~= path@);
    let t = crate::active_filter::trim_start_matches_chars(&v, '_');
    string_of(&t)
}

/// Backup and metadata file names: `{time}_{name}.bak` and `.bak.meta`.
pub fn backup_file_names(time_str: &str, safe: &str) -> (r: (String, String))
    ensures
        r.0@ == time_str@ + "_"@ + safe@ + ".bak"@,
        r.1@ == time_str@ + "_"@ + safe@ + ".bak.meta"@,
{
    let mut b = chars_of(time_str);
    push_str(&mut b, "_");
    push_str(&mut b, safe);
    push_str(&mut b, ".bak");
    let mut m = chars_of(time_str);
    push_str(&mut m, "_");
    push_str(&mut m, safe);
    push_str(&mut m, ".bak.meta");
    (string_of(&b), string_of(&m))
}

/// Whole megabytes of `bytes`.
pub fn size_mb(bytes: u64) -> (r: u64)
    ensures
        r == bytes / 1_048_576,
{
    bytes / 1_048_576
}

/// Whether an edit of `path` is backed up first: the trigger allows it
/// (first edits only, for `FirstEdit`), the file exists, and the backup
/// folder is under its size limit where its size is known.
pub open spec fn backup_due(
    trigger: BackupTrigger,
    max_size_mb: u64,
    backed_up: Set<Seq<char>>,
    path: Seq<char>,
    exists: bool,
    dir_size_mb: Option<u64>,
) -> bool {
    &&& trigger != BackupTrigger::Never
    &&& !(trigger == BackupTrigger::FirstEdit && backed_up.contains(path))
    &&& exists
    &&& !(dir_size_mb matches Some(s) && s >= max_size_mb)
}

/// With `FirstEdit`, a file is backed up once per session: after its backup
/// is recorded no later edit of it is due, while other files are as they
/// were. With `AllWrites`, recording changes nothing.
pub proof fn law_first_edit_backs_up_once(
    trigger: BackupTrigger,
    max_size_mb: u64,
    backed_up: Set<Seq<char>>,
    path: Seq<char>,
    other: Seq<char>,
    exists: bool,
    dir_size_mb: Option<u64>,
)
    ensures
        trigger == BackupTrigger::FirstEdit ==> !backup_due(trigger, max_size_mb, backed_up.insert(path), path, exists, dir_size_mb),
        other != path ==> (backup_due(trigger, max_size_mb, backed_up.insert(path), other, exists, dir_size_mb)
            == backup_due(trigger, max_size_mb, backed_up, other, exists, dir_size_mb)),
        trigger == BackupTrigger::AllWrites ==> (backup_due(trigger, max_size_mb, backed_up.insert(path), path, exists, dir_size_mb)
            == backup_due(trigger, max_size_mb, backed_up, path, exists, dir_size_mb)),
{
}

} // verus!
