//! Creating a tree of files and directories, and reading several files at once.
use vstd::prelude::*;
use crate::error::ToolError;
use crate::text::{byte_len, chars_of, dec, dec_string, ends_with, owned, push_str, str_ends_with, string_of};

verus! {

// ─── Creating a tree ────────────────────────────────────────────────────────

/// A file (or, with a trailing slash, a directory) to create.
pub struct FileNode {
    /// Relative to the base path.
    pub path: String,
    /// `None` creates an empty file.
    pub content: Option<String>,
    pub template: Option<String>,
}

/// Parameters of `create_file_tree`.
pub struct CreateFileTreeParams {
    pub base_path: String,
    pub tree: Vec<FileNode>,
    pub overwrite: Option<bool>,
}

/// What happened to one node.
pub struct FileNodeOutcome {
    pub path: String,
    /// "created" | "skipped" | "overwritten"
    pub action: String,
}

/// Result of `create_file_tree`.
pub struct CreateFileTreeResult {
    pub status: String,
    pub created: usize,
    pub skipped: usize,
    pub results: Vec<FileNodeOutcome>,
    pub checkpoint_id: String,
}

/// What to do with one node.
pub enum NodePlan {
    /// Create the directory (and its parents).
    CreateDir,
    /// The file exists and is not overwritten.
    Skip,
    /// Write the content; `snapshot` when an existing file is replaced.
    Write { snapshot: bool },
}

/// A tree must have a node.
pub fn check_tree(params: &CreateFileTreeParams) -> (r: Result<(), ToolError>)
    ensures
        r is Ok <==> params.tree.len() > 0,
        params.tree.len() == 0 ==> (r matches Err(ToolError::MissingParameter { missing, hint })
            && missing@ == "tree"@ && hint@ == "Provide at least one FileNode."@),
{
    if params.tree.len() == 0 {
        return Err(ToolError::MissingParameter {
            missing: owned("tree"),
            hint: owned("Provide at least one FileNode."),
        });
    }
    Ok(())
}

/// A node path ending with a slash names a directory.
pub open spec fn names_dir(p: Seq<char>) -> bool {
    ends_with(p, "/"@) || ends_with(p, "\\"@)
}

/// The plan for a node at `path` whose target `exists` (or not).
pub open spec fn plan_of(path: Seq<char>, exists: bool, overwrite: bool) -> NodePlan {
    if names_dir(path) {
        NodePlan::CreateDir
    } else if exists && !overwrite {
        NodePlan::Skip
    } else {
        NodePlan::Write { snapshot: exists }
    }
}

/// The plan for a node whose target `exists` (or not).
pub fn plan_node(path: &str, exists: bool, overwrite: bool) -> (r: NodePlan)
    ensures
        r == plan_of(path@, exists, overwrite),
{
    if str_ends_with(path, "/") || str_ends_with(path, "\\") {
        NodePlan::CreateDir
    } else if exists && !overwrite {
        NodePlan::Skip
    } else {
        NodePlan::Write { snapshot: exists }
    }
}

/// The action a node reports once its plan is carried out: a file that
/// existed and was replaced is overwritten, a new one is created.
pub open spec fn action_of(plan: NodePlan) -> Seq<char> {
    match plan {
        NodePlan::CreateDir => "created"@,
        NodePlan::Skip => "skipped"@,
        NodePlan::Write { snapshot } => if snapshot { "overwritten"@ } else { "created"@ },
    }
}

/// A file node is reported overwritten exactly when it existed and
/// `overwrite` was on, skipped when it existed and `overwrite` was off, and
/// created when it did not exist.
pub proof fn law_node_action(path: Seq<char>, exists: bool, overwrite: bool)
    requires
        !names_dir(path),
    ensures
        action_of(plan_of(path, exists, overwrite)) == "overwritten"@ <==> (exists && overwrite),
        action_of(plan_of(path, exists, overwrite)) == "skipped"@ <==> (exists && !overwrite),
        action_of(plan_of(path, exists, overwrite)) == "created"@ <==> !exists,
{
    reveal_strlit("overwritten");
    reveal_strlit("skipped");
    reveal_strlit("created");
    assert("overwritten"@[0] != "skipped"@[0]);
    assert("overwritten"@[0] != "created"@[0]);
    assert("skipped"@[0] != "created"@[0]);
}

/// The outcome of a node.
pub fn node_outcome(path: &str, plan: &NodePlan) -> (r: FileNodeOutcome)
    ensures
        r.path@ == path@,
        r.action@ == action_of(*plan),
{
    let action = match plan {
        NodePlan::CreateDir => owned("created"),
        NodePlan::Skip => owned("skipped"),
        NodePlan::Write { snapshot } => if *snapshot { owned("overwritten") } else { owned("created") },
    };
    FileNodeOutcome { path: owned(path), action }
}

pub open spec fn skipped_in(s: Seq<FileNodeOutcome>) -> nat
    decreases s.len(),
{
    if s.len() == 0 {
        0
    } else {
        skipped_in(s.drop_last()) + if s.last().action@ == "skipped"@ { 1nat } else { 0nat }
    }
}

/// The result once every node is done: skipped nodes, and the others as created.
pub fn create_file_tree_result(results: Vec<FileNodeOutcome>, checkpoint_id: String) -> (r: CreateFileTreeResult)
    ensures
        r.status@ == "ok"@,
        r.skipped == skipped_in(results@),
        r.created == results.len() - skipped_in(results@),
        r.results@ == results@,
        r.checkpoint_id == checkpoint_id,
{
    let mut skipped: usize = 0;
    let mut i: usize = 0;
    while i < results.len()
        invariant
            i <= results.len(),
            skipped == skipped_in(results@.take(i as int)),
            skipped <= i,
        decreases results.len() - i,
    {
        assert(results@.take(i + 1).drop_last() =~= results@.take(i as int));
        if crate::text::str_eq(results[i].action.as_str(), "skipped") {
            skipped = skipped + 1;
        }
        i = i + 1;
    }
    assert(results@.take(results.len() as int) =~= results@);
    let created = results.len() - skipped;
    CreateFileTreeResult { status: owned("ok"), created, skipped, results, checkpoint_id }
}

// ─── Reading several files ──────────────────────────────────────────────────

/// Most paths one request may read.
pub const MAX_PATHS: usize = 20;

/// Parameters of `batch_read`.
pub struct BatchReadParams {
    pub paths: Vec<String>,
}

/// One file read (or the error reading it).
pub struct FileReadEntry {
    pub path: String,
    pub content: String,
    pub size: usize,
    pub error: Option<String>,
}

/// Result of `batch_read`.
pub struct BatchReadResult {
    pub kind: String,
    pub total: usize,
    pub files: Vec<FileReadEntry>,
    pub elapsed_ms: u64,
}

/// Between one and `MAX_PATHS` paths.
pub fn check_batch(params: &BatchReadParams) -> (r: Result<(), ToolError>)
    ensures
        r is Ok <==> 1 <= params.paths.len() <= MAX_PATHS,
        params.paths.len() == 0 ==> (r matches Err(ToolError::MissingParameter { missing, hint })
            && missing@ == "paths"@ && hint@ == "Provide at least one file path."@),
        params.paths.len() > MAX_PATHS ==> (r matches Err(ToolError::MissingParameter { missing, hint })
            && missing@ == "paths"@ && hint@ == "Maximum 20 paths per request, got "@ + dec(
            params.paths.len() as nat,
        ) + "."@),
{
    if params.paths.len() == 0 {
        return Err(ToolError::MissingParameter {
            missing: owned("paths"),
            hint: owned("Provide at least one file path."),
        });
    }
    if params.paths.len() > MAX_PATHS {
        let mut h = chars_of("Maximum 20 paths per request, got ");
        push_str(&mut h, dec_string(params.paths.len()).as_str());
        push_str(&mut h, ".");
        return Err(ToolError::MissingParameter { missing: owned("paths"), hint: string_of(&h) });
    }
    Ok(())
}

/// The entry of a file that was read.
pub fn read_entry(path: &str, content: String) -> (r: FileReadEntry)
    ensures
        r.path@ == path@,
        r.content == content,
        r.size == byte_len(content@) as usize,
        r.error is None,
{
    let size = content.as_str().len();
    FileReadEntry { path: owned(path), content, size, error: None }
}

/// The entry of a file that could not be read.
pub fn error_entry(path: &str, error: &str) -> (r: FileReadEntry)
    ensures
        r.path@ == path@,
        r.content@.len() == 0,
        r.size == 0,
        r.error matches Some(e) && e@ == error@,
{
    FileReadEntry { path: owned(path), content: String::new(), size: 0, error: Some(owned(error)) }
}

/// The result of reading the files.
pub fn batch_read_result(files: Vec<FileReadEntry>, elapsed_ms: u64) -> (r: BatchReadResult)
    ensures
        r.kind@ == "success"@,
        r.total == files.len(),
        r.files@ == files@,
        r.elapsed_ms == elapsed_ms,
{
    let total = files.len();
    BatchReadResult { kind: owned("success"), total, files, elapsed_ms }
}

} // verus!
