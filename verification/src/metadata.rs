//! The tool registry: one entry of metadata per tool, keyed by name.
use vstd::prelude::*;
use crate::text::{str_eq, strs};

verus! {

/// Kind of a tool.
#[derive(Clone, Copy, PartialEq, Eq, Debug, Structural)]
pub enum ToolCategory {
    FileEdit,
    Git,
    Nav,
    Symbol,
    Workflow,
    Interact,
    Session,
    Exec,
    Ext,
}

/// Capabilities of one tool.
#[derive(Clone, Copy)]
pub struct ToolMetadata {
    pub name: &'static str,
    pub description: &'static str,
    pub category: ToolCategory,
    pub read_only: bool,
    pub destructive: bool,
    pub mutates_durable_state: bool,
    pub requires_interaction: bool,
    pub requires_workspace: bool,
    pub active_by_default: bool,
}

/// Every registered tool, in registration order.
pub open spec fn tool_table() -> Seq<ToolMetadata> {
    seq![
        ToolMetadata { name: "read_file", description: "Read file contents", category: ToolCategory::FileEdit, read_only: true, destructive: false, mutates_durable_state: false, requires_interaction: false, requires_workspace: true, active_by_default: true },
        ToolMetadata { name: "write_file", description: "Write file contents", category: ToolCategory::FileEdit, read_only: false, destructive: false, mutates_durable_state: false, requires_interaction: false, requires_workspace: true, active_by_default: true },
        ToolMetadata { name: "edit", description: "Edit file with old/new string replacement", category: ToolCategory::FileEdit, read_only: false, destructive: false, mutates_durable_state: false, requires_interaction: false, requires_workspace: true, active_by_default: true },
        ToolMetadata { name: "multi_edit", description: "Apply multiple edits to a file", category: ToolCategory::FileEdit, read_only: false, destructive: false, mutates_durable_state: false, requires_interaction: false, requires_workspace: true, active_by_default: true },
        ToolMetadata { name: "read_range", description: "Read specific line range of a file", category: ToolCategory::FileEdit, read_only: true, destructive: false, mutates_durable_state: false, requires_interaction: false, requires_workspace: true, active_by_default: true },
        ToolMetadata { name: "read_compressed", description: "Read compressed file", category: ToolCategory::FileEdit, read_only: true, destructive: false, mutates_durable_state: false, requires_interaction: false, requires_workspace: true, active_by_default: true },
        ToolMetadata { name: "file_rename", description: "Rename a file", category: ToolCategory::FileEdit, read_only: false, destructive: false, mutates_durable_state: false, requires_interaction: false, requires_workspace: true, active_by_default: true },
        ToolMetadata { name: "file_outline", description: "Get file outline", category: ToolCategory::FileEdit, read_only: true, destructive: false, mutates_durable_state: false, requires_interaction: false, requires_workspace: true, active_by_default: true },
        ToolMetadata { name: "batch_read", description: "Read multiple files", category: ToolCategory::FileEdit, read_only: true, destructive: false, mutates_durable_state: false, requires_interaction: false, requires_workspace: true, active_by_default: true },
        ToolMetadata { name: "find_files", description: "Find files by pattern", category: ToolCategory::FileEdit, read_only: true, destructive: false, mutates_durable_state: false, requires_interaction: false, requires_workspace: true, active_by_default: true },
        ToolMetadata { name: "preview_edit", description: "Preview an edit before applying", category: ToolCategory::FileEdit, read_only: true, destructive: false, mutates_durable_state: false, requires_interaction: false, requires_workspace: true, active_by_default: true },
        ToolMetadata { name: "verify_syntax", description: "Verify file syntax", category: ToolCategory::Exec, read_only: true, destructive: false, mutates_durable_state: false, requires_interaction: false, requires_workspace: true, active_by_default: true },
        ToolMetadata { name: "resolve_path", description: "Resolve a relative path", category: ToolCategory::FileEdit, read_only: true, destructive: false, mutates_durable_state: false, requires_interaction: false, requires_workspace: true, active_by_default: true },
        ToolMetadata { name: "search_workspace", description: "Search workspace content", category: ToolCategory::FileEdit, read_only: true, destructive: false, mutates_durable_state: false, requires_interaction: false, requires_workspace: true, active_by_default: true },
        ToolMetadata { name: "create_file_tree", description: "Create a file tree structure", category: ToolCategory::FileEdit, read_only: false, destructive: false, mutates_durable_state: false, requires_interaction: false, requires_workspace: true, active_by_default: true },
        ToolMetadata { name: "snapshot_workspace", description: "Snapshot workspace state", category: ToolCategory::FileEdit, read_only: true, destructive: false, mutates_durable_state: false, requires_interaction: false, requires_workspace: true, active_by_default: true },
        ToolMetadata { name: "workspace_tree", description: "Show workspace tree", category: ToolCategory::FileEdit, read_only: true, destructive: false, mutates_durable_state: false, requires_interaction: false, requires_workspace: true, active_by_default: true },
        ToolMetadata { name: "env_info", description: "Get environment info", category: ToolCategory::Ext, read_only: true, destructive: false, mutates_durable_state: false, requires_interaction: false, requires_workspace: false, active_by_default: true },
        ToolMetadata { name: "git_log", description: "Show git log", category: ToolCategory::Git, read_only: true, destructive: false, mutates_durable_state: false, requires_interaction: false, requires_workspace: true, active_by_default: true },
        ToolMetadata { name: "git_blame", description: "Show git blame", category: ToolCategory::Git, read_only: true, destructive: false, mutates_durable_state: false, requires_interaction: false, requires_workspace: true, active_by_default: true },
        ToolMetadata { name: "git_status", description: "Show git status", category: ToolCategory::Git, read_only: true, destructive: false, mutates_durable_state: false, requires_interaction: false, requires_workspace: true, active_by_default: true },
        ToolMetadata { name: "git_diff_file", description: "Show git diff for file", category: ToolCategory::Git, read_only: true, destructive: false, mutates_durable_state: false, requires_interaction: false, requires_workspace: true, active_by_default: true },
        ToolMetadata { name: "go_to_definition", description: "Go to symbol definition", category: ToolCategory::Nav, read_only: true, destructive: false, mutates_durable_state: false, requires_interaction: false, requires_workspace: true, active_by_default: true },
        ToolMetadata { name: "find_references", description: "Find all references to a symbol", category: ToolCategory::Nav, read_only: true, destructive: false, mutates_durable_state: false, requires_interaction: false, requires_workspace: true, active_by_default: true },
        ToolMetadata { name: "get_hover_info", description: "Get hover information", category: ToolCategory::Nav, read_only: true, destructive: false, mutates_durable_state: false, requires_interaction: false, requires_workspace: true, active_by_default: true },
        ToolMetadata { name: "call_hierarchy", description: "Get call hierarchy", category: ToolCategory::Nav, read_only: true, destructive: false, mutates_durable_state: false, requires_interaction: false, requires_workspace: true, active_by_default: true },
        ToolMetadata { name: "sy_get_symbols_overview", description: "Get symbol tree for a file", category: ToolCategory::Symbol, read_only: true, destructive: false, mutates_durable_state: false, requires_interaction: false, requires_workspace: true, active_by_default: true },
        ToolMetadata { name: "sy_find_symbol", description: "Find symbol by name_path", category: ToolCategory::Symbol, read_only: true, destructive: false, mutates_durable_state: false, requires_interaction: false, requires_workspace: true, active_by_default: true },
        ToolMetadata { name: "sy_find_referencing_symbols", description: "Find symbols that reference a symbol", category: ToolCategory::Symbol, read_only: true, destructive: false, mutates_durable_state: false, requires_interaction: false, requires_workspace: true, active_by_default: true },
        ToolMetadata { name: "sy_replace_symbol_body", description: "Replace symbol body in-place", category: ToolCategory::Symbol, read_only: false, destructive: false, mutates_durable_state: false, requires_interaction: false, requires_workspace: true, active_by_default: true },
        ToolMetadata { name: "sy_insert_after_symbol", description: "Insert content after a symbol", category: ToolCategory::Symbol, read_only: false, destructive: false, mutates_durable_state: false, requires_interaction: false, requires_workspace: true, active_by_default: true },
        ToolMetadata { name: "sy_insert_before_symbol", description: "Insert content before a symbol", category: ToolCategory::Symbol, read_only: false, destructive: false, mutates_durable_state: false, requires_interaction: false, requires_workspace: true, active_by_default: true },
        ToolMetadata { name: "sy_rename_symbol", description: "Rename symbol across codebase", category: ToolCategory::Symbol, read_only: false, destructive: false, mutates_durable_state: false, requires_interaction: false, requires_workspace: true, active_by_default: false },
        ToolMetadata { name: "sy_advance_node", description: "Advance workflow node", category: ToolCategory::Workflow, read_only: false, destructive: false, mutates_durable_state: true, requires_interaction: false, requires_workspace: true, active_by_default: true },
        ToolMetadata { name: "sy_create_checkpoint", description: "Create workflow checkpoint", category: ToolCategory::Workflow, read_only: false, destructive: false, mutates_durable_state: true, requires_interaction: false, requires_workspace: true, active_by_default: true },
        ToolMetadata { name: "sy_stop", description: "Stop workflow session", category: ToolCategory::Workflow, read_only: false, destructive: false, mutates_durable_state: true, requires_interaction: false, requires_workspace: true, active_by_default: true },
        ToolMetadata { name: "sy_session_start", description: "Start workflow session", category: ToolCategory::Workflow, read_only: false, destructive: false, mutates_durable_state: true, requires_interaction: false, requires_workspace: true, active_by_default: true },
        ToolMetadata { name: "diff_since_checkpoint", description: "Show diff since last checkpoint", category: ToolCategory::Workflow, read_only: true, destructive: false, mutates_durable_state: false, requires_interaction: false, requires_workspace: true, active_by_default: true },
        ToolMetadata { name: "checkpoint_list", description: "List checkpoints", category: ToolCategory::Workflow, read_only: true, destructive: false, mutates_durable_state: false, requires_interaction: false, requires_workspace: true, active_by_default: true },
        ToolMetadata { name: "tdd_evidence", description: "Record TDD evidence", category: ToolCategory::Workflow, read_only: false, destructive: false, mutates_durable_state: true, requires_interaction: false, requires_workspace: true, active_by_default: true },
        ToolMetadata { name: "session_summary", description: "Generate session summary", category: ToolCategory::Workflow, read_only: true, destructive: false, mutates_durable_state: false, requires_interaction: false, requires_workspace: true, active_by_default: true },
        ToolMetadata { name: "task_graph_update", description: "Update task graph", category: ToolCategory::Workflow, read_only: false, destructive: false, mutates_durable_state: true, requires_interaction: false, requires_workspace: true, active_by_default: true },
        ToolMetadata { name: "sy_approval_request", description: "Request human approval", category: ToolCategory::Interact, read_only: false, destructive: false, mutates_durable_state: true, requires_interaction: true, requires_workspace: true, active_by_default: true },
        ToolMetadata { name: "sy_approval_resolve", description: "Resolve approval request", category: ToolCategory::Interact, read_only: false, destructive: false, mutates_durable_state: true, requires_interaction: true, requires_workspace: true, active_by_default: true },
        ToolMetadata { name: "sy_approval_status", description: "Check approval status", category: ToolCategory::Interact, read_only: true, destructive: false, mutates_durable_state: false, requires_interaction: false, requires_workspace: true, active_by_default: true },
        ToolMetadata { name: "sy_ask_user", description: "Ask user a question", category: ToolCategory::Interact, read_only: false, destructive: false, mutates_durable_state: false, requires_interaction: true, requires_workspace: true, active_by_default: true },
        ToolMetadata { name: "sy_ask_user_status", description: "Check ask_user status", category: ToolCategory::Interact, read_only: true, destructive: false, mutates_durable_state: false, requires_interaction: false, requires_workspace: true, active_by_default: true },
        ToolMetadata { name: "sy_input_request", description: "Request user input", category: ToolCategory::Interact, read_only: false, destructive: false, mutates_durable_state: false, requires_interaction: true, requires_workspace: true, active_by_default: true },
        ToolMetadata { name: "sy_input_request_status", description: "Check input request status", category: ToolCategory::Interact, read_only: true, destructive: false, mutates_durable_state: false, requires_interaction: false, requires_workspace: true, active_by_default: true },
        ToolMetadata { name: "sy_notify", description: "Send notification", category: ToolCategory::Interact, read_only: false, destructive: false, mutates_durable_state: false, requires_interaction: false, requires_workspace: false, active_by_default: true },
        ToolMetadata { name: "sy_progress_report", description: "Report progress", category: ToolCategory::Interact, read_only: false, destructive: false, mutates_durable_state: false, requires_interaction: false, requires_workspace: true, active_by_default: true },
        ToolMetadata { name: "memory_read", description: "Read memory entry", category: ToolCategory::Session, read_only: true, destructive: false, mutates_durable_state: false, requires_interaction: false, requires_workspace: true, active_by_default: true },
        ToolMetadata { name: "memory_write", description: "Write memory entry", category: ToolCategory::Session, read_only: false, destructive: false, mutates_durable_state: false, requires_interaction: false, requires_workspace: true, active_by_default: true },
        ToolMetadata { name: "memory_delete", description: "Delete memory entry", category: ToolCategory::Session, read_only: false, destructive: true, mutates_durable_state: false, requires_interaction: false, requires_workspace: true, active_by_default: true },
        ToolMetadata { name: "memory_list", description: "List memory entries", category: ToolCategory::Session, read_only: true, destructive: false, mutates_durable_state: false, requires_interaction: false, requires_workspace: true, active_by_default: true },
        ToolMetadata { name: "compact_journal", description: "Compact workflow journal", category: ToolCategory::Workflow, read_only: false, destructive: false, mutates_durable_state: true, requires_interaction: false, requires_workspace: true, active_by_default: true },
        ToolMetadata { name: "search_session", description: "Search session journal", category: ToolCategory::Workflow, read_only: true, destructive: false, mutates_durable_state: false, requires_interaction: false, requires_workspace: true, active_by_default: true },
        ToolMetadata { name: "lint_file", description: "Lint a file", category: ToolCategory::Exec, read_only: true, destructive: false, mutates_durable_state: false, requires_interaction: false, requires_workspace: true, active_by_default: true },
        ToolMetadata { name: "type_check", description: "Type check source", category: ToolCategory::Exec, read_only: true, destructive: false, mutates_durable_state: false, requires_interaction: false, requires_workspace: true, active_by_default: true },
        ToolMetadata { name: "format_file", description: "Format a file", category: ToolCategory::Exec, read_only: false, destructive: false, mutates_durable_state: false, requires_interaction: false, requires_workspace: true, active_by_default: true },
        ToolMetadata { name: "dependency_graph", description: "Show dependency graph", category: ToolCategory::Exec, read_only: true, destructive: false, mutates_durable_state: false, requires_interaction: false, requires_workspace: true, active_by_default: true },
        ToolMetadata { name: "symbol_rename_preview", description: "Preview symbol rename", category: ToolCategory::Symbol, read_only: true, destructive: false, mutates_durable_state: false, requires_interaction: false, requires_workspace: true, active_by_default: true },
        ToolMetadata { name: "run_command", description: "Run a shell command", category: ToolCategory::Exec, read_only: false, destructive: false, mutates_durable_state: false, requires_interaction: false, requires_workspace: true, active_by_default: true },
        ToolMetadata { name: "run_test", description: "Run tests", category: ToolCategory::Exec, read_only: false, destructive: false, mutates_durable_state: false, requires_interaction: false, requires_workspace: true, active_by_default: true },
        ToolMetadata { name: "run_script", description: "Run a script", category: ToolCategory::Exec, read_only: false, destructive: false, mutates_durable_state: false, requires_interaction: false, requires_workspace: true, active_by_default: true },
        ToolMetadata { name: "package_info", description: "Get package info", category: ToolCategory::Ext, read_only: true, destructive: false, mutates_durable_state: false, requires_interaction: false, requires_workspace: false, active_by_default: true },
        ToolMetadata { name: "process_list", description: "List running processes", category: ToolCategory::Ext, read_only: true, destructive: false, mutates_durable_state: false, requires_interaction: false, requires_workspace: false, active_by_default: true },
        ToolMetadata { name: "open_in_editor", description: "Open file in editor", category: ToolCategory::Ext, read_only: false, destructive: false, mutates_durable_state: false, requires_interaction: false, requires_workspace: true, active_by_default: true },
        ToolMetadata { name: "on_error", description: "Handle tool error", category: ToolCategory::Ext, read_only: false, destructive: false, mutates_durable_state: false, requires_interaction: false, requires_workspace: false, active_by_default: true },
        ToolMetadata { name: "session_budget_warning", description: "Warn on session budget", category: ToolCategory::Ext, read_only: true, destructive: false, mutates_durable_state: false, requires_interaction: false, requires_workspace: false, active_by_default: true },
        ToolMetadata { name: "multi_file_edit", description: "Edit multiple files", category: ToolCategory::FileEdit, read_only: false, destructive: false, mutates_durable_state: false, requires_interaction: false, requires_workspace: true, active_by_default: true },
    ]
}

/// The entry registered under `name`: the first one with that name.
pub open spec fn lookup_in(t: Seq<ToolMetadata>, name: Seq<char>) -> Option<ToolMetadata>
    decreases t.len(),
{
    if t.len() == 0 {
        None
    } else if t[0].name@ == name {
        Some(t[0])
    } else {
        lookup_in(t.drop_first(), name)
    }
}

/// The registry entry of the tool called `name`.
pub open spec fn lookup(name: Seq<char>) -> Option<ToolMetadata> {
    lookup_in(tool_table(), name)
}

/// A tool may run: it is listed as active, or it is active by default.
pub open spec fn tool_is_active(name: Seq<char>, active: Seq<Seq<char>>) -> bool {
    active.contains(name) || (lookup(name) matches Some(m) && m.active_by_default)
}

/// All registered tools.
pub fn registry() -> (r: Vec<ToolMetadata>)
    ensures
        r@ == tool_table(),
{
    let r = vec![
        ToolMetadata { name: "read_file", description: "Read file contents", category: ToolCategory::FileEdit, read_only: true, destructive: false, mutates_durable_state: false, requires_interaction: false, requires_workspace: true, active_by_default: true },
        ToolMetadata { name: "write_file", description: "Write file contents", category: ToolCategory::FileEdit, read_only: false, destructive: false, mutates_durable_state: false, requires_interaction: false, requires_workspace: true, active_by_default: true },
        ToolMetadata { name: "edit", description: "Edit file with old/new string replacement", category: ToolCategory::FileEdit, read_only: false, destructive: false, mutates_durable_state: false, requires_interaction: false, requires_workspace: true, active_by_default: true },
        ToolMetadata { name: "multi_edit", description: "Apply multiple edits to a file", category: ToolCategory::FileEdit, read_only: false, destructive: false, mutates_durable_state: false, requires_interaction: false, requires_workspace: true, active_by_default: true },
        ToolMetadata { name: "read_range", description: "Read specific line range of a file", category: ToolCategory::FileEdit, read_only: true, destructive: false, mutates_durable_state: false, requires_interaction: false, requires_workspace: true, active_by_default: true },
        ToolMetadata { name: "read_compressed", description: "Read compressed file", category: ToolCategory::FileEdit, read_only: true, destructive: false, mutates_durable_state: false, requires_interaction: false, requires_workspace: true, active_by_default: true },
        ToolMetadata { name: "file_rename", description: "Rename a file", category: ToolCategory::FileEdit, read_only: false, destructive: false, mutates_durable_state: false, requires_interaction: false, requires_workspace: true, active_by_default: true },
        ToolMetadata { name: "file_outline", description: "Get file outline", category: ToolCategory::FileEdit, read_only: true, destructive: false, mutates_durable_state: false, requires_interaction: false, requires_workspace: true, active_by_default: true },
        ToolMetadata { name: "batch_read", description: "Read multiple files", category: ToolCategory::FileEdit, read_only: true, destructive: false, mutates_durable_state: false, requires_interaction: false, requires_workspace: true, active_by_default: true },
        ToolMetadata { name: "find_files", description: "Find files by pattern", category: ToolCategory::FileEdit, read_only: true, destructive: false, mutates_durable_state: false, requires_interaction: false, requires_workspace: true, active_by_default: true },
        ToolMetadata { name: "preview_edit", description: "Preview an edit before applying", category: ToolCategory::FileEdit, read_only: true, destructive: false, mutates_durable_state: false, requires_interaction: false, requires_workspace: true, active_by_default: true },
        ToolMetadata { name: "verify_syntax", description: "Verify file syntax", category: ToolCategory::Exec, read_only: true, destructive: false, mutates_durable_state: false, requires_interaction: false, requires_workspace: true, active_by_default: true },
        ToolMetadata { name: "resolve_path", description: "Resolve a relative path", category: ToolCategory::FileEdit, read_only: true, destructive: false, mutates_durable_state: false, requires_interaction: false, requires_workspace: true, active_by_default: true },
        ToolMetadata { name: "search_workspace", description: "Search workspace content", category: ToolCategory::FileEdit, read_only: true, destructive: false, mutates_durable_state: false, requires_interaction: false, requires_workspace: true, active_by_default: true },
        ToolMetadata { name: "create_file_tree", description: "Create a file tree structure", category: ToolCategory::FileEdit, read_only: false, destructive: false, mutates_durable_state: false, requires_interaction: false, requires_workspace: true, active_by_default: true },
        ToolMetadata { name: "snapshot_workspace", description: "Snapshot workspace state", category: ToolCategory::FileEdit, read_only: true, destructive: false, mutates_durable_state: false, requires_interaction: false, requires_workspace: true, active_by_default: true },
        ToolMetadata { name: "workspace_tree", description: "Show workspace tree", category: ToolCategory::FileEdit, read_only: true, destructive: false, mutates_durable_state: false, requires_interaction: false, requires_workspace: true, active_by_default: true },
        ToolMetadata { name: "env_info", description: "Get environment info", category: ToolCategory::Ext, read_only: true, destructive: false, mutates_durable_state: false, requires_interaction: false, requires_workspace: false, active_by_default: true },
        ToolMetadata { name: "git_log", description: "Show git log", category: ToolCategory::Git, read_only: true, destructive: false, mutates_durable_state: false, requires_interaction: false, requires_workspace: true, active_by_default: true },
        ToolMetadata { name: "git_blame", description: "Show git blame", category: ToolCategory::Git, read_only: true, destructive: false, mutates_durable_state: false, requires_interaction: false, requires_workspace: true, active_by_default: true },
        ToolMetadata { name: "git_status", description: "Show git status", category: ToolCategory::Git, read_only: true, destructive: false, mutates_durable_state: false, requires_interaction: false, requires_workspace: true, active_by_default: true },
        ToolMetadata { name: "git_diff_file", description: "Show git diff for file", category: ToolCategory::Git, read_only: true, destructive: false, mutates_durable_state: false, requires_interaction: false, requires_workspace: true, active_by_default: true },
        ToolMetadata { name: "go_to_definition", description: "Go to symbol definition", category: ToolCategory::Nav, read_only: true, destructive: false, mutates_durable_state: false, requires_interaction: false, requires_workspace: true, active_by_default: true },
        ToolMetadata { name: "find_references", description: "Find all references to a symbol", category: ToolCategory::Nav, read_only: true, destructive: false, mutates_durable_state: false, requires_interaction: false, requires_workspace: true, active_by_default: true },
        ToolMetadata { name: "get_hover_info", description: "Get hover information", category: ToolCategory::Nav, read_only: true, destructive: false, mutates_durable_state: false, requires_interaction: false, requires_workspace: true, active_by_default: true },
        ToolMetadata { name: "call_hierarchy", description: "Get call hierarchy", category: ToolCategory::Nav, read_only: true, destructive: false, mutates_durable_state: false, requires_interaction: false, requires_workspace: true, active_by_default: true },
        ToolMetadata { name: "sy_get_symbols_overview", description: "Get symbol tree for a file", category: ToolCategory::Symbol, read_only: true, destructive: false, mutates_durable_state: false, requires_interaction: false, requires_workspace: true, active_by_default: true },
        ToolMetadata { name: "sy_find_symbol", description: "Find symbol by name_path", category: ToolCategory::Symbol, read_only: true, destructive: false, mutates_durable_state: false, requires_interaction: false, requires_workspace: true, active_by_default: true },
        ToolMetadata { name: "sy_find_referencing_symbols", description: "Find symbols that reference a symbol", category: ToolCategory::Symbol, read_only: true, destructive: false, mutates_durable_state: false, requires_interaction: false, requires_workspace: true, active_by_default: true },
        ToolMetadata { name: "sy_replace_symbol_body", description: "Replace symbol body in-place", category: ToolCategory::Symbol, read_only: false, destructive: false, mutates_durable_state: false, requires_interaction: false, requires_workspace: true, active_by_default: true },
        ToolMetadata { name: "sy_insert_after_symbol", description: "Insert content after a symbol", category: ToolCategory::Symbol, read_only: false, destructive: false, mutates_durable_state: false, requires_interaction: false, requires_workspace: true, active_by_default: true },
        ToolMetadata { name: "sy_insert_before_symbol", description: "Insert content before a symbol", category: ToolCategory::Symbol, read_only: false, destructive: false, mutates_durable_state: false, requires_interaction: false, requires_workspace: true, active_by_default: true },
        ToolMetadata { name: "sy_rename_symbol", description: "Rename symbol across codebase", category: ToolCategory::Symbol, read_only: false, destructive: false, mutates_durable_state: false, requires_interaction: false, requires_workspace: true, active_by_default: false },
        ToolMetadata { name: "sy_advance_node", description: "Advance workflow node", category: ToolCategory::Workflow, read_only: false, destructive: false, mutates_durable_state: true, requires_interaction: false, requires_workspace: true, active_by_default: true },
        ToolMetadata { name: "sy_create_checkpoint", description: "Create workflow checkpoint", category: ToolCategory::Workflow, read_only: false, destructive: false, mutates_durable_state: true, requires_interaction: false, requires_workspace: true, active_by_default: true },
        ToolMetadata { name: "sy_stop", description: "Stop workflow session", category: ToolCategory::Workflow, read_only: false, destructive: false, mutates_durable_state: true, requires_interaction: false, requires_workspace: true, active_by_default: true },
        ToolMetadata { name: "sy_session_start", description: "Start workflow session", category: ToolCategory::Workflow, read_only: false, destructive: false, mutates_durable_state: true, requires_interaction: false, requires_workspace: true, active_by_default: true },
        ToolMetadata { name: "diff_since_checkpoint", description: "Show diff since last checkpoint", category: ToolCategory::Workflow, read_only: true, destructive: false, mutates_durable_state: false, requires_interaction: false, requires_workspace: true, active_by_default: true },
        ToolMetadata { name: "checkpoint_list", description: "List checkpoints", category: ToolCategory::Workflow, read_only: true, destructive: false, mutates_durable_state: false, requires_interaction: false, requires_workspace: true, active_by_default: true },
        ToolMetadata { name: "tdd_evidence", description: "Record TDD evidence", category: ToolCategory::Workflow, read_only: false, destructive: false, mutates_durable_state: true, requires_interaction: false, requires_workspace: true, active_by_default: true },
        ToolMetadata { name: "session_summary", description: "Generate session summary", category: ToolCategory::Workflow, read_only: true, destructive: false, mutates_durable_state: false, requires_interaction: false, requires_workspace: true, active_by_default: true },
        ToolMetadata { name: "task_graph_update", description: "Update task graph", category: ToolCategory::Workflow, read_only: false, destructive: false, mutates_durable_state: true, requires_interaction: false, requires_workspace: true, active_by_default: true },
        ToolMetadata { name: "sy_approval_request", description: "Request human approval", category: ToolCategory::Interact, read_only: false, destructive: false, mutates_durable_state: true, requires_interaction: true, requires_workspace: true, active_by_default: true },
        ToolMetadata { name: "sy_approval_resolve", description: "Resolve approval request", category: ToolCategory::Interact, read_only: false, destructive: false, mutates_durable_state: true, requires_interaction: true, requires_workspace: true, active_by_default: true },
        ToolMetadata { name: "sy_approval_status", description: "Check approval status", category: ToolCategory::Interact, read_only: true, destructive: false, mutates_durable_state: false, requires_interaction: false, requires_workspace: true, active_by_default: true },
        ToolMetadata { name: "sy_ask_user", description: "Ask user a question", category: ToolCategory::Interact, read_only: false, destructive: false, mutates_durable_state: false, requires_interaction: true, requires_workspace: true, active_by_default: true },
        ToolMetadata { name: "sy_ask_user_status", description: "Check ask_user status", category: ToolCategory::Interact, read_only: true, destructive: false, mutates_durable_state: false, requires_interaction: false, requires_workspace: true, active_by_default: true },
        ToolMetadata { name: "sy_input_request", description: "Request user input", category: ToolCategory::Interact, read_only: false, destructive: false, mutates_durable_state: false, requires_interaction: true, requires_workspace: true, active_by_default: true },
        ToolMetadata { name: "sy_input_request_status", description: "Check input request status", category: ToolCategory::Interact, read_only: true, destructive: false, mutates_durable_state: false, requires_interaction: false, requires_workspace: true, active_by_default: true },
        ToolMetadata { name: "sy_notify", description: "Send notification", category: ToolCategory::Interact, read_only: false, destructive: false, mutates_durable_state: false, requires_interaction: false, requires_workspace: false, active_by_default: true },
        ToolMetadata { name: "sy_progress_report", description: "Report progress", category: ToolCategory::Interact, read_only: false, destructive: false, mutates_durable_state: false, requires_interaction: false, requires_workspace: true, active_by_default: true },
        ToolMetadata { name: "memory_read", description: "Read memory entry", category: ToolCategory::Session, read_only: true, destructive: false, mutates_durable_state: false, requires_interaction: false, requires_workspace: true, active_by_default: true },
        ToolMetadata { name: "memory_write", description: "Write memory entry", category: ToolCategory::Session, read_only: false, destructive: false, mutates_durable_state: false, requires_interaction: false, requires_workspace: true, active_by_default: true },
        ToolMetadata { name: "memory_delete", description: "Delete memory entry", category: ToolCategory::Session, read_only: false, destructive: true, mutates_durable_state: false, requires_interaction: false, requires_workspace: true, active_by_default: true },
        ToolMetadata { name: "memory_list", description: "List memory entries", category: ToolCategory::Session, read_only: true, destructive: false, mutates_durable_state: false, requires_interaction: false, requires_workspace: true, active_by_default: true },
        ToolMetadata { name: "compact_journal", description: "Compact workflow journal", category: ToolCategory::Workflow, read_only: false, destructive: false, mutates_durable_state: true, requires_interaction: false, requires_workspace: true, active_by_default: true },
        ToolMetadata { name: "search_session", description: "Search session journal", category: ToolCategory::Workflow, read_only: true, destructive: false, mutates_durable_state: false, requires_interaction: false, requires_workspace: true, active_by_default: true },
        ToolMetadata { name: "lint_file", description: "Lint a file", category: ToolCategory::Exec, read_only: true, destructive: false, mutates_durable_state: false, requires_interaction: false, requires_workspace: true, active_by_default: true },
        ToolMetadata { name: "type_check", description: "Type check source", category: ToolCategory::Exec, read_only: true, destructive: false, mutates_durable_state: false, requires_interaction: false, requires_workspace: true, active_by_default: true },
        ToolMetadata { name: "format_file", description: "Format a file", category: ToolCategory::Exec, read_only: false, destructive: false, mutates_durable_state: false, requires_interaction: false, requires_workspace: true, active_by_default: true },
        ToolMetadata { name: "dependency_graph", description: "Show dependency graph", category: ToolCategory::Exec, read_only: true, destructive: false, mutates_durable_state: false, requires_interaction: false, requires_workspace: true, active_by_default: true },
        ToolMetadata { name: "symbol_rename_preview", description: "Preview symbol rename", category: ToolCategory::Symbol, read_only: true, destructive: false, mutates_durable_state: false, requires_interaction: false, requires_workspace: true, active_by_default: true },
        ToolMetadata { name: "run_command", description: "Run a shell command", category: ToolCategory::Exec, read_only: false, destructive: false, mutates_durable_state: false, requires_interaction: false, requires_workspace: true, active_by_default: true },
        ToolMetadata { name: "run_test", description: "Run tests", category: ToolCategory::Exec, read_only: false, destructive: false, mutates_durable_state: false, requires_interaction: false, requires_workspace: true, active_by_default: true },
        ToolMetadata { name: "run_script", description: "Run a script", category: ToolCategory::Exec, read_only: false, destructive: false, mutates_durable_state: false, requires_interaction: false, requires_workspace: true, active_by_default: true },
        ToolMetadata { name: "package_info", description: "Get package info", category: ToolCategory::Ext, read_only: true, destructive: false, mutates_durable_state: false, requires_interaction: false, requires_workspace: false, active_by_default: true },
        ToolMetadata { name: "process_list", description: "List running processes", category: ToolCategory::Ext, read_only: true, destructive: false, mutates_durable_state: false, requires_interaction: false, requires_workspace: false, active_by_default: true },
        ToolMetadata { name: "open_in_editor", description: "Open file in editor", category: ToolCategory::Ext, read_only: false, destructive: false, mutates_durable_state: false, requires_interaction: false, requires_workspace: true, active_by_default: true },
        ToolMetadata { name: "on_error", description: "Handle tool error", category: ToolCategory::Ext, read_only: false, destructive: false, mutates_durable_state: false, requires_interaction: false, requires_workspace: false, active_by_default: true },
        ToolMetadata { name: "session_budget_warning", description: "Warn on session budget", category: ToolCategory::Ext, read_only: true, destructive: false, mutates_durable_state: false, requires_interaction: false, requires_workspace: false, active_by_default: true },
        ToolMetadata { name: "multi_file_edit", description: "Edit multiple files", category: ToolCategory::FileEdit, read_only: false, destructive: false, mutates_durable_state: false, requires_interaction: false, requires_workspace: true, active_by_default: true },
    ];
    assert(r@ =~= tool_table());
    r
}

/// Finds the entry called `name` in `t`.
fn lookup_vec(t: &Vec<ToolMetadata>, name: &str) -> (r: Option<ToolMetadata>)
    ensures
        r == lookup_in(t@, name@),
{
    let mut i: usize = 0;
    assert(t@.skip(0) =~= t@);
    while i < t.len()
        invariant
            i <= t.len(),
            lookup_in(t@, name@) == lookup_in(t@.skip(i as int), name@),
        decreases t.len() - i,
    {
        assert(t@.skip(i as int).drop_first() =~= t@.skip(i + 1));
        assert(t@.skip(i as int)[0] == t@[i as int]);
        if str_eq(t[i].name, name) {
            return Some(t[i]);
        }
        i = i + 1;
    }
    None
}

impl ToolMetadata {
    /// The metadata of the tool called `name`, if it is registered.
    pub fn get(name: &str) -> (r: Option<ToolMetadata>)
        ensures
            r == lookup(name@),
    {
        let t = registry();
        lookup_vec(&t, name)
    }

    /// Whether the tool `name` may run given the session's active tools.
    pub fn is_active(name: &str, active_tools: &Vec<String>) -> (r: bool)
        ensures
            r == tool_is_active(name@, strs(active_tools@)),
    {
        let mut i: usize = 0;
        while i < active_tools.len()
            invariant
                i <= active_tools.len(),
                forall|j: int| 0 <= j < i ==> active_tools@[j]@ != name@,
            decreases active_tools.len() - i,
        {
            if str_eq(active_tools[i].as_str(), name) {
                assert(strs(active_tools@)[i as int] == name@);
                return true;
            }
            i = i + 1;
        }
        assert(!strs(active_tools@).contains(name@)) by {
            if strs(active_tools@).contains(name@) {
                let j = choose|j: int| 0 <= j < strs(active_tools@).len() && strs(active_tools@)[j] == name@;
                assert(active_tools@[j]@ == name@);
            }
        }
        match ToolMetadata::get(name) {
            Some(m) => m.active_by_default,
            None => false,
        }
    }
}

} // verus!
