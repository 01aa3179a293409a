//! The logic of an MCP server for coding agents: exact-string file edits,
//! batch and cross-file edits that validate before they write, readings of
//! git output, workflow logs of approvals, questions and input requests,
//! a memory store, registries of tools and packages, and the answers the
//! tools give. Reading and writing files, running processes and talking to
//! clients is left to the caller, which hands the results in as values.
pub mod edit;
pub mod error;
pub mod locate;
pub mod search;
pub mod text;
pub mod metadata;
pub mod active_filter;
pub mod dispatch;
pub mod schema;
pub mod journal_log;
pub mod multi_file_edit;
pub mod approval;
pub mod ask_user;
pub mod input_request;
pub mod git;
pub mod memory;
pub mod progress;
pub mod symbols;
pub mod format_file;
pub mod interaction;
pub mod project_index;
pub mod backup;
pub mod graph;
pub mod pattern;
pub mod call_hierarchy;
pub mod compact_journal;
pub mod session;
pub mod file_tree;
pub mod find_files;
pub mod bash_evidence;
pub mod lint;
pub mod find_symbol;
pub mod json;
pub mod compat;
pub mod hover;
pub mod definition;
pub mod checkpoint;
pub mod env_info;
pub mod package;
pub mod process;
pub mod insert_symbol;
pub mod notify;
pub mod interaction_files;
pub mod completion;
pub mod file_ops;
