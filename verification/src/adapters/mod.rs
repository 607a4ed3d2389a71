//! Adapters: one per agent, each knowing how that agent keeps its sessions and memories.
pub mod claude;
pub mod claude_decode;
pub mod claude_entry_laws;
pub mod claude_jsonl;
pub mod claude_laws;
pub mod claude_row_laws;
pub mod claude_transcript;
pub mod mtime_cache;
pub mod sqlite_ro;
pub mod zcode;
pub mod zcode_entry_laws;
pub mod zcode_laws;
pub mod zcode_parse;
