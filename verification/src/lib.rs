//! Assembles a size-bounded text snapshot of a source tree: which entries of
//! the tree are left out, how a file becomes a labelled fenced block, how the
//! size budget is kept, and when a run stops.
//!
//! The library reads no file and lists no directory. A caller walks the tree,
//! hands what it sees to a [`ContextAssembler`] and does what the assembler
//! answers.

pub mod assembler;
pub mod block;
pub mod budget;
pub mod error;
pub mod policy;
pub mod roots;
pub mod text;
pub mod trim;
pub mod walker;

pub use crate::assembler::{assemble, Action, ContextAssembler, Event};
pub use crate::block::{
    add_content_units, append_build_output, append_section, append_test_output, format_block,
    format_trimmed, FormattedBlock, FIXED_OVERHEAD,
};
pub use crate::budget::{estimate_tokens, BudgetLedger, CHARS_PER_TOKEN, DEFAULT_MAX_TOKENS};
pub use crate::error::ContextError;
pub use crate::policy::{is_candidate, should_prune, should_skip, CandidateEntry, EntryKind};
pub use crate::roots::{needs_default_root, resolve_roots};
pub use crate::trim::{keep_range, trim};
pub use crate::walker::TreeWalker;
