//! Syntax-highlighting support: capture-name colouring, Markdown field ranges,
//! the highlight chunks of a tree-sitter query over a document, and the
//! pure decisions behind the local-control metadata handlers.

pub mod text;
pub mod text_order;
pub mod markdown;
pub mod buffer;
pub mod color;
pub mod range_map;
pub mod syntax;
pub mod highlight;
pub mod injections;
pub mod control_error;
pub mod settings_values;
pub mod surfaces;
pub mod targets;
pub mod config_targets;
pub mod panes;
