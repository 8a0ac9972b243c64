//! A content-transformation and style-cascade core for a document-layout
//! pipeline.
//!
//! Structured content elements (such as section headings) are immutable,
//! structurally comparable tree values.  They can be rewritten by registered
//! transformation rules ("recipes") under a per-node guard protocol that
//! keeps self-rewriting rules from recursing forever, and afterwards receive
//! default presentational styling that applies only where no outer style
//! entry has already settled the key.

pub mod content;
pub mod value;
pub mod styles;
pub mod recipe;
pub mod show;
pub mod heading;
pub mod realize;
