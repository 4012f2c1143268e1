//! Template parsing for the `disguise` view engine: a byte-level tokenizer,
//! token streams, the `@`-template block parser, an HTML fragment parser,
//! an HTML token optimizer and a JSON front end.

pub mod consts;
pub mod doc;
pub mod error;
pub mod index_map;
pub mod html;
pub mod json;
pub mod optimizer;
pub mod options;
pub mod template;
pub mod span;
pub mod text;
pub mod tokenizer;
