pub mod doc;
pub mod machine;
pub mod node;
pub mod parser;

use crate::error::CompileError;
use crate::html::doc::HtmlDocument;
use crate::html::parser::{doc_result_is, html_spec};
use vstd::prelude::*;
use vstd::string::StringSliceAdditionalSpecFns;

verus! {

/// Reads an HTML fragment.
pub fn parse_html(raw_html: &str) -> (r: Result<HtmlDocument, CompileError>)
    ensures
        doc_result_is(r, html_spec(raw_html.spec_bytes())),
{
    HtmlDocument::parse(raw_html)
}

} // verus!
pub mod laws;
