use vstd::prelude::*;

verus! {

/// `@use path;` imports a path into the generated code.
pub const DIRECTIVE_KEYWORD_USE: &'static str = "use";

/// `@layout path;` names the layout that a view is rendered in.
pub const DIRECTIVE_KEYWORD_LAYOUT: &'static str = "layout";

/// `@section name { ... }` defines a named part of a view.
pub const KEYWORD_SECTION: &'static str = "section";

/// `@render_section(...)` renders a section inside code.
pub const KEYWORD_RENDER_SECTION: &'static str = "render_section";

pub open spec fn use_keyword() -> Seq<char> {
    seq!['u', 's', 'e']
}

pub open spec fn layout_keyword() -> Seq<char> {
    seq!['l', 'a', 'y', 'o', 'u', 't']
}

pub open spec fn section_keyword() -> Seq<char> {
    seq!['s', 'e', 'c', 't', 'i', 'o', 'n']
}

pub open spec fn render_section_keyword() -> Seq<char> {
    seq!['r', 'e', 'n', 'd', 'e', 'r', '_', 's', 'e', 'c', 't', 'i', 'o', 'n']
}

pub fn use_directive() -> (r: &'static str)
    ensures
        r@ == use_keyword(),
{
    proof {
        reveal_strlit("use");
    }
    "use"
}

pub fn layout_directive() -> (r: &'static str)
    ensures
        r@ == layout_keyword(),
{
    proof {
        reveal_strlit("layout");
    }
    "layout"
}

pub fn section_directive() -> (r: &'static str)
    ensures
        r@ == section_keyword(),
{
    proof {
        reveal_strlit("section");
    }
    "section"
}

pub fn render_section_directive() -> (r: &'static str)
    ensures
        r@ == render_section_keyword(),
{
    proof {
        reveal_strlit("render_section");
    }
    "render_section"
}

} // verus!
