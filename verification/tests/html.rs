use disguise::error::CompileError;
use disguise::html::doc::HtmlDocument;
use disguise::html::node::{Node, NodeKind};
use disguise::html::parse_html;
use disguise::html::parser::{is_valid_name_token, is_void_tag};
use disguise::tokenizer::tokenizer::Tokenizer;

#[test]
fn parse_string() {
    let source = r#"<div>\n  </div>"#;
    let html_doc = HtmlDocument::parse(source);
    println!("{html_doc:#?}");
}

#[test]
fn parse_wellformed_node_with_no_meaningful_content() -> Result<(), CompileError> {
    let source = "<div>\n  </div>";
    let dom = parse_html(source)?;
    let content = dom.to_string();
    let expected = "<div/>";
    assert_eq!(content, expected);

    Ok(())
}

#[test]
fn parse_wellformed_node_with_attrs() -> Result<(), CompileError> {
    let source = r#"
        <div a1="a1" a2="a2">
           test
        </div>
    "#;
    let dom = parse_html(source)?;
    let content = dom.to_string();
    let expected = r#"<div a1="a1" a2="a2">test</div>"#;
    assert_eq!(content, expected);

    Ok(())
}

#[test]
fn parse_wellformed_node_with_spaces_in_attrs() -> Result<(), CompileError> {
    // note: not supported for multiple spaces between atrrite parts.
    let source = r#"
        <div a=" a0 a1 a2 a3 " b="b0 b1 b2 b3 ">
           test
        </div>
    "#;
    let dom = parse_html(source)?;
    let content = dom.to_string();
    let expected = r#"<div a="a0 a1 a2 a3" b="b0 b1 b2 b3">test</div>"#;
    assert_eq!(content, expected);

    Ok(())
}

#[test]
fn parse_open_tag() -> Result<(), CompileError> {
    let source = r#"
        <div a1="a1" a2="a2"
    "#;
    let dom = parse_html(source)?;
    let content = dom.to_string();
    let expected = r#"<div a1="a1" a2="a2""#;
    assert_eq!(content, expected);

    Ok(())
}

#[test]
fn parse_fragments() -> Result<(), CompileError> {
    let source = r#"
        </div>
        <div a1="a1" a2="a2">
           test
        </div>
    "#;
    let dom = parse_html(source)?;
    let content = dom.to_string();
    let expected = r#"</div><div a1="a1" a2="a2">test</div>"#;
    assert_eq!(content, expected);

    Ok(())
}

#[test]
fn parse_fragments2() -> Result<(), CompileError> {
    let source = r#"
        <div>Welcome: "#;
    let dom = parse_html(source)?;
    let content = dom.to_string();
    let expected = r#"<div>Welcome: "#;
    assert_eq!(content, expected);

    Ok(())
}

#[test]
fn parse_node_with_whitespaces() -> Result<(), CompileError> {
    let source = r#"
        < div a1="a0"    a2="a2" >
           test
        < / div >
    "#;
    let dom = parse_html(source)?;
    let content = dom.to_string();
    let expected = r#"<div a1="a0" a2="a2">test</div>"#;
    assert_eq!(content, expected);

    Ok(())
}

#[test]
fn parse_nested_nodes() -> Result<(), CompileError> {
    let source = r#"
        <div ap1="ap1">
           test
           <div ap2="ap2">
              test2
           </div>
        </div>
    "#;
    let dom = parse_html(source)?;
    let content = dom.to_string();
    let expected = "<div ap1=\"ap1\">test<div ap2=\"ap2\">test2</div></div>";
    assert_eq!(content, expected);

    Ok(())
}

#[test]
fn parse_fragments_complicated() -> Result<(), CompileError> {
    let source = r#"
        <html>
            <head>
               <title>Welcome</title>
            </head>
        <body>"#;
    let dom = parse_html(source)?;
    let content = dom.to_string();
    let expected = "<html><head><title>Welcome</title></head><body>";
    assert_eq!(content, expected);

    Ok(())
}

// <div>@msg - from @name(@age)</div>

#[test]
fn parse_fragments_text() -> Result<(), CompileError> {
    let source = " - from ";
    let dom = parse_html(source)?;
    let content = dom.to_string();
    assert_eq!(content, source);

    Ok(())
}

#[test]
fn parse_doc_type_html5_node() -> Result<(), CompileError> {
    // html5: <!DOCTYPE html>
    let source = "<!doctype html>";
    let dom = parse_html(source)?;
    let content = dom.to_string();
    assert_eq!(content, source);

    Ok(())
}

#[test]
fn parse_doc_type_html4_node() -> Result<(), CompileError> {
    // html 4.01: <!DOCTYPE HTML PUBLIC "-//W3C//DTD HTML 4.01 Transitional//EN" "http://www.w3.org/TR/html4/loose.dtd">
    let source = "<!DOCTYPE HTML PUBLIC \"-//W3C//DTD HTML 4.01 Transitional//EN\" \"http://www.w3.org/TR/html4/loose.dtd\">";
    let dom = parse_html(source)?;
    let content = dom.to_string();
    assert_eq!(content, source);

    Ok(())
}

#[test]
fn parse_doc_type_xhtml_node() -> Result<(), CompileError> {
    // XHTML 1.1: <!DOCTYPE html PUBLIC "-//W3C//DTD XHTML 1.1//EN" "http://www.w3.org/TR/xhtml11/DTD/xhtml11.dtd">
    let source = "<!DOCTYPE html PUBLIC \"-//W3C//DTD XHTML 1.1//EN\" \"http://www.w3.org/TR/xhtml11/DTD/xhtml11.dtd\">";
    let dom = parse_html(source)?;
    let content = dom.to_string();
    assert_eq!(content, source);

    Ok(())
}

#[test]
fn parse_comment_type_node() -> Result<(), CompileError> {
    let source = r#"
       <!-- test -->
    "#;
    let dom = parse_html(source)?;
    let content = dom.to_string();
    assert_eq!(content, "");

    Ok(())
}

#[test]
fn parse_html_open_tag() -> Result<(), CompileError> {
    let source = "  <title>";
    let dom = parse_html(source)?;
    let content = dom.to_string();
    assert_eq!(content, "<title>");

    Ok(())
}

#[test]
fn parse_void_tag() -> Result<(), CompileError> {
    // In HTML5, closing tags for tags like link , meta , img , hr , br are not mandatory.
    // But if following XHTML principles, it is considered to add closing tags to those HTML tags
    // (ex: "<meta />, <link />, <img />, <hr/>, <br/>")
    let source = "<head><link rel=\"dns-prefetch\" href=\"https://www.test.com\">test<br></head>";
    let dom = parse_html(source)?;
    let content = dom.to_string();
    // here: close the tag to follow XHTML principles.
    let expected =
        "<head><link rel=\"dns-prefetch\" href=\"https://www.test.com\"/>test<br/></head>";
    assert_eq!(content, expected);

    Ok(())
}

#[test]
fn parse_html_custom_tagname() -> Result<(), CompileError> {
    // Custom Element
    let source = "<test-tag name=\"route-action\" content=\"pull_request_layout\">";
    let dom = parse_html(source)?;
    let content = dom.to_string();
    assert_eq!(content, source);

    let source = "<test_tag name=\"route-action\" content=\"pull_request_layout\">";
    let dom = parse_html(source)?;
    let content = dom.to_string();
    assert_eq!(content, source);

    let source = "<test:tag name=\"route-action\" content=\"pull_request_layout\">";
    let dom = parse_html(source)?;
    let content = dom.to_string();
    assert_eq!(content, source);

    Ok(())
}

#[test]
fn parse_html_custome_attr_name() -> Result<(), CompileError> {
    let source =
        "<meta name=\"route-action\" content=\"pull_request_layout\" data-turbo-transient>";
    let dom = parse_html(source)?;
    let content = dom.to_string();
    let expected =
        "<meta name=\"route-action\" content=\"pull_request_layout\" data-turbo-transient/>";
    assert_eq!(content, expected);

    Ok(())
}

#[test]
fn parse_html_attr_without_value() -> Result<(), CompileError> {
    let source =
        "<meta name=\"route-action\" content=\"pull_request_layout\" data-turbo-transient>";
    let dom = parse_html(source)?;
    let content = dom.to_string();

    // close meta to following xhtml principles.
    let expected =
        "<meta name=\"route-action\" content=\"pull_request_layout\" data-turbo-transient/>";
    assert_eq!(content, expected);

    Ok(())
}

#[test]
fn parse_html_void_tag_with_close_tag() -> Result<(), CompileError> {
    let source = "<link rel=\"dns-prefetch\" href=\"https://www.test.com\"></link>";
    let dom = parse_html(source)?;
    let content = dom.to_string();
    // extra </link> is ilegal but leave it to browser.
    let expected = "<link rel=\"dns-prefetch\" href=\"https://www.test.com\"/></link>";
    assert_eq!(content, expected);

    Ok(())
}

#[test]
fn parse_html_self_close_tag_without_attribute() -> Result<(), CompileError> {
    let source = "<test/>";
    let dom = parse_html(source)?;
    let content = dom.to_string();
    let expected = "<test/>";
    assert_eq!(content, expected);

    let source = "<test></test>";
    let dom = parse_html(source)?;
    let content = dom.to_string();
    let expected = "<test/>";
    assert_eq!(content, expected);

    Ok(())
}

#[test]
fn parse_keeps_a_text_fragment() -> Result<(), CompileError> {
    let source = "a < b";
    let dom = parse_html(" plain text, no markup ")?;
    assert_eq!(dom.to_string(), " plain text, no markup ");
    // an unfinished tag name is dropped at the end.
    let dom = parse_html(source)?;
    assert_eq!(dom.nodes.len(), 1);
    assert_eq!(dom.to_string(), "a ");
    Ok(())
}

#[test]
fn parse_rejects_whitespace_after_exclamation() {
    let err = parse_html("<! doctype>").unwrap_err();
    assert_eq!(err.kind, disguise::error::ErrorKind::IllegalChar);
    let token = err.token.unwrap();
    assert_eq!((token.start, token.end), (2, 3));
}

#[test]
fn parse_attribute_replaced_in_place() -> Result<(), CompileError> {
    let dom = parse_html("<p a=\"1\" b=\"2\" a=\"3\">x</p>")?;
    assert_eq!(dom.to_string(), "<p a=\"3\" b=\"2\">x</p>");
    Ok(())
}

#[test]
fn parse_pre_keeps_its_text() -> Result<(), CompileError> {
    let dom = parse_html("<pre>  a  </pre>")?;
    assert_eq!(dom.to_string(), "<pre>  a  </pre>");
    Ok(())
}

#[test]
fn parse_comment_gives_nothing() -> Result<(), CompileError> {
    let dom = parse_html("<div><!-- c --></div>")?;
    assert_eq!(dom.to_string(), "<div/>");
    Ok(())
}

#[test]
fn document_is_open_after_unclosed_element() -> Result<(), CompileError> {
    assert!(parse_html("<a></a>")?.is_closed);
    assert!(!parse_html("<a>")?.is_closed);
    assert!(!parse_html("</a>")?.is_closed);
    Ok(())
}

#[test]
fn node_to_string_by_kind() {
    let mut node = Node::new_element("br");
    node.set_wellformed();
    node.close();
    assert_eq!(node.to_string(None), "<br/>");
    assert!(matches!(node.kind(), NodeKind::KELEMENT(_)));
    let close = Node::new_close_element("div");
    assert_eq!(close.to_string(None), "</div>");
    let mut text = Node::new_text();
    text.push_text("  t  ");
    assert_eq!(text.to_string(None), "  t  ");
    assert_eq!(text.to_string(Some(&node)), "t");
    let open = Node::new_element("div");
    assert_eq!(text.to_string(Some(&open)), "t  ");
    let mut pre = Node::new_element("PRE");
    pre.push_attr("class", "  x  ");
    assert!(pre.is_pre());
    assert_eq!(text.to_string(Some(&pre)), "  t  ");
}

#[test]
fn parse_keeps_a_value_without_a_name() -> Result<(), CompileError> {
    let dom = parse_html("<div =\"x\">")?;
    assert_eq!(dom.to_string(), "<div =\"x\">");
    let mut node = Node::new_element("p");
    node.push_attr("", "  ");
    node.push_attr("", " y ");
    node.push_attr("a", "");
    node.set_wellformed();
    assert_eq!(node.to_string(None), "<p =\"y\" a>");
    Ok(())
}

#[test]
fn void_tags_and_name_tokens() {
    assert!(is_void_tag("br"));
    assert!(is_void_tag("wbr"));
    assert!(!is_void_tag("div"));
    assert!(!is_void_tag("BR"));
    let tokens = Tokenizer::new("a \n").into_vec();
    assert!(is_valid_name_token(&tokens[0]));
    assert!(!is_valid_name_token(&tokens[1]));
    assert!(!is_valid_name_token(&tokens[2]));
}
