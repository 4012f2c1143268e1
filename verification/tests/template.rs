use disguise::consts;
use disguise::error::CompileError;
use disguise::template::block::{self, Block};
use disguise::template::context::ParseContext;
use disguise::template;
use disguise::tokenizer::stream::TokenStream;
use disguise::tokenizer::tokenizer::Tokenizer;

#[test]
fn test_block_parse_empty_stream() {
    let source = "";
    let tokenizer = Tokenizer::new(source);
    let tokens = tokenizer.into_vec();
    let mut token_stream = TokenStream::new(&tokens);

    let result = block::Block::parse(source, &mut token_stream);
    assert!(result.is_err());
}

// type from context.
#[test]
fn test_block_parse_content() -> Result<(), CompileError> {
    let source = r#"
         test
    "#;
    let tokenizer = Tokenizer::new(source);
    let tokens = tokenizer.into_vec();
    let mut token_stream = TokenStream::new(&tokens);
    let block = block::Block::parse(source, &mut token_stream)?;
    assert_eq!(block.name(), None);
    assert_eq!(block.kind(), block::Kind::ROOT);
    assert!(block.has_blocks());
    assert_eq!(block.blocks().len(), 1);
    assert_eq!(block.blocks()[0].kind(), block::Kind::CONTENT);
    assert_eq!(block.blocks()[0].content().trim(), "test");
    Ok(())
}

#[test]
fn test_block_parse_inline_code() -> Result<(), CompileError> {
    // no ending.
    let source = r#"@test"#;
    let tokenizer = Tokenizer::new(source);
    let tokens = tokenizer.into_vec();
    let mut token_stream = TokenStream::new(&tokens);
    let block = block::Block::parse(source, &mut token_stream)?;
    assert_eq!(block.name(), None);
    assert_eq!(block.kind(), block::Kind::ROOT);
    assert!(block.has_blocks());
    assert_eq!(block.blocks().len(), 1);
    assert_eq!(block.blocks()[0].kind(), block::Kind::INLINEDCODE);
    assert_eq!(block.blocks()[0].content().trim(), "test");

    // ending with ;
    let source = r#"@test;"#;
    let tokenizer = Tokenizer::new(source);
    let tokens = tokenizer.into_vec();
    let mut token_stream = TokenStream::new(&tokens);
    let block = block::Block::parse(source, &mut token_stream)?;
    assert_eq!(block.name(), None);
    assert_eq!(block.kind(), block::Kind::ROOT);
    assert_eq!(block.blocks().len(), 2);

    // 0: name, 1:;
    assert!(matches!(block.blocks()[0].kind(), block::Kind::INLINEDCODE));
    assert_eq!(block.blocks()[0].content().trim(), "test");
    assert!(matches!(block.blocks()[1].kind(), block::Kind::CONTENT));
    assert_eq!(block.blocks()[1].content().trim(), ";");
    Ok(())
}

// @{}
#[test]
fn test_block_parse_code_block() -> Result<(), CompileError> {
    // Empty.
    let source = "@{}";
    let tokenizer = Tokenizer::new(source);
    let tokens = tokenizer.into_vec();
    let mut token_stream = TokenStream::new(&tokens);
    let result = block::Block::parse(source, &mut token_stream);
    assert!(result.is_err());

    // Non-Empty.
    let source = "@{abc;}";
    let tokenizer = Tokenizer::new(source);
    let tokens = tokenizer.into_vec();
    let mut token_stream = TokenStream::new(&tokens);
    let block = block::Block::parse(source, &mut token_stream)?;
    assert_eq!(block.name(), None);
    assert_eq!(block.kind(), block::Kind::ROOT);
    assert_eq!(block.blocks().len(), 1);
    assert_eq!(block.blocks()[0].kind(), block::Kind::CODE);
    assert_eq!(block.blocks()[0].content().trim(), "abc;");
    Ok(())
}

// @{}
#[test]
fn test_block_parse_complex_code_block() -> Result<(), CompileError> {
    let source = r#"
        @{
           l1
           @{
                l2
                @{
                    l3
                }
           }
        }"#;
    let tokenizer = Tokenizer::new(source);
    let tokens = tokenizer.into_vec();
    let mut token_stream = TokenStream::new(&tokens);
    let block = block::Block::parse(source, &mut token_stream)?;

    // root.
    assert_eq!(block.name(), None);
    assert_eq!(block.kind(), block::Kind::ROOT);
    assert_eq!(block.blocks().len(), 1);

    // l1,
    let block = &block.blocks()[0];
    assert_eq!(block.kind(), block::Kind::CODE);
    assert_eq!(block.blocks().len(), 3);

    // l1-sub-post(linefeed)
    // inside
    let blocks = block.blocks();
    assert_eq!(block.blocks().len(), 3);
    assert_eq!(blocks[0].kind(), block::Kind::CODE);
    assert_eq!(blocks[1].kind(), block::Kind::CONTENT);
    assert_eq!(blocks[2].kind(), block::Kind::CODE);

    // l2
    let block = &blocks[1];
    assert_eq!(block.kind(), block::Kind::CONTENT);
    assert_eq!(block.blocks().len(), 3);
    assert_eq!(block.blocks()[0].kind(), block::Kind::CONTENT);
    assert_eq!(block.blocks()[1].kind(), block::Kind::CODE);
    assert_eq!(block.blocks()[2].kind(), block::Kind::CONTENT);
    Ok(())
}

#[test]
fn test_block_parse_complex_content_block() -> Result<(), CompileError> {
    let source = r#"
         root
        @{
           parent
           @{
                child1
                @{
                    child2
                }
           }
        }"#;
    let tokenizer = Tokenizer::new(source);
    let tokens = tokenizer.into_vec();
    let mut token_stream = TokenStream::new(&tokens);
    let block = block::Block::parse(source, &mut token_stream)?;

    // root.
    assert_eq!(block.name(), None);
    assert_eq!(block.kind(), block::Kind::ROOT);
    assert_eq!(block.blocks().len(), 2);

    // pre, child, post: \n
    let blocks = block.blocks();
    assert!(matches!(blocks[0].kind(), block::Kind::CONTENT));
    assert!(matches!(blocks[1].kind(), block::Kind::CODE));
    Ok(())
}

// escape should share the same code logic as they all need escape.
// escape from content
#[test]
fn test_block_parse_escape_from_content() -> Result<(), CompileError> {
    let source = r#"@@root"#;
    let tokenizer = Tokenizer::new(source);
    let tokens = tokenizer.into_vec();
    let mut token_stream = TokenStream::new(&tokens);
    let block = block::Block::parse(source, &mut token_stream)?;
    println!("{:#?}", block);

    // root.
    assert_eq!(block.name(), None);
    assert_eq!(block.kind(), block::Kind::ROOT);
    assert_eq!(block.blocks().len(), 1);

    //@@exp inside content, @@ => @, "@exp..." as content.
    Ok(())
}

// escape from code
#[test]
fn test_block_parse_escape_from_code() -> Result<(), CompileError> {
    let source = r#"@{@@root}"#;
    let tokenizer = Tokenizer::new(source);
    let tokens = tokenizer.into_vec();
    let mut token_stream = TokenStream::new(&tokens);
    let block = block::Block::parse(source, &mut token_stream)?;
    println!("{:#?}", block);

    // root.
    assert_eq!(block.name(), None);
    assert_eq!(block.kind(), block::Kind::ROOT);
    assert_eq!(block.blocks().len(), 1);

    //@@exp inside code, @@ => @, "@exp..." as code, @ is pattern binding in rust so need to escape.
    Ok(())
}

#[test]
#[should_panic]
fn test_template_from_empty() {
    template::Template::from("", None).unwrap();
}

#[test]
fn test_template_from_content() -> Result<(), CompileError> {
    let content = "Hello, world!";
    let template = template::Template::from(&content, None)?;
    let block = template.block();
    assert_eq!(block.name(), None);
    assert_eq!(block.kind(), block::Kind::ROOT);
    assert!(block.has_blocks());
    assert_eq!(block.blocks().len(), 1);

    let content_block = &block.blocks()[0];
    assert_eq!(content_block.name(), None);
    assert_eq!(content_block.kind(), block::Kind::CONTENT);
    assert_eq!(content_block.content(), content);
    assert_eq!(content_block.has_blocks(), false);
    Ok(())
}

#[test]
fn test_template_from_code() -> Result<(), CompileError> {
    let code = "let x = 10;";
    let content = &format!("@{{{}}}", code);
    let template = template::Template::from(&content, None)?;
    let block = template.block();
    assert_eq!(block.name(), None);
    assert_eq!(block.kind(), block::Kind::ROOT);
    assert!(block.has_blocks());
    assert_eq!(block.blocks().len(), 1);

    let content_block = &block.blocks()[0];
    assert_eq!(content_block.name(), None);
    assert_eq!(content_block.kind(), block::Kind::CODE);
    assert_eq!(content_block.content(), code);
    assert_eq!(content_block.has_blocks(), false);
    Ok(())
}

#[test]
fn test_template_from_inline_code_in_content() -> Result<(), CompileError> {
    let pre_content = "Hello!";
    let code = "name";
    let post_content = "!";

    let content = &format!("{}@{}{}", pre_content, code, post_content);
    let template = template::Template::from(&content, None)?;
    let block = template.block();
    assert_eq!(block.name(), None);
    assert_eq!(block.kind(), block::Kind::ROOT);
    assert!(block.has_blocks());
    assert_eq!(block.blocks().len(), 3);

    let blocks = block.blocks();
    assert_eq!(blocks[0].kind(), template::block::Kind::CONTENT);
    assert_eq!(blocks[0].content(), pre_content);
    assert_eq!(blocks[1].kind(), template::block::Kind::INLINEDCODE);
    assert_eq!(blocks[1].content(), code);
    assert_eq!(blocks[2].kind(), template::block::Kind::CONTENT);
    assert_eq!(blocks[2].content(), post_content);
    Ok(())
}

#[test]
fn test_template_from_inlined_code_in_content2() -> Result<(), CompileError> {
    let pre_content = "Hello!";
    let code = "name";
    let post_content = "!";

    let content = &format!("{}@({}){}", pre_content, code, post_content);
    let template = template::Template::from(&content, None)?;
    let block = template.block();
    assert_eq!(block.name(), None);
    assert_eq!(block.kind(), block::Kind::ROOT);
    assert!(block.has_blocks());
    assert_eq!(block.blocks().len(), 3);

    let blocks = block.blocks();
    assert_eq!(blocks[0].kind(), template::block::Kind::CONTENT);
    assert_eq!(blocks[0].content(), pre_content);
    assert_eq!(blocks[1].kind(), template::block::Kind::INLINEDCODE);
    assert_eq!(blocks[1].content(), code);
    assert_eq!(blocks[2].kind(), template::block::Kind::CONTENT);
    assert_eq!(blocks[2].content(), post_content);
    Ok(())
}

#[test]
fn test_template_from_code_block_in_content() -> Result<(), CompileError> {
    let pre_content = "Hello!";
    let code = "name";
    let post_content = "!";

    let content = &format!("{}@{{{}}}{}", pre_content, code, post_content);
    let template = template::Template::from(&content, None)?;
    let block = template.block();
    assert_eq!(block.name(), None);
    assert_eq!(block.kind(), block::Kind::ROOT);
    assert!(block.has_blocks());
    assert_eq!(block.blocks().len(), 3);

    let blocks = block.blocks();
    assert_eq!(blocks[0].kind(), template::block::Kind::CONTENT);
    assert_eq!(blocks[0].content(), pre_content);
    assert_eq!(blocks[1].kind(), template::block::Kind::CODE);
    assert_eq!(blocks[1].content(), code);
    assert_eq!(blocks[2].kind(), template::block::Kind::CONTENT);
    assert_eq!(blocks[2].content(), post_content);
    Ok(())
}

#[test]
fn test_template_from_inlined_content_in_code() -> Result<(), CompileError> {
    let pre_code = "let name = '';";
    let content = "test";
    let post_code = "\nprintln!(\"Hello, {}!\", name);";

    let raw_content = &format!("@{{{}@{}{}}}", pre_code, content, post_code);
    let template = template::Template::from(&raw_content, None)?;
    let block = template.block();
    assert_eq!(block.name(), None);
    assert_eq!(block.kind(), block::Kind::ROOT);
    assert!(block.has_blocks());
    assert_eq!(block.blocks().len(), 1);

    let code_block = &block.blocks()[0];
    assert_eq!(code_block.name(), None);
    assert_eq!(code_block.kind(), template::block::Kind::CODE);
    assert!(code_block.has_blocks());
    assert_eq!(code_block.blocks().len(), 3);

    let blocks = code_block.blocks();
    assert_eq!(blocks[0].kind(), template::block::Kind::CODE);
    assert_eq!(blocks[0].content(), pre_code);
    assert_eq!(blocks[1].kind(), template::block::Kind::INLINEDCONTENT);
    assert_eq!(blocks[1].content(), content);
    assert_eq!(blocks[2].kind(), template::block::Kind::CODE);
    assert_eq!(blocks[2].content(), post_code);
    Ok(())
}

#[test]
fn test_template_from_inlined_content_in_code2() -> Result<(), CompileError> {
    let pre_code = "let name = '';";
    let content = "test";
    let post_code = " println!(\"Hello, {}!\", name);";

    let raw_content = &format!("@{{{}@{}{}}}", pre_code, content, post_code);
    let template = template::Template::from(&raw_content, None)?;
    let block = template.block();
    assert_eq!(block.name(), None);
    assert_eq!(block.kind(), block::Kind::ROOT);
    assert!(block.has_blocks());
    assert_eq!(block.blocks().len(), 1);

    let code_block = &block.blocks()[0];
    assert_eq!(code_block.name(), None);
    assert_eq!(code_block.kind(), template::block::Kind::CODE);
    assert!(code_block.has_blocks());
    assert_eq!(code_block.blocks().len(), 3);

    let blocks = code_block.blocks();
    assert_eq!(blocks[0].kind(), template::block::Kind::CODE);
    assert_eq!(blocks[0].content(), pre_code);
    assert_eq!(blocks[1].kind(), template::block::Kind::INLINEDCONTENT);
    assert_eq!(blocks[1].content(), content);
    assert_eq!(blocks[2].kind(), template::block::Kind::CODE);
    assert_eq!(blocks[2].content(), post_code);
    Ok(())
}

#[test]
fn test_template_from_content_block_in_code() -> Result<(), CompileError> {
    let pre_code = "let name = '';";
    let content = "test";
    let post_code = "println!(\"Hello, {}!\", name);";

    let raw_content = &format!("@{{{}@{{{}}}{}}}", pre_code, content, post_code);
    let template = template::Template::from(&raw_content, None)?;
    let block = template.block();
    assert_eq!(block.name(), None);
    assert_eq!(block.kind(), block::Kind::ROOT);
    assert!(block.has_blocks());
    assert_eq!(block.blocks().len(), 1);

    let code_block = &block.blocks()[0];
    assert_eq!(code_block.name(), None);
    assert_eq!(code_block.kind(), template::block::Kind::CODE);
    assert!(code_block.has_blocks());
    assert_eq!(code_block.blocks().len(), 3);

    let blocks = code_block.blocks();
    assert_eq!(blocks[0].kind(), template::block::Kind::CODE);
    assert_eq!(blocks[0].content(), pre_code);
    assert_eq!(blocks[1].kind(), template::block::Kind::CONTENT);
    assert_eq!(blocks[1].content(), content);
    assert_eq!(blocks[2].kind(), template::block::Kind::CODE);
    assert_eq!(blocks[2].content(), post_code);
    Ok(())
}

#[test]
fn test_template_from_lined_content_in_code() -> Result<(), CompileError> {
    let pre_code = "let name = '';";
    let content = "test";
    let post_code = "println!(\"Hello, {}!\", name);";

    let raw_content = &format!("@{{{}@({}){}}}", pre_code, content, post_code);
    let template = template::Template::from(&raw_content, None)?;
    let block = template.block();
    assert_eq!(block.name(), None);
    assert_eq!(block.kind(), block::Kind::ROOT);
    assert!(block.has_blocks());
    assert_eq!(block.blocks().len(), 1);

    let code_block = &block.blocks()[0];
    assert_eq!(code_block.name(), None);
    assert_eq!(code_block.kind(), template::block::Kind::CODE);
    assert!(code_block.has_blocks());
    assert_eq!(code_block.blocks().len(), 3);

    let blocks = code_block.blocks();
    assert_eq!(blocks[0].kind(), template::block::Kind::CODE);
    assert_eq!(blocks[0].content(), pre_code);
    assert_eq!(blocks[1].kind(), template::block::Kind::INLINEDCONTENT);
    assert_eq!(blocks[1].content(), content);
    assert_eq!(blocks[2].kind(), template::block::Kind::CODE);
    assert_eq!(blocks[2].content(), post_code);
    Ok(())
}

#[test]
fn test_template_from_doc() -> Result<(), CompileError> {
    let raw_content = r#"
@layout test::test;
@{
    let msg = "Hello";
    let name = "Test";
    let age = 30;
}
<html>
    <head>
        <title>test</title>
    </head>
    <body>
        <div>@msg - from @name(@age)</div>
    </body>
</html>    
    "#;
    let template = template::Template::from(&raw_content, None)?;
    let block = template.block();

    // root
    assert_eq!(block.name(), None);
    assert_eq!(block.kind(), block::Kind::ROOT);
    assert!(block.has_blocks());
    assert_eq!(block.blocks().len(), 9);

    // 1st block - layout directive.
    assert_eq!(block.blocks()[0].kind(), template::block::Kind::DIRECTIVE);
    assert_eq!(block.blocks()[0].content(), "test::test");
    assert_eq!(
        block.blocks()[0].name(),
        Some(&consts::DIRECTIVE_KEYWORD_LAYOUT.to_string())
    );

    // 2nd block - code block.
    assert_eq!(block.blocks()[1].kind(), template::block::Kind::CODE);

    // 3rd block - content block
    assert_eq!(block.blocks()[2].kind(), template::block::Kind::CONTENT);

    // 4th block - content block with inlined code and inlined content.
    assert_eq!(block.blocks()[3].kind(), template::block::Kind::INLINEDCODE);
    assert_eq!(block.blocks()[3].content(), "msg");

    // 5th block - content block
    assert_eq!(block.blocks()[4].kind(), template::block::Kind::CONTENT);

    // 6th block - content block with inlined code and inlined content.
    assert_eq!(block.blocks()[5].kind(), template::block::Kind::INLINEDCODE);
    assert_eq!(block.blocks()[5].content(), "name");

    // 7th block - content block
    assert_eq!(block.blocks()[6].kind(), template::block::Kind::CONTENT);

    // 8th block - content block with inlined code and inlined content.
    assert_eq!(block.blocks()[7].kind(), template::block::Kind::INLINEDCODE);
    assert_eq!(block.blocks()[7].content(), "age");

    // 9th block - content block
    assert_eq!(block.blocks()[8].kind(), template::block::Kind::CONTENT);
    Ok(())
}

#[test]
fn test_template_from_doc_with_multiple_layouts() -> Result<(), CompileError> {
    let raw_content = r#"
@layout test::test1;
<html>
   <div>Test</div>
   @layout test::test2;
</html>
@layout test::test3;"#;
    let template = template::Template::from(&raw_content, None)?;
    let block = template.block();

    // root
    assert_eq!(block.name(), None);
    assert_eq!(block.kind(), block::Kind::ROOT);
    assert!(block.has_blocks());
    assert_eq!(block.blocks().len(), 5);

    // 1st block - layout directive.
    assert_eq!(block.blocks()[0].kind(), template::block::Kind::DIRECTIVE);
    assert_eq!(
        block.blocks()[0].name(),
        Some(&consts::DIRECTIVE_KEYWORD_LAYOUT.to_string())
    );
    assert_eq!(block.blocks()[0].content(), "test::test1");

    // 2nd block - content block
    assert_eq!(block.blocks()[2].kind(), template::block::Kind::DIRECTIVE);
    assert_eq!(
        block.blocks()[2].name(),
        Some(&consts::DIRECTIVE_KEYWORD_LAYOUT.to_string())
    );
    assert_eq!(block.blocks()[2].content(), "test::test2");

    // 3rd block - layout directive.
    assert_eq!(block.blocks()[4].kind(), template::block::Kind::DIRECTIVE);
    assert_eq!(
        block.blocks()[4].name(),
        Some(&consts::DIRECTIVE_KEYWORD_LAYOUT.to_string())
    );
    assert_eq!(block.blocks()[4].content(), "test::test3");
    Ok(())
}

#[test]
fn test_template_from_doc_with_multiple_imports() -> Result<(), CompileError> {
    let raw_content = r#"
@use test::test1;
@use test::test2;
<html>
   <div>Test</div>
   @use test::test3;
</html>
@use test::test4;"#;
    let template = template::Template::from(&raw_content, None)?;
    let block = template.block();
    println!("Block: {:#?}", block);

    // root
    assert_eq!(block.name(), None);
    assert_eq!(block.kind(), block::Kind::ROOT);
    assert!(block.has_blocks());
    assert_eq!(block.blocks().len(), 6);

    // 1st block - layout directive.
    assert_eq!(block.blocks()[0].kind(), template::block::Kind::DIRECTIVE);
    assert_eq!(
        block.blocks()[0].name(),
        Some(&consts::DIRECTIVE_KEYWORD_USE.to_string())
    );
    assert_eq!(block.blocks()[0].content(), "test::test1");

    // 2nd block - layout directive.
    assert_eq!(block.blocks()[1].kind(), template::block::Kind::DIRECTIVE);
    assert_eq!(
        block.blocks()[1].name(),
        Some(&consts::DIRECTIVE_KEYWORD_USE.to_string())
    );
    assert_eq!(block.blocks()[1].content(), "test::test2");

    // 4rd block - content block
    assert_eq!(block.blocks()[3].kind(), template::block::Kind::DIRECTIVE);
    assert_eq!(
        block.blocks()[3].name(),
        Some(&consts::DIRECTIVE_KEYWORD_USE.to_string())
    );
    assert_eq!(block.blocks()[3].content(), "test::test3");

    // 6th block - layout directive.
    assert_eq!(block.blocks()[5].kind(), template::block::Kind::DIRECTIVE);
    assert_eq!(
        block.blocks()[5].name(),
        Some(&consts::DIRECTIVE_KEYWORD_USE.to_string())
    );
    assert_eq!(block.blocks()[5].content(), "test::test4");
    Ok(())
}

#[test]
fn test_template_from_doc_with_section() -> Result<(), CompileError> {
    let raw_content = r#"
@section test1 {
   this is test1
}
<html>
   <div>Test</div>
</html>"#;
    let template = template::Template::from(&raw_content, None)?;
    let block = template.block();

    // root
    assert_eq!(block.name(), None);
    assert_eq!(block.kind(), block::Kind::ROOT);
    assert!(block.has_blocks());
    assert_eq!(block.blocks().len(), 2);

    // 1st block - section block.
    assert_eq!(block.blocks()[0].kind(), template::block::Kind::SECTION);
    assert_eq!(block.blocks()[0].name(), Some(&"test1".to_string()));
    assert_eq!(
        block.blocks()[0].content().trim(),
        "this is test1" /* without leading/trailing new lines */
    );

    // 2nd block - content block
    assert_eq!(block.blocks()[1].kind(), template::block::Kind::CONTENT);
    Ok(())
}

#[test]
fn test_template_from_doc_with_multiple_sections() -> Result<(), CompileError> {
    let raw_content = r#"
@section test1 {
   this is test1
}
@section test2 {
   this is test2
}
<html>
   <div>Test</div>
@section test3 {
   this is test3
}
</html>
@section test4 {
   this is test4
}
"#;
    let template = template::Template::from(&raw_content, None)?;
    let block = template.block();

    // root
    assert_eq!(block.name(), None);
    assert_eq!(block.kind(), block::Kind::ROOT);
    assert!(block.has_blocks());
    assert_eq!(block.blocks().len(), 6);

    Ok(())
}

#[test]
#[should_panic]
fn test_template_from_doc_with_nested_sections() {
    let raw_content = r#"
@section test1 {
   this is test1
   @section test2 {
      this is test2
    }
}
<html>
   <div>Test</div>
@section test3 {
   this is test3
   @section test4 {
      this is test4
   }
}
</html>
"#;
    let template = template::Template::from(&raw_content, None).unwrap();
    let block = template.block();
    // root
    assert_eq!(block.name(), None);
    assert_eq!(block.kind(), block::Kind::ROOT);
    assert!(block.has_blocks());
    assert_eq!(block.blocks().len(), 4);
}

#[test]
#[should_panic]
fn template_from_empty() {
    template::Template::from("", None).unwrap();
}

// comments.
#[test]
fn test_block_parse_comment() -> Result<(), CompileError> {
    let source = r#"@****test****@"#;
    let tokenizer = Tokenizer::new(source);
    let tokens = tokenizer.into_vec();
    let mut token_stream = TokenStream::new(&tokens);
    let token = token_stream.next_token().unwrap();
    let block = block::Block::parse_comment(source, token, &mut token_stream)?;

    // root.
    assert_eq!(block.name(), None);
    assert_eq!(block.kind(), block::Kind::COMMENT);
    assert_eq!(block.content(), source);
    Ok(())
}

#[test]
#[should_panic]
fn test_block_parse_comment_without_closing() {
    let source = r#"@****test****"#;
    let tokenizer = Tokenizer::new(source);
    let tokens = tokenizer.into_vec();
    let mut token_stream = TokenStream::new(&tokens);
    let token = token_stream.next_token().unwrap();
    block::Block::parse_comment(source, token, &mut token_stream).unwrap();
}

fn directive_rejected(directive: &str, kind: block::Kind) {
    let contents = [
        directive.to_string(),
        format!("{} ", directive),
        format!("{};", directive),
        format!("{}\n", directive),
        format!("{} ;", directive),
        format!("{} \n", directive),
        format!("{} ;\n", directive),
    ];
    for content in contents {
        let statement = &format!("@{}", content);
        let tokens = Tokenizer::new(statement).into_vec();
        let mut token_stream = TokenStream::new(&tokens);
        let result = Block::parse_at_block(statement, &mut token_stream, &mut ParseContext::new(kind));
        assert!(result.is_err());
    }
}

fn directive_accepted(statement: &str, directive: &str, kind: block::Kind) {
    let contents = [
        format!("{} {}", directive, statement),
        format!("{} {};", directive, statement),
        format!("{} {};\n", directive, statement),
        format!("{} {}\n", directive, statement),
        format!("{} {} ;", directive, statement),
        format!("{} {} ;\n", directive, statement),
    ];
    for content in contents {
        let statement_src = &format!("@{}", content);
        let tokens = Tokenizer::new(statement_src).into_vec();
        let mut token_stream = TokenStream::new(&tokens);
        let block = Block::parse_at_block(statement_src, &mut token_stream, &mut ParseContext::new(kind))
            .unwrap();
        assert_eq!(block.name(), Some(&directive.to_string()));
        assert_eq!(block.kind(), kind);
        assert_eq!(block.content().trim(), statement);
    }
}

#[test]
fn test_parse_directive_layout_illegal() {
    directive_rejected(consts::DIRECTIVE_KEYWORD_LAYOUT, block::Kind::DIRECTIVE);
}

#[test]
fn test_parse_directive_layout() {
    directive_accepted("abc:test", consts::DIRECTIVE_KEYWORD_LAYOUT, block::Kind::DIRECTIVE);
}

#[test]
fn test_parse_directive_use_illegal() {
    directive_rejected(consts::DIRECTIVE_KEYWORD_USE, block::Kind::DIRECTIVE);
}

#[test]
fn test_parse_directive_use() {
    directive_accepted("abc:test", consts::DIRECTIVE_KEYWORD_USE, block::Kind::DIRECTIVE);
}

#[test]
fn test_parse_section() {
    let content = &format!("@{} {}{{{}}}", consts::KEYWORD_SECTION, "test", "<div>test</div>");
    let tokens = Tokenizer::new(content).into_vec();
    let mut token_stream = TokenStream::new(&tokens);
    let start_token = *token_stream.peek_token().unwrap();
    // consume @
    token_stream.next_token();
    let block = Block::parse_section(content, &start_token, &mut token_stream).unwrap();
    assert_eq!(block.name(), Some(&"test".to_string()));
    assert_eq!(block.content(), "<div>test</div>");
}

#[test]
fn test_parse_section_no_name() {
    let content = "@section {<div>test</div>}";
    let tokens = Tokenizer::new(content).into_vec();
    let mut token_stream = TokenStream::new(&tokens);
    let start_token = *token_stream.peek_token().unwrap();
    assert!(Block::parse_section(content, &start_token, &mut token_stream).is_err());
}

#[test]
fn test_parse_section_no_brace() {
    let content = "@section test <div>test</div>";
    let tokens = Tokenizer::new(content).into_vec();
    let mut token_stream = TokenStream::new(&tokens);
    let start_token = *token_stream.peek_token().unwrap();
    assert!(Block::parse_section(content, &start_token, &mut token_stream).is_err());
}

#[test]
fn directive_without_content_stops_at_the_end() {
    let statement = "@use ";
    let tokens = Tokenizer::new(statement).into_vec();
    let mut token_stream = TokenStream::new(&tokens);
    let err = Block::parse_at_block(statement, &mut token_stream, &mut ParseContext::new(block::Kind::ROOT))
        .unwrap_err();
    assert_eq!(err.kind, disguise::error::ErrorKind::ExpectedDirectiveContent);
    assert_eq!(err.token, Some(tokens[1]));
    // the stream stays at the end-of-input token.
    assert_eq!(token_stream.offset, tokens.len() - 1);
}
