use disguise::doc::context::{Kind as DocKind, ParseContext as DocParseContext};
use disguise::error::{CompileError, ErrorKind};
use disguise::template::block::Kind as BlockKind;
use disguise::template::context::ParseContext;
use disguise::template::util;
use disguise::template::utils::{get_context_at, Context};
use disguise::tokenizer::stream::TokenStream;
use disguise::tokenizer::token::{self as tokenizer, Token};
use disguise::tokenizer::tokenizer::Tokenizer;

#[test]
fn get_token_before_transfer_end_with_eof() -> Result<(), CompileError> {
    let source = "test";
    let tokenizer = Tokenizer::new(source);
    let tokens = tokenizer.into_vec();
    let mut token_stream = TokenStream::new(&tokens);

    let result = util::get_token_before_transfer(
        source,
        &mut token_stream,
        &ParseContext::new(BlockKind::CONTENT),
        |k| !vec![tokenizer::Kind::WHITESPACE, tokenizer::Kind::NEWLINE].contains(&k),
    );

    assert!(result.is_some());
    let token = result.unwrap();
    assert_eq!(token.kind(), tokenizer::Kind::EOF);
    Ok(())
}

#[test]
fn get_token_before_transfer_end_with_whitespace() -> Result<(), CompileError> {
    let source = "test ";
    let tokenizer = Tokenizer::new(source);
    let tokens = tokenizer.into_vec();
    let mut token_stream = TokenStream::new(&tokens);

    let result = util::get_token_before_transfer(
        source,
        &mut token_stream,
        &ParseContext::new(BlockKind::CONTENT),
        |k| !vec![tokenizer::Kind::WHITESPACE].contains(&k),
    );

    assert!(result.is_some());
    let token = result.unwrap();
    assert_eq!(token.kind(), tokenizer::Kind::WHITESPACE);
    Ok(())
}

#[test]
fn get_token_before_transfer_end_with_ln() -> Result<(), CompileError> {
    let source = "test\n";
    let tokenizer = Tokenizer::new(source);
    let tokens = tokenizer.into_vec();
    let mut token_stream = TokenStream::new(&tokens);

    let result = util::get_token_before_transfer(
        source,
        &mut token_stream,
        &ParseContext::new(BlockKind::CONTENT),
        |k| !vec![tokenizer::Kind::NEWLINE].contains(&k),
    );

    assert!(result.is_some());
    let token = result.unwrap();
    assert_eq!(token.kind(), tokenizer::Kind::NEWLINE);
    Ok(())
}

#[test]
fn get_token_before_transfer_end_with_transfer() -> Result<(), CompileError> {
    let source = "test@123";
    let tokenizer = Tokenizer::new(source);
    let tokens = tokenizer.into_vec();
    let mut token_stream = TokenStream::new(&tokens);

    let result = util::get_token_before_transfer(
        source,
        &mut token_stream,
        &ParseContext::new(BlockKind::CONTENT),
        |k| !vec![tokenizer::Kind::NEWLINE, tokenizer::Kind::WHITESPACE].contains(&k),
    );

    assert!(result.is_some());
    let token = result.unwrap();
    assert_eq!(token.kind(), tokenizer::Kind::AT);
    Ok(())
}

#[test]
fn get_token_before_transfer_end_with_non_transfer() -> Result<(), CompileError> {
    let source = "test@@123";
    let tokenizer = Tokenizer::new(source);
    let tokens = tokenizer.into_vec();
    let mut token_stream = TokenStream::new(&tokens);

    let result = util::get_token_before_transfer(
        source,
        &mut token_stream,
        &ParseContext::new(BlockKind::CONTENT),
        |k| !vec![tokenizer::Kind::NEWLINE].contains(&k),
    );

    assert!(result.is_some());
    let token = result.unwrap();
    assert_eq!(token.kind(), tokenizer::Kind::EOF);
    Ok(())
}

fn context_after_at(source: &str, from: Context, consume_at: bool) -> Result<Context, CompileError> {
    let tokens: Vec<Token> = Tokenizer::new(source).into_vec();
    let mut stream = TokenStream::new(&tokens);
    let at = tokens[0];
    if consume_at {
        stream.next_token();
    }
    get_context_at(source, &at, &mut stream, from)
}

#[test]
fn context_at_switches_on_blocks_and_expressions() -> Result<(), CompileError> {
    assert_eq!(context_after_at("@name", Context::Content, false)?, Context::Code);
    assert_eq!(context_after_at("@name", Context::Code, true)?, Context::Content);
    assert_eq!(context_after_at("@(x)", Context::Code, false)?, Context::Content);
    assert_eq!(context_after_at("@{x}", Context::Content, true)?, Context::Code);
    Ok(())
}

#[test]
fn context_at_directives_and_sections() -> Result<(), CompileError> {
    assert_eq!(context_after_at("@use a", Context::Content, false)?, Context::Code);
    assert_eq!(context_after_at("@layout a", Context::Code, false)?, Context::Code);
    assert_eq!(context_after_at("@section a", Context::Content, false)?, Context::Content);
    assert_eq!(context_after_at("@@", Context::Content, false)?, Context::Content);
    assert_eq!(context_after_at("@", Context::Code, true)?, Context::Code);
    Ok(())
}

#[test]
fn context_at_needs_an_at() {
    let source = "x@";
    let tokens: Vec<Token> = Tokenizer::new(source).into_vec();
    let mut stream = TokenStream::new(&tokens);
    let err = get_context_at(source, &tokens[0], &mut stream, Context::Content).unwrap_err();
    assert_eq!(err.kind, ErrorKind::ExpectedAtToStartContext);
    assert_eq!(err.token, Some(tokens[0]));
}

fn doc_switch(source: &str, kind: DocKind) -> Result<(bool, DocKind), CompileError> {
    let tokens: Vec<Token> = Tokenizer::new(source).into_vec();
    let mut stream = TokenStream::new(&tokens);
    let context = DocParseContext::new(kind);
    let (switched, next) = context.switch_if_possible(source, &mut stream)?;
    Ok((switched, next.kind()))
}

#[test]
fn doc_context_switches() -> Result<(), CompileError> {
    assert_eq!(doc_switch("@use a", DocKind::KROOT)?, (true, DocKind::KUSE));
    assert_eq!(doc_switch("@layout a", DocKind::KROOT)?, (true, DocKind::KLAYOUT));
    assert_eq!(doc_switch("@section s", DocKind::KCONTENT)?, (true, DocKind::KSECTION));
    assert_eq!(doc_switch("@x", DocKind::KCODE)?, (true, DocKind::KINLINEDCONTENT));
    assert_eq!(doc_switch("@(x)", DocKind::KROOT)?, (true, DocKind::KINLINEDCODE));
    assert_eq!(doc_switch("@{x}", DocKind::KUSE)?, (true, DocKind::KCONTENT));
    assert_eq!(doc_switch("@*c*@", DocKind::KROOT)?, (true, DocKind::KCOMMENT));
    assert_eq!(doc_switch("@@", DocKind::KROOT)?, (false, DocKind::KROOT));
    assert_eq!(doc_switch("@;", DocKind::KCODE)?, (false, DocKind::KCODE));
    Ok(())
}

#[test]
fn doc_context_refuses_misplaced_directives() {
    assert_eq!(doc_switch("@layout a", DocKind::KCONTENT).unwrap_err().kind, ErrorKind::LayoutNotAllowed);
    assert_eq!(doc_switch("@use a", DocKind::KCODE).unwrap_err().kind, ErrorKind::UseNotAllowed);
    assert_eq!(doc_switch("@section s", DocKind::KSECTION).unwrap_err().kind, ErrorKind::SectionNotAllowed);
    assert_eq!(doc_switch("@*c*@", DocKind::KCODE).unwrap_err().kind, ErrorKind::CommentNotAllowed);
    assert_eq!(doc_switch("x", DocKind::KROOT).unwrap_err().kind, ErrorKind::ExpectingAt);
    let mut ctx = DocParseContext::new(DocKind::KRENDER);
    assert!(!ctx.is_block() && !ctx.is_content() && !ctx.is_code());
    let tokens: Vec<Token> = Tokenizer::new("a").into_vec();
    ctx.push(tokens[0]);
    assert_eq!(ctx.tokens.len(), 1);
}

#[test]
fn test_parse_context_to_block_empty() -> Result<(), CompileError> {
    let source = "";
    let tokenizer = Tokenizer::new(source);
    let tokens = tokenizer.into_vec();
    let mut context = ParseContext::new(BlockKind::CONTENT);
    for token in tokens {
        context.push(token);
    }
    let block = context.consume(source);
    assert!(block.is_none());

    let mut context = ParseContext::new(BlockKind::CONTENT);
    let block = context.consume(source);
    assert!(block.is_none());
    Ok(())
}

#[test]
fn test_parse_context_to_block_from_content() -> Result<(), CompileError> {
    let source = "test1 test2";
    let tokenizer = Tokenizer::new(source);
    let tokens = tokenizer.into_vec();
    let mut context = ParseContext::new(BlockKind::CONTENT);
    for token in tokens {
        context.push(token);
    }
    let result = context.consume(source);
    assert!(result.is_some());
    let block = result.unwrap();
    assert_eq!(block.content(), source);
    assert!(matches!(block.kind(), BlockKind::CONTENT));
    Ok(())
}

#[test]
fn test_parse_context_to_block_from_code() -> Result<(), CompileError> {
    let source = "test1 test2";
    let tokenizer = Tokenizer::new(source);
    let tokens = tokenizer.into_vec();
    let mut context = ParseContext::new(BlockKind::CODE);
    for token in tokens {
        context.push(token);
    }
    let result = context.consume(source);
    assert!(result.is_some());
    let block = result.unwrap();
    assert_eq!(block.content(), source);
    assert!(matches!(block.kind(), BlockKind::CODE));
    Ok(())
}
