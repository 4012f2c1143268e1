use disguise::optimizer::html::{HtmlOptimizer, HtmlParseContext};
use disguise::optimizer::{create_optimizer, Optimizer};
use disguise::options::{CompilerOptions, TemplateKind};
use disguise::tokenizer::token::{Kind, Token};
use disguise::tokenizer::tokenizer::Tokenizer;

fn tokens_to_string<'s>(source: &'s str, tokens: &[Token]) -> String {
    let mut content = String::new();
    for token in tokens {
        content.push_str(&source[token.range()]);
    }
    content
}

#[test]
fn default_accept_with_no_optimization() {
    let source = r#"<html>\n  </html>"#;
    let tokenizer = Tokenizer::new(source);
    let tokens = tokenizer.into_vec();
    let options = CompilerOptions::default();
    let mut optimizer = create_optimizer(TemplateKind::KHTML, &options);
    for token in tokens {
        match token.kind() {
            Kind::EOF => assert!(!optimizer.accept(source, &token)),
            _ => assert!(optimizer.accept(source, &token)),
        }
    }
}

#[test]
fn html_accept_with_no_optimization() {
    let source = r#"<html>\n  </html>"#;
    let tokenizer = Tokenizer::new(source);
    let tokens = tokenizer.into_vec();
    let options = CompilerOptions::default();
    let mut optimizer = HtmlOptimizer::new(&options);
    for token in tokens {
        match token.kind() {
            Kind::EOF => assert!(!optimizer.accept(source, &token)),
            _ => assert!(optimizer.accept(source, &token)),
        }
    }
}

#[test]
fn accept_with_optimization_ignore_line_feed() {
    let source = "<html>\n\r\r\n";
    let tokenizer = Tokenizer::new(source);
    let tokens = tokenizer.into_vec();
    let options = CompilerOptions::default().with_optimization(true);
    let mut optimizer = HtmlOptimizer::new(&options);
    let tokens = tokens
        .into_iter()
        .filter(|t| optimizer.accept(source, t))
        .collect::<Vec<Token>>();

    let content = tokens_to_string(source, &tokens);
    let expected = "<html>";
    assert_eq!(content, expected);
}

#[test]
fn accept_with_optimization_ignore_spaces_and_lf() {
    let source = r#"
        < div class = "c1 c2" >  
            test
        < /div >
    "#;
    let tokenizer = Tokenizer::new(source);
    let tokens = tokenizer.into_vec();
    let options = CompilerOptions::default().with_optimization(true);
    let mut optimizer = HtmlOptimizer::new(&options);
    let tokens = tokens
        .into_iter()
        .filter(|t| optimizer.accept(source, t))
        .collect::<Vec<Token>>();

    let content = tokens_to_string(source, &tokens);
    let expected = r#"<div class="c1 c2">test</div>"#;
    assert_eq!(content, expected);
}

#[test]
fn accept_with_optimization_ignore_close_tag_3() {
    let source = r#"
        <div class="c1 c2">
        </div>
    "#;
    let tokenizer = Tokenizer::new(source);
    let tokens = tokenizer.into_vec();
    let options = CompilerOptions::default().with_optimization(true);
    let mut optimizer = HtmlOptimizer::new(&options);
    let mut accepted_tokens = vec![];
    for token in &tokens {
        if optimizer.accept(source, token) {
            accepted_tokens.push(*token);
        }
    }

    let content = tokens_to_string(source, &accepted_tokens);
    assert_eq!(content, r#"<div class="c1 c2"></div>"#)
}

#[test]
fn text_optimizer_drops_only_the_end() {
    let source = "a \n b";
    let tokens = Tokenizer::new(source).into_vec();
    let options = CompilerOptions::default().with_optimization(true);
    let mut optimizer = create_optimizer(TemplateKind::KTEXT, &options);
    let kept: Vec<bool> = tokens.iter().map(|t| optimizer.accept(source, t)).collect();
    assert_eq!(kept, vec![true, true, true, true, true, false]);
}

#[test]
fn whitespace_within_tags() {
    let options = CompilerOptions::default().with_optimization(true);
    let keep = |source: &str| {
        let tokens = Tokenizer::new(source).into_vec();
        let mut optimizer = HtmlOptimizer::new(&options);
        let kept: Vec<Token> = tokens.into_iter().filter(|t| optimizer.accept(source, t)).collect();
        tokens_to_string(source, &kept)
    };
    assert_eq!(keep("<div a = 'x  y' >  z </div>"), "<div a='x  y'>z</div>");
    assert_eq!(keep("<PRE a = b>"), "<PRE a = b>");
}

#[test]
fn unpaired_tags_close_their_context() {
    let source = "<BR>";
    let tokens = Tokenizer::new(source).into_vec();
    let options = CompilerOptions::default().with_optimization(true);
    let mut optimizer = HtmlOptimizer::new(&options);
    for t in &tokens {
        optimizer.accept(source, t);
    }
    assert!(optimizer.contexts.is_empty());
    let source = "<div>";
    let tokens = Tokenizer::new(source).into_vec();
    let mut optimizer = HtmlOptimizer::new(&options);
    for t in &tokens {
        optimizer.accept(source, t);
    }
    assert_eq!(optimizer.contexts.len(), 1);
    let c: HtmlParseContext = optimizer.contexts[0];
    assert!(c.is_closed && c.is_start_tag && !c.is_close_tag);
}

#[test]
fn parse_context_setters() {
    let tokens = Tokenizer::new("<a>").into_vec();
    let mut c = HtmlParseContext::default();
    c.set_pre(tokens[0]);
    c.set_tag(tokens[1]);
    c.start();
    c.set_close_tag();
    c.close();
    assert_eq!(c.pre, Some(tokens[0]));
    assert_eq!(c.tag, Some(tokens[1]));
    assert!(c.is_start_tag && c.is_close_tag && c.is_closed);
    assert!(!c.is_self_close_tag && !c.is_quoted);
}
