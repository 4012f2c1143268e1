use disguise::error::{CompileError, ErrorKind};
use disguise::json::object::JObject;
use disguise::json::parse_json;
use disguise::tokenizer::token::Kind;

#[test]
fn parse_empty_string() -> Result<(), CompileError> {
    let source = "";
    let object = parse_json(source)?;
    println!("{object:#?}");
    Ok(())
}

#[test]
fn json_start_gives_an_open_empty_object() {
    let object = parse_json(" {\n\"").unwrap();
    match object {
        JObject::KMap(m) => {
            assert!(!m.is_closed);
            assert_eq!(format!("{:?}", m.items), "JsonMembers { members: {} }");
        }
        _ => panic!("expected an object"),
    }
}

#[test]
fn json_rejects_an_illegal_start() {
    let err = parse_json("  abc").unwrap_err();
    assert_eq!(err.kind, ErrorKind::IllegalChar);
    let token = err.token.unwrap();
    assert_eq!(token.kind, Kind::EXPRESSION);
    assert_eq!((token.start, token.end), (2, 5));
}

#[test]
fn json_reports_the_first_illegal_token() {
    let err = parse_json("{ ( x").unwrap_err();
    let token = err.token.unwrap();
    assert_eq!(token.kind, Kind::OPARENTHESIS);
    assert_eq!((token.start, token.end), (2, 3));
}
