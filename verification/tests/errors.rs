use kumojs::{CompileError, Construct, ExpressionKind, LiteralKind, PatternKind, StatementKind};

#[test]
fn messages_say_what_went_wrong() {
    assert_eq!(
        CompileError::LoadFileError(String::from("no such file")).message(),
        "failed to load file: no such file"
    );
    assert_eq!(
        CompileError::ParseError(String::from("failed to parse module")).message(),
        "parse error: failed to parse module"
    );
    assert_eq!(
        CompileError::TooManyLocals.message(),
        "too many locals, max number of locals supported is 256"
    );
}

#[test]
fn an_unsupported_construct_is_named_by_its_category() {
    let cases = [
        (Construct::Literal(LiteralKind::BigInt), "literal"),
        (Construct::Pattern(PatternKind::Array), "pattern"),
        (Construct::Expression(ExpressionKind::Call), "expression"),
        (Construct::Statement(StatementKind::If), "statement"),
    ];
    for (construct, category) in cases {
        assert_eq!(construct.describe(), category);
        assert_eq!(
            CompileError::UnsupportedConstruct(construct).message(),
            format!("unsupported construct: {}", category)
        );
    }
}

#[test]
fn errors_of_different_kinds_differ() {
    let pattern = CompileError::UnsupportedConstruct(Construct::Pattern(PatternKind::Array));
    let expression = CompileError::UnsupportedConstruct(Construct::Expression(ExpressionKind::Array));
    assert_ne!(pattern, expression);
    assert_ne!(pattern, CompileError::TooManyLocals);
    assert_ne!(
        CompileError::LoadFileError(String::from("x")),
        CompileError::ParseError(String::from("x"))
    );
}
