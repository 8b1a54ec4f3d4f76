use matey::config::{ConfigTemplate, OutfileSpec};
use matey::common::RenamingScheme;
use matey::error::{Error, ParseErrorKind, TokenizingErrorKind};
use matey::parser::parse_config;
use matey::tokenizer::{ConfigToken, Tokenizer};

#[test]
fn test_template() {
    let templates = [
        "#out \"test.out\"\nforeach{{color}={name}}".to_string(),
        "#out outfile\nforeach{}norm{{image}}".to_string(),
    ];
    for template in templates {
        let config = parse_config("test.path", &template);
        println!("{:?}", config);
        assert!(config.is_ok());
    }
}

#[test]
fn mod_test_template() {
    let templates = [
        "#out \"test.out\"\nforeach{{color}={name}}".to_string(),
        "#out outfile\nforeach{}norm{{image}}".to_string(),
    ];
    for template in templates {
        let config = parse_config("test.path", &template);
        println!("{:?}", config);
        assert!(config.is_ok());
    }
}

#[test]
fn out_directive_and_foreach_structure() {
    let config = parse_config("test.path", "#out \"test.out\"\nforeach{{color}={name}}").unwrap();
    match &config.outfile {
        OutfileSpec::PlainPath(p) => assert_eq!(p, "test.out"),
        OutfileSpec::TemplatedPath(_) => panic!("expected a plain path"),
    }
    assert_eq!(config.templates.len(), 1);
    assert!(matches!(config.templates[0], ConfigTemplate::Foreach(_)));
}

#[test]
fn declarations_keep_their_order() {
    let config = parse_config("test.path", "#out outfile\nforeach{}norm{{image}}").unwrap();
    match &config.outfile {
        OutfileSpec::PlainPath(p) => assert_eq!(p, "outfile"),
        OutfileSpec::TemplatedPath(_) => panic!("expected a plain path"),
    }
    assert_eq!(config.templates.len(), 2);
    assert!(matches!(config.templates[0], ConfigTemplate::Foreach(_)));
    assert!(matches!(config.templates[1], ConfigTemplate::Norm(_)));
}

#[test]
fn missing_out_directive_is_rejected() {
    let r = parse_config("test.path", "foreach{x}");
    assert!(matches!(r, Err(Error::NoOutputFile)));
}

#[test]
fn unnamed_template_is_rejected() {
    let r = parse_config("test.path", "{x}");
    match r {
        Err(Error::Parse { path, kind, .. }) => {
            assert_eq!(path, "test.path");
            assert_eq!(kind, ParseErrorKind::UnnamedTemplate);
        }
        other => panic!("expected an unnamed-template error, got {:?}", other),
    }
}

#[test]
fn stray_literal_is_rejected() {
    let r = parse_config("test.path", "#out f\n\"stray\"");
    match r {
        Err(Error::Parse { kind, .. }) => assert_eq!(kind, ParseErrorKind::UnexpectedString),
        other => panic!("expected a stray-string error, got {:?}", other),
    }
}

#[test]
fn unknown_command_is_rejected() {
    let r = parse_config("test.path", "#frobnicate arg\n");
    match r {
        Err(Error::Parse { kind, .. }) => assert_eq!(kind, ParseErrorKind::UnknownCommand),
        other => panic!("expected an unknown-command error, got {:?}", other),
    }
}

#[test]
fn command_without_argument_is_rejected() {
    let r = parse_config("test.path", "#out\nforeach{}");
    match r {
        Err(Error::Parse { kind, .. }) => assert_eq!(kind, ParseErrorKind::ExpectedArgument),
        other => panic!("expected a missing-argument error, got {:?}", other),
    }
}

#[test]
fn directive_must_end_the_line() {
    let r = parse_config("test.path", "#out one two\n");
    match r {
        Err(Error::Parse { kind, .. }) => {
            assert_eq!(kind, ParseErrorKind::ExpectedNewlineAfterCommand)
        }
        other => panic!("expected a missing-newline error, got {:?}", other),
    }
}

#[test]
fn declaration_needs_a_template_block() {
    let r = parse_config("test.path", "#out f\nforeach \"body\"");
    match r {
        Err(Error::Parse { kind, .. }) => assert_eq!(kind, ParseErrorKind::ExpectedTemplate),
        other => panic!("expected a missing-template error, got {:?}", other),
    }
}

#[test]
fn unsupported_template_type_is_rejected() {
    let r = parse_config("test.path", "#out f\nrepeat{x}");
    match r {
        Err(Error::Parse { kind, .. }) => {
            assert_eq!(kind, ParseErrorKind::UnsupportedTemplateType)
        }
        other => panic!("expected an unsupported-type error, got {:?}", other),
    }
}

#[test]
fn empty_command_name_is_rejected() {
    let r = parse_config("test.path", "# out\n");
    match r {
        Err(Error::Tokenizing { kind, .. }) => {
            assert_eq!(kind, TokenizingErrorKind::ExpectedCommand)
        }
        other => panic!("expected an empty-command error, got {:?}", other),
    }
}

#[test]
fn quote_interrupted_by_newline_is_rejected() {
    let r = parse_config("test.path", "#out \"abc\ndef\"");
    match r {
        Err(Error::Tokenizing { kind, .. }) => {
            assert_eq!(kind, TokenizingErrorKind::NoMatchingQuotes)
        }
        other => panic!("expected a quote error, got {:?}", other),
    }
}

#[test]
fn unterminated_quote_is_rejected() {
    let r = parse_config("test.path", "#out \"abc");
    match r {
        Err(Error::Tokenizing { kind, .. }) => {
            assert_eq!(kind, TokenizingErrorKind::UnterminatedString)
        }
        other => panic!("expected an unterminated-string error, got {:?}", other),
    }
}

#[test]
fn unterminated_block_is_rejected() {
    let r = parse_config("test.path", "foreach{ {a} ");
    match r {
        Err(Error::Tokenizing { kind, .. }) => {
            assert_eq!(kind, TokenizingErrorKind::UnterminatedBlock)
        }
        other => panic!("expected an unterminated-block error, got {:?}", other),
    }
}

#[test]
fn unexpected_character_is_rejected() {
    let r = parse_config("test.path", "\n\n$");
    match r {
        Err(Error::Tokenizing { location, kind, .. }) => {
            assert_eq!(kind, TokenizingErrorKind::UnexpectedChar('$'));
            assert_eq!(location.line, 3);
            assert_eq!(location.column, 1);
        }
        other => panic!("expected an unexpected-character error, got {:?}", other),
    }
}

#[test]
fn leading_digit_is_an_unexpected_character() {
    let r = parse_config("test.path", "5");
    match r {
        Err(Error::Tokenizing { kind, .. }) => {
            assert_eq!(kind, TokenizingErrorKind::UnexpectedChar('5'))
        }
        other => panic!("expected an unexpected-character error, got {:?}", other),
    }
}

#[test]
fn block_tokenization_keeps_nested_braces() {
    let source = "{ outer {inner} still-outer }";
    let mut tk = Tokenizer::new("test.path".to_string());
    let tok = tk.next_token(source).unwrap();
    match tok {
        ConfigToken::TemplateBlock(t) => {
            assert_eq!(t.source, " outer {inner} still-outer ");
        }
        other => panic!("expected a template block, got {:?}", other),
    }
}

#[test]
fn block_drops_a_newline_after_the_opening_brace() {
    let source = "{\nbody}";
    let mut tk = Tokenizer::new("test.path".to_string());
    let tok = tk.next_token(source).unwrap();
    match tok {
        ConfigToken::TemplateBlock(t) => assert_eq!(t.source, "body"),
        other => panic!("expected a template block, got {:?}", other),
    }
}

#[test]
fn quoted_span_with_brace_is_a_template_block() {
    let source = "\"{p}.conf\"";
    let mut tk = Tokenizer::new("test.path".to_string());
    let tok = tk.next_token(source).unwrap();
    match tok {
        ConfigToken::TemplateBlock(t) => assert_eq!(t.source, "{p}.conf"),
        other => panic!("expected a template block, got {:?}", other),
    }
}

#[test]
fn quoted_span_with_escaped_brace_is_a_literal() {
    let source = "\"a\\{b\"";
    let mut tk = Tokenizer::new("test.path".to_string());
    let tok = tk.next_token(source).unwrap();
    match tok {
        ConfigToken::Literal(t) => assert_eq!(t.source, "a\\{b"),
        other => panic!("expected a literal, got {:?}", other),
    }
}

#[test]
fn newlines_collapse_into_one_token() {
    let source = "\n\n\nfoo";
    let mut tk = Tokenizer::new("test.path".to_string());
    assert!(matches!(tk.next_token(source).unwrap(), ConfigToken::NewLine));
    match tk.next_token(source).unwrap() {
        ConfigToken::Id(t) => assert_eq!(t.source, "foo"),
        other => panic!("expected an identifier, got {:?}", other),
    }
    assert!(matches!(tk.next_token(source).unwrap(), ConfigToken::Eof));
}

#[test]
fn naming_directive_selects_the_scheme() {
    let config =
        parse_config("test.path", "#out f\n#naming \"UPPER_CASE\"\nforeach{}").unwrap();
    assert_eq!(config.naming, RenamingScheme::UpperSnake);
    let config = parse_config("test.path", "#out f\n#naming \"dash-case\"\nforeach{}").unwrap();
    assert_eq!(config.naming, RenamingScheme::Dash);
    let config = parse_config("test.path", "#out f\n#naming flatcase\nforeach{}").unwrap();
    assert_eq!(config.naming, RenamingScheme::Flat);
    let config = parse_config("test.path", "#out f\n#naming \"bogus\"\nforeach{}").unwrap();
    assert_eq!(config.naming, RenamingScheme::Snake);
}
