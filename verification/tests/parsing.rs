use static_metric::ast::{
    MetricDef, MetricEnumDef, MetricLabelArm, MetricLabelDef, MetricValueDef,
    StaticMetricMacroBody, StaticMetricMacroBodyItem, Visibility,
};
use static_metric::ident::Ident;
use static_metric::lexer::{tokenize, Expected, ParseError, Token, TokenKind};
use static_metric::parser::parse;

fn id(s: &str) -> Ident {
    Ident::new(s).unwrap()
}

fn value(name: &str, label: &str) -> MetricValueDef {
    MetricValueDef { name: id(name), value: label.to_string() }
}

fn token(kind: TokenKind, offset: usize, text: &str) -> Token {
    Token { kind, offset, text: text.to_string() }
}

fn error(offset: usize, found: &str, expected: Expected) -> ParseError {
    ParseError { offset, found: found.to_string(), expected }
}

#[test]
fn tokenize_reads_every_kind_of_token() {
    let tokens = tokenize("pub label_enum struct Name { } : , => \"HTTP/1\" _x9").unwrap();
    assert_eq!(
        tokens,
        vec![
            token(TokenKind::Pub, 0, "pub"),
            token(TokenKind::LabelEnum, 4, "label_enum"),
            token(TokenKind::Struct, 15, "struct"),
            token(TokenKind::Ident(id("Name")), 22, "Name"),
            token(TokenKind::OpenBrace, 27, "{"),
            token(TokenKind::CloseBrace, 29, "}"),
            token(TokenKind::Colon, 31, ":"),
            token(TokenKind::Comma, 33, ","),
            token(TokenKind::FatArrow, 35, "=>"),
            token(TokenKind::Str("HTTP/1".to_string()), 38, "\"HTTP/1\""),
            token(TokenKind::Ident(id("_x9")), 47, "_x9"),
        ]
    );
}

#[test]
fn tokenize_needs_no_space_between_tokens() {
    let tokens = tokenize("a:\"b\",c=>{d}").unwrap();
    let kinds: Vec<TokenKind> = tokens.into_iter().map(|t| t.kind).collect();
    assert_eq!(
        kinds,
        vec![
            TokenKind::Ident(id("a")),
            TokenKind::Colon,
            TokenKind::Str("b".to_string()),
            TokenKind::Comma,
            TokenKind::Ident(id("c")),
            TokenKind::FatArrow,
            TokenKind::OpenBrace,
            TokenKind::Ident(id("d")),
            TokenKind::CloseBrace,
        ]
    );
}

#[test]
fn tokenize_of_nothing_is_nothing() {
    assert_eq!(tokenize("").unwrap(), vec![]);
    assert_eq!(tokenize(" \t\r\n ").unwrap(), vec![]);
}

#[test]
fn tokenize_reads_escapes() {
    let tokens = tokenize(r#""a\"b\\c\n\t\r\0\'""#).unwrap();
    assert_eq!(tokens.len(), 1);
    assert_eq!(tokens[0].kind, TokenKind::Str("a\"b\\c\n\t\r\0'".to_string()));
    assert_eq!(tokens[0].text, r#""a\"b\\c\n\t\r\0\'""#);
}

#[test]
fn tokenize_keeps_characters_beyond_ascii_in_strings() {
    let tokens = tokenize("\"größe\" x").unwrap();
    assert_eq!(tokens[0].kind, TokenKind::Str("größe".to_string()));
    // Offsets count characters.
    assert_eq!(tokens[1].offset, 8);
}

#[test]
fn tokenize_rejects_a_character_that_starts_no_token() {
    assert_eq!(tokenize("foo ; bar"), Err(error(4, ";", Expected::Token)));
    assert_eq!(tokenize("a = b"), Err(error(2, "=", Expected::Token)));
    assert_eq!(tokenize("9x"), Err(error(0, "9", Expected::Token)));
    assert_eq!(tokenize("é"), Err(error(0, "é", Expected::Token)));
}

#[test]
fn tokenize_rejects_a_string_without_end() {
    assert_eq!(tokenize("a \"bc"), Err(error(2, "\"bc", Expected::ClosingQuote)));
    assert_eq!(tokenize("\"bc\\"), Err(error(0, "\"bc\\", Expected::ClosingQuote)));
}

#[test]
fn tokenize_rejects_an_unknown_escape() {
    assert_eq!(tokenize("\"a\\qb\""), Err(error(2, "\\q", Expected::Escape)));
}

fn methods() -> MetricEnumDef {
    MetricEnumDef {
        visibility: Visibility::Public,
        enum_name: id("Methods"),
        definitions: vec![
            value("post", "post"),
            value("get", "get"),
            value("put", "put"),
            value("delete", "delete"),
        ],
    }
}

#[test]
fn parse_reads_an_enum_and_a_metric() {
    let body = parse(
        r#"
        pub label_enum Methods {
            post,
            get,
            put,
            delete,
        }

        pub struct Lhrs: LocalIntCounter {
            "product" => {
                foo,
                bar,
            },
            "method" => Methods,
            "version" => {
                http1: "HTTP/1",
                http2: "HTTP/2",
            },
        }
        "#,
    )
    .unwrap();
    let expected = StaticMetricMacroBody {
        items: vec![
            StaticMetricMacroBodyItem::Enum(methods()),
            StaticMetricMacroBodyItem::Metric(MetricDef {
                visibility: Visibility::Public,
                struct_name: id("Lhrs"),
                metric_type: id("LocalIntCounter"),
                labels: vec![
                    MetricLabelDef {
                        label_key: "product".to_string(),
                        arm: MetricLabelArm::ValueDefinitionList(vec![
                            value("foo", "foo"),
                            value("bar", "bar"),
                        ]),
                    },
                    MetricLabelDef {
                        label_key: "method".to_string(),
                        arm: MetricLabelArm::EnumReference(id("Methods")),
                    },
                    MetricLabelDef {
                        label_key: "version".to_string(),
                        arm: MetricLabelArm::ValueDefinitionList(vec![
                            value("http1", "HTTP/1"),
                            value("http2", "HTTP/2"),
                        ]),
                    },
                ],
            }),
        ],
    };
    assert_eq!(body, expected);
}

#[test]
fn parse_of_nothing_is_no_declaration() {
    assert_eq!(parse("").unwrap(), StaticMetricMacroBody { items: vec![] });
}

#[test]
fn parse_folds_the_case_of_a_bare_value() {
    let body = parse("label_enum E { Foo, BAR_2: \"Bar Two\" }").unwrap();
    assert_eq!(
        body.items,
        vec![StaticMetricMacroBodyItem::Enum(MetricEnumDef {
            visibility: Visibility::Inherited,
            enum_name: id("E"),
            definitions: vec![value("Foo", "foo"), value("BAR_2", "Bar Two")],
        })]
    );
}

#[test]
fn parse_takes_lists_with_and_without_a_last_comma() {
    let with = parse("struct M: Counter { \"a\" => { x, y, }, }").unwrap();
    let without = parse("struct M: Counter { \"a\" => { x, y } }").unwrap();
    assert_eq!(with, without);
    let empty = parse("struct M: Counter { \"a\" => { } }").unwrap();
    assert_eq!(
        empty.items,
        vec![StaticMetricMacroBodyItem::Metric(MetricDef {
            visibility: Visibility::Inherited,
            struct_name: id("M"),
            metric_type: id("Counter"),
            labels: vec![MetricLabelDef {
                label_key: "a".to_string(),
                arm: MetricLabelArm::ValueDefinitionList(vec![]),
            }],
        })]
    );
}

#[test]
fn parse_names_the_token_that_starts_no_declaration() {
    assert_eq!(parse("Lhrs { }"), Err(error(0, "Lhrs", Expected::Item)));
    assert_eq!(parse("label_enum E { } }"), Err(error(17, "}", Expected::Item)));
}

#[test]
fn parse_wants_a_declaration_after_pub() {
    assert_eq!(parse("pub pub struct"), Err(error(4, "pub", Expected::Declaration)));
    assert_eq!(parse("pub"), Err(error(3, "", Expected::Declaration)));
}

#[test]
fn parse_wants_a_name() {
    assert_eq!(parse("label_enum { a }"), Err(error(11, "{", Expected::Name)));
    assert_eq!(parse("struct : Counter { }"), Err(error(7, ":", Expected::Name)));
    assert_eq!(parse("struct M: { }"), Err(error(10, "{", Expected::Name)));
    // A keyword is no name.
    assert_eq!(parse("struct struct: Counter { }"), Err(error(7, "struct", Expected::Name)));
}

#[test]
fn a_reserved_word_is_no_name() {
    let tokens = tokenize("type types _ _x Self selfish").unwrap();
    let kinds: Vec<TokenKind> = tokens.into_iter().map(|t| t.kind).collect();
    assert_eq!(
        kinds,
        vec![
            TokenKind::Reserved,
            TokenKind::Ident(id("types")),
            TokenKind::Reserved,
            TokenKind::Ident(id("_x")),
            TokenKind::Reserved,
            TokenKind::Ident(id("selfish")),
        ]
    );
    assert_eq!(parse("label_enum E { a, type }"), Err(error(18, "type", Expected::ValueOrClose)));
    assert_eq!(parse("label_enum match { a }"), Err(error(11, "match", Expected::Name)));
    assert_eq!(parse("struct M: fn { }"), Err(error(10, "fn", Expected::Name)));
    assert_eq!(parse("struct M: C { \"k\" => self }"), Err(error(21, "self", Expected::Values)));
    // Written out, the label string may be any word.
    assert!(parse("label_enum E { type_: \"type\" }").is_ok());
}

#[test]
fn parse_wants_a_colon_before_the_metric_kind() {
    assert_eq!(parse("struct M Counter { }"), Err(error(9, "Counter", Expected::Colon)));
}

#[test]
fn parse_wants_an_open_brace() {
    assert_eq!(parse("label_enum E a"), Err(error(13, "a", Expected::OpenBrace)));
    assert_eq!(parse("struct M: Counter \"a\""), Err(error(18, "\"a\"", Expected::OpenBrace)));
}

#[test]
fn parse_wants_a_string_after_the_colon_of_a_value() {
    assert_eq!(parse("label_enum E { a: b }"), Err(error(18, "b", Expected::String)));
}

#[test]
fn parse_wants_an_arrow_after_the_key() {
    assert_eq!(parse("struct M: C { \"a\" : E }"), Err(error(18, ":", Expected::FatArrow)));
}

#[test]
fn parse_wants_values_after_the_arrow() {
    assert_eq!(parse("struct M: C { \"a\" => \"b\" }"), Err(error(21, "\"b\"", Expected::Values)));
}

#[test]
fn parse_wants_a_value_or_the_end_of_the_values() {
    assert_eq!(parse("label_enum E { \"a\" }"), Err(error(15, "\"a\"", Expected::ValueOrClose)));
    assert_eq!(parse("label_enum E { a, , }"), Err(error(18, ",", Expected::ValueOrClose)));
}

#[test]
fn parse_wants_a_label_or_the_end_of_the_labels() {
    assert_eq!(parse("struct M: C { a }"), Err(error(14, "a", Expected::LabelOrClose)));
}

#[test]
fn parse_wants_a_comma_between_values_and_between_labels() {
    assert_eq!(parse("label_enum E { a b }"), Err(error(17, "b", Expected::CommaOrClose)));
    assert_eq!(
        parse("struct M: C { \"a\" => E \"b\" => E }"),
        Err(error(23, "\"b\"", Expected::CommaOrClose))
    );
}

#[test]
fn parse_names_the_end_of_the_input() {
    assert_eq!(parse("label_enum E { a"), Err(error(16, "", Expected::CommaOrClose)));
    assert_eq!(parse("struct M: C {"), Err(error(13, "", Expected::LabelOrClose)));
    assert_eq!(parse("struct M"), Err(error(8, "", Expected::Colon)));
}

#[test]
fn parse_gives_no_part_of_a_malformed_input() {
    // The first declaration is well formed; the second is not.
    let r = parse("label_enum E { a } struct M: C { \"k\" => }");
    assert_eq!(r, Err(error(40, "}", Expected::Values)));
}

#[test]
fn parse_passes_an_error_of_the_tokens_on() {
    assert_eq!(parse("label_enum E { a; }"), Err(error(16, ";", Expected::Token)));
}

#[test]
fn the_message_names_the_token_and_the_place() {
    assert_eq!(
        parse("struct M Counter { }").unwrap_err().message(),
        "unexpected `Counter` at offset 9: expected `:`"
    );
    assert_eq!(
        parse("label_enum E { a").unwrap_err().message(),
        "unexpected end of input at offset 16: expected `,` or `}`"
    );
    assert_eq!(
        parse("a \"bc").unwrap_err().message(),
        "unexpected `\"bc` at offset 2: expected the `\"` that ends the string"
    );
    assert_eq!(
        error(1234, "x", Expected::Values).message(),
        "unexpected `x` at offset 1234: expected `{` or the name of a `label_enum`"
    );
}

#[test]
fn what_was_looked_for_is_said_in_words() {
    assert_eq!(Expected::Token.as_str(), "the start of a token");
    assert_eq!(Expected::Escape.as_str(), "a known escape");
    assert_eq!(Expected::Item.as_str(), "`pub`, `label_enum` or `struct`");
    assert_eq!(Expected::Declaration.as_str(), "`label_enum` or `struct`");
    assert_eq!(Expected::Name.as_str(), "a name");
    assert_eq!(Expected::OpenBrace.as_str(), "`{`");
    assert_eq!(Expected::String.as_str(), "a string");
    assert_eq!(Expected::FatArrow.as_str(), "`=>`");
    assert_eq!(Expected::ValueOrClose.as_str(), "the name of a value or `}`");
    assert_eq!(Expected::LabelOrClose.as_str(), "the key of a label or `}`");
}

#[test]
fn the_canonical_text_is_read_back() {
    // Every value in full, a comma behind every value and label, a space
    // behind every token; `\` and `"` escaped.
    let text = r#"pub label_enum E { a : "x\\y" , b : "\"" , } struct M : Counter { "k" => E , "l" => { c : "C" , } , } "#;
    let body = parse(text).unwrap();
    assert_eq!(
        body,
        StaticMetricMacroBody {
            items: vec![
                StaticMetricMacroBodyItem::Enum(MetricEnumDef {
                    visibility: Visibility::Public,
                    enum_name: id("E"),
                    definitions: vec![value("a", "x\\y"), value("b", "\"")],
                }),
                StaticMetricMacroBodyItem::Metric(MetricDef {
                    visibility: Visibility::Inherited,
                    struct_name: id("M"),
                    metric_type: id("Counter"),
                    labels: vec![
                        MetricLabelDef {
                            label_key: "k".to_string(),
                            arm: MetricLabelArm::EnumReference(id("E")),
                        },
                        MetricLabelDef {
                            label_key: "l".to_string(),
                            arm: MetricLabelArm::ValueDefinitionList(vec![value("c", "C")]),
                        },
                    ],
                }),
            ],
        }
    );
}
