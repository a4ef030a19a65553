use apollo_graphql::grammar::{directive_definition, directive_location, directive_locations, directives, Constness};
use apollo_graphql::ast::DirectiveLocation as DL;
use apollo_graphql::parser::{Event, Parser, SyntaxKind, Token, TokenKind};
use apollo_graphql::parser::LimitTracker;
use apollo_graphql::syntax_tree::{parse_directive_definition, syntax_tree, Element, TypeRoot};

/// Splits GraphQL source text into tokens (whitespace, commas and comments
/// are dropped).
fn tokenize(src: &str) -> Vec<Token> {
    let chars: Vec<char> = src.chars().collect();
    let mut tokens = Vec::new();
    let mut i = 0;
    while i < chars.len() {
        let c = chars[i];
        if c.is_whitespace() || c == ',' || c == '\u{feff}' {
            i += 1;
            continue;
        }
        if c == '#' {
            while i < chars.len() && chars[i] != '\n' {
                i += 1;
            }
            continue;
        }
        let punct = match c {
            '@' => Some(TokenKind::At),
            '$' => Some(TokenKind::Dollar),
            '!' => Some(TokenKind::Bang),
            '(' => Some(TokenKind::LParen),
            ')' => Some(TokenKind::RParen),
            '[' => Some(TokenKind::LBracket),
            ']' => Some(TokenKind::RBracket),
            '{' => Some(TokenKind::LCurly),
            '}' => Some(TokenKind::RCurly),
            ':' => Some(TokenKind::Colon),
            '=' => Some(TokenKind::Eq),
            '|' => Some(TokenKind::Pipe),
            '&' => Some(TokenKind::Amp),
            _ => None,
        };
        if let Some(kind) = punct {
            tokens.push(Token { kind, data: c.to_string() });
            i += 1;
            continue;
        }
        if c == '.' && i + 2 < chars.len() && chars[i + 1] == '.' && chars[i + 2] == '.' {
            tokens.push(Token { kind: TokenKind::Spread, data: "...".to_string() });
            i += 3;
            continue;
        }
        if c == '"' {
            let start = i;
            i += 1;
            while i < chars.len() && chars[i] != '"' {
                if chars[i] == '\\' {
                    i += 1;
                }
                i += 1;
            }
            i += 1;
            tokens.push(Token { kind: TokenKind::StringValue, data: chars[start..i.min(chars.len())].iter().collect() });
            continue;
        }
        if c == '-' || c.is_ascii_digit() {
            let start = i;
            let mut float = false;
            i += 1;
            while i < chars.len() && (chars[i].is_ascii_digit() || chars[i] == '.' || chars[i] == 'e' || chars[i] == 'E') {
                float |= !chars[i].is_ascii_digit();
                i += 1;
            }
            let kind = if float { TokenKind::Float } else { TokenKind::Int };
            tokens.push(Token { kind, data: chars[start..i].iter().collect() });
            continue;
        }
        let start = i;
        while i < chars.len() && (chars[i] == '_' || chars[i].is_ascii_alphanumeric()) {
            i += 1;
        }
        if i == start {
            i += 1;
        }
        tokens.push(Token { kind: TokenKind::Name, data: chars[start..i].iter().collect() });
    }
    tokens
}

fn parse_events(src: &str) -> Parser {
    let mut p = Parser::new(tokenize(src));
    directive_definition(&mut p);
    p
}

/// The texts of the keywords inside the DIRECTIVE_LOCATION nodes.
fn location_texts(p: &Parser) -> Vec<String> {
    let events = p.events();
    let mut out = Vec::new();
    for w in events.windows(2) {
        if let (Event::Start(SyntaxKind::DIRECTIVE_LOCATION), Event::Token(_, text)) = (&w[0], &w[1]) {
            out.push(text.clone());
        }
    }
    out
}

#[test]
fn it_can_access_repeatable_kw_on_directive_definition() {
    let schema = r#"
directive @example(isTreat: Boolean, treatKind: String) repeatable on FIELD | MUTATION
        "#;
    let p = parse_events(schema);
    assert!(p.errors().is_empty());
    let repeatable = p.events().iter().find_map(|e| match e {
        Event::Token(kind, text) if text == "repeatable" => Some(*kind),
        _ => None,
    });
    assert_eq!(repeatable.expect("Expected CST to have a Directive Definition"), SyntaxKind::repeatable_KW);
}

#[test]
fn it_can_access_directive_location_on_directive_definition() {
    let schema = r#"
directive @example on FIELD | FRAGMENT_SPREAD | INLINE_FRAGMENT
        "#;
    let p = parse_events(schema);
    assert!(p.errors().is_empty());
    assert!(matches!(p.events()[0], Event::Start(SyntaxKind::DIRECTIVE_DEFINITION)), "Expected CST to have a Directive Definition");
    assert_eq!(location_texts(&p), ["FIELD", "FRAGMENT_SPREAD", "INLINE_FRAGMENT"]);
}

#[test]
fn it_can_access_multiline_directive_location_on_directive_definition() {
    let schema = r#"
directive @example on
| FIELD
| FRAGMENT_SPREAD
| INLINE_FRAGMENT
        "#;
    let p = parse_events(schema);
    assert!(p.errors().is_empty());
    assert!(matches!(p.events()[0], Event::Start(SyntaxKind::DIRECTIVE_DEFINITION)), "Expected CST to have a Directive Definition");
    assert_eq!(location_texts(&p), ["FIELD", "FRAGMENT_SPREAD", "INLINE_FRAGMENT"]);
}

#[test]
fn it_can_access_multiline_directive_location_on_directive_definition_with_error() {
    let schema = r#"
directive @example on
| FIELD
| FRAGMENT_SPREAD
| INLINE_FRAGMENT |
        "#;
    let p = parse_events(schema);
    assert!(!p.errors().is_empty());

    let schema = r#"
directive @example on
|| FIELD
| FRAGMENT_SPREAD
| INLINE_FRAGMENT
        "#;
    let p = parse_events(schema);
    assert!(!p.errors().is_empty());

    let schema = r#"
directive @example on
| FIELD
|| FRAGMENT_SPREAD
| INLINE_FRAGMENT
        "#;
    let p = parse_events(schema);
    assert!(!p.errors().is_empty());
}

#[test]
fn directive_name() {
    let input = "directive @example(isTreat: Boolean, treatKind: String) on FIELD | MUTATION";
    let p = parse_events(input);
    let events = p.events();
    // The definition's own name follows the `@` token.
    let at = events
        .iter()
        .position(|e| matches!(e, Event::Token(SyntaxKind::AT, _)))
        .unwrap();
    assert!(matches!(events[at + 1], Event::Start(SyntaxKind::NAME)));
    match &events[at + 2] {
        Event::Token(SyntaxKind::IDENT, text) => assert_eq!(text, "example"),
        other => panic!("unexpected event {other:?}"),
    }
}

#[test]
fn unknown_location_is_an_error_and_is_left_in_place() {
    let mut p = Parser::new(tokenize("NOWHERE"));
    directive_location(&mut p);
    assert_eq!(p.errors().len(), 1);
    assert_eq!(p.errors()[0].message, "expected valid Directive Location");
    assert_eq!(p.errors()[0].data, "NOWHERE");
    assert_eq!(p.position(), 0);
    assert!(p.events().is_empty());

    let mut p = Parser::new(tokenize("@"));
    directive_location(&mut p);
    assert_eq!(p.errors()[0].message, "expected Directive Location");
}

#[test]
fn every_location_name_reads_back() {
    let all = [
        DL::Query, DL::Mutation, DL::Subscription, DL::Field, DL::FragmentDefinition,
        DL::FragmentSpread, DL::InlineFragment, DL::VariableDefinition, DL::Schema, DL::Scalar,
        DL::Object, DL::FieldDefinition, DL::ArgumentDefinition, DL::Interface, DL::Union,
        DL::Enum, DL::EnumValue, DL::InputObject, DL::InputFieldDefinition,
    ];
    let text = all.iter().map(|l| l.name()).collect::<Vec<_>>().join(" | ");
    let mut p = Parser::new(tokenize(&text));
    directive_locations(&mut p);
    assert!(p.errors().is_empty());
    let names: Vec<String> = all.iter().map(|l| l.name().to_string()).collect();
    assert_eq!(location_texts(&p), names);
    assert_eq!(p.position(), 2 * all.len() - 1);
}

#[test]
fn directive_definition_with_default_values_and_directives() {
    let p = parse_events(
        r#""doc" directive @d("arg doc" a: [Int!]! = [1, 2] @x(y: {z: null}), b: E = RED) on QUERY"#,
    );
    assert!(p.errors().is_empty(), "{:?}", p.errors());
    let starts = p.events().iter().filter(|e| matches!(e, Event::Start(_))).count();
    let finishes = p.events().iter().filter(|e| matches!(e, Event::Finish)).count();
    assert_eq!(starts, finishes);
    assert!(p.events().iter().any(|e| matches!(e, Event::Start(SyntaxKind::NON_NULL_TYPE))));
    assert!(p.events().iter().any(|e| matches!(e, Event::Start(SyntaxKind::OBJECT_VALUE))));
    assert!(matches!(p.events()[1], Event::Start(SyntaxKind::DESCRIPTION)));
}

#[test]
fn variables_are_errors_in_const_directives() {
    let mut p = Parser::new(tokenize("@skip(if: $cond) @include(if: true)"));
    directives(&mut p, Constness::Const);
    assert_eq!(p.errors().len(), 1);
    assert_eq!(p.errors()[0].message, "unexpected variable value in a Const context");
    let mut p = Parser::new(tokenize("@skip(if: $cond)"));
    directives(&mut p, Constness::NotConst);
    assert!(p.errors().is_empty());
}

#[test]
fn missing_on_and_locations_are_reported() {
    let p = parse_events("directive @d");
    let messages: Vec<&str> = p.errors().iter().map(|e| e.message.as_str()).collect();
    assert_eq!(messages, ["expected Directive Locations", "expected valid Directive Location"]);
}

#[test]
fn syntax_tree_shows_nodes_tokens_and_ranges() {
    let tree = parse_directive_definition(tokenize("directive @a on FIELD"));
    assert_eq!(tree.errors().len(), 0);
    let expected = "\
- DIRECTIVE_DEFINITION@0..18
    - directive_KW@0..9 \"directive\"
    - AT@9..10 \"@\"
    - NAME@10..11
        - IDENT@10..11 \"a\"
    - on_KW@11..13 \"on\"
    - DIRECTIVE_LOCATIONS@13..18
        - DIRECTIVE_LOCATION@13..18
            - FIELD_KW@13..18 \"FIELD\"
recursion limit: 500, high: 0";
    assert_eq!(tree.debug_text(), expected);
    assert_eq!(tree.recursion_limit().limit(), 500);
    assert_eq!(tree.recursion_limit().high(), 0);
    assert_eq!(tree.token_limit().high(), 5);
    assert_eq!(tree.token_limit().limit(), usize::MAX);
}

#[test]
fn syntax_tree_shows_its_errors_after_the_nodes() {
    let tree = parse_directive_definition(tokenize("directive @a"));
    assert_eq!(tree.errors().len(), 2);
    let expected = "\
- DIRECTIVE_DEFINITION@0..11
    - directive_KW@0..9 \"directive\"
    - AT@9..10 \"@\"
    - NAME@10..11
        - IDENT@10..11 \"a\"
- ERROR@3:3 \"expected Directive Locations\" \n\
- ERROR@3:3 \"expected valid Directive Location\" \n\
recursion limit: 500, high: 0";
    assert_eq!(tree.debug_text(), expected);
}

#[test]
fn green_tree_holds_the_same_tokens() {
    let tree = parse_directive_definition(tokenize("directive @example(isTreat: Boolean) on FIELD | MUTATION"));
    let green = tree.green();
    assert_eq!(green.to_string(), "directive@example(isTreat:Boolean)onFIELD|MUTATION");
    assert_eq!(u32::from(green.text_len()), 50);
    assert_eq!(green.kind(), rowan::SyntaxKind(SyntaxKind::DIRECTIVE_DEFINITION as u16));
}

#[test]
fn syntax_tree_root_is_the_directive_definition() {
    let input = "directive @example(isTreat: Boolean, treatKind: String) on FIELD | MUTATION";
    let tree = parse_directive_definition(tokenize(input));
    let Element::Node(kind, children) = tree.root() else { panic!("the root is a node") };
    assert_eq!(*kind, SyntaxKind::DIRECTIVE_DEFINITION);
    let name = children
        .iter()
        .find_map(|c| match c {
            Element::Node(SyntaxKind::NAME, inner) => Some(inner),
            _ => None,
        })
        .expect("a name");
    match &name[0] {
        Element::Token(SyntaxKind::IDENT, text) => assert_eq!(text, "example"),
        other => panic!("unexpected element {other:?}"),
    }
}

#[test]
fn syntax_tree_quotes_token_text_and_counts_bytes() {
    let description = "\"caf\u{e9} \\\"x\\\"\"";
    let tree = parse_directive_definition(tokenize(&format!("{description} directive @d on QUERY")));
    let text = tree.debug_text();
    assert!(text.starts_with("- DIRECTIVE_DEFINITION@0..31\n    - DESCRIPTION@0..13\n"), "{text}");
    assert!(text.contains("        - STRING@0..13 \"\\\"caf\u{e9} \\\\\\\"x\\\\\\\"\\\"\"\n"), "{text}");
    assert!(text.contains("    - directive_KW@13..22 \"directive\"\n"), "{text}");
}

#[test]
fn tree_of_a_type_tells_its_kind() {
    let events = vec![
        Event::Start(SyntaxKind::NON_NULL_TYPE),
        Event::Start(SyntaxKind::NAMED_TYPE),
        Event::Start(SyntaxKind::NAME),
        Event::Token(SyntaxKind::IDENT, "Int".to_string()),
        Event::Finish,
        Event::Finish,
        Event::Token(SyntaxKind::BANG, "!".to_string()),
        Event::Finish,
    ];
    let tree = syntax_tree(&events, vec![], LimitTracker::new(3), LimitTracker::new(7));
    assert_eq!(tree.ty(), TypeRoot::NonNullType);
    assert_eq!(tree.recursion_limit().limit(), 3);
    assert_eq!(tree.green().to_string(), "Int!");
}
