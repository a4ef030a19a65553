//! What the directive grammar guarantees about directive locations: every
//! location name is read back as its own keyword, and a list of locations
//! separated by `|` is read without errors into one node per location.
use vstd::prelude::*;
use crate::ast::DirectiveLocation;
use crate::grammar::{g_directive_location, g_directive_locations, g_locations_rest, g_value, location_keyword, Constness};
use crate::parser::{p_data, p_peek, parser_wf, EventView, ParserView, SyntaxKind, TokenKind, TokenView};

verus! {

/// The keyword kind of each directive location.
pub open spec fn location_syntax_kind(l: DirectiveLocation) -> SyntaxKind {
    match l {
        DirectiveLocation::Query => SyntaxKind::QUERY_KW,
        DirectiveLocation::Mutation => SyntaxKind::MUTATION_KW,
        DirectiveLocation::Subscription => SyntaxKind::SUBSCRIPTION_KW,
        DirectiveLocation::Field => SyntaxKind::FIELD_KW,
        DirectiveLocation::FragmentDefinition => SyntaxKind::FRAGMENT_DEFINITION_KW,
        DirectiveLocation::FragmentSpread => SyntaxKind::FRAGMENT_SPREAD_KW,
        DirectiveLocation::InlineFragment => SyntaxKind::INLINE_FRAGMENT_KW,
        DirectiveLocation::VariableDefinition => SyntaxKind::VARIABLE_DEFINITION_KW,
        DirectiveLocation::Schema => SyntaxKind::SCHEMA_KW,
        DirectiveLocation::Scalar => SyntaxKind::SCALAR_KW,
        DirectiveLocation::Object => SyntaxKind::OBJECT_KW,
        DirectiveLocation::FieldDefinition => SyntaxKind::FIELD_DEFINITION_KW,
        DirectiveLocation::ArgumentDefinition => SyntaxKind::ARGUMENT_DEFINITION_KW,
        DirectiveLocation::Interface => SyntaxKind::INTERFACE_KW,
        DirectiveLocation::Union => SyntaxKind::UNION_KW,
        DirectiveLocation::Enum => SyntaxKind::ENUM_KW,
        DirectiveLocation::EnumValue => SyntaxKind::ENUM_VALUE_KW,
        DirectiveLocation::InputObject => SyntaxKind::INPUT_OBJECT_KW,
        DirectiveLocation::InputFieldDefinition => SyntaxKind::INPUT_FIELD_DEFINITION_KW,
    }
}

/// The name of every directive location, as the serializer writes it, is
/// read back as the keyword of that same location.
pub proof fn lemma_location_names_read_back(l: DirectiveLocation)
    ensures
        location_keyword(l.keyword()) == Some(location_syntax_kind(l)),
{
    reveal_strlit("QUERY");
    reveal_strlit("MUTATION");
    reveal_strlit("SUBSCRIPTION");
    reveal_strlit("FIELD");
    reveal_strlit("FRAGMENT_DEFINITION");
    reveal_strlit("FRAGMENT_SPREAD");
    reveal_strlit("INLINE_FRAGMENT");
    reveal_strlit("VARIABLE_DEFINITION");
    reveal_strlit("SCHEMA");
    reveal_strlit("SCALAR");
    reveal_strlit("OBJECT");
    reveal_strlit("FIELD_DEFINITION");
    reveal_strlit("ARGUMENT_DEFINITION");
    reveal_strlit("INTERFACE");
    reveal_strlit("UNION");
    reveal_strlit("ENUM");
    reveal_strlit("ENUM_VALUE");
    reveal_strlit("INPUT_OBJECT");
    reveal_strlit("INPUT_FIELD_DEFINITION");
    assert("QUERY"@.len() == 5 && "QUERY"@[0] == 'Q' && "QUERY"@[2] == 'E');
    assert("MUTATION"@.len() == 8 && "MUTATION"@[0] == 'M' && "MUTATION"@[2] == 'T');
    assert("SUBSCRIPTION"@.len() == 12 && "SUBSCRIPTION"@[0] == 'S' && "SUBSCRIPTION"@[2] == 'B');
    assert("FIELD"@.len() == 5 && "FIELD"@[0] == 'F' && "FIELD"@[2] == 'E');
    assert("FRAGMENT_DEFINITION"@.len() == 19 && "FRAGMENT_DEFINITION"@[0] == 'F' && "FRAGMENT_DEFINITION"@[2] == 'A');
    assert("FRAGMENT_SPREAD"@.len() == 15 && "FRAGMENT_SPREAD"@[0] == 'F' && "FRAGMENT_SPREAD"@[2] == 'A');
    assert("INLINE_FRAGMENT"@.len() == 15 && "INLINE_FRAGMENT"@[0] == 'I' && "INLINE_FRAGMENT"@[2] == 'L');
    assert("VARIABLE_DEFINITION"@.len() == 19 && "VARIABLE_DEFINITION"@[0] == 'V' && "VARIABLE_DEFINITION"@[2] == 'R');
    assert("SCHEMA"@.len() == 6 && "SCHEMA"@[0] == 'S' && "SCHEMA"@[2] == 'H');
    assert("SCALAR"@.len() == 6 && "SCALAR"@[0] == 'S' && "SCALAR"@[2] == 'A');
    assert("OBJECT"@.len() == 6 && "OBJECT"@[0] == 'O' && "OBJECT"@[2] == 'J');
    assert("FIELD_DEFINITION"@.len() == 16 && "FIELD_DEFINITION"@[0] == 'F' && "FIELD_DEFINITION"@[2] == 'E');
    assert("ARGUMENT_DEFINITION"@.len() == 19 && "ARGUMENT_DEFINITION"@[0] == 'A' && "ARGUMENT_DEFINITION"@[2] == 'G');
    assert("INTERFACE"@.len() == 9 && "INTERFACE"@[0] == 'I' && "INTERFACE"@[2] == 'T');
    assert("UNION"@.len() == 5 && "UNION"@[0] == 'U' && "UNION"@[2] == 'I');
    assert("ENUM"@.len() == 4 && "ENUM"@[0] == 'E' && "ENUM"@[2] == 'U');
    assert("ENUM_VALUE"@.len() == 10 && "ENUM_VALUE"@[0] == 'E' && "ENUM_VALUE"@[2] == 'U');
    assert("INPUT_OBJECT"@.len() == 12 && "INPUT_OBJECT"@[0] == 'I' && "INPUT_OBJECT"@[2] == 'P');
    assert("INPUT_FIELD_DEFINITION"@.len() == 22 && "INPUT_FIELD_DEFINITION"@[0] == 'I' && "INPUT_FIELD_DEFINITION"@[2] == 'P');
}

/// The token of a location name.
pub open spec fn location_token(l: DirectiveLocation) -> TokenView {
    TokenView { kind: TokenKind::Name, data: l.keyword() }
}

/// The `|` token.
pub open spec fn pipe_token() -> TokenView {
    TokenView { kind: TokenKind::Pipe, data: "|"@ }
}

/// `| l1 | l2 ...` as tokens.
pub open spec fn separated_tokens(locs: Seq<DirectiveLocation>) -> Seq<TokenView>
    decreases locs.len(),
{
    if locs.len() == 0 {
        Seq::empty()
    } else {
        seq![pipe_token(), location_token(locs[0])] + separated_tokens(locs.skip(1))
    }
}

/// The events of one directive location node.
pub open spec fn location_events(l: DirectiveLocation) -> Seq<EventView> {
    seq![
        EventView::Start(SyntaxKind::DIRECTIVE_LOCATION),
        EventView::Token(location_syntax_kind(l), l.keyword()),
        EventView::Finish,
    ]
}

/// The events of `| l1 | l2 ...`.
pub open spec fn separated_events(locs: Seq<DirectiveLocation>) -> Seq<EventView>
    decreases locs.len(),
{
    if locs.len() == 0 {
        Seq::empty()
    } else {
        seq![EventView::Token(SyntaxKind::PIPE, "|"@)] + location_events(locs[0]) + separated_events(locs.skip(1))
    }
}

/// `tokens` holds `expected` from `pos` on.
pub open spec fn tokens_at(tokens: Seq<TokenView>, pos: int, expected: Seq<TokenView>) -> bool {
    0 <= pos && pos + expected.len() <= tokens.len() && tokens.subrange(pos, pos + expected.len()) == expected
}

proof fn lemma_one_location(v: ParserView, l: DirectiveLocation)
    requires
        parser_wf(v),
        v.tokens[v.pos as int] == location_token(l),
    ensures
        g_directive_location(v) == (ParserView {
            pos: v.pos + 1,
            events: v.events + location_events(l),
            ..v
        }),
{
    lemma_location_names_read_back(l);
    assert(g_directive_location(v).events =~= v.events + location_events(l));
}

proof fn lemma_separated_locations(v: ParserView, locs: Seq<DirectiveLocation>)
    requires
        parser_wf(v),
        tokens_at(v.tokens, v.pos as int, separated_tokens(locs)),
        v.pos + separated_tokens(locs).len() < v.tokens.len(),
        v.tokens[v.pos + separated_tokens(locs).len() as int].kind != TokenKind::Pipe,
    ensures
        g_locations_rest(v) == (ParserView {
            pos: v.pos + separated_tokens(locs).len(),
            events: v.events + separated_events(locs),
            ..v
        }),
    decreases locs.len(),
{
    let n = separated_tokens(locs).len();
    if locs.len() == 0 {
        assert(v.events + separated_events(locs) =~= v.events);
    } else {
        let rest = locs.skip(1);
        let toks = separated_tokens(locs);
        assert(toks[0] == pipe_token());
        assert(toks[1] == location_token(locs[0]));
        assert(v.tokens.subrange(v.pos as int, v.pos + n as int)[0] == v.tokens[v.pos as int]);
        assert(v.tokens.subrange(v.pos as int, v.pos + n as int)[1] == v.tokens[v.pos as int + 1]);
        assert(v.tokens[v.pos as int] == pipe_token());
        let after_pipe = ParserView {
            pos: v.pos + 1,
            events: v.events.push(EventView::Token(SyntaxKind::PIPE, "|"@)),
            ..v
        };
        assert(parser_wf(after_pipe));
        lemma_one_location(after_pipe, locs[0]);
        let next = g_directive_location(after_pipe);
        assert(separated_tokens(rest).len() == n - 2);
        assert(next.tokens.subrange(next.pos as int, next.pos as int + separated_tokens(rest).len()) =~= separated_tokens(rest)) by {
            assert forall|i: int| 0 <= i < separated_tokens(rest).len() implies next.tokens.subrange(
                next.pos as int,
                next.pos as int + separated_tokens(rest).len(),
            )[i] == separated_tokens(rest)[i] by {
                assert(toks[i + 2] == separated_tokens(rest)[i]);
                assert(v.tokens.subrange(v.pos as int, v.pos + n as int)[i + 2] == v.tokens[v.pos as int + i + 2]);
            }
        }
        lemma_separated_locations(next, rest);
        assert(v.events + separated_events(locs) =~= next.events + separated_events(rest));
    }
}

/// A list of directive locations written `l0 | l1 | ...` (as the serializer
/// writes them) and followed by anything but `|` is read with no error into
/// one node per location, in order, with the `|` tokens between them.
pub proof fn lemma_location_list_read_back(v: ParserView, locs: Seq<DirectiveLocation>)
    requires
        parser_wf(v),
        locs.len() > 0,
        v.tokens[v.pos as int] == location_token(locs[0]),
        tokens_at(v.tokens, v.pos as int + 1, separated_tokens(locs.skip(1))),
        v.pos + 1 + separated_tokens(locs.skip(1)).len() < v.tokens.len(),
        v.tokens[v.pos as int + 1 + separated_tokens(locs.skip(1)).len()].kind != TokenKind::Pipe,
    ensures
        g_directive_locations(v) == (ParserView {
            pos: v.pos + 1 + separated_tokens(locs.skip(1)).len(),
            events: v.events + location_events(locs[0]) + separated_events(locs.skip(1)),
            ..v
        }),
{
    reveal_strlit("|");
    assert(p_peek(v) == TokenKind::Name);
    lemma_one_location(v, locs[0]);
    let next = g_directive_location(v);
    lemma_separated_locations(next, locs.skip(1));
    assert(v.events + location_events(locs[0]) + separated_events(locs.skip(1)) =~= next.events
        + separated_events(locs.skip(1)));
}

/// A `true` or `false` name read as a value becomes a boolean value whose
/// keyword agrees with its text: a `BOOLEAN_VALUE` node holding the token as
/// `true_KW` for `true` and `false_KW` for `false`, and nothing else; the
/// token is read and no error is recorded.
pub proof fn lemma_boolean_keyword_agrees(v: ParserView, c: Constness)
    requires
        p_peek(v) == TokenKind::Name,
        p_data(v) == "true"@ || p_data(v) == "false"@,
    ensures
        g_value(v, c).events == v.events + seq![
            EventView::Start(SyntaxKind::BOOLEAN_VALUE),
            EventView::Token(
                if p_data(v) == "true"@ {
                    SyntaxKind::true_KW
                } else {
                    SyntaxKind::false_KW
                },
                p_data(v),
            ),
            EventView::Finish,
        ],
        g_value(v, c).errors == v.errors,
        g_value(v, c).pos == v.pos + 1,
        g_value(v, c).tokens == v.tokens,
{
    reveal_strlit("true");
    reveal_strlit("false");
    assert("true"@.len() != "false"@.len());
    let r = g_value(v, c);
    assert(r.events =~= v.events + seq![
        EventView::Start(SyntaxKind::BOOLEAN_VALUE),
        EventView::Token(
            if p_data(v) == "true"@ {
                SyntaxKind::true_KW
            } else {
                SyntaxKind::false_KW
            },
            p_data(v),
        ),
        EventView::Finish,
    ]);
}

} // verus!
