//! The grammar of directive definitions, directive locations and directives,
//! with the rules for names, descriptions, types, values, arguments and
//! input value definitions that they use.
//!
//! Each rule is given as a function from parser state to parser state (the
//! `g_` spec functions); each parsing function is proved to compute it.
use vstd::prelude::*;
use crate::parser::{
    p_bump, p_data, p_err, p_err_and_pop, p_expect, p_finish, p_peek, p_start, p_wrap, parser_wf,
    Parser, ParserView, SyntaxKind, TokenKind,
};

verus! {

/// Whether variables are allowed in values.
#[derive(Debug, Clone, Copy, PartialEq, Eq, Structural)]
pub enum Constness {
    Const,
    NotConst,
}

/// How many tokens are left to read, `Eof` included.
pub open spec fn remaining(v: ParserView) -> int {
    v.tokens.len() - v.pos
}

/// `r` reads on from `v` over the same tokens, past at least one token.
pub open spec fn advanced(v: ParserView, r: ParserView) -> bool {
    r.tokens == v.tokens && v.pos < r.pos && r.pos <= r.tokens.len() && v.events.len() <= r.events.len()
}

/// `r` reads on from `v` over the same tokens.
pub open spec fn follows(v: ParserView, r: ParserView) -> bool {
    r.tokens == v.tokens && v.pos <= r.pos && v.events.len() <= r.events.len()
}

// ---------------------------------------------------------------------------
// Names, descriptions and types

/// *Name*
pub open spec fn g_name(v: ParserView) -> ParserView {
    if p_peek(v) == TokenKind::Name {
        p_finish(p_bump(p_start(v, SyntaxKind::NAME), SyntaxKind::IDENT))
    } else {
        p_err(v, "expected a Name"@)
    }
}

/// *Description*: a string value (the current token is one).
pub open spec fn g_description(v: ParserView) -> ParserView {
    p_finish(p_bump(p_start(v, SyntaxKind::DESCRIPTION), SyntaxKind::STRING))
}

/// *Type*: a named type or a list type, possibly followed by `!`.
pub open spec fn g_type(v: ParserView) -> ParserView
    decreases remaining(v),
{
    let base = if p_peek(v) == TokenKind::LBracket && remaining(v) > 1 {
        p_finish(
            p_expect(
                g_type(p_bump(p_start(v, SyntaxKind::LIST_TYPE), SyntaxKind::L_BRACK)),
                TokenKind::RBracket,
                SyntaxKind::R_BRACK,
                "expected R_BRACK"@,
            ),
        )
    } else if p_peek(v) == TokenKind::Name {
        p_finish(g_name(p_start(v, SyntaxKind::NAMED_TYPE)))
    } else {
        p_err(v, "expected a type"@)
    };
    if p_peek(base) == TokenKind::Bang {
        p_finish(p_bump(p_wrap(base, v.events.len() as int, SyntaxKind::NON_NULL_TYPE), SyntaxKind::BANG))
    } else {
        base
    }
}

// ---------------------------------------------------------------------------
// Values

/// *Value*: a variable (an error in a const context), a string, number,
/// boolean, null, enum, list or object value. Any other token is skipped
/// with an error.
pub open spec fn g_value(v: ParserView, c: Constness) -> ParserView
    decreases remaining(v), 0int,
{
    match p_peek(v) {
        TokenKind::Dollar => {
            let v1 = if c == Constness::Const {
                p_err(v, "unexpected variable value in a Const context"@)
            } else {
                v
            };
            p_finish(g_name(p_bump(p_start(v1, SyntaxKind::VARIABLE), SyntaxKind::DOLLAR)))
        },
        TokenKind::StringValue => p_finish(p_bump(p_start(v, SyntaxKind::STRING_VALUE), SyntaxKind::STRING)),
        TokenKind::Int => p_finish(p_bump(p_start(v, SyntaxKind::INT_VALUE), SyntaxKind::INT)),
        TokenKind::Float => p_finish(p_bump(p_start(v, SyntaxKind::FLOAT_VALUE), SyntaxKind::FLOAT)),
        TokenKind::Name => {
            if p_data(v) == "true"@ {
                p_finish(p_bump(p_start(v, SyntaxKind::BOOLEAN_VALUE), SyntaxKind::true_KW))
            } else if p_data(v) == "false"@ {
                p_finish(p_bump(p_start(v, SyntaxKind::BOOLEAN_VALUE), SyntaxKind::false_KW))
            } else if p_data(v) == "null"@ {
                p_finish(p_bump(p_start(v, SyntaxKind::NULL_VALUE), SyntaxKind::null_KW))
            } else {
                p_finish(g_name(p_start(v, SyntaxKind::ENUM_VALUE)))
            }
        },
        TokenKind::LBracket => if remaining(v) > 1 {
            p_finish(g_list_rest(p_bump(p_start(v, SyntaxKind::LIST_VALUE), SyntaxKind::L_BRACK), c))
        } else {
            v
        },
        TokenKind::LCurly => if remaining(v) > 1 {
            p_finish(g_object_rest(p_bump(p_start(v, SyntaxKind::OBJECT_VALUE), SyntaxKind::L_CURLY), c))
        } else {
            v
        },
        TokenKind::Eof => p_err(v, "expected a valid Value"@),
        _ => p_err_and_pop(v, "expected a valid Value"@),
    }
}

/// The items of a list value up to and with its closing bracket.
pub open spec fn g_list_rest(v: ParserView, c: Constness) -> ParserView
    decreases remaining(v), 2int,
{
    if p_peek(v) == TokenKind::RBracket {
        p_bump(v, SyntaxKind::R_BRACK)
    } else if p_peek(v) == TokenKind::Eof {
        p_err(v, "expected R_BRACK"@)
    } else {
        let r = g_value(v, c);
        if advanced(v, r) {
            g_list_rest(r, c)
        } else {
            r
        }
    }
}

/// `name: value` in an object value.
pub open spec fn g_object_field(v: ParserView, c: Constness) -> ParserView
    decreases remaining(v), 1int,
{
    let v1 = p_expect(g_name(p_start(v, SyntaxKind::OBJECT_FIELD)), TokenKind::Colon, SyntaxKind::COLON, "expected a Colon"@);
    p_finish(g_value(v1, c))
}

/// The fields of an object value up to and with its closing brace.
pub open spec fn g_object_rest(v: ParserView, c: Constness) -> ParserView
    decreases remaining(v), 2int,
{
    if p_peek(v) == TokenKind::RCurly {
        p_bump(v, SyntaxKind::R_CURLY)
    } else if p_peek(v) == TokenKind::Eof {
        p_err(v, "expected R_CURLY"@)
    } else if p_peek(v) == TokenKind::Name {
        let r = g_object_field(v, c);
        if advanced(v, r) {
            g_object_rest(r, c)
        } else {
            r
        }
    } else {
        let r = p_err_and_pop(v, "expected an Object Field"@);
        if advanced(v, r) {
            g_object_rest(r, c)
        } else {
            r
        }
    }
}

/// `= value` (the current token is `=`).
pub open spec fn g_default_value(v: ParserView) -> ParserView {
    p_finish(g_value(p_bump(p_start(v, SyntaxKind::DEFAULT_VALUE), SyntaxKind::EQ), Constness::Const))
}

// ---------------------------------------------------------------------------
// Arguments and directives

/// *Argument*: `name: value`.
pub open spec fn g_argument(v: ParserView, c: Constness) -> ParserView {
    let v1 = p_expect(g_name(p_start(v, SyntaxKind::ARGUMENT)), TokenKind::Colon, SyntaxKind::COLON, "expected a Colon"@);
    p_finish(g_value(v1, c))
}

/// Arguments as long as a name comes next.
pub open spec fn g_arguments_rest(v: ParserView, c: Constness) -> ParserView
    decreases remaining(v),
{
    if p_peek(v) == TokenKind::Name {
        let r = g_argument(v, c);
        if advanced(v, r) {
            g_arguments_rest(r, c)
        } else {
            r
        }
    } else {
        v
    }
}

/// *Arguments*: `(` *Argument*+ `)` (the current token is `(`).
pub open spec fn g_arguments(v: ParserView, c: Constness) -> ParserView {
    let v1 = p_bump(p_start(v, SyntaxKind::ARGUMENTS), SyntaxKind::L_PAREN);
    let v2 = if p_peek(v1) == TokenKind::Name {
        g_argument(v1, c)
    } else {
        p_err(v1, "expected an Argument"@)
    };
    p_finish(p_expect(g_arguments_rest(v2, c), TokenKind::RParen, SyntaxKind::R_PAREN, "expected R_PAREN"@))
}

/// *Directive*: `@` *Name* *Arguments*?
pub open spec fn g_directive(v: ParserView, c: Constness) -> ParserView {
    let v1 = g_name(p_expect(p_start(v, SyntaxKind::DIRECTIVE), TokenKind::At, SyntaxKind::AT, "expected @"@));
    let v2 = if p_peek(v1) == TokenKind::LParen {
        g_arguments(v1, c)
    } else {
        v1
    };
    p_finish(v2)
}

/// Directives as long as `@` comes next.
pub open spec fn g_directives_rest(v: ParserView, c: Constness) -> ParserView
    decreases remaining(v),
{
    if p_peek(v) == TokenKind::At {
        let r = g_directive(v, c);
        if advanced(v, r) {
            g_directives_rest(r, c)
        } else {
            r
        }
    } else {
        v
    }
}

/// *Directives*: *Directive*\*
pub open spec fn g_directives(v: ParserView, c: Constness) -> ParserView {
    p_finish(g_directives_rest(p_start(v, SyntaxKind::DIRECTIVES), c))
}

// ---------------------------------------------------------------------------
// Input value definitions

/// *InputValueDefinition*: *Description*? *Name* `:` *Type* *DefaultValue*? *Directives*?
pub open spec fn g_input_value_definition(v: ParserView) -> ParserView {
    let v1 = p_start(v, SyntaxKind::INPUT_VALUE_DEFINITION);
    let v2 = if p_peek(v1) == TokenKind::StringValue {
        g_description(v1)
    } else {
        v1
    };
    let v3 = g_name(v2);
    let v4 = if p_peek(v3) == TokenKind::Colon {
        let v5 = p_bump(v3, SyntaxKind::COLON);
        if p_peek(v5) == TokenKind::Name || p_peek(v5) == TokenKind::LBracket {
            let v6 = g_type(v5);
            let v7 = if p_peek(v6) == TokenKind::Eq {
                g_default_value(v6)
            } else {
                v6
            };
            if p_peek(v7) == TokenKind::At {
                g_directives(v7, Constness::Const)
            } else {
                v7
            }
        } else {
            p_err(v5, "expected a Type"@)
        }
    } else {
        p_err(v3, "expected a Name"@)
    };
    p_finish(v4)
}

/// Input value definitions as long as a name or a string comes next.
pub open spec fn g_input_values_rest(v: ParserView) -> ParserView
    decreases remaining(v),
{
    if p_peek(v) == TokenKind::Name || p_peek(v) == TokenKind::StringValue {
        let r = g_input_value_definition(v);
        if advanced(v, r) {
            g_input_values_rest(r)
        } else {
            r
        }
    } else {
        v
    }
}

/// *ArgumentsDefinition*: `(` *InputValueDefinition*+ `)` (the current token
/// is `(`).
pub open spec fn g_arguments_definition(v: ParserView) -> ParserView {
    let v1 = p_bump(p_start(v, SyntaxKind::ARGUMENTS_DEFINITION), SyntaxKind::L_PAREN);
    let v2 = if p_peek(v1) == TokenKind::Name || p_peek(v1) == TokenKind::StringValue {
        g_input_value_definition(v1)
    } else {
        p_err(v1, "expected an Argument Definition"@)
    };
    p_finish(p_expect(g_input_values_rest(v2), TokenKind::RParen, SyntaxKind::R_PAREN, "expected R_PAREN"@))
}

// ---------------------------------------------------------------------------
// Directive locations and definitions

/// The keyword kind of a directive location name.
pub open spec fn location_keyword(data: Seq<char>) -> Option<SyntaxKind> {
    if data == "QUERY"@ {
        Some(SyntaxKind::QUERY_KW)
    } else if data == "MUTATION"@ {
        Some(SyntaxKind::MUTATION_KW)
    } else if data == "SUBSCRIPTION"@ {
        Some(SyntaxKind::SUBSCRIPTION_KW)
    } else if data == "FIELD"@ {
        Some(SyntaxKind::FIELD_KW)
    } else if data == "FRAGMENT_DEFINITION"@ {
        Some(SyntaxKind::FRAGMENT_DEFINITION_KW)
    } else if data == "FRAGMENT_SPREAD"@ {
        Some(SyntaxKind::FRAGMENT_SPREAD_KW)
    } else if data == "INLINE_FRAGMENT"@ {
        Some(SyntaxKind::INLINE_FRAGMENT_KW)
    } else if data == "VARIABLE_DEFINITION"@ {
        Some(SyntaxKind::VARIABLE_DEFINITION_KW)
    } else if data == "SCHEMA"@ {
        Some(SyntaxKind::SCHEMA_KW)
    } else if data == "SCALAR"@ {
        Some(SyntaxKind::SCALAR_KW)
    } else if data == "OBJECT"@ {
        Some(SyntaxKind::OBJECT_KW)
    } else if data == "FIELD_DEFINITION"@ {
        Some(SyntaxKind::FIELD_DEFINITION_KW)
    } else if data == "ARGUMENT_DEFINITION"@ {
        Some(SyntaxKind::ARGUMENT_DEFINITION_KW)
    } else if data == "INTERFACE"@ {
        Some(SyntaxKind::INTERFACE_KW)
    } else if data == "UNION"@ {
        Some(SyntaxKind::UNION_KW)
    } else if data == "ENUM"@ {
        Some(SyntaxKind::ENUM_KW)
    } else if data == "ENUM_VALUE"@ {
        Some(SyntaxKind::ENUM_VALUE_KW)
    } else if data == "INPUT_OBJECT"@ {
        Some(SyntaxKind::INPUT_OBJECT_KW)
    } else if data == "INPUT_FIELD_DEFINITION"@ {
        Some(SyntaxKind::INPUT_FIELD_DEFINITION_KW)
    } else {
        None
    }
}

/// *DirectiveLocation*: one of the location names, as a node holding its
/// keyword; any other token is an error and is left in place.
pub open spec fn g_directive_location(v: ParserView) -> ParserView {
    if p_peek(v) == TokenKind::Name {
        match location_keyword(p_data(v)) {
            Some(kind) => p_finish(p_bump(p_start(v, SyntaxKind::DIRECTIVE_LOCATION), kind)),
            None => p_err(v, "expected valid Directive Location"@),
        }
    } else {
        p_err(v, "expected Directive Location"@)
    }
}

/// `|` *DirectiveLocation* as long as `|` comes next.
pub open spec fn g_locations_rest(v: ParserView) -> ParserView
    decreases remaining(v),
{
    if p_peek(v) == TokenKind::Pipe && remaining(v) > 1 {
        g_locations_rest(g_directive_location(p_bump(v, SyntaxKind::PIPE)))
    } else {
        v
    }
}

/// *DirectiveLocations*: `|`? *DirectiveLocation* (`|` *DirectiveLocation*)\*
pub open spec fn g_directive_locations(v: ParserView) -> ParserView {
    let v1 = if p_peek(v) == TokenKind::Pipe {
        p_bump(v, SyntaxKind::PIPE)
    } else {
        v
    };
    g_locations_rest(g_directive_location(v1))
}

/// The start of a directive definition, up to its name: *Description*?
/// `directive` `@` *Name*
pub open spec fn g_definition_head(v: ParserView) -> ParserView {
    let v1 = p_start(v, SyntaxKind::DIRECTIVE_DEFINITION);
    let v2 = if p_peek(v1) == TokenKind::StringValue {
        g_description(v1)
    } else {
        v1
    };
    let v3 = if p_data(v2) == "directive"@ && p_peek(v2) != TokenKind::Eof {
        p_bump(v2, SyntaxKind::directive_KW)
    } else {
        v2
    };
    let v4 = if p_peek(v3) == TokenKind::At {
        p_bump(v3, SyntaxKind::AT)
    } else {
        p_err(v3, "expected @ symbol"@)
    };
    g_name(v4)
}

/// The rest of a directive definition: *ArgumentsDefinition*?
/// `repeatable`? `on` *DirectiveLocations*
pub open spec fn g_definition_tail(v5: ParserView) -> ParserView {
    let v6 = if p_peek(v5) == TokenKind::LParen {
        g_arguments_definition(v5)
    } else {
        v5
    };
    let v7 = if p_data(v6) == "repeatable"@ && p_peek(v6) != TokenKind::Eof {
        p_bump(v6, SyntaxKind::repeatable_KW)
    } else {
        v6
    };
    let v8 = if p_data(v7) == "on"@ && p_peek(v7) != TokenKind::Eof {
        p_bump(v7, SyntaxKind::on_KW)
    } else {
        p_err(v7, "expected Directive Locations"@)
    };
    let v9 = if p_peek(v8) == TokenKind::Name || p_peek(v8) == TokenKind::Pipe {
        p_finish(g_directive_locations(p_start(v8, SyntaxKind::DIRECTIVE_LOCATIONS)))
    } else {
        p_err(v8, "expected valid Directive Location"@)
    };
    p_finish(v9)
}

/// *DirectiveDefinition*: *Description*? `directive` `@` *Name*
/// *ArgumentsDefinition*? `repeatable`? `on` *DirectiveLocations*
pub open spec fn g_directive_definition(v: ParserView) -> ParserView {
    g_definition_tail(g_definition_head(v))
}

// ---------------------------------------------------------------------------
// Parsing functions

pub(crate) fn name(p: &mut Parser)
    requires
        parser_wf(old(p)@),
    ensures
        parser_wf(final(p)@),
        final(p)@ == g_name(old(p)@),
        follows(old(p)@, final(p)@),
{
    match p.peek() {
        TokenKind::Name => {
            p.start_node(SyntaxKind::NAME);
            p.bump(SyntaxKind::IDENT);
            p.finish_node();
        },
        _ => p.err("expected a Name"),
    }
}

pub(crate) fn description(p: &mut Parser)
    requires
        parser_wf(old(p)@),
        p_peek(old(p)@) == TokenKind::StringValue,
    ensures
        parser_wf(final(p)@),
        final(p)@ == g_description(old(p)@),
        advanced(old(p)@, final(p)@),
{
    p.start_node(SyntaxKind::DESCRIPTION);
    p.bump(SyntaxKind::STRING);
    p.finish_node();
}

pub(crate) fn ty(p: &mut Parser)
    requires
        parser_wf(old(p)@),
    ensures
        parser_wf(final(p)@),
        final(p)@ == g_type(old(p)@),
        follows(old(p)@, final(p)@),
    decreases remaining(old(p)@),
{
    let checkpoint = p.checkpoint();
    match p.peek() {
        TokenKind::LBracket => {
            p.start_node(SyntaxKind::LIST_TYPE);
            p.bump(SyntaxKind::L_BRACK);
            ty(p);
            p.expect(TokenKind::RBracket, SyntaxKind::R_BRACK, "expected R_BRACK");
            p.finish_node();
        },
        TokenKind::Name => {
            p.start_node(SyntaxKind::NAMED_TYPE);
            name(p);
            p.finish_node();
        },
        _ => p.err("expected a type"),
    }
    if p.peek() == TokenKind::Bang {
        p.wrap_node(checkpoint, SyntaxKind::NON_NULL_TYPE);
        p.bump(SyntaxKind::BANG);
        p.finish_node();
    }
}

pub(crate) fn value(p: &mut Parser, constness: Constness)
    requires
        parser_wf(old(p)@),
    ensures
        parser_wf(final(p)@),
        final(p)@ == g_value(old(p)@, constness),
        follows(old(p)@, final(p)@),
        p_peek(old(p)@) != TokenKind::Eof ==> advanced(old(p)@, final(p)@),
    decreases remaining(old(p)@), 0int,
{
    proof {
        reveal_strlit("true");
        reveal_strlit("false");
        reveal_strlit("null");
    }
    match p.peek() {
        TokenKind::Dollar => {
            if constness == Constness::Const {
                p.err("unexpected variable value in a Const context");
            }
            p.start_node(SyntaxKind::VARIABLE);
            p.bump(SyntaxKind::DOLLAR);
            name(p);
            p.finish_node();
        },
        TokenKind::StringValue => {
            p.start_node(SyntaxKind::STRING_VALUE);
            p.bump(SyntaxKind::STRING);
            p.finish_node();
        },
        TokenKind::Int => {
            p.start_node(SyntaxKind::INT_VALUE);
            p.bump(SyntaxKind::INT);
            p.finish_node();
        },
        TokenKind::Float => {
            p.start_node(SyntaxKind::FLOAT_VALUE);
            p.bump(SyntaxKind::FLOAT);
            p.finish_node();
        },
        TokenKind::Name => {
            if p.peek_data_is("true") {
                p.start_node(SyntaxKind::BOOLEAN_VALUE);
                p.bump(SyntaxKind::true_KW);
                p.finish_node();
            } else if p.peek_data_is("false") {
                p.start_node(SyntaxKind::BOOLEAN_VALUE);
                p.bump(SyntaxKind::false_KW);
                p.finish_node();
            } else if p.peek_data_is("null") {
                p.start_node(SyntaxKind::NULL_VALUE);
                p.bump(SyntaxKind::null_KW);
                p.finish_node();
            } else {
                p.start_node(SyntaxKind::ENUM_VALUE);
                name(p);
                p.finish_node();
            }
        },
        TokenKind::LBracket => {
            p.start_node(SyntaxKind::LIST_VALUE);
            p.bump(SyntaxKind::L_BRACK);
            list_rest(p, constness);
            p.finish_node();
        },
        TokenKind::LCurly => {
            p.start_node(SyntaxKind::OBJECT_VALUE);
            p.bump(SyntaxKind::L_CURLY);
            object_rest(p, constness);
            p.finish_node();
        },
        TokenKind::Eof => p.err("expected a valid Value"),
        _ => p.err_and_pop("expected a valid Value"),
    }
}

/// The items of a list value up to and with its closing bracket.
fn list_rest(p: &mut Parser, constness: Constness)
    requires
        parser_wf(old(p)@),
    ensures
        parser_wf(final(p)@),
        final(p)@ == g_list_rest(old(p)@, constness),
        follows(old(p)@, final(p)@),
    decreases remaining(old(p)@), 2int,
{
    loop
        invariant
            parser_wf(p@),
            follows(old(p)@, p@),
            g_list_rest(p@, constness) == g_list_rest(old(p)@, constness),
        decreases remaining(p@),
    {
        match p.peek() {
            TokenKind::RBracket => {
                p.bump(SyntaxKind::R_BRACK);
                return;
            },
            TokenKind::Eof => {
                p.err("expected R_BRACK");
                return;
            },
            _ => value(p, constness),
        }
    }
}

fn object_field(p: &mut Parser, constness: Constness)
    requires
        parser_wf(old(p)@),
        p_peek(old(p)@) == TokenKind::Name,
    ensures
        parser_wf(final(p)@),
        final(p)@ == g_object_field(old(p)@, constness),
        advanced(old(p)@, final(p)@),
    decreases remaining(old(p)@), 1int,
{
    p.start_node(SyntaxKind::OBJECT_FIELD);
    name(p);
    p.expect(TokenKind::Colon, SyntaxKind::COLON, "expected a Colon");
    value(p, constness);
    p.finish_node();
}

/// The fields of an object value up to and with its closing brace.
fn object_rest(p: &mut Parser, constness: Constness)
    requires
        parser_wf(old(p)@),
    ensures
        parser_wf(final(p)@),
        final(p)@ == g_object_rest(old(p)@, constness),
        follows(old(p)@, final(p)@),
    decreases remaining(old(p)@), 2int,
{
    loop
        invariant
            parser_wf(p@),
            follows(old(p)@, p@),
            g_object_rest(p@, constness) == g_object_rest(old(p)@, constness),
        decreases remaining(p@),
    {
        match p.peek() {
            TokenKind::RCurly => {
                p.bump(SyntaxKind::R_CURLY);
                return;
            },
            TokenKind::Eof => {
                p.err("expected R_CURLY");
                return;
            },
            TokenKind::Name => object_field(p, constness),
            _ => p.err_and_pop("expected an Object Field"),
        }
    }
}

fn default_value(p: &mut Parser)
    requires
        parser_wf(old(p)@),
        p_peek(old(p)@) == TokenKind::Eq,
    ensures
        parser_wf(final(p)@),
        final(p)@ == g_default_value(old(p)@),
        advanced(old(p)@, final(p)@),
{
    p.start_node(SyntaxKind::DEFAULT_VALUE);
    p.bump(SyntaxKind::EQ);
    value(p, Constness::Const);
    p.finish_node();
}

fn argument(p: &mut Parser, constness: Constness)
    requires
        parser_wf(old(p)@),
    ensures
        parser_wf(final(p)@),
        final(p)@ == g_argument(old(p)@, constness),
        follows(old(p)@, final(p)@),
        p_peek(old(p)@) == TokenKind::Name ==> advanced(old(p)@, final(p)@),
{
    p.start_node(SyntaxKind::ARGUMENT);
    name(p);
    p.expect(TokenKind::Colon, SyntaxKind::COLON, "expected a Colon");
    value(p, constness);
    p.finish_node();
}

pub(crate) fn arguments(p: &mut Parser, constness: Constness)
    requires
        parser_wf(old(p)@),
        p_peek(old(p)@) == TokenKind::LParen,
    ensures
        parser_wf(final(p)@),
        final(p)@ == g_arguments(old(p)@, constness),
        advanced(old(p)@, final(p)@),
{
    p.start_node(SyntaxKind::ARGUMENTS);
    p.bump(SyntaxKind::L_PAREN);
    if p.peek() == TokenKind::Name {
        argument(p, constness);
    } else {
        p.err("expected an Argument");
    }
    let ghost mid = p@;
    while p.peek() == TokenKind::Name
        invariant
            parser_wf(p@),
            follows(mid, p@),
            follows(old(p)@, mid),
            old(p)@.pos < mid.pos,
            g_arguments_rest(p@, constness) == g_arguments_rest(mid, constness),
        decreases remaining(p@),
    {
        argument(p, constness);
    }
    p.expect(TokenKind::RParen, SyntaxKind::R_PAREN, "expected R_PAREN");
    p.finish_node();
}

/// See: https://spec.graphql.org/October2021/#Directive
///
/// *Directive[Const]*:
///     **@** Name Arguments[?Const]?
pub fn directive(p: &mut Parser, constness: Constness)
    requires
        parser_wf(old(p)@),
    ensures
        parser_wf(final(p)@),
        final(p)@ == g_directive(old(p)@, constness),
        follows(old(p)@, final(p)@),
        p_peek(old(p)@) == TokenKind::At ==> advanced(old(p)@, final(p)@),
{
    p.start_node(SyntaxKind::DIRECTIVE);

    p.expect(TokenKind::At, SyntaxKind::AT, "expected @");
    name(p);

    if p.peek() == TokenKind::LParen {
        arguments(p, constness);
    }
    p.finish_node();
}

/// See: https://spec.graphql.org/October2021/#Directives
///
/// *Directives[Const]*:
///     Directive[?Const]*
///
/// Every directive in a row is read: afterwards the current token is no `@`.
pub fn directives(p: &mut Parser, constness: Constness)
    requires
        parser_wf(old(p)@),
    ensures
        parser_wf(final(p)@),
        final(p)@ == g_directives(old(p)@, constness),
        follows(old(p)@, final(p)@),
        p_peek(final(p)@) != TokenKind::At,
{
    p.start_node(SyntaxKind::DIRECTIVES);
    let ghost mid = p@;
    while p.peek() == TokenKind::At
        invariant
            parser_wf(p@),
            follows(mid, p@),
            follows(old(p)@, mid),
            g_directives_rest(p@, constness) == g_directives_rest(mid, constness),
        decreases remaining(p@),
    {
        directive(p, constness);
    }
    p.finish_node();
}

pub(crate) fn input_value_definition(p: &mut Parser)
    requires
        parser_wf(old(p)@),
    ensures
        parser_wf(final(p)@),
        final(p)@ == g_input_value_definition(old(p)@),
        follows(old(p)@, final(p)@),
        p_peek(old(p)@) == TokenKind::Name || p_peek(old(p)@) == TokenKind::StringValue ==> advanced(
            old(p)@,
            final(p)@,
        ),
{
    p.start_node(SyntaxKind::INPUT_VALUE_DEFINITION);
    if p.peek() == TokenKind::StringValue {
        description(p);
    }
    name(p);
    if p.peek() == TokenKind::Colon {
        p.bump(SyntaxKind::COLON);
        match p.peek() {
            TokenKind::Name | TokenKind::LBracket => {
                ty(p);
                if p.peek() == TokenKind::Eq {
                    default_value(p);
                }
                if p.peek() == TokenKind::At {
                    directives(p, Constness::Const);
                }
            },
            _ => p.err("expected a Type"),
        }
    } else {
        p.err("expected a Name");
    }
    p.finish_node();
}

/// *ArgumentsDefinition*: `(` *InputValueDefinition*+ `)`
fn arguments_definition(p: &mut Parser)
    requires
        parser_wf(old(p)@),
        p_peek(old(p)@) == TokenKind::LParen,
    ensures
        parser_wf(final(p)@),
        final(p)@ == g_arguments_definition(old(p)@),
        follows(old(p)@, final(p)@),
{
    p.start_node(SyntaxKind::ARGUMENTS_DEFINITION);
    p.bump(SyntaxKind::L_PAREN);
    match p.peek() {
        TokenKind::Name | TokenKind::StringValue => input_value_definition(p),
        _ => p.err("expected an Argument Definition"),
    }
    let ghost mid = p@;
    while p.peek() == TokenKind::Name || p.peek() == TokenKind::StringValue
        invariant
            parser_wf(p@),
            follows(mid, p@),
            follows(old(p)@, mid),
            g_input_values_rest(p@) == g_input_values_rest(mid),
        decreases remaining(p@),
    {
        input_value_definition(p);
    }
    p.expect(TokenKind::RParen, SyntaxKind::R_PAREN, "expected R_PAREN");
    p.finish_node();
}

/// Maps the name of a directive location to its keyword kind.
fn location_kind(p: &Parser) -> (r: Option<SyntaxKind>)
    requires
        parser_wf(p@),
    ensures
        r == location_keyword(p_data(p@)),
{
    if p.peek_data_is("QUERY") {
        Some(SyntaxKind::QUERY_KW)
    } else if p.peek_data_is("MUTATION") {
        Some(SyntaxKind::MUTATION_KW)
    } else if p.peek_data_is("SUBSCRIPTION") {
        Some(SyntaxKind::SUBSCRIPTION_KW)
    } else if p.peek_data_is("FIELD") {
        Some(SyntaxKind::FIELD_KW)
    } else if p.peek_data_is("FRAGMENT_DEFINITION") {
        Some(SyntaxKind::FRAGMENT_DEFINITION_KW)
    } else if p.peek_data_is("FRAGMENT_SPREAD") {
        Some(SyntaxKind::FRAGMENT_SPREAD_KW)
    } else if p.peek_data_is("INLINE_FRAGMENT") {
        Some(SyntaxKind::INLINE_FRAGMENT_KW)
    } else if p.peek_data_is("VARIABLE_DEFINITION") {
        Some(SyntaxKind::VARIABLE_DEFINITION_KW)
    } else if p.peek_data_is("SCHEMA") {
        Some(SyntaxKind::SCHEMA_KW)
    } else if p.peek_data_is("SCALAR") {
        Some(SyntaxKind::SCALAR_KW)
    } else if p.peek_data_is("OBJECT") {
        Some(SyntaxKind::OBJECT_KW)
    } else if p.peek_data_is("FIELD_DEFINITION") {
        Some(SyntaxKind::FIELD_DEFINITION_KW)
    } else if p.peek_data_is("ARGUMENT_DEFINITION") {
        Some(SyntaxKind::ARGUMENT_DEFINITION_KW)
    } else if p.peek_data_is("INTERFACE") {
        Some(SyntaxKind::INTERFACE_KW)
    } else if p.peek_data_is("UNION") {
        Some(SyntaxKind::UNION_KW)
    } else if p.peek_data_is("ENUM") {
        Some(SyntaxKind::ENUM_KW)
    } else if p.peek_data_is("ENUM_VALUE") {
        Some(SyntaxKind::ENUM_VALUE_KW)
    } else if p.peek_data_is("INPUT_OBJECT") {
        Some(SyntaxKind::INPUT_OBJECT_KW)
    } else if p.peek_data_is("INPUT_FIELD_DEFINITION") {
        Some(SyntaxKind::INPUT_FIELD_DEFINITION_KW)
    } else {
        None
    }
}

/// https://spec.graphql.org/October2021/#DirectiveLocation
///
/// *DirectiveLocation*:
///     *ExecutableDirectiveLocation*
///     *TypeSystemDirectiveLocation*
///
/// (This function does not distinguish between the two groups of
/// locations.)
pub fn directive_location(p: &mut Parser)
    requires
        parser_wf(old(p)@),
    ensures
        parser_wf(final(p)@),
        final(p)@ == g_directive_location(old(p)@),
        follows(old(p)@, final(p)@),
{
    let token = p.peek_token();
    if token.kind == TokenKind::Name {
        match location_kind(p) {
            Some(kind) => {
                p.start_node(SyntaxKind::DIRECTIVE_LOCATION);
                p.bump(kind);
                p.finish_node();
            },
            None => {
                p.err("expected valid Directive Location");
            },
        }
    } else {
        p.err("expected Directive Location");
    }
}

/// See: https://spec.graphql.org/October2021/#DirectiveLocations
///
/// *DirectiveLocations*:
///     DirectiveLocations **|** DirectiveLocation
///     **|**? DirectiveLocation
pub fn directive_locations(p: &mut Parser)
    requires
        parser_wf(old(p)@),
    ensures
        parser_wf(final(p)@),
        final(p)@ == g_directive_locations(old(p)@),
        follows(old(p)@, final(p)@),
{
    // A list separated by `|`, with an optional leading `|`.
    if p.peek() == TokenKind::Pipe {
        p.bump(SyntaxKind::PIPE);
    }
    directive_location(p);
    let ghost mid = p@;
    while p.peek() == TokenKind::Pipe
        invariant
            parser_wf(p@),
            follows(mid, p@),
            follows(old(p)@, mid),
            g_locations_rest(p@) == g_locations_rest(mid),
        decreases remaining(p@),
    {
        p.bump(SyntaxKind::PIPE);
        directive_location(p);
    }
}

/// See: https://spec.graphql.org/October2021/#DirectiveDefinition
///
/// *DirectiveDefinition*:
///     Description? **directive @** Name ArgumentsDefinition? **repeatable**? **on** DirectiveLocations
#[verifier::rlimit(60)]
pub fn directive_definition(p: &mut Parser)
    requires
        parser_wf(old(p)@),
    ensures
        parser_wf(final(p)@),
        final(p)@ == g_directive_definition(old(p)@),
        follows(old(p)@, final(p)@),
{
    p.start_node(SyntaxKind::DIRECTIVE_DEFINITION);

    if p.peek() == TokenKind::StringValue {
        description(p);
    }

    if p.peek_data_is("directive") && p.peek() != TokenKind::Eof {
        p.bump(SyntaxKind::directive_KW);
    }

    match p.peek() {
        TokenKind::At => p.bump(SyntaxKind::AT),
        _ => p.err("expected @ symbol"),
    }
    name(p);
    assert(p@ == g_definition_head(old(p)@));
    let ghost head = p@;

    if p.peek() == TokenKind::LParen {
        arguments_definition(p);
    }

    if p.peek_data_is("repeatable") && p.peek() != TokenKind::Eof {
        p.bump(SyntaxKind::repeatable_KW);
    }

    if p.peek_data_is("on") && p.peek() != TokenKind::Eof {
        p.bump(SyntaxKind::on_KW);
    } else {
        p.err("expected Directive Locations");
    }

    match p.peek() {
        TokenKind::Name | TokenKind::Pipe => {
            p.start_node(SyntaxKind::DIRECTIVE_LOCATIONS);
            directive_locations(p);
            p.finish_node();
        },
        _ => p.err("expected valid Directive Location"),
    }
    p.finish_node();
    assert(p@ == g_definition_tail(head));
}

} // verus!
