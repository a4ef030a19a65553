//! Serialization of syntax trees to GraphQL text.
//!
//! With an indentation prefix (the default is two spaces), blocks are written
//! one item per line, each line starting with the prefix repeated once per
//! level of nesting. Without one, everything is written on a single line.
use vstd::prelude::*;
use crate::ast::{
    Definition, Directive, DirectiveDefinition, DirectiveLocation, Document, EnumTypeDefinition, EnumTypeExtension,
    EnumValueDefinition, Field, FieldDefinition, FragmentDefinition, FragmentSpread, InlineFragment,
    InputObjectTypeDefinition, InputObjectTypeExtension, InputValueDefinition,
    InterfaceTypeDefinition, InterfaceTypeExtension, ObjectTypeDefinition, ObjectTypeExtension,
    OperationDefinition, OperationType, ScalarTypeDefinition, ScalarTypeExtension, SchemaDefinition,
    SchemaExtension, Selection, Type, UnionTypeDefinition, UnionTypeExtension, Value,
    VariableDefinition,
};
use crate::render::{
    arguments_definition_fit, arguments_definition_text, arguments_fit, arguments_text, comma_block,
    concat, curly_block, default_value_fits, default_value_text, definition_fits, definition_text,
    definitions_text, description_text, digit_char, directive_definition_fits,
    directive_definition_text, directive_fits, directive_pieces, directive_text, directives_fit,
    directives_text, document_fits, document_text, enum_body_fits, enum_body_text, enum_value_fits,
    enum_value_text, enum_values_fit, enum_values_text, escaped_text,
    field_definition_fits, field_definition_text, field_definitions_fit, field_definitions_text,
    field_fits, field_text, fragment_definition_fits, fragment_definition_text,
    hex_digit, inline_fragment_fits, inline_fragment_text, input_object_body_fits,
    input_object_body_text, input_value_fits, input_value_text, input_values_fit,
    input_values_text, int_text, is_shorthand, join, lemma_concat_step, lemma_escaped_text_step,
    lemma_join_first, lemma_join_step, lemma_named_values_text, lemma_repeat_step,
    lemma_selections_text, lemma_values_text, line_break, location_names, locations_text,
    multiline_argument, name_texts, named_values_fit, named_values_text, nat_text, object_like_fits, object_like_text, operation_fits, operation_header_text, operation_text, prefix_view, repeat_text,
    root_operation_text, root_operations_text, schema_body_fits, schema_body_text, selection_fits,
    selection_set_text, selection_text, selections_fit, selections_text,
    string_text, type_text, union_body_text, value_fits, value_text, values_fit, values_text,
    variable_fits, variable_text, variables_fit, variables_text,
};

verus! {

broadcast use vstd::string::group_string_axioms;

/// Serialization options.
pub struct Config<'a> {
    pub(crate) ident_prefix: Option<&'a str>,
}

impl<'a> Config<'a> {
    /// The indentation prefix, or `None` when line breaks are disabled.
    pub closed spec fn prefix(&self) -> Option<Seq<char>> {
        prefix_view(self.ident_prefix)
    }
}

impl<'a> Default for Config<'a> {
    /// Indentation by two spaces.
    fn default() -> (c: Self)
        ensures
            c.prefix() == Some("  "@),
    {
        Config { ident_prefix: Some("  ") }
    }
}

/// The output being written, with the indentation level and the options.
pub struct State<'c> {
    config: Config<'c>,
    indent_level: usize,
    output: String,
}

impl<'c> State<'c> {
    /// The indentation prefix, or `None` when line breaks are disabled.
    pub closed spec fn cfg(&self) -> Option<Seq<char>> {
        prefix_view(self.config.ident_prefix)
    }

    /// The current indentation level.
    pub closed spec fn level(&self) -> nat {
        self.indent_level as nat
    }

    /// What has been written so far.
    pub closed spec fn text(&self) -> Seq<char> {
        self.output@
    }

    /// `new` is `old` with `t` written, at the same level and with the same
    /// options.
    pub closed spec fn wrote(old: State<'c>, new: State<'c>, t: Seq<char>) -> bool {
        &&& new.output@ == old.output@ + t
        &&& new.config.ident_prefix == old.config.ident_prefix
        &&& new.indent_level == old.indent_level
    }

    fn write(&mut self, str: &str)
        ensures
            State::wrote(*old(self), *final(self), str@),
    {
        self.output.append(str);
    }

    fn indent(&mut self)
        requires
            old(self).indent_level < usize::MAX,
        ensures
            final(self).output@ == old(self).output@ + line_break(
                old(self).cfg(),
                old(self).level() + 1,
                false,
            ),
            final(self).indent_level == old(self).indent_level + 1,
            final(self).config.ident_prefix == old(self).config.ident_prefix,
    {
        self.indent_level += 1;
        self.new_line_common(false)
    }

    fn indent_or_space(&mut self)
        requires
            old(self).indent_level < usize::MAX,
        ensures
            final(self).output@ == old(self).output@ + line_break(
                old(self).cfg(),
                old(self).level() + 1,
                true,
            ),
            final(self).indent_level == old(self).indent_level + 1,
            final(self).config.ident_prefix == old(self).config.ident_prefix,
    {
        self.indent_level += 1;
        self.new_line_common(true)
    }

    fn dedent(&mut self)
        requires
            old(self).indent_level > 0,
        ensures
            final(self).output@ == old(self).output@ + line_break(
                old(self).cfg(),
                (old(self).level() - 1) as nat,
                false,
            ),
            final(self).indent_level == old(self).indent_level - 1,
            final(self).config.ident_prefix == old(self).config.ident_prefix,
    {
        self.indent_level -= 1;
        self.new_line_common(false)
    }

    fn dedent_or_space(&mut self)
        requires
            old(self).indent_level > 0,
        ensures
            final(self).output@ == old(self).output@ + line_break(
                old(self).cfg(),
                (old(self).level() - 1) as nat,
                true,
            ),
            final(self).indent_level == old(self).indent_level - 1,
            final(self).config.ident_prefix == old(self).config.ident_prefix,
    {
        self.indent_level -= 1;
        self.new_line_common(true)
    }

    fn new_line_or_space(&mut self)
        ensures
            State::wrote(*old(self), *final(self), line_break(old(self).cfg(), old(self).level(), true)),
    {
        self.new_line_common(true)
    }

    fn new_line_common(&mut self, space: bool)
        ensures
            State::wrote(*old(self), *final(self), line_break(old(self).cfg(), old(self).level(), space)),
    {
        if let Some(prefix) = self.config.ident_prefix {
            self.write("\n");
            proof {
                reveal_strlit("\n");
            }
            let ghost start = self.output@;
            let mut i: usize = 0;
            while i < self.indent_level
                invariant
                    i <= self.indent_level,
                    self.output@ == start + repeat_text(prefix@, i as nat),
                    self.config.ident_prefix == old(self).config.ident_prefix,
                    self.indent_level == old(self).indent_level,
                    self.config.ident_prefix == Some(prefix),
                    start == old(self).output@ + seq!['\n'],
                decreases self.indent_level - i,
            {
                proof {
                    lemma_repeat_step(prefix@, i as nat);
                }
                self.write(prefix);
                i += 1;
            }
            assert(self.output@ =~= old(self).output@ + line_break(
                old(self).cfg(),
                old(self).level(),
                space,
            ));
        } else if space {
            self.write(" ");
            proof {
                reveal_strlit(" ");
            }
        }
        assert(self.output@ =~= old(self).output@ + line_break(old(self).cfg(), old(self).level(), space));
    }

    fn newlines_enabled(&self) -> (r: bool)
        ensures
            r == self.cfg() is Some,
    {
        self.config.ident_prefix.is_some()
    }

    /// Writes a comma-separated list with line breaks disabled, whatever the
    /// options say.
    fn on_single_line(&mut self, open: &str, close: &str, items: CommaItems<'_>)
        requires
            comma_fits(items, old(self).level()),
        ensures
            State::wrote(
                *old(self),
                *final(self),
                comma_block(None, old(self).level(), open@, close@, comma_texts(items, None, old(self).level() + 1)),
            ),
        decreases usize::MAX - old(self).indent_level, 1int,
    {
        let indent_prefix = self.config.ident_prefix.take();
        assert(self.cfg() is None);
        comma_separated(self, open, close, items);
        self.config.ident_prefix = indent_prefix;
    }
}

/// `String::push`: the string with `c` appended.
#[verifier::external_body]
pub(crate) fn push_char(s: &mut String, c: char)
    ensures
        final(s)@ == old(s)@.push(c),
{
    s.push(c);
}

impl<'c> State<'c> {
    fn write_char(&mut self, c: char)
        ensures
            State::wrote(*old(self), *final(self), seq![c]),
    {
        push_char(&mut self.output, c);
        assert(self.output@ =~= old(self).output@ + seq![c]);
    }
}

// ---------------------------------------------------------------------------
// Lists

/// The items of a comma-separated list.
#[derive(Clone, Copy)]
enum CommaItems<'a> {
    Variables(&'a [VariableDefinition]),
    InputValues(&'a [InputValueDefinition]),
    NamedValues(&'a [(String, Value)]),
    Values(&'a [Value]),
}

spec fn comma_len(items: CommaItems) -> nat {
    match items {
        CommaItems::Variables(s) => s@.len(),
        CommaItems::InputValues(s) => s@.len(),
        CommaItems::NamedValues(s) => s@.len(),
        CommaItems::Values(s) => s@.len(),
    }
}

spec fn comma_texts(items: CommaItems, cfg: Option<Seq<char>>, lvl: nat) -> Seq<Seq<char>> {
    match items {
        CommaItems::Variables(s) => variables_text(s@, cfg, lvl),
        CommaItems::InputValues(s) => input_values_text(s@, cfg, lvl),
        CommaItems::NamedValues(s) => named_values_text(s@, cfg, lvl),
        CommaItems::Values(s) => values_text(s@, cfg, lvl),
    }
}

/// The items fit when written one level deeper than `lvl`.
spec fn comma_items_fit(items: CommaItems, lvl: nat) -> bool {
    match items {
        CommaItems::Variables(s) => variables_fit(s@, lvl),
        CommaItems::InputValues(s) => input_values_fit(s@, lvl),
        CommaItems::NamedValues(s) => named_values_fit(s@, lvl),
        CommaItems::Values(s) => values_fit(s@, lvl),
    }
}

spec fn comma_fits(items: CommaItems, lvl: nat) -> bool {
    comma_len(items) == 0 || (lvl < usize::MAX && comma_items_fit(items, lvl + 1))
}

proof fn lemma_comma_texts(items: CommaItems, cfg: Option<Seq<char>>, lvl: nat)
    ensures
        comma_texts(items, cfg, lvl).len() == comma_len(items),
{
    match items {
        CommaItems::NamedValues(s) => lemma_named_values_text(s@, cfg, lvl),
        CommaItems::Values(s) => lemma_values_text(s@, cfg, lvl),
        _ => {},
    }
}

impl<'a> CommaItems<'a> {
    fn len(&self) -> (n: usize)
        ensures
            n == comma_len(*self),
    {
        match self {
            CommaItems::Variables(s) => s.len(),
            CommaItems::InputValues(s) => s.len(),
            CommaItems::NamedValues(s) => s.len(),
            CommaItems::Values(s) => s.len(),
        }
    }
}

/// Writes item `i` of a comma-separated list.
fn serialize_comma_item(state: &mut State, items: CommaItems<'_>, i: usize)
    requires
        i < comma_len(items),
        comma_items_fit(items, old(state).level()),
    ensures
        State::wrote(*old(state), *final(state), comma_texts(items, old(state).cfg(), old(state).level())[i as int]),
    decreases usize::MAX - old(state).indent_level, 9int,
{
    match items {
        CommaItems::Variables(s) => {
            assert(variable_fits(s@[i as int], state.level()));
            s[i].serialize_impl(state);
        },
        CommaItems::InputValues(s) => {
            assert(input_value_fits(s@[i as int], state.level()));
            s[i].serialize_impl(state);
        },
        CommaItems::NamedValues(s) => {
            proof {
                lemma_named_values_text(s@, state.cfg(), state.level());
                reveal_strlit(": ");
            }
            assert(value_fits(s@[i as int].1, state.level()));
            let (name, value) = &s[i];
            state.write(name.as_str());
            state.write(": ");
            value.serialize_impl(state);
            assert(state.output@ =~= old(state).output@ + comma_texts(items, old(state).cfg(), old(state).level())[i as int]);
        },
        CommaItems::Values(s) => {
            proof {
                lemma_values_text(s@, state.cfg(), state.level());
            }
            assert(value_fits(s@[i as int], state.level()));
            s[i].serialize_impl(state);
        },
    }
}

/// Example output: `[a, b, c]` or
///
/// ```text
/// [
///     a,
///     b,
///     c,
/// ]
/// ```
fn comma_separated(state: &mut State, open: &str, close: &str, items: CommaItems<'_>)
    requires
        comma_fits(items, old(state).level()),
    ensures
        State::wrote(
            *old(state),
            *final(state),
            comma_block(old(state).cfg(), old(state).level(), open@, close@, comma_texts(items, old(state).cfg(), old(state).level() + 1)),
        ),
    decreases usize::MAX - old(state).indent_level, 0int,
{
    let ghost cfg = state.cfg();
    let ghost lvl = state.level();
    let ghost texts = comma_texts(items, cfg, lvl + 1);
    let ghost sep = seq![','] + line_break(cfg, lvl + 1, true);
    proof {
        lemma_comma_texts(items, cfg, lvl + 1);
        reveal_strlit(",");
    }
    state.write(open);
    let n = items.len();
    if n > 0 {
        state.indent();
        let ghost start = state.output@;
        serialize_comma_item(state, items, 0);
        proof {
            lemma_join_first(texts, sep);
        }
        let mut i: usize = 1;
        while i < n
            invariant
                1 <= i <= n,
                n == comma_len(items),
                texts.len() == n,
                texts == comma_texts(items, cfg, lvl + 1),
                sep == seq![','] + line_break(cfg, lvl + 1, true),
                comma_items_fit(items, lvl + 1),
                state.cfg() == cfg,
                state.level() == lvl + 1,
                lvl == old(state).level(),
                state.config.ident_prefix == old(state).config.ident_prefix,
                state.output@ == start + join(texts.take(i as int), sep),
            decreases n - i,
        {
            proof {
                lemma_join_step(texts, sep, i as int);
                reveal_strlit(",");
            }
            state.write(",");
            state.new_line_or_space();
            serialize_comma_item(state, items, i);
            assert(state.output@ =~= start + join(texts.take(i + 1), sep));
            i += 1;
        }
        assert(texts.take(n as int) =~= texts);
        // Trailing comma
        if state.newlines_enabled() {
            state.write(",");
        }
        state.dedent();
    }
    state.write(close);
    assert(state.output@ =~= old(state).output@ + comma_block(cfg, lvl, open@, close@, texts));
}

// ---------------------------------------------------------------------------
// Scalars

fn hex_digit_char(d: u32) -> (c: char)
    requires
        d < 16,
    ensures
        c == hex_digit(d as int),
{
    if d < 10 {
        ((d + 48) as u8) as char
    } else {
        ((d + 55) as u8) as char
    }
}

fn serialize_string_value(state: &mut State, str: &str)
    ensures
        State::wrote(*old(state), *final(state), string_text(str@)),
{
    // Always a quoted string, never a block string: the parsed value of a
    // block string cannot have non-\n control characters, leading or trailing
    // empty lines, or a common indent (they would be lost when reparsing).
    state.write("\"");
    let ghost start = state.output@;
    for c in it: str.chars()
        invariant
            state.output@ == start + escaped_text(str@.take(it.index() as int)),
            state.config.ident_prefix == old(state).config.ident_prefix,
            state.indent_level == old(state).indent_level,
            it.seq() == str@,
    {
        proof {
            lemma_escaped_text_step(str@, it.index() as int);
            reveal_strlit("\\b");
            reveal_strlit("\\n");
            reveal_strlit("\\f");
            reveal_strlit("\\r");
            reveal_strlit("\\\"");
            reveal_strlit("\\\\");
            reveal_strlit("\\u00");
        }
        if c == '\x08' {
            state.write("\\b");
        } else if c == '\n' {
            state.write("\\n");
        } else if c == '\x0C' {
            state.write("\\f");
        } else if c == '\r' {
            state.write("\\r");
        } else if c == '"' {
            state.write("\\\"");
        } else if c == '\\' {
            state.write("\\\\");
        } else if (c as u32) < 0x20 && c != '\t' {
            state.write("\\u00");
            let code = c as u32;
            state.write_char(hex_digit_char(code / 16));
            state.write_char(hex_digit_char(code % 16));
        } else {
            state.write_char(c);
        }
    }
    assert(str@.take(str@.len() as int) =~= str@);
    state.write("\"");
    proof {
        reveal_strlit("\"");
    }
    assert(state.output@ =~= old(state).output@ + string_text(str@));
}

fn serialize_description(state: &mut State, description: &Option<String>)
    ensures
        State::wrote(*old(state), *final(state), description_text(*description, old(state).cfg(), old(state).level())),
{
    if let Some(description) = description {
        serialize_string_value(state, description.as_str());
        state.new_line_or_space();
    }
    assert(state.output@ =~= old(state).output@ + description_text(*description, old(state).cfg(), old(state).level()));
}

fn write_nat(state: &mut State, n: u32)
    ensures
        State::wrote(*old(state), *final(state), nat_text(n as nat)),
    decreases n,
{
    if n >= 10 {
        write_nat(state, n / 10);
    }
    let d = n % 10;
    state.write_char(((d + 48) as u8) as char);
    assert(((d + 48) as u8) as char == digit_char(d as int));
    assert(state.output@ =~= old(state).output@ + nat_text(n as nat));
}

fn write_int(state: &mut State, i: i32)
    ensures
        State::wrote(*old(state), *final(state), int_text(i as int)),
{
    if i < 0 {
        state.write("-");
        proof {
            reveal_strlit("-");
        }
        let magnitude: i64 = -(i as i64);
        write_nat(state, magnitude as u32);
    } else {
        write_nat(state, i as u32);
    }
    assert(state.output@ =~= old(state).output@ + int_text(i as int));
}

/// Whether the text holds a decimal point.
fn contains_point(s: &str) -> (r: bool)
    ensures
        r == s@.contains('.'),
{
    for c in it: s.chars()
        invariant
            it.seq() == s@,
            forall|j: int| 0 <= j < it.index() ==> s@[j] != '.',
    {
        if c == '.' {
            return true;
        }
    }
    false
}

impl Type {
    /// The GraphQL text of the type: its name, `[` and `]` around a list's
    /// item type, and `!` after a non-null type.
    pub fn to_string(&self) -> (r: String)
        ensures
            r@ == type_text(*self),
    {
        let mut state = State { config: Config { ident_prefix: None }, indent_level: 0, output: String::new() };
        self.serialize_impl(&mut state);
        assert(state.output@ =~= type_text(*self));
        state.output
    }

    fn serialize_impl(&self, state: &mut State)
        ensures
            State::wrote(*old(state), *final(state), type_text(*self)),
        decreases self,
    {
        proof {
            reveal_strlit("!");
            reveal_strlit("[");
            reveal_strlit("]");
            reveal_strlit("]!");
        }
        match self {
            Type::Named(name) => state.write(name.as_str()),
            Type::NonNullNamed(name) => {
                state.write(name.as_str());
                state.write("!");
            },
            Type::List(inner) => {
                state.write("[");
                inner.serialize_impl(state);
                state.write("]");
            },
            Type::NonNullList(inner) => {
                state.write("[");
                inner.serialize_impl(state);
                state.write("]!");
            },
        }
        assert(state.output@ =~= old(state).output@ + type_text(*self));
    }
}

impl Value {
    fn serialize_impl(&self, state: &mut State)
        requires
            value_fits(*self, old(state).level()),
        ensures
            State::wrote(*old(state), *final(state), value_text(*self, old(state).cfg(), old(state).level())),
        decreases usize::MAX - old(state).indent_level, 1int,
    {
        match self {
            Value::Null => state.write("null"),
            Value::Boolean(b) => {
                if *b {
                    state.write("true")
                } else {
                    state.write("false")
                }
            },
            Value::Enum(name) => state.write(name.as_str()),
            Value::String(value) => serialize_string_value(state, value.as_str()),
            Value::Variable(name) => {
                state.write("$");
                state.write(name.as_str());
            },
            Value::Float(value) => {
                state.write(value.as_str());
                if !contains_point(value.as_str()) {
                    state.write(".0");
                }
            },
            Value::Int(value) => write_int(state, *value),
            Value::BigInt(value) => state.write(value.as_str()),
            Value::List(value) => comma_separated(state, "[", "]", CommaItems::Values(value.as_slice())),
            Value::Object(value) => comma_separated(
                state,
                "{",
                "}",
                CommaItems::NamedValues(value.as_slice()),
            ),
        }
        assert(state.output@ =~= old(state).output@ + value_text(*self, old(state).cfg(), old(state).level()));
    }
}

// ---------------------------------------------------------------------------
// Arguments, directives, variable and input value definitions

fn serialize_arguments(state: &mut State, arguments: &[(String, Value)])
    requires
        arguments_fit(arguments@, old(state).level()),
    ensures
        State::wrote(*old(state), *final(state), arguments_text(arguments@, old(state).level())),
    decreases usize::MAX - old(state).indent_level, 2int,
{
    if arguments.len() > 0 {
        proof {
            reveal_strlit("(");
            reveal_strlit(")");
        }
        state.on_single_line("(", ")", CommaItems::NamedValues(arguments));
    }
}

impl Directive {
    fn serialize_impl(&self, state: &mut State)
        requires
            directive_fits(*self, old(state).level()),
        ensures
            State::wrote(*old(state), *final(state), directive_text(*self, old(state).level())),
        decreases usize::MAX - old(state).indent_level, 3int,
    {
        state.write("@");
        state.write(self.name.as_str());
        serialize_arguments(state, self.arguments.as_slice());
        assert(state.output@ =~= old(state).output@ + directive_text(*self, old(state).level()));
    }
}

fn serialize_directives(state: &mut State, directives: &[Directive])
    requires
        directives_fit(directives@, old(state).level()),
    ensures
        State::wrote(*old(state), *final(state), directives_text(directives@, old(state).level())),
    decreases usize::MAX - old(state).indent_level, 4int,
{
    let ghost lvl = state.level();
    let ghost pieces = directive_pieces(directives@, lvl);
    let mut i: usize = 0;
    while i < directives.len()
        invariant
            i <= directives@.len(),
            pieces == directive_pieces(directives@, lvl),
            directives_fit(directives@, lvl),
            state.level() == lvl,
            lvl == old(state).level(),
            State::wrote(*old(state), *state, concat(pieces.take(i as int))),
        decreases directives.len() - i,
    {
        proof {
            lemma_concat_step(pieces, i as int);
        }
        assert(directive_fits(directives@[i as int], lvl));
        state.write(" ");
        directives[i].serialize_impl(state);
        assert(state.output@ =~= old(state).output@ + concat(pieces.take(i + 1)));
        i += 1;
    }
    assert(pieces.take(directives@.len() as int) =~= pieces);
}

fn serialize_default_value(state: &mut State, default_value: &Option<Value>)
    requires
        default_value_fits(*default_value, old(state).level()),
    ensures
        State::wrote(*old(state), *final(state), default_value_text(*default_value, old(state).cfg(), old(state).level())),
    decreases usize::MAX - old(state).indent_level, 2int,
{
    if let Some(value) = default_value {
        state.write(" = ");
        value.serialize_impl(state);
    }
    assert(state.output@ =~= old(state).output@ + default_value_text(*default_value, old(state).cfg(), old(state).level()));
}

impl VariableDefinition {
    fn serialize_impl(&self, state: &mut State)
        requires
            variable_fits(*self, old(state).level()),
        ensures
            State::wrote(*old(state), *final(state), variable_text(*self, old(state).cfg(), old(state).level())),
        decreases usize::MAX - old(state).indent_level, 5int,
    {
        state.write("$");
        state.write(self.name.as_str());
        state.write(": ");
        self.ty.serialize_impl(state);
        serialize_default_value(state, &self.default_value);
        serialize_directives(state, self.directives.as_slice());
        assert(state.output@ =~= old(state).output@ + variable_text(*self, old(state).cfg(), old(state).level()));
    }
}

impl InputValueDefinition {
    fn serialize_impl(&self, state: &mut State)
        requires
            input_value_fits(*self, old(state).level()),
        ensures
            State::wrote(*old(state), *final(state), input_value_text(*self, old(state).cfg(), old(state).level())),
        decreases usize::MAX - old(state).indent_level, 5int,
    {
        serialize_description(state, &self.description);
        state.write(self.name.as_str());
        state.write(": ");
        self.ty.serialize_impl(state);
        serialize_default_value(state, &self.default_value);
        serialize_directives(state, self.directives.as_slice());
        assert(state.output@ =~= old(state).output@ + input_value_text(*self, old(state).cfg(), old(state).level()));
    }
}

// ---------------------------------------------------------------------------
// Blocks in braces

/// The items of a block in braces.
#[derive(Clone, Copy)]
enum CurlyItems<'a> {
    Selections(&'a [Selection]),
    Fields(&'a [FieldDefinition]),
    InputValues(&'a [InputValueDefinition]),
    EnumValues(&'a [EnumValueDefinition]),
    RootOperations(&'a [(OperationType, String)]),
}

spec fn curly_len(items: CurlyItems) -> nat {
    match items {
        CurlyItems::Selections(s) => s@.len(),
        CurlyItems::Fields(s) => s@.len(),
        CurlyItems::InputValues(s) => s@.len(),
        CurlyItems::EnumValues(s) => s@.len(),
        CurlyItems::RootOperations(s) => s@.len(),
    }
}

spec fn curly_texts(items: CurlyItems, cfg: Option<Seq<char>>, lvl: nat) -> Seq<Seq<char>> {
    match items {
        CurlyItems::Selections(s) => selections_text(s@, cfg, lvl),
        CurlyItems::Fields(s) => field_definitions_text(s@, cfg, lvl),
        CurlyItems::InputValues(s) => input_values_text(s@, cfg, lvl),
        CurlyItems::EnumValues(s) => enum_values_text(s@, cfg, lvl),
        CurlyItems::RootOperations(s) => root_operations_text(s@),
    }
}

/// The items fit when written one level deeper than `lvl`.
spec fn curly_items_fit(items: CurlyItems, lvl: nat) -> bool {
    match items {
        CurlyItems::Selections(s) => selections_fit(s@, lvl),
        CurlyItems::Fields(s) => field_definitions_fit(s@, lvl),
        CurlyItems::InputValues(s) => input_values_fit(s@, lvl),
        CurlyItems::EnumValues(s) => enum_values_fit(s@, lvl),
        CurlyItems::RootOperations(_) => true,
    }
}

spec fn curly_fits(items: CurlyItems, lvl: nat) -> bool {
    curly_len(items) == 0 || (lvl < usize::MAX && curly_items_fit(items, lvl + 1))
}

proof fn lemma_curly_texts(items: CurlyItems, cfg: Option<Seq<char>>, lvl: nat)
    ensures
        curly_texts(items, cfg, lvl).len() == curly_len(items),
{
    match items {
        CurlyItems::Selections(s) => lemma_selections_text(s@, cfg, lvl),
        _ => {},
    }
}

impl<'a> CurlyItems<'a> {
    fn len(&self) -> (n: usize)
        ensures
            n == curly_len(*self),
    {
        match self {
            CurlyItems::Selections(s) => s.len(),
            CurlyItems::Fields(s) => s.len(),
            CurlyItems::InputValues(s) => s.len(),
            CurlyItems::EnumValues(s) => s.len(),
            CurlyItems::RootOperations(s) => s.len(),
        }
    }
}

/// Writes item `i` of a block in braces.
fn serialize_curly_item(state: &mut State, items: CurlyItems<'_>, i: usize)
    requires
        i < curly_len(items),
        curly_items_fit(items, old(state).level()),
    ensures
        State::wrote(*old(state), *final(state), curly_texts(items, old(state).cfg(), old(state).level())[i as int]),
    decreases usize::MAX - old(state).indent_level, 9int,
{
    match items {
        CurlyItems::Selections(s) => {
            proof {
                lemma_selections_text(s@, state.cfg(), state.level());
            }
            assert(selection_fits(s@[i as int], state.level()));
            s[i].serialize_impl(state);
        },
        CurlyItems::Fields(s) => {
            assert(field_definition_fits(s@[i as int], state.level()));
            s[i].serialize_impl(state);
        },
        CurlyItems::InputValues(s) => {
            assert(input_value_fits(s@[i as int], state.level()));
            s[i].serialize_impl(state);
        },
        CurlyItems::EnumValues(s) => {
            assert(enum_value_fits(s@[i as int], state.level()));
            s[i].serialize_impl(state);
        },
        CurlyItems::RootOperations(s) => {
            let (operation_type, operation_name) = &s[i];
            state.write(operation_type.name());
            state.write(": ");
            state.write(operation_name.as_str());
            assert(state.output@ =~= old(state).output@ + root_operation_text(s@[i as int]));
        },
    }
}

/// Example output: `{ a b c }` or
///
/// ```text
/// {
///     a
///     b
///     c
/// }
/// ```
fn curly_brackets_space_separated(state: &mut State, items: CurlyItems<'_>)
    requires
        curly_fits(items, old(state).level()),
    ensures
        State::wrote(
            *old(state),
            *final(state),
            curly_block(old(state).cfg(), old(state).level(), curly_texts(items, old(state).cfg(), old(state).level() + 1)),
        ),
    decreases usize::MAX - old(state).indent_level, 0int,
{
    let ghost cfg = state.cfg();
    let ghost lvl = state.level();
    let ghost texts = curly_texts(items, cfg, lvl + 1);
    let ghost sep = line_break(cfg, lvl + 1, true);
    proof {
        lemma_curly_texts(items, cfg, lvl + 1);
        reveal_strlit("{");
        reveal_strlit("}");
    }
    state.write("{");
    let n = items.len();
    if n > 0 {
        state.indent_or_space();
        let ghost start = state.output@;
        serialize_curly_item(state, items, 0);
        proof {
            lemma_join_first(texts, sep);
        }
        let mut i: usize = 1;
        while i < n
            invariant
                1 <= i <= n,
                n == curly_len(items),
                texts.len() == n,
                texts == curly_texts(items, cfg, lvl + 1),
                sep == line_break(cfg, lvl + 1, true),
                curly_items_fit(items, lvl + 1),
                state.cfg() == cfg,
                state.level() == lvl + 1,
                lvl == old(state).level(),
                state.config.ident_prefix == old(state).config.ident_prefix,
                state.output@ == start + join(texts.take(i as int), sep),
            decreases n - i,
        {
            proof {
                lemma_join_step(texts, sep, i as int);
            }
            state.new_line_or_space();
            serialize_curly_item(state, items, i);
            assert(state.output@ =~= start + join(texts.take(i + 1), sep));
            i += 1;
        }
        assert(texts.take(n as int) =~= texts);
        state.dedent_or_space();
    }
    state.write("}");
    assert(state.output@ =~= old(state).output@ + curly_block(cfg, lvl, texts));
}

// ---------------------------------------------------------------------------
// Field, enum value and argument definitions

/// Whether some argument has a description or directives.
fn any_multiline_argument(arguments: &[InputValueDefinition]) -> (r: bool)
    ensures
        r == exists|i: int| 0 <= i < arguments@.len() && multiline_argument(#[trigger] arguments@[i]),
{
    let mut i: usize = 0;
    while i < arguments.len()
        invariant
            i <= arguments@.len(),
            forall|j: int| 0 <= j < i ==> !multiline_argument(#[trigger] arguments@[j]),
        decreases arguments.len() - i,
    {
        let arg = &arguments[i];
        if arg.description.is_some() || arg.directives.len() > 0 {
            assert(multiline_argument(arguments@[i as int]));
            return true;
        }
        i += 1;
    }
    false
}

fn serialize_arguments_definition(state: &mut State, arguments: &[InputValueDefinition])
    requires
        arguments_definition_fit(arguments@, old(state).level()),
    ensures
        State::wrote(*old(state), *final(state), arguments_definition_text(arguments@, old(state).cfg(), old(state).level())),
    decreases usize::MAX - old(state).indent_level, 2int,
{
    if arguments.len() > 0 {
        proof {
            reveal_strlit("(");
            reveal_strlit(")");
        }
        if any_multiline_argument(arguments) {
            comma_separated(state, "(", ")", CommaItems::InputValues(arguments))
        } else {
            state.on_single_line("(", ")", CommaItems::InputValues(arguments))
        }
    }
}

impl FieldDefinition {
    fn serialize_impl(&self, state: &mut State)
        requires
            field_definition_fits(*self, old(state).level()),
        ensures
            State::wrote(*old(state), *final(state), field_definition_text(*self, old(state).cfg(), old(state).level())),
        decreases usize::MAX - old(state).indent_level, 5int,
    {
        serialize_description(state, &self.description);
        state.write(self.name.as_str());
        serialize_arguments_definition(state, self.arguments.as_slice());
        state.write(": ");
        self.ty.serialize_impl(state);
        serialize_directives(state, self.directives.as_slice());
        assert(state.output@ =~= old(state).output@ + field_definition_text(*self, old(state).cfg(), old(state).level()));
    }
}

impl EnumValueDefinition {
    fn serialize_impl(&self, state: &mut State)
        requires
            enum_value_fits(*self, old(state).level()),
        ensures
            State::wrote(*old(state), *final(state), enum_value_text(*self, old(state).cfg(), old(state).level())),
        decreases usize::MAX - old(state).indent_level, 5int,
    {
        serialize_description(state, &self.description);
        state.write(self.value.as_str());
        serialize_directives(state, self.directives.as_slice());
        assert(state.output@ =~= old(state).output@ + enum_value_text(*self, old(state).cfg(), old(state).level()));
    }
}

// ---------------------------------------------------------------------------
// Selections

impl Selection {
    fn serialize_impl(&self, state: &mut State)
        requires
            selection_fits(*self, old(state).level()),
        ensures
            State::wrote(*old(state), *final(state), selection_text(*self, old(state).cfg(), old(state).level())),
        decreases usize::MAX - old(state).indent_level, 6int,
    {
        match self {
            Selection::Field(x) => x.serialize_impl(state),
            Selection::FragmentSpread(x) => x.serialize_impl(state),
            Selection::InlineFragment(x) => x.serialize_impl(state),
        }
    }
}

impl Field {
    #[verifier::rlimit(40)]
    fn serialize_impl(&self, state: &mut State)
        requires
            field_fits(*self, old(state).level()),
        ensures
            State::wrote(*old(state), *final(state), field_text(*self, old(state).cfg(), old(state).level())),
        decreases usize::MAX - old(state).indent_level, 5int,
    {
        if let Some(alias) = &self.alias {
            state.write(alias.as_str());
            state.write(": ");
        }
        state.write(self.name.as_str());
        serialize_arguments(state, self.arguments.as_slice());
        serialize_directives(state, self.directives.as_slice());
        if self.selection_set.len() > 0 {
            state.write(" ");
            curly_brackets_space_separated(state, CurlyItems::Selections(self.selection_set.as_slice()));
        }
        assert(state.output@ =~= old(state).output@ + field_text(*self, old(state).cfg(), old(state).level()));
    }
}

impl FragmentSpread {
    fn serialize_impl(&self, state: &mut State)
        requires
            directives_fit(self.directives@, old(state).level()),
        ensures
            State::wrote(
                *old(state),
                *final(state),
                "..."@ + self.fragment_name@ + directives_text(self.directives@, old(state).level()),
            ),
        decreases usize::MAX - old(state).indent_level, 5int,
    {
        state.write("...");
        state.write(self.fragment_name.as_str());
        serialize_directives(state, self.directives.as_slice());
        assert(state.output@ =~= old(state).output@ + ("..."@ + self.fragment_name@ + directives_text(
            self.directives@,
            old(state).level(),
        )));
    }
}

impl InlineFragment {
    fn serialize_impl(&self, state: &mut State)
        requires
            inline_fragment_fits(*self, old(state).level()),
        ensures
            State::wrote(*old(state), *final(state), inline_fragment_text(*self, old(state).cfg(), old(state).level())),
        decreases usize::MAX - old(state).indent_level, 5int,
    {
        if let Some(condition) = &self.type_condition {
            state.write("... on ");
            state.write(condition.as_str());
        } else {
            state.write("...");
        }
        serialize_directives(state, self.directives.as_slice());
        state.write(" ");
        curly_brackets_space_separated(state, CurlyItems::Selections(self.selection_set.as_slice()));
        assert(state.output@ =~= old(state).output@ + inline_fragment_text(*self, old(state).cfg(), old(state).level()));
    }
}

// ---------------------------------------------------------------------------
// Definitions

/// Writes the names with `sep` between each two of them.
fn write_joined(state: &mut State, names: &[String], sep: &str)
    requires
        names@.len() > 0,
    ensures
        State::wrote(*old(state), *final(state), join(name_texts(names@), sep@)),
{
    let ghost texts = name_texts(names@);
    state.write(names[0].as_str());
    proof {
        lemma_join_first(texts, sep@);
    }
    let mut i: usize = 1;
    while i < names.len()
        invariant
            1 <= i <= names@.len(),
            texts == name_texts(names@),
            State::wrote(*old(state), *state, join(texts.take(i as int), sep@)),
        decreases names.len() - i,
    {
        proof {
            lemma_join_step(texts, sep@, i as int);
        }
        state.write(sep);
        state.write(names[i].as_str());
        assert(state.output@ =~= old(state).output@ + join(texts.take(i + 1), sep@));
        i += 1;
    }
    assert(texts.take(names@.len() as int) =~= texts);
}

impl OperationDefinition {
    #[verifier::rlimit(50)]
    fn serialize_impl(&self, state: &mut State)
        requires
            operation_fits(*self, old(state).level()),
        ensures
            State::wrote(*old(state), *final(state), operation_text(*self, old(state).cfg(), old(state).level())),
    {
        let shorthand = self.operation_type == OperationType::Query && self.name.is_none()
            && self.variables.len() == 0 && self.directives.len() == 0;
        assert(shorthand == is_shorthand(*self));
        let ghost start = state.output@;
        if !shorthand {
            state.write(self.operation_type.name());
            if let Some(name) = &self.name {
                state.write(" ");
                state.write(name.as_str());
            }
            if self.variables.len() > 0 {
                proof {
                    reveal_strlit("(");
                    reveal_strlit(")");
                }
                state.on_single_line("(", ")", CommaItems::Variables(self.variables.as_slice()));
            }
            serialize_directives(state, self.directives.as_slice());
            state.write(" ");
        }
        assert(state.output@ =~= start + operation_header_text(*self, old(state).level()));
        let ghost mid = state.output@;
        curly_brackets_space_separated(state, CurlyItems::Selections(self.selection_set.as_slice()));
        assert(state.output@ =~= mid + selection_set_text(self.selection_set@, old(state).cfg(), old(state).level()));
        assert(state.output@ =~= old(state).output@ + operation_text(*self, old(state).cfg(), old(state).level()));
    }
}

impl FragmentDefinition {
    fn serialize_impl(&self, state: &mut State)
        requires
            fragment_definition_fits(*self, old(state).level()),
        ensures
            State::wrote(*old(state), *final(state), fragment_definition_text(*self, old(state).cfg(), old(state).level())),
    {
        state.write("fragment ");
        state.write(self.name.as_str());
        state.write(" on ");
        state.write(self.type_condition.as_str());
        serialize_directives(state, self.directives.as_slice());
        state.write(" ");
        curly_brackets_space_separated(state, CurlyItems::Selections(self.selection_set.as_slice()));
        assert(state.output@ =~= old(state).output@ + fragment_definition_text(*self, old(state).cfg(), old(state).level()));
    }
}

impl DirectiveDefinition {
    #[verifier::rlimit(50)]
    fn serialize_impl(&self, state: &mut State)
        requires
            directive_definition_fits(*self, old(state).level()),
        ensures
            State::wrote(*old(state), *final(state), directive_definition_text(*self, old(state).cfg(), old(state).level())),
    {
        serialize_description(state, &self.description);
        state.write("directive @");
        state.write(self.name.as_str());
        serialize_arguments_definition(state, self.arguments.as_slice());
        if self.repeatable {
            state.write(" repeatable");
        }
        let ghost before = state.output@;
        let ghost texts = location_names(self.locations@);
        let locations = self.locations.as_slice();
        if locations.len() > 0 {
            state.write(" on ");
            let ghost start = state.output@;
            state.write(locations[0].name());
            proof {
                lemma_join_first(texts, " | "@);
            }
            let mut i: usize = 1;
            while i < locations.len()
                invariant
                    1 <= i <= locations@.len(),
                    locations@ == self.locations@,
                    texts == location_names(self.locations@),
                    state.output@ == start + join(texts.take(i as int), " | "@),
                    state.config.ident_prefix == old(state).config.ident_prefix,
                    state.indent_level == old(state).indent_level,
                decreases locations.len() - i,
            {
                proof {
                    lemma_join_step(texts, " | "@, i as int);
                }
                state.write(" | ");
                state.write(locations[i].name());
                assert(state.output@ =~= start + join(texts.take(i + 1), " | "@));
                i += 1;
            }
            assert(texts.take(locations@.len() as int) =~= texts);
        }
        assert(state.output@ =~= before + locations_text(self.locations@));
        assert(state.output@ =~= old(state).output@ + directive_definition_text(*self, old(state).cfg(), old(state).level()));
    }
}

fn serialize_schema(state: &mut State, directives: &[Directive], root_operations: &[(OperationType, String)])
    requires
        schema_body_fits(directives@, root_operations@, old(state).level()),
    ensures
        State::wrote(
            *old(state),
            *final(state),
            schema_body_text(directives@, root_operations@, old(state).cfg(), old(state).level()),
        ),
{
    serialize_directives(state, directives);
    state.write(" ");
    curly_brackets_space_separated(state, CurlyItems::RootOperations(root_operations));
    assert(state.output@ =~= old(state).output@ + schema_body_text(
        directives@,
        root_operations@,
        old(state).cfg(),
        old(state).level(),
    ));
}

fn serialize_object_type_like(
    state: &mut State,
    name: &str,
    implements_interfaces: &[String],
    directives: &[Directive],
    fields: &[FieldDefinition],
)
    requires
        object_like_fits(directives@, fields@, old(state).level()),
    ensures
        State::wrote(
            *old(state),
            *final(state),
            object_like_text(name@, implements_interfaces@, directives@, fields@, old(state).cfg(), old(state).level()),
        ),
{
    state.write(name);
    if implements_interfaces.len() > 0 {
        state.write(" implements ");
        write_joined(state, implements_interfaces, " & ");
    }
    serialize_directives(state, directives);
    state.write(" ");
    curly_brackets_space_separated(state, CurlyItems::Fields(fields));
    assert(state.output@ =~= old(state).output@ + object_like_text(
        name@,
        implements_interfaces@,
        directives@,
        fields@,
        old(state).cfg(),
        old(state).level(),
    ));
}

fn serialize_union(state: &mut State, name: &str, directives: &[Directive], members: &[String])
    requires
        directives_fit(directives@, old(state).level()),
    ensures
        State::wrote(*old(state), *final(state), union_body_text(name@, directives@, members@, old(state).level())),
{
    state.write(name);
    serialize_directives(state, directives);
    if members.len() > 0 {
        state.write(" = ");
        write_joined(state, members, " | ");
    }
    assert(state.output@ =~= old(state).output@ + union_body_text(name@, directives@, members@, old(state).level()));
}

fn serialize_enum_body(state: &mut State, name: &str, directives: &[Directive], values: &[EnumValueDefinition])
    requires
        enum_body_fits(directives@, values@, old(state).level()),
    ensures
        State::wrote(
            *old(state),
            *final(state),
            enum_body_text(name@, directives@, values@, old(state).cfg(), old(state).level()),
        ),
{
    state.write(name);
    serialize_directives(state, directives);
    state.write(" ");
    curly_brackets_space_separated(state, CurlyItems::EnumValues(values));
    assert(state.output@ =~= old(state).output@ + enum_body_text(
        name@,
        directives@,
        values@,
        old(state).cfg(),
        old(state).level(),
    ));
}

fn serialize_input_object_body(
    state: &mut State,
    name: &str,
    directives: &[Directive],
    fields: &[InputValueDefinition],
)
    requires
        input_object_body_fits(directives@, fields@, old(state).level()),
    ensures
        State::wrote(
            *old(state),
            *final(state),
            input_object_body_text(name@, directives@, fields@, old(state).cfg(), old(state).level()),
        ),
{
    state.write(name);
    serialize_directives(state, directives);
    state.write(" ");
    curly_brackets_space_separated(state, CurlyItems::InputValues(fields));
    assert(state.output@ =~= old(state).output@ + input_object_body_text(
        name@,
        directives@,
        fields@,
        old(state).cfg(),
        old(state).level(),
    ));
}

impl SchemaDefinition {
    fn serialize_impl(&self, state: &mut State)
        requires
            definition_fits(Definition::SchemaDefinition(*self), old(state).level()),
        ensures
            State::wrote(*old(state), *final(state), definition_text(Definition::SchemaDefinition(*self), old(state).cfg(), old(state).level())),
    {
        serialize_description(state, &self.description);
        state.write("schema");
        serialize_schema(state, self.directives.as_slice(), self.root_operations.as_slice());
        assert(state.output@ =~= old(state).output@ + definition_text(Definition::SchemaDefinition(*self), old(state).cfg(), old(state).level()));
    }
}

impl ScalarTypeDefinition {
    fn serialize_impl(&self, state: &mut State)
        requires
            definition_fits(Definition::ScalarTypeDefinition(*self), old(state).level()),
        ensures
            State::wrote(*old(state), *final(state), definition_text(Definition::ScalarTypeDefinition(*self), old(state).cfg(), old(state).level())),
    {
        serialize_description(state, &self.description);
        state.write("scalar ");
        state.write(self.name.as_str());
        serialize_directives(state, self.directives.as_slice());
        assert(state.output@ =~= old(state).output@ + definition_text(Definition::ScalarTypeDefinition(*self), old(state).cfg(), old(state).level()));
    }
}

impl ObjectTypeDefinition {
    fn serialize_impl(&self, state: &mut State)
        requires
            definition_fits(Definition::ObjectTypeDefinition(*self), old(state).level()),
        ensures
            State::wrote(*old(state), *final(state), definition_text(Definition::ObjectTypeDefinition(*self), old(state).cfg(), old(state).level())),
    {
        serialize_description(state, &self.description);
        state.write("type ");
        serialize_object_type_like(
            state,
            self.name.as_str(),
            self.implements_interfaces.as_slice(),
            self.directives.as_slice(),
            self.fields.as_slice(),
        );
        assert(state.output@ =~= old(state).output@ + definition_text(Definition::ObjectTypeDefinition(*self), old(state).cfg(), old(state).level()));
    }
}

impl InterfaceTypeDefinition {
    fn serialize_impl(&self, state: &mut State)
        requires
            definition_fits(Definition::InterfaceTypeDefinition(*self), old(state).level()),
        ensures
            State::wrote(*old(state), *final(state), definition_text(Definition::InterfaceTypeDefinition(*self), old(state).cfg(), old(state).level())),
    {
        serialize_description(state, &self.description);
        state.write("interface ");
        serialize_object_type_like(
            state,
            self.name.as_str(),
            self.implements_interfaces.as_slice(),
            self.directives.as_slice(),
            self.fields.as_slice(),
        );
        assert(state.output@ =~= old(state).output@ + definition_text(Definition::InterfaceTypeDefinition(*self), old(state).cfg(), old(state).level()));
    }
}

impl UnionTypeDefinition {
    fn serialize_impl(&self, state: &mut State)
        requires
            definition_fits(Definition::UnionTypeDefinition(*self), old(state).level()),
        ensures
            State::wrote(*old(state), *final(state), definition_text(Definition::UnionTypeDefinition(*self), old(state).cfg(), old(state).level())),
    {
        serialize_description(state, &self.description);
        state.write("union ");
        serialize_union(state, self.name.as_str(), self.directives.as_slice(), self.members.as_slice());
        assert(state.output@ =~= old(state).output@ + definition_text(Definition::UnionTypeDefinition(*self), old(state).cfg(), old(state).level()));
    }
}

impl EnumTypeDefinition {
    fn serialize_impl(&self, state: &mut State)
        requires
            definition_fits(Definition::EnumTypeDefinition(*self), old(state).level()),
        ensures
            State::wrote(*old(state), *final(state), definition_text(Definition::EnumTypeDefinition(*self), old(state).cfg(), old(state).level())),
    {
        serialize_description(state, &self.description);
        state.write("enum ");
        serialize_enum_body(state, self.name.as_str(), self.directives.as_slice(), self.values.as_slice());
        assert(state.output@ =~= old(state).output@ + definition_text(Definition::EnumTypeDefinition(*self), old(state).cfg(), old(state).level()));
    }
}

impl InputObjectTypeDefinition {
    fn serialize_impl(&self, state: &mut State)
        requires
            definition_fits(Definition::InputObjectTypeDefinition(*self), old(state).level()),
        ensures
            State::wrote(*old(state), *final(state), definition_text(Definition::InputObjectTypeDefinition(*self), old(state).cfg(), old(state).level())),
    {
        serialize_description(state, &self.description);
        state.write("input ");
        serialize_input_object_body(state, self.name.as_str(), self.directives.as_slice(), self.fields.as_slice());
        assert(state.output@ =~= old(state).output@ + definition_text(Definition::InputObjectTypeDefinition(*self), old(state).cfg(), old(state).level()));
    }
}

impl SchemaExtension {
    fn serialize_impl(&self, state: &mut State)
        requires
            definition_fits(Definition::SchemaExtension(*self), old(state).level()),
        ensures
            State::wrote(*old(state), *final(state), definition_text(Definition::SchemaExtension(*self), old(state).cfg(), old(state).level())),
    {
        state.write("extend schema");
        serialize_schema(state, self.directives.as_slice(), self.root_operations.as_slice());
        assert(state.output@ =~= old(state).output@ + definition_text(Definition::SchemaExtension(*self), old(state).cfg(), old(state).level()));
    }
}

impl ScalarTypeExtension {
    fn serialize_impl(&self, state: &mut State)
        requires
            definition_fits(Definition::ScalarTypeExtension(*self), old(state).level()),
        ensures
            State::wrote(*old(state), *final(state), definition_text(Definition::ScalarTypeExtension(*self), old(state).cfg(), old(state).level())),
    {
        state.write("extend scalar ");
        state.write(self.name.as_str());
        serialize_directives(state, self.directives.as_slice());
        assert(state.output@ =~= old(state).output@ + definition_text(Definition::ScalarTypeExtension(*self), old(state).cfg(), old(state).level()));
    }
}

impl ObjectTypeExtension {
    fn serialize_impl(&self, state: &mut State)
        requires
            definition_fits(Definition::ObjectTypeExtension(*self), old(state).level()),
        ensures
            State::wrote(*old(state), *final(state), definition_text(Definition::ObjectTypeExtension(*self), old(state).cfg(), old(state).level())),
    {
        state.write("extend type ");
        serialize_object_type_like(
            state,
            self.name.as_str(),
            self.implements_interfaces.as_slice(),
            self.directives.as_slice(),
            self.fields.as_slice(),
        );
        assert(state.output@ =~= old(state).output@ + definition_text(Definition::ObjectTypeExtension(*self), old(state).cfg(), old(state).level()));
    }
}

impl InterfaceTypeExtension {
    fn serialize_impl(&self, state: &mut State)
        requires
            definition_fits(Definition::InterfaceTypeExtension(*self), old(state).level()),
        ensures
            State::wrote(*old(state), *final(state), definition_text(Definition::InterfaceTypeExtension(*self), old(state).cfg(), old(state).level())),
    {
        state.write("extend interface ");
        serialize_object_type_like(
            state,
            self.name.as_str(),
            self.implements_interfaces.as_slice(),
            self.directives.as_slice(),
            self.fields.as_slice(),
        );
        assert(state.output@ =~= old(state).output@ + definition_text(Definition::InterfaceTypeExtension(*self), old(state).cfg(), old(state).level()));
    }
}

impl UnionTypeExtension {
    fn serialize_impl(&self, state: &mut State)
        requires
            definition_fits(Definition::UnionTypeExtension(*self), old(state).level()),
        ensures
            State::wrote(*old(state), *final(state), definition_text(Definition::UnionTypeExtension(*self), old(state).cfg(), old(state).level())),
    {
        state.write("extend union ");
        serialize_union(state, self.name.as_str(), self.directives.as_slice(), self.members.as_slice());
        assert(state.output@ =~= old(state).output@ + definition_text(Definition::UnionTypeExtension(*self), old(state).cfg(), old(state).level()));
    }
}

impl EnumTypeExtension {
    fn serialize_impl(&self, state: &mut State)
        requires
            definition_fits(Definition::EnumTypeExtension(*self), old(state).level()),
        ensures
            State::wrote(*old(state), *final(state), definition_text(Definition::EnumTypeExtension(*self), old(state).cfg(), old(state).level())),
    {
        state.write("extend enum ");
        serialize_enum_body(state, self.name.as_str(), self.directives.as_slice(), self.values.as_slice());
        assert(state.output@ =~= old(state).output@ + definition_text(Definition::EnumTypeExtension(*self), old(state).cfg(), old(state).level()));
    }
}

impl InputObjectTypeExtension {
    fn serialize_impl(&self, state: &mut State)
        requires
            definition_fits(Definition::InputObjectTypeExtension(*self), old(state).level()),
        ensures
            State::wrote(*old(state), *final(state), definition_text(Definition::InputObjectTypeExtension(*self), old(state).cfg(), old(state).level())),
    {
        state.write("extend input ");
        serialize_input_object_body(state, self.name.as_str(), self.directives.as_slice(), self.fields.as_slice());
        assert(state.output@ =~= old(state).output@ + definition_text(Definition::InputObjectTypeExtension(*self), old(state).cfg(), old(state).level()));
    }
}

impl Definition {
    fn serialize_impl(&self, state: &mut State)
        requires
            definition_fits(*self, old(state).level()),
        ensures
            State::wrote(*old(state), *final(state), definition_text(*self, old(state).cfg(), old(state).level())),
    {
        match self {
            Definition::OperationDefinition(def) => def.serialize_impl(state),
            Definition::FragmentDefinition(def) => def.serialize_impl(state),
            Definition::DirectiveDefinition(def) => def.serialize_impl(state),
            Definition::SchemaDefinition(def) => def.serialize_impl(state),
            Definition::ScalarTypeDefinition(def) => def.serialize_impl(state),
            Definition::ObjectTypeDefinition(def) => def.serialize_impl(state),
            Definition::InterfaceTypeDefinition(def) => def.serialize_impl(state),
            Definition::UnionTypeDefinition(def) => def.serialize_impl(state),
            Definition::EnumTypeDefinition(def) => def.serialize_impl(state),
            Definition::InputObjectTypeDefinition(def) => def.serialize_impl(state),
            Definition::SchemaExtension(def) => def.serialize_impl(state),
            Definition::ScalarTypeExtension(def) => def.serialize_impl(state),
            Definition::ObjectTypeExtension(def) => def.serialize_impl(state),
            Definition::InterfaceTypeExtension(def) => def.serialize_impl(state),
            Definition::UnionTypeExtension(def) => def.serialize_impl(state),
            Definition::EnumTypeExtension(def) => def.serialize_impl(state),
            Definition::InputObjectTypeExtension(def) => def.serialize_impl(state),
        }
    }
}

impl Document {
    fn serialize_impl(&self, state: &mut State)
        requires
            document_fits(*self, old(state).level()),
        ensures
            State::wrote(*old(state), *final(state), document_text(*self, old(state).cfg(), old(state).level())),
    {
        let ghost cfg = state.cfg();
        let ghost lvl = state.level();
        let ghost texts = definitions_text(self.definitions@, cfg, lvl);
        let ghost sep = (if cfg is Some {
            seq!['\n']
        } else {
            Seq::empty()
        }) + line_break(cfg, lvl, true);
        proof {
            reveal_strlit("\n");
        }
        let definitions = self.definitions.as_slice();
        if definitions.len() > 0 {
            definitions[0].serialize_impl(state);
            proof {
                lemma_join_first(texts, sep);
            }
            let mut i: usize = 1;
            while i < definitions.len()
                invariant
                    1 <= i <= definitions@.len(),
                    definitions@ == self.definitions@,
                    document_fits(*self, lvl),
                    texts == definitions_text(self.definitions@, cfg, lvl),
                    sep == (if cfg is Some {
                        seq!['\n']
                    } else {
                        Seq::empty()
                    }) + line_break(cfg, lvl, true),
                    cfg == old(state).cfg(),
                    lvl == old(state).level(),
                    State::wrote(*old(state), *state, join(texts.take(i as int), sep)),
                decreases definitions.len() - i,
            {
                proof {
                    lemma_join_step(texts, sep, i as int);
                    reveal_strlit("\n");
                }
                let ghost before = state.output@;
                if state.newlines_enabled() {
                    // Empty line between top-level definitions
                    state.write("\n");
                }
                state.new_line_or_space();
                assert(state.output@ =~= before + sep);
                definitions[i].serialize_impl(state);
                assert(state.output@ =~= old(state).output@ + join(texts.take(i + 1), sep));
                i += 1;
            }
            assert(texts.take(definitions@.len() as int) =~= texts);
            // Trailing newline
            if state.newlines_enabled() {
                state.write("\n");
            }
        }
        assert(state.output@ =~= old(state).output@ + document_text(*self, old(state).cfg(), old(state).level()));
    }
}


impl OperationType {
    /// The keyword of the operation type.
    pub fn to_string(&self) -> (r: String)
        ensures
            r@ == self.keyword(),
    {
        self.name().to_string()
    }
}

impl DirectiveLocation {
    /// The name of the location.
    pub fn to_string(&self) -> (r: String)
        ensures
            r@ == self.keyword(),
    {
        self.name().to_string()
    }
}

// ---------------------------------------------------------------------------
// Public interface

/// A syntax tree node that can be written as GraphQL text.
pub trait GraphQLNode: Sized {
    /// The GraphQL text of the node written at indentation level `lvl`,
    /// with indentation prefix `cfg` (`None`: on a single line).
    spec fn graphql_text(&self, cfg: Option<Seq<char>>, lvl: nat) -> Seq<char>;

    /// Whether the indentation level stays within `usize` while the node is
    /// written at level `lvl`.
    spec fn graphql_fits(&self, lvl: nat) -> bool;

    /// Writes the node at the state's indentation level.
    fn write_graphql(&self, state: &mut State)
        requires
            self.graphql_fits(old(state).level()),
        ensures
            State::wrote(*old(state), *final(state), self.graphql_text(old(state).cfg(), old(state).level())),
    ;

    /// Serialize to GraphQL syntax, with the default configuration:
    /// indentation by two spaces.
    fn serialize(&self) -> (s: Serialize<'_, Self>)
        ensures
            s.node() == *self,
            s.prefix() == Some("  "@),
    {
        Serialize { mir_node: self, config: Config::default() }
    }
}

/// A node together with serialization options.
pub struct Serialize<'a, T> {
    pub(crate) mir_node: &'a T,
    pub(crate) config: Config<'a>,
}

impl<'a, T> Serialize<'a, T> {
    /// The node to serialize.
    pub closed spec fn node(&self) -> T {
        *self.mir_node
    }

    /// The indentation prefix, or `None` when line breaks are disabled.
    pub closed spec fn prefix(&self) -> Option<Seq<char>> {
        self.config.prefix()
    }

    /// Enable indentation and line breaks.
    ///
    /// `prefix` is repeated at the start of each line by the number of indentation levels.
    /// The default is `"  "`, two spaces.
    pub fn indent_prefix(self, prefix: &'a str) -> (r: Self)
        ensures
            r.node() == self.node(),
            r.prefix() == Some(prefix@),
    {
        let mut this = self;
        this.config.ident_prefix = Some(prefix);
        this
    }

    /// Disable indentation and line breaks
    pub fn no_indent(self) -> (r: Self)
        ensures
            r.node() == self.node(),
            r.prefix() is None,
    {
        let mut this = self;
        this.config.ident_prefix = None;
        this
    }
}

impl<'a, T: GraphQLNode> Serialize<'a, T> {
    /// The GraphQL text of the node.
    pub fn to_graphql(&self) -> (r: String)
        requires
            self.node().graphql_fits(0),
        ensures
            r@ == self.node().graphql_text(self.prefix(), 0),
    {
        let mut state = State {
            config: Config { ident_prefix: self.config.ident_prefix },
            indent_level: 0,
            output: String::new(),
        };
        self.mir_node.write_graphql(&mut state);
        assert(state.output@ =~= self.node().graphql_text(self.prefix(), 0));
        state.output
    }
}

impl GraphQLNode for Document {
    open spec fn graphql_text(&self, cfg: Option<Seq<char>>, lvl: nat) -> Seq<char> {
        document_text(*self, cfg, lvl)
    }

    open spec fn graphql_fits(&self, lvl: nat) -> bool {
        document_fits(*self, lvl)
    }

    fn write_graphql(&self, state: &mut State) {
        self.serialize_impl(state)
    }
}

impl GraphQLNode for Definition {
    open spec fn graphql_text(&self, cfg: Option<Seq<char>>, lvl: nat) -> Seq<char> {
        definition_text(*self, cfg, lvl)
    }

    open spec fn graphql_fits(&self, lvl: nat) -> bool {
        definition_fits(*self, lvl)
    }

    fn write_graphql(&self, state: &mut State) {
        self.serialize_impl(state)
    }
}

impl GraphQLNode for OperationDefinition {
    open spec fn graphql_text(&self, cfg: Option<Seq<char>>, lvl: nat) -> Seq<char> {
        operation_text(*self, cfg, lvl)
    }

    open spec fn graphql_fits(&self, lvl: nat) -> bool {
        operation_fits(*self, lvl)
    }

    fn write_graphql(&self, state: &mut State) {
        self.serialize_impl(state)
    }
}

impl GraphQLNode for FragmentDefinition {
    open spec fn graphql_text(&self, cfg: Option<Seq<char>>, lvl: nat) -> Seq<char> {
        fragment_definition_text(*self, cfg, lvl)
    }

    open spec fn graphql_fits(&self, lvl: nat) -> bool {
        fragment_definition_fits(*self, lvl)
    }

    fn write_graphql(&self, state: &mut State) {
        self.serialize_impl(state)
    }
}

impl GraphQLNode for DirectiveDefinition {
    open spec fn graphql_text(&self, cfg: Option<Seq<char>>, lvl: nat) -> Seq<char> {
        directive_definition_text(*self, cfg, lvl)
    }

    open spec fn graphql_fits(&self, lvl: nat) -> bool {
        directive_definition_fits(*self, lvl)
    }

    fn write_graphql(&self, state: &mut State) {
        self.serialize_impl(state)
    }
}

impl GraphQLNode for SchemaDefinition {
    open spec fn graphql_text(&self, cfg: Option<Seq<char>>, lvl: nat) -> Seq<char> {
        definition_text(Definition::SchemaDefinition(*self), cfg, lvl)
    }

    open spec fn graphql_fits(&self, lvl: nat) -> bool {
        definition_fits(Definition::SchemaDefinition(*self), lvl)
    }

    fn write_graphql(&self, state: &mut State) {
        self.serialize_impl(state)
    }
}

impl GraphQLNode for ScalarTypeDefinition {
    open spec fn graphql_text(&self, cfg: Option<Seq<char>>, lvl: nat) -> Seq<char> {
        definition_text(Definition::ScalarTypeDefinition(*self), cfg, lvl)
    }

    open spec fn graphql_fits(&self, lvl: nat) -> bool {
        definition_fits(Definition::ScalarTypeDefinition(*self), lvl)
    }

    fn write_graphql(&self, state: &mut State) {
        self.serialize_impl(state)
    }
}

impl GraphQLNode for ObjectTypeDefinition {
    open spec fn graphql_text(&self, cfg: Option<Seq<char>>, lvl: nat) -> Seq<char> {
        definition_text(Definition::ObjectTypeDefinition(*self), cfg, lvl)
    }

    open spec fn graphql_fits(&self, lvl: nat) -> bool {
        definition_fits(Definition::ObjectTypeDefinition(*self), lvl)
    }

    fn write_graphql(&self, state: &mut State) {
        self.serialize_impl(state)
    }
}

impl GraphQLNode for InterfaceTypeDefinition {
    open spec fn graphql_text(&self, cfg: Option<Seq<char>>, lvl: nat) -> Seq<char> {
        definition_text(Definition::InterfaceTypeDefinition(*self), cfg, lvl)
    }

    open spec fn graphql_fits(&self, lvl: nat) -> bool {
        definition_fits(Definition::InterfaceTypeDefinition(*self), lvl)
    }

    fn write_graphql(&self, state: &mut State) {
        self.serialize_impl(state)
    }
}

impl GraphQLNode for UnionTypeDefinition {
    open spec fn graphql_text(&self, cfg: Option<Seq<char>>, lvl: nat) -> Seq<char> {
        definition_text(Definition::UnionTypeDefinition(*self), cfg, lvl)
    }

    open spec fn graphql_fits(&self, lvl: nat) -> bool {
        definition_fits(Definition::UnionTypeDefinition(*self), lvl)
    }

    fn write_graphql(&self, state: &mut State) {
        self.serialize_impl(state)
    }
}

impl GraphQLNode for EnumTypeDefinition {
    open spec fn graphql_text(&self, cfg: Option<Seq<char>>, lvl: nat) -> Seq<char> {
        definition_text(Definition::EnumTypeDefinition(*self), cfg, lvl)
    }

    open spec fn graphql_fits(&self, lvl: nat) -> bool {
        definition_fits(Definition::EnumTypeDefinition(*self), lvl)
    }

    fn write_graphql(&self, state: &mut State) {
        self.serialize_impl(state)
    }
}

impl GraphQLNode for InputObjectTypeDefinition {
    open spec fn graphql_text(&self, cfg: Option<Seq<char>>, lvl: nat) -> Seq<char> {
        definition_text(Definition::InputObjectTypeDefinition(*self), cfg, lvl)
    }

    open spec fn graphql_fits(&self, lvl: nat) -> bool {
        definition_fits(Definition::InputObjectTypeDefinition(*self), lvl)
    }

    fn write_graphql(&self, state: &mut State) {
        self.serialize_impl(state)
    }
}

impl GraphQLNode for SchemaExtension {
    open spec fn graphql_text(&self, cfg: Option<Seq<char>>, lvl: nat) -> Seq<char> {
        definition_text(Definition::SchemaExtension(*self), cfg, lvl)
    }

    open spec fn graphql_fits(&self, lvl: nat) -> bool {
        definition_fits(Definition::SchemaExtension(*self), lvl)
    }

    fn write_graphql(&self, state: &mut State) {
        self.serialize_impl(state)
    }
}

impl GraphQLNode for ScalarTypeExtension {
    open spec fn graphql_text(&self, cfg: Option<Seq<char>>, lvl: nat) -> Seq<char> {
        definition_text(Definition::ScalarTypeExtension(*self), cfg, lvl)
    }

    open spec fn graphql_fits(&self, lvl: nat) -> bool {
        definition_fits(Definition::ScalarTypeExtension(*self), lvl)
    }

    fn write_graphql(&self, state: &mut State) {
        self.serialize_impl(state)
    }
}

impl GraphQLNode for ObjectTypeExtension {
    open spec fn graphql_text(&self, cfg: Option<Seq<char>>, lvl: nat) -> Seq<char> {
        definition_text(Definition::ObjectTypeExtension(*self), cfg, lvl)
    }

    open spec fn graphql_fits(&self, lvl: nat) -> bool {
        definition_fits(Definition::ObjectTypeExtension(*self), lvl)
    }

    fn write_graphql(&self, state: &mut State) {
        self.serialize_impl(state)
    }
}

impl GraphQLNode for InterfaceTypeExtension {
    open spec fn graphql_text(&self, cfg: Option<Seq<char>>, lvl: nat) -> Seq<char> {
        definition_text(Definition::InterfaceTypeExtension(*self), cfg, lvl)
    }

    open spec fn graphql_fits(&self, lvl: nat) -> bool {
        definition_fits(Definition::InterfaceTypeExtension(*self), lvl)
    }

    fn write_graphql(&self, state: &mut State) {
        self.serialize_impl(state)
    }
}

impl GraphQLNode for UnionTypeExtension {
    open spec fn graphql_text(&self, cfg: Option<Seq<char>>, lvl: nat) -> Seq<char> {
        definition_text(Definition::UnionTypeExtension(*self), cfg, lvl)
    }

    open spec fn graphql_fits(&self, lvl: nat) -> bool {
        definition_fits(Definition::UnionTypeExtension(*self), lvl)
    }

    fn write_graphql(&self, state: &mut State) {
        self.serialize_impl(state)
    }
}

impl GraphQLNode for EnumTypeExtension {
    open spec fn graphql_text(&self, cfg: Option<Seq<char>>, lvl: nat) -> Seq<char> {
        definition_text(Definition::EnumTypeExtension(*self), cfg, lvl)
    }

    open spec fn graphql_fits(&self, lvl: nat) -> bool {
        definition_fits(Definition::EnumTypeExtension(*self), lvl)
    }

    fn write_graphql(&self, state: &mut State) {
        self.serialize_impl(state)
    }
}

impl GraphQLNode for InputObjectTypeExtension {
    open spec fn graphql_text(&self, cfg: Option<Seq<char>>, lvl: nat) -> Seq<char> {
        definition_text(Definition::InputObjectTypeExtension(*self), cfg, lvl)
    }

    open spec fn graphql_fits(&self, lvl: nat) -> bool {
        definition_fits(Definition::InputObjectTypeExtension(*self), lvl)
    }

    fn write_graphql(&self, state: &mut State) {
        self.serialize_impl(state)
    }
}

impl GraphQLNode for Directive {
    open spec fn graphql_text(&self, cfg: Option<Seq<char>>, lvl: nat) -> Seq<char> {
        directive_text(*self, lvl)
    }

    open spec fn graphql_fits(&self, lvl: nat) -> bool {
        directive_fits(*self, lvl)
    }

    fn write_graphql(&self, state: &mut State) {
        self.serialize_impl(state)
    }
}

impl GraphQLNode for VariableDefinition {
    open spec fn graphql_text(&self, cfg: Option<Seq<char>>, lvl: nat) -> Seq<char> {
        variable_text(*self, cfg, lvl)
    }

    open spec fn graphql_fits(&self, lvl: nat) -> bool {
        variable_fits(*self, lvl)
    }

    fn write_graphql(&self, state: &mut State) {
        self.serialize_impl(state)
    }
}

impl GraphQLNode for FieldDefinition {
    open spec fn graphql_text(&self, cfg: Option<Seq<char>>, lvl: nat) -> Seq<char> {
        field_definition_text(*self, cfg, lvl)
    }

    open spec fn graphql_fits(&self, lvl: nat) -> bool {
        field_definition_fits(*self, lvl)
    }

    fn write_graphql(&self, state: &mut State) {
        self.serialize_impl(state)
    }
}

impl GraphQLNode for InputValueDefinition {
    open spec fn graphql_text(&self, cfg: Option<Seq<char>>, lvl: nat) -> Seq<char> {
        input_value_text(*self, cfg, lvl)
    }

    open spec fn graphql_fits(&self, lvl: nat) -> bool {
        input_value_fits(*self, lvl)
    }

    fn write_graphql(&self, state: &mut State) {
        self.serialize_impl(state)
    }
}

impl GraphQLNode for EnumValueDefinition {
    open spec fn graphql_text(&self, cfg: Option<Seq<char>>, lvl: nat) -> Seq<char> {
        enum_value_text(*self, cfg, lvl)
    }

    open spec fn graphql_fits(&self, lvl: nat) -> bool {
        enum_value_fits(*self, lvl)
    }

    fn write_graphql(&self, state: &mut State) {
        self.serialize_impl(state)
    }
}

impl GraphQLNode for Selection {
    open spec fn graphql_text(&self, cfg: Option<Seq<char>>, lvl: nat) -> Seq<char> {
        selection_text(*self, cfg, lvl)
    }

    open spec fn graphql_fits(&self, lvl: nat) -> bool {
        selection_fits(*self, lvl)
    }

    fn write_graphql(&self, state: &mut State) {
        self.serialize_impl(state)
    }
}

impl GraphQLNode for Field {
    open spec fn graphql_text(&self, cfg: Option<Seq<char>>, lvl: nat) -> Seq<char> {
        field_text(*self, cfg, lvl)
    }

    open spec fn graphql_fits(&self, lvl: nat) -> bool {
        field_fits(*self, lvl)
    }

    fn write_graphql(&self, state: &mut State) {
        self.serialize_impl(state)
    }
}

impl GraphQLNode for FragmentSpread {
    open spec fn graphql_text(&self, cfg: Option<Seq<char>>, lvl: nat) -> Seq<char> {
        "..."@ + self.fragment_name@ + directives_text(self.directives@, lvl)
    }

    open spec fn graphql_fits(&self, lvl: nat) -> bool {
        directives_fit(self.directives@, lvl)
    }

    fn write_graphql(&self, state: &mut State) {
        self.serialize_impl(state)
    }
}

impl GraphQLNode for InlineFragment {
    open spec fn graphql_text(&self, cfg: Option<Seq<char>>, lvl: nat) -> Seq<char> {
        inline_fragment_text(*self, cfg, lvl)
    }

    open spec fn graphql_fits(&self, lvl: nat) -> bool {
        inline_fragment_fits(*self, lvl)
    }

    fn write_graphql(&self, state: &mut State) {
        self.serialize_impl(state)
    }
}

impl GraphQLNode for Value {
    open spec fn graphql_text(&self, cfg: Option<Seq<char>>, lvl: nat) -> Seq<char> {
        value_text(*self, cfg, lvl)
    }

    open spec fn graphql_fits(&self, lvl: nat) -> bool {
        value_fits(*self, lvl)
    }

    fn write_graphql(&self, state: &mut State) {
        self.serialize_impl(state)
    }
}

} // verus!
