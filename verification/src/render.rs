//! The GraphQL text of each syntax tree node, as mathematical sequences of
//! characters.
//!
//! Every function takes `cfg`, the indentation prefix (`None` when line breaks
//! are disabled), and `lvl`, the indentation level the node is written at.
use vstd::prelude::*;
use crate::ast::{
    Definition, Directive, DirectiveLocation, Document, EnumValueDefinition, Field, FieldDefinition,
    FragmentDefinition, InlineFragment, InputValueDefinition, OperationDefinition, OperationType,
    Selection, Type, Value, VariableDefinition, DirectiveDefinition,
};

verus! {

/// `p` repeated `n` times.
pub open spec fn repeat_text(p: Seq<char>, n: nat) -> Seq<char>
    decreases n,
{
    if n == 0 {
        Seq::empty()
    } else {
        repeat_text(p, (n - 1) as nat) + p
    }
}

/// What separates two items: a line break followed by `lvl` copies of the
/// prefix, or without line breaks a space (when `space`) or nothing.
pub open spec fn line_break(cfg: Option<Seq<char>>, lvl: nat, space: bool) -> Seq<char> {
    match cfg {
        Some(p) => seq!['\n'] + repeat_text(p, lvl),
        None => if space {
            seq![' ']
        } else {
            Seq::empty()
        },
    }
}

/// The items with `sep` between each two of them.
pub open spec fn join(items: Seq<Seq<char>>, sep: Seq<char>) -> Seq<char>
    decreases items.len(),
{
    if items.len() == 0 {
        Seq::empty()
    } else if items.len() == 1 {
        items[0]
    } else {
        join(items.drop_last(), sep) + sep + items.last()
    }
}

/// All the pieces, one after the other.
pub open spec fn concat(items: Seq<Seq<char>>) -> Seq<char>
    decreases items.len(),
{
    if items.len() == 0 {
        Seq::empty()
    } else {
        concat(items.drop_last()) + items.last()
    }
}

/// `[a, b, c]`, or each item on a line of its own followed by a comma.
/// The items are written one level deeper than the brackets.
pub open spec fn comma_block(
    cfg: Option<Seq<char>>,
    lvl: nat,
    open: Seq<char>,
    close: Seq<char>,
    items: Seq<Seq<char>>,
) -> Seq<char> {
    if items.len() == 0 {
        open + close
    } else {
        open + line_break(cfg, lvl + 1, false) + join(items, seq![','] + line_break(cfg, lvl + 1, true))
            + (if cfg is Some {
            seq![',']
        } else {
            Seq::empty()
        }) + line_break(cfg, lvl, false) + close
    }
}

/// `{ a b c }`, or each item on a line of its own.
/// The items are written one level deeper than the braces.
pub open spec fn curly_block(cfg: Option<Seq<char>>, lvl: nat, items: Seq<Seq<char>>) -> Seq<char> {
    if items.len() == 0 {
        seq!['{', '}']
    } else {
        seq!['{'] + line_break(cfg, lvl + 1, true) + join(items, line_break(cfg, lvl + 1, true))
            + line_break(cfg, lvl, true) + seq!['}']
    }
}

/// The uppercase hexadecimal digit of `d` (`d < 16`).
pub open spec fn hex_digit(d: int) -> char {
    if d < 10 {
        (d + 48) as char
    } else {
        (d + 55) as char
    }
}

/// Whether a character of a string value is written as an escape sequence.
pub open spec fn needs_escape(c: char) -> bool {
    ((c as u32) < 0x20 && c != '\t') || c == '"' || c == '\\'
}

/// How one character of a string value is written.
pub open spec fn escaped_char(c: char) -> Seq<char> {
    if c == '\x08' {
        seq!['\\', 'b']
    } else if c == '\n' {
        seq!['\\', 'n']
    } else if c == '\x0C' {
        seq!['\\', 'f']
    } else if c == '\r' {
        seq!['\\', 'r']
    } else if c == '"' {
        seq!['\\', '"']
    } else if c == '\\' {
        seq!['\\', '\\']
    } else if needs_escape(c) {
        seq!['\\', 'u', '0', '0', hex_digit((c as u32) as int / 16), hex_digit((c as u32) as int % 16)]
    } else {
        seq![c]
    }
}

/// The characters of `s`, each escaped as needed.
pub open spec fn escaped_text(s: Seq<char>) -> Seq<char>
    decreases s.len(),
{
    if s.len() == 0 {
        Seq::empty()
    } else {
        escaped_text(s.drop_last()) + escaped_char(s.last())
    }
}

/// A quoted GraphQL string value.
pub open spec fn string_text(s: Seq<char>) -> Seq<char> {
    seq!['"'] + escaped_text(s) + seq!['"']
}

/// The decimal digit of `d` (`d < 10`).
pub open spec fn digit_char(d: int) -> char {
    (d + 48) as char
}

/// The decimal digits of `n`.
pub open spec fn nat_text(n: nat) -> Seq<char>
    decreases n,
{
    if n < 10 {
        seq![digit_char(n as int)]
    } else {
        nat_text(n / 10).push(digit_char((n % 10) as int))
    }
}

/// The decimal text of an integer.
pub open spec fn int_text(i: int) -> Seq<char> {
    if i < 0 {
        seq!['-'] + nat_text((-i) as nat)
    } else {
        nat_text(i as nat)
    }
}

/// The text of a float value: its decimal text, with `.0` appended when it
/// holds no decimal point.
pub open spec fn float_text(t: Seq<char>) -> Seq<char> {
    if t.contains('.') {
        t
    } else {
        t + ".0"@
    }
}

/// The text of a type reference.
pub open spec fn type_text(t: Type) -> Seq<char>
    decreases t,
{
    match t {
        Type::Named(n) => n@,
        Type::NonNullNamed(n) => n@ + "!"@,
        Type::List(inner) => "["@ + type_text(*inner) + "]"@,
        Type::NonNullList(inner) => "["@ + type_text(*inner) + "]!"@,
    }
}

// ---------------------------------------------------------------------------
// Values

pub open spec fn value_text(v: Value, cfg: Option<Seq<char>>, lvl: nat) -> Seq<char>
    decreases v,
{
    match v {
        Value::Null => "null"@,
        Value::Boolean(b) => if b {
            "true"@
        } else {
            "false"@
        },
        Value::Enum(n) => n@,
        Value::String(s) => string_text(s@),
        Value::Variable(n) => "$"@ + n@,
        Value::Float(t) => float_text(t@),
        Value::Int(i) => int_text(i as int),
        Value::BigInt(s) => s@,
        Value::List(vs) => comma_block(cfg, lvl, "["@, "]"@, values_text(vs@, cfg, lvl + 1)),
        Value::Object(fs) => comma_block(cfg, lvl, "{"@, "}"@, named_values_text(fs@, cfg, lvl + 1)),
    }
}

/// The text of each value.
pub open spec fn values_text(vs: Seq<Value>, cfg: Option<Seq<char>>, lvl: nat) -> Seq<Seq<char>>
    decreases vs,
{
    if vs.len() == 0 {
        Seq::empty()
    } else {
        values_text(vs.drop_last(), cfg, lvl).push(value_text(vs.last(), cfg, lvl))
    }
}

/// The text of each `name: value` pair.
pub open spec fn named_values_text(fs: Seq<(String, Value)>, cfg: Option<Seq<char>>, lvl: nat) -> Seq<
    Seq<char>,
>
    decreases fs,
{
    if fs.len() == 0 {
        Seq::empty()
    } else {
        named_values_text(fs.drop_last(), cfg, lvl).push(
            fs.last().0@ + ": "@ + value_text(fs.last().1, cfg, lvl),
        )
    }
}

/// Whether the indentation level stays within `usize` while `v` is written.
pub open spec fn value_fits(v: Value, lvl: nat) -> bool
    decreases v,
{
    match v {
        Value::List(vs) => lvl < usize::MAX && forall|i: int|
            0 <= i < vs@.len() ==> value_fits(#[trigger] vs@[i], lvl + 1),
        Value::Object(fs) => lvl < usize::MAX && forall|i: int|
            0 <= i < fs@.len() ==> value_fits(#[trigger] fs@[i].1, lvl + 1),
        _ => true,
    }
}

pub open spec fn named_values_fit(fs: Seq<(String, Value)>, lvl: nat) -> bool {
    forall|i: int| 0 <= i < fs.len() ==> value_fits(#[trigger] fs[i].1, lvl)
}

pub open spec fn values_fit(vs: Seq<Value>, lvl: nat) -> bool {
    forall|i: int| 0 <= i < vs.len() ==> value_fits(#[trigger] vs[i], lvl)
}

// ---------------------------------------------------------------------------
// Arguments and directives (always written on a single line)

/// `(a: 1, b: 2)`, or nothing when there are no arguments.
pub open spec fn arguments_text(args: Seq<(String, Value)>, lvl: nat) -> Seq<char> {
    if args.len() == 0 {
        Seq::empty()
    } else {
        comma_block(None, lvl, "("@, ")"@, named_values_text(args, None, lvl + 1))
    }
}

pub open spec fn arguments_fit(args: Seq<(String, Value)>, lvl: nat) -> bool {
    args.len() == 0 || (lvl < usize::MAX && named_values_fit(args, lvl + 1))
}

/// `@name(args)`
pub open spec fn directive_text(d: Directive, lvl: nat) -> Seq<char> {
    "@"@ + d.name@ + arguments_text(d.arguments@, lvl)
}

pub open spec fn directive_fits(d: Directive, lvl: nat) -> bool {
    arguments_fit(d.arguments@, lvl)
}

/// Each directive preceded by a space, as separate pieces.
pub open spec fn directive_pieces(ds: Seq<Directive>, lvl: nat) -> Seq<Seq<char>> {
    ds.map_values(|d: Directive| " "@ + directive_text(d, lvl))
}

/// Each directive preceded by a space.
pub open spec fn directives_text(ds: Seq<Directive>, lvl: nat) -> Seq<char> {
    concat(directive_pieces(ds, lvl))
}

pub open spec fn directives_fit(ds: Seq<Directive>, lvl: nat) -> bool {
    forall|i: int| 0 <= i < ds.len() ==> directive_fits(#[trigger] ds[i], lvl)
}

/// ` = value`, or nothing.
pub open spec fn default_value_text(dv: Option<Value>, cfg: Option<Seq<char>>, lvl: nat) -> Seq<char> {
    match dv {
        Some(v) => " = "@ + value_text(v, cfg, lvl),
        None => Seq::empty(),
    }
}

pub open spec fn default_value_fits(dv: Option<Value>, lvl: nat) -> bool {
    match dv {
        Some(v) => value_fits(v, lvl),
        None => true,
    }
}

/// A description followed by a line break (or space), or nothing.
pub open spec fn description_text(desc: Option<String>, cfg: Option<Seq<char>>, lvl: nat) -> Seq<char> {
    match desc {
        Some(d) => string_text(d@) + line_break(cfg, lvl, true),
        None => Seq::empty(),
    }
}

// ---------------------------------------------------------------------------
// Variable, input value, field and enum value definitions

pub open spec fn variable_text(v: VariableDefinition, cfg: Option<Seq<char>>, lvl: nat) -> Seq<char> {
    "$"@ + v.name@ + ": "@ + type_text(v.ty) + default_value_text(v.default_value, cfg, lvl)
        + directives_text(v.directives@, lvl)
}

pub open spec fn variable_fits(v: VariableDefinition, lvl: nat) -> bool {
    default_value_fits(v.default_value, lvl) && directives_fit(v.directives@, lvl)
}

pub open spec fn variables_text(vs: Seq<VariableDefinition>, cfg: Option<Seq<char>>, lvl: nat) -> Seq<
    Seq<char>,
> {
    vs.map_values(|v: VariableDefinition| variable_text(v, cfg, lvl))
}

pub open spec fn variables_fit(vs: Seq<VariableDefinition>, lvl: nat) -> bool {
    forall|i: int| 0 <= i < vs.len() ==> variable_fits(#[trigger] vs[i], lvl)
}

pub open spec fn input_value_text(iv: InputValueDefinition, cfg: Option<Seq<char>>, lvl: nat) -> Seq<
    char,
> {
    description_text(iv.description, cfg, lvl) + iv.name@ + ": "@ + type_text(iv.ty)
        + default_value_text(iv.default_value, cfg, lvl) + directives_text(iv.directives@, lvl)
}

pub open spec fn input_value_fits(iv: InputValueDefinition, lvl: nat) -> bool {
    default_value_fits(iv.default_value, lvl) && directives_fit(iv.directives@, lvl)
}

pub open spec fn input_values_text(ivs: Seq<InputValueDefinition>, cfg: Option<Seq<char>>, lvl: nat) -> Seq<
    Seq<char>,
> {
    ivs.map_values(|iv: InputValueDefinition| input_value_text(iv, cfg, lvl))
}

pub open spec fn input_values_fit(ivs: Seq<InputValueDefinition>, lvl: nat) -> bool {
    forall|i: int| 0 <= i < ivs.len() ==> input_value_fits(#[trigger] ivs[i], lvl)
}

/// Whether an argument definition keeps the argument list on several lines.
pub open spec fn multiline_argument(iv: InputValueDefinition) -> bool {
    iv.description is Some || iv.directives@.len() > 0
}

/// `(a: Int, b: String)`: on a single line unless an argument has a
/// description or directives; nothing when there are no arguments.
pub open spec fn arguments_definition_text(
    args: Seq<InputValueDefinition>,
    cfg: Option<Seq<char>>,
    lvl: nat,
) -> Seq<char> {
    if args.len() == 0 {
        Seq::empty()
    } else if exists|i: int| 0 <= i < args.len() && multiline_argument(#[trigger] args[i]) {
        comma_block(cfg, lvl, "("@, ")"@, input_values_text(args, cfg, lvl + 1))
    } else {
        comma_block(None, lvl, "("@, ")"@, input_values_text(args, None, lvl + 1))
    }
}

pub open spec fn arguments_definition_fit(args: Seq<InputValueDefinition>, lvl: nat) -> bool {
    args.len() == 0 || (lvl < usize::MAX && input_values_fit(args, lvl + 1))
}

pub open spec fn field_definition_text(f: FieldDefinition, cfg: Option<Seq<char>>, lvl: nat) -> Seq<char> {
    description_text(f.description, cfg, lvl) + f.name@ + arguments_definition_text(f.arguments@, cfg, lvl)
        + ": "@ + type_text(f.ty) + directives_text(f.directives@, lvl)
}

pub open spec fn field_definition_fits(f: FieldDefinition, lvl: nat) -> bool {
    arguments_definition_fit(f.arguments@, lvl) && directives_fit(f.directives@, lvl)
}

pub open spec fn field_definitions_text(fs: Seq<FieldDefinition>, cfg: Option<Seq<char>>, lvl: nat) -> Seq<
    Seq<char>,
> {
    fs.map_values(|f: FieldDefinition| field_definition_text(f, cfg, lvl))
}

pub open spec fn field_definitions_fit(fs: Seq<FieldDefinition>, lvl: nat) -> bool {
    forall|i: int| 0 <= i < fs.len() ==> field_definition_fits(#[trigger] fs[i], lvl)
}

pub open spec fn enum_value_text(e: EnumValueDefinition, cfg: Option<Seq<char>>, lvl: nat) -> Seq<char> {
    description_text(e.description, cfg, lvl) + e.value@ + directives_text(e.directives@, lvl)
}

pub open spec fn enum_value_fits(e: EnumValueDefinition, lvl: nat) -> bool {
    directives_fit(e.directives@, lvl)
}

pub open spec fn enum_values_text(es: Seq<EnumValueDefinition>, cfg: Option<Seq<char>>, lvl: nat) -> Seq<
    Seq<char>,
> {
    es.map_values(|e: EnumValueDefinition| enum_value_text(e, cfg, lvl))
}

pub open spec fn enum_values_fit(es: Seq<EnumValueDefinition>, lvl: nat) -> bool {
    forall|i: int| 0 <= i < es.len() ==> enum_value_fits(#[trigger] es[i], lvl)
}

/// `query: Query`
pub open spec fn root_operation_text(op: (OperationType, String)) -> Seq<char> {
    op.0.keyword() + ": "@ + op.1@
}

pub open spec fn root_operations_text(ops: Seq<(OperationType, String)>) -> Seq<Seq<char>> {
    ops.map_values(|op: (OperationType, String)| root_operation_text(op))
}

// ---------------------------------------------------------------------------
// Selections

pub open spec fn selection_text(s: Selection, cfg: Option<Seq<char>>, lvl: nat) -> Seq<char>
    decreases s,
{
    match s {
        Selection::Field(f) => field_text(f, cfg, lvl),
        Selection::FragmentSpread(fs) => "..."@ + fs.fragment_name@ + directives_text(fs.directives@, lvl),
        Selection::InlineFragment(inf) => inline_fragment_text(inf, cfg, lvl),
    }
}

/// `alias: name(args) @dirs { ... }`; the selection set is left out when empty.
pub open spec fn field_text(f: Field, cfg: Option<Seq<char>>, lvl: nat) -> Seq<char>
    decreases f,
{
    (match f.alias {
        Some(a) => a@ + ": "@,
        None => Seq::empty(),
    }) + f.name@ + arguments_text(f.arguments@, lvl) + directives_text(f.directives@, lvl) + (if f.selection_set@.len()
        == 0 {
        Seq::empty()
    } else {
        " "@ + curly_block(cfg, lvl, selections_text(f.selection_set@, cfg, lvl + 1))
    })
}

pub open spec fn inline_fragment_text(inf: InlineFragment, cfg: Option<Seq<char>>, lvl: nat) -> Seq<char>
    decreases inf,
{
    (match inf.type_condition {
        Some(t) => "... on "@ + t@,
        None => "..."@,
    }) + directives_text(inf.directives@, lvl) + " "@ + curly_block(
        cfg,
        lvl,
        selections_text(inf.selection_set@, cfg, lvl + 1),
    )
}

pub open spec fn selections_text(ss: Seq<Selection>, cfg: Option<Seq<char>>, lvl: nat) -> Seq<Seq<char>>
    decreases ss,
{
    if ss.len() == 0 {
        Seq::empty()
    } else {
        selections_text(ss.drop_last(), cfg, lvl).push(selection_text(ss.last(), cfg, lvl))
    }
}

pub open spec fn selection_fits(s: Selection, lvl: nat) -> bool
    decreases s,
{
    match s {
        Selection::Field(f) => field_fits(f, lvl),
        Selection::FragmentSpread(fs) => directives_fit(fs.directives@, lvl),
        Selection::InlineFragment(inf) => inline_fragment_fits(inf, lvl),
    }
}

pub open spec fn field_fits(f: Field, lvl: nat) -> bool
    decreases f,
{
    &&& arguments_fit(f.arguments@, lvl)
    &&& directives_fit(f.directives@, lvl)
    &&& (f.selection_set@.len() == 0 || (lvl < usize::MAX && forall|i: int|
        0 <= i < f.selection_set@.len() ==> selection_fits(#[trigger] f.selection_set@[i], lvl + 1)))
}

pub open spec fn inline_fragment_fits(inf: InlineFragment, lvl: nat) -> bool
    decreases inf,
{
    &&& directives_fit(inf.directives@, lvl)
    &&& (inf.selection_set@.len() == 0 || (lvl < usize::MAX && forall|i: int|
        0 <= i < inf.selection_set@.len() ==> selection_fits(#[trigger] inf.selection_set@[i], lvl + 1)))
}

pub open spec fn selections_fit(ss: Seq<Selection>, lvl: nat) -> bool {
    forall|i: int| 0 <= i < ss.len() ==> selection_fits(#[trigger] ss[i], lvl)
}

/// A selection set at `lvl`, in braces.
pub open spec fn selection_set_text(ss: Seq<Selection>, cfg: Option<Seq<char>>, lvl: nat) -> Seq<char> {
    curly_block(cfg, lvl, selections_text(ss, cfg, lvl + 1))
}

pub open spec fn selection_set_fits(ss: Seq<Selection>, lvl: nat) -> bool {
    ss.len() == 0 || (lvl < usize::MAX && selections_fit(ss, lvl + 1))
}

// ---------------------------------------------------------------------------
// Definitions

/// Whether an operation is written in the shorthand form `{ ... }`.
pub open spec fn is_shorthand(op: OperationDefinition) -> bool {
    op.operation_type == OperationType::Query && op.name is None && op.variables@.len() == 0
        && op.directives@.len() == 0
}

/// What precedes the selection set of an operation: nothing for the
/// shorthand form.
pub open spec fn operation_header_text(op: OperationDefinition, lvl: nat) -> Seq<char> {
    if is_shorthand(op) {
        Seq::empty()
    } else {
        op.operation_type.keyword() + (match op.name {
            Some(n) => " "@ + n@,
            None => Seq::empty(),
        }) + (if op.variables@.len() == 0 {
            Seq::empty()
        } else {
            comma_block(None, lvl, "("@, ")"@, variables_text(op.variables@, None, lvl + 1))
        }) + directives_text(op.directives@, lvl) + " "@
    }
}

pub open spec fn operation_text(op: OperationDefinition, cfg: Option<Seq<char>>, lvl: nat) -> Seq<char> {
    operation_header_text(op, lvl) + selection_set_text(op.selection_set@, cfg, lvl)
}

pub open spec fn operation_fits(op: OperationDefinition, lvl: nat) -> bool {
    &&& (op.variables@.len() == 0 || (lvl < usize::MAX && variables_fit(op.variables@, lvl + 1)))
    &&& directives_fit(op.directives@, lvl)
    &&& selection_set_fits(op.selection_set@, lvl)
}

pub open spec fn fragment_definition_text(fd: FragmentDefinition, cfg: Option<Seq<char>>, lvl: nat) -> Seq<
    char,
> {
    "fragment "@ + fd.name@ + " on "@ + fd.type_condition@ + directives_text(fd.directives@, lvl) + " "@
        + selection_set_text(fd.selection_set@, cfg, lvl)
}

pub open spec fn fragment_definition_fits(fd: FragmentDefinition, lvl: nat) -> bool {
    directives_fit(fd.directives@, lvl) && selection_set_fits(fd.selection_set@, lvl)
}

/// The name of each location.
pub open spec fn location_names(locs: Seq<DirectiveLocation>) -> Seq<Seq<char>> {
    locs.map_values(|l: DirectiveLocation| l.keyword())
}

/// The characters of each name.
pub open spec fn name_texts(names: Seq<String>) -> Seq<Seq<char>> {
    names.map_values(|n: String| n@)
}

/// ` on A | B`, or nothing when there are no locations.
pub open spec fn locations_text(locs: Seq<DirectiveLocation>) -> Seq<char> {
    if locs.len() == 0 {
        Seq::empty()
    } else {
        " on "@ + join(location_names(locs), " | "@)
    }
}

pub open spec fn directive_definition_text(dd: DirectiveDefinition, cfg: Option<Seq<char>>, lvl: nat) -> Seq<
    char,
> {
    description_text(dd.description, cfg, lvl) + "directive @"@ + dd.name@ + arguments_definition_text(
        dd.arguments@,
        cfg,
        lvl,
    ) + (if dd.repeatable {
        " repeatable"@
    } else {
        Seq::empty()
    }) + locations_text(dd.locations@)
}

pub open spec fn directive_definition_fits(dd: DirectiveDefinition, lvl: nat) -> bool {
    arguments_definition_fit(dd.arguments@, lvl)
}

/// The directives and root operations of a schema definition or extension.
pub open spec fn schema_body_text(
    ds: Seq<Directive>,
    ops: Seq<(OperationType, String)>,
    cfg: Option<Seq<char>>,
    lvl: nat,
) -> Seq<char> {
    directives_text(ds, lvl) + " "@ + curly_block(cfg, lvl, root_operations_text(ops))
}

pub open spec fn schema_body_fits(ds: Seq<Directive>, ops: Seq<(OperationType, String)>, lvl: nat) -> bool {
    directives_fit(ds, lvl) && (ops.len() == 0 || lvl < usize::MAX)
}

/// ` implements A & B`, or nothing.
pub open spec fn implements_text(ifaces: Seq<String>) -> Seq<char> {
    if ifaces.len() == 0 {
        Seq::empty()
    } else {
        " implements "@ + join(name_texts(ifaces), " & "@)
    }
}

/// The part of an object or interface type definition after its keyword.
pub open spec fn object_like_text(
    name: Seq<char>,
    ifaces: Seq<String>,
    ds: Seq<Directive>,
    fields: Seq<FieldDefinition>,
    cfg: Option<Seq<char>>,
    lvl: nat,
) -> Seq<char> {
    name + implements_text(ifaces) + directives_text(ds, lvl) + " "@ + curly_block(
        cfg,
        lvl,
        field_definitions_text(fields, cfg, lvl + 1),
    )
}

pub open spec fn object_like_fits(ds: Seq<Directive>, fields: Seq<FieldDefinition>, lvl: nat) -> bool {
    directives_fit(ds, lvl) && (fields.len() == 0 || (lvl < usize::MAX && field_definitions_fit(
        fields,
        lvl + 1,
    )))
}

/// ` = A | B`, or nothing.
pub open spec fn members_text(members: Seq<String>) -> Seq<char> {
    if members.len() == 0 {
        Seq::empty()
    } else {
        " = "@ + join(name_texts(members), " | "@)
    }
}

/// The part of a union type definition after its keyword.
pub open spec fn union_body_text(name: Seq<char>, ds: Seq<Directive>, members: Seq<String>, lvl: nat) -> Seq<
    char,
> {
    name + directives_text(ds, lvl) + members_text(members)
}

/// The part of an enum type definition after its keyword.
pub open spec fn enum_body_text(
    name: Seq<char>,
    ds: Seq<Directive>,
    values: Seq<EnumValueDefinition>,
    cfg: Option<Seq<char>>,
    lvl: nat,
) -> Seq<char> {
    name + directives_text(ds, lvl) + " "@ + curly_block(cfg, lvl, enum_values_text(values, cfg, lvl + 1))
}

pub open spec fn enum_body_fits(ds: Seq<Directive>, values: Seq<EnumValueDefinition>, lvl: nat) -> bool {
    directives_fit(ds, lvl) && (values.len() == 0 || (lvl < usize::MAX && enum_values_fit(values, lvl + 1)))
}

/// The part of an input object type definition after its keyword.
pub open spec fn input_object_body_text(
    name: Seq<char>,
    ds: Seq<Directive>,
    fields: Seq<InputValueDefinition>,
    cfg: Option<Seq<char>>,
    lvl: nat,
) -> Seq<char> {
    name + directives_text(ds, lvl) + " "@ + curly_block(cfg, lvl, input_values_text(fields, cfg, lvl + 1))
}

pub open spec fn input_object_body_fits(ds: Seq<Directive>, fields: Seq<InputValueDefinition>, lvl: nat) -> bool {
    directives_fit(ds, lvl) && (fields.len() == 0 || (lvl < usize::MAX && input_values_fit(fields, lvl + 1)))
}

pub open spec fn definition_text(d: Definition, cfg: Option<Seq<char>>, lvl: nat) -> Seq<char> {
    match d {
        Definition::OperationDefinition(x) => operation_text(x, cfg, lvl),
        Definition::FragmentDefinition(x) => fragment_definition_text(x, cfg, lvl),
        Definition::DirectiveDefinition(x) => directive_definition_text(x, cfg, lvl),
        Definition::SchemaDefinition(x) => description_text(x.description, cfg, lvl) + "schema"@
            + schema_body_text(x.directives@, x.root_operations@, cfg, lvl),
        Definition::ScalarTypeDefinition(x) => description_text(x.description, cfg, lvl) + "scalar "@ + x.name@
            + directives_text(x.directives@, lvl),
        Definition::ObjectTypeDefinition(x) => description_text(x.description, cfg, lvl) + "type "@
            + object_like_text(x.name@, x.implements_interfaces@, x.directives@, x.fields@, cfg, lvl),
        Definition::InterfaceTypeDefinition(x) => description_text(x.description, cfg, lvl) + "interface "@
            + object_like_text(x.name@, x.implements_interfaces@, x.directives@, x.fields@, cfg, lvl),
        Definition::UnionTypeDefinition(x) => description_text(x.description, cfg, lvl) + "union "@
            + union_body_text(x.name@, x.directives@, x.members@, lvl),
        Definition::EnumTypeDefinition(x) => description_text(x.description, cfg, lvl) + "enum "@
            + enum_body_text(x.name@, x.directives@, x.values@, cfg, lvl),
        Definition::InputObjectTypeDefinition(x) => description_text(x.description, cfg, lvl) + "input "@
            + input_object_body_text(x.name@, x.directives@, x.fields@, cfg, lvl),
        Definition::SchemaExtension(x) => "extend schema"@ + schema_body_text(
            x.directives@,
            x.root_operations@,
            cfg,
            lvl,
        ),
        Definition::ScalarTypeExtension(x) => "extend scalar "@ + x.name@ + directives_text(x.directives@, lvl),
        Definition::ObjectTypeExtension(x) => "extend type "@ + object_like_text(
            x.name@,
            x.implements_interfaces@,
            x.directives@,
            x.fields@,
            cfg,
            lvl,
        ),
        Definition::InterfaceTypeExtension(x) => "extend interface "@ + object_like_text(
            x.name@,
            x.implements_interfaces@,
            x.directives@,
            x.fields@,
            cfg,
            lvl,
        ),
        Definition::UnionTypeExtension(x) => "extend union "@ + union_body_text(
            x.name@,
            x.directives@,
            x.members@,
            lvl,
        ),
        Definition::EnumTypeExtension(x) => "extend enum "@ + enum_body_text(
            x.name@,
            x.directives@,
            x.values@,
            cfg,
            lvl,
        ),
        Definition::InputObjectTypeExtension(x) => "extend input "@ + input_object_body_text(
            x.name@,
            x.directives@,
            x.fields@,
            cfg,
            lvl,
        ),
    }
}

pub open spec fn definition_fits(d: Definition, lvl: nat) -> bool {
    match d {
        Definition::OperationDefinition(x) => operation_fits(x, lvl),
        Definition::FragmentDefinition(x) => fragment_definition_fits(x, lvl),
        Definition::DirectiveDefinition(x) => directive_definition_fits(x, lvl),
        Definition::SchemaDefinition(x) => schema_body_fits(x.directives@, x.root_operations@, lvl),
        Definition::ScalarTypeDefinition(x) => directives_fit(x.directives@, lvl),
        Definition::ObjectTypeDefinition(x) => object_like_fits(x.directives@, x.fields@, lvl),
        Definition::InterfaceTypeDefinition(x) => object_like_fits(x.directives@, x.fields@, lvl),
        Definition::UnionTypeDefinition(x) => directives_fit(x.directives@, lvl),
        Definition::EnumTypeDefinition(x) => enum_body_fits(x.directives@, x.values@, lvl),
        Definition::InputObjectTypeDefinition(x) => input_object_body_fits(x.directives@, x.fields@, lvl),
        Definition::SchemaExtension(x) => schema_body_fits(x.directives@, x.root_operations@, lvl),
        Definition::ScalarTypeExtension(x) => directives_fit(x.directives@, lvl),
        Definition::ObjectTypeExtension(x) => object_like_fits(x.directives@, x.fields@, lvl),
        Definition::InterfaceTypeExtension(x) => object_like_fits(x.directives@, x.fields@, lvl),
        Definition::UnionTypeExtension(x) => directives_fit(x.directives@, lvl),
        Definition::EnumTypeExtension(x) => enum_body_fits(x.directives@, x.values@, lvl),
        Definition::InputObjectTypeExtension(x) => input_object_body_fits(x.directives@, x.fields@, lvl),
    }
}

/// The text of each definition.
pub open spec fn definitions_text(defs: Seq<Definition>, cfg: Option<Seq<char>>, lvl: nat) -> Seq<Seq<char>> {
    defs.map_values(|d: Definition| definition_text(d, cfg, lvl))
}

/// The definitions, separated by an empty line (or a space), with a final
/// line break when line breaks are enabled.
pub open spec fn document_text(doc: Document, cfg: Option<Seq<char>>, lvl: nat) -> Seq<char> {
    let defs = doc.definitions@;
    if defs.len() == 0 {
        Seq::empty()
    } else {
        join(
            definitions_text(defs, cfg, lvl),
            (if cfg is Some {
                seq!['\n']
            } else {
                Seq::empty()
            }) + line_break(cfg, lvl, true),
        ) + (if cfg is Some {
            seq!['\n']
        } else {
            Seq::empty()
        })
    }
}

pub open spec fn document_fits(doc: Document, lvl: nat) -> bool {
    forall|i: int| 0 <= i < doc.definitions@.len() ==> definition_fits(#[trigger] doc.definitions@[i], lvl)
}

/// The view of an indentation prefix.
pub open spec fn prefix_view(p: Option<&str>) -> Option<Seq<char>> {
    match p {
        Some(s) => Some(s@),
        None => None,
    }
}

// ---------------------------------------------------------------------------
// Lemmas on the list combinators

pub proof fn lemma_join_step(items: Seq<Seq<char>>, sep: Seq<char>, i: int)
    requires
        1 <= i < items.len(),
    ensures
        join(items.take(i + 1), sep) == join(items.take(i), sep) + sep + items[i],
{
    assert(items.take(i + 1).drop_last() =~= items.take(i));
}

pub proof fn lemma_join_first(items: Seq<Seq<char>>, sep: Seq<char>)
    requires
        items.len() >= 1,
    ensures
        join(items.take(1), sep) == items[0],
{
}

pub proof fn lemma_concat_step(items: Seq<Seq<char>>, i: int)
    requires
        0 <= i < items.len(),
    ensures
        concat(items.take(i + 1)) == concat(items.take(i)) + items[i],
{
    assert(items.take(i + 1).drop_last() =~= items.take(i));
}

pub proof fn lemma_values_text(vs: Seq<Value>, cfg: Option<Seq<char>>, lvl: nat)
    ensures
        values_text(vs, cfg, lvl).len() == vs.len(),
        forall|i: int| 0 <= i < vs.len() ==> #[trigger] values_text(vs, cfg, lvl)[i] == value_text(vs[i], cfg, lvl),
    decreases vs.len(),
{
    if vs.len() > 0 {
        lemma_values_text(vs.drop_last(), cfg, lvl);
    }
}

pub proof fn lemma_named_values_text(fs: Seq<(String, Value)>, cfg: Option<Seq<char>>, lvl: nat)
    ensures
        named_values_text(fs, cfg, lvl).len() == fs.len(),
        forall|i: int| 0 <= i < fs.len() ==> #[trigger] named_values_text(fs, cfg, lvl)[i] == fs[i].0@ + ": "@ + value_text(fs[i].1, cfg, lvl),
    decreases fs.len(),
{
    if fs.len() > 0 {
        lemma_named_values_text(fs.drop_last(), cfg, lvl);
    }
}

pub proof fn lemma_selections_text(ss: Seq<Selection>, cfg: Option<Seq<char>>, lvl: nat)
    ensures
        selections_text(ss, cfg, lvl).len() == ss.len(),
        forall|i: int| 0 <= i < ss.len() ==> #[trigger] selections_text(ss, cfg, lvl)[i] == selection_text(ss[i], cfg, lvl),
    decreases ss.len(),
{
    if ss.len() > 0 {
        lemma_selections_text(ss.drop_last(), cfg, lvl);
    }
}

pub proof fn lemma_escaped_text_step(s: Seq<char>, i: int)
    requires
        0 <= i < s.len(),
    ensures
        escaped_text(s.take(i + 1)) == escaped_text(s.take(i)) + escaped_char(s[i]),
{
    assert(s.take(i + 1).drop_last() =~= s.take(i));
}

pub proof fn lemma_repeat_step(p: Seq<char>, n: nat)
    ensures
        repeat_text(p, n + 1) == repeat_text(p, n) + p,
{
}

} // verus!
