//! Without indentation, GraphQL text is written on a single line: the
//! writer itself puts no line break in it, so a document whose names hold no
//! line break is written on one line.
use vstd::prelude::*;
use crate::ast::{
    Definition, Directive, DirectiveDefinition, DirectiveLocation, Document, EnumValueDefinition, Field,
    FieldDefinition, FragmentDefinition, InlineFragment, InputValueDefinition, OperationDefinition, OperationType,
    Selection, Type, Value, VariableDefinition,
};
use crate::render::{
    arguments_definition_text, arguments_text, comma_block, concat, curly_block, default_value_text,
    definition_text, definitions_text, description_text, directive_definition_text, directive_pieces,
    directive_text, directives_text, document_text, enum_body_text, enum_value_text, enum_values_text,
    field_definition_text, field_definitions_text, fragment_definition_text, implements_text,
    input_object_body_text, input_value_text, input_values_text, join, lemma_named_values_text,
    lemma_selections_text, line_break, location_names, locations_text, members_text, name_texts,
    object_like_text, operation_header_text, operation_text, root_operations_text, schema_body_text,
    selection_set_text, selection_text, selections_text,
    union_body_text, named_values_text, type_text, value_text,
    variable_text, variables_text,
};
use crate::render_laws::{
    is_single_line, lemma_comma_block_single_line, lemma_concat_single_line, lemma_join_single_line,
    lemma_string_value_single_line, lemma_value_single_line, value_names_single_line,
};

verus! {

/// The names in a type hold no line break.
pub open spec fn type_names_single_line(t: Type) -> bool
    decreases t,
{
    match t {
        Type::Named(n) => is_single_line(n@),
        Type::NonNullNamed(n) => is_single_line(n@),
        Type::List(inner) => type_names_single_line(*inner),
        Type::NonNullList(inner) => type_names_single_line(*inner),
    }
}

/// The argument names and values hold no line break.
pub open spec fn arguments_single_line(args: Seq<(String, Value)>) -> bool {
    forall|i: int| 0 <= i < args.len() ==> is_single_line((#[trigger] args[i]).0@) && value_names_single_line(args[i].1)
}

pub open spec fn directive_names_single_line(d: Directive) -> bool {
    is_single_line(d.name@) && arguments_single_line(d.arguments@)
}

pub open spec fn directives_names_single_line(ds: Seq<Directive>) -> bool {
    forall|i: int| 0 <= i < ds.len() ==> directive_names_single_line(#[trigger] ds[i])
}

pub open spec fn default_names_single_line(dv: Option<Value>) -> bool {
    match dv {
        Some(v) => value_names_single_line(v),
        None => true,
    }
}

pub open spec fn variable_names_single_line(v: VariableDefinition) -> bool {
    &&& is_single_line(v.name@)
    &&& type_names_single_line(v.ty)
    &&& default_names_single_line(v.default_value)
    &&& directives_names_single_line(v.directives@)
}

pub open spec fn input_value_names_single_line(iv: InputValueDefinition) -> bool {
    &&& is_single_line(iv.name@)
    &&& type_names_single_line(iv.ty)
    &&& default_names_single_line(iv.default_value)
    &&& directives_names_single_line(iv.directives@)
}

pub open spec fn input_values_names_single_line(ivs: Seq<InputValueDefinition>) -> bool {
    forall|i: int| 0 <= i < ivs.len() ==> input_value_names_single_line(#[trigger] ivs[i])
}

pub open spec fn field_definition_names_single_line(f: FieldDefinition) -> bool {
    &&& is_single_line(f.name@)
    &&& input_values_names_single_line(f.arguments@)
    &&& type_names_single_line(f.ty)
    &&& directives_names_single_line(f.directives@)
}

pub open spec fn enum_value_names_single_line(e: EnumValueDefinition) -> bool {
    is_single_line(e.value@) && directives_names_single_line(e.directives@)
}

proof fn lemma_three(a: Seq<char>, b: Seq<char>, c: Seq<char>)
    requires
        is_single_line(a),
        is_single_line(b),
        is_single_line(c),
    ensures
        is_single_line(a + b + c),
{
    lemma_concat_single_line(a, b);
    lemma_concat_single_line(a + b, c);
}

/// Without line breaks in its names, a type is written on one line. The names, types, enum values, variables and number texts in
/// it must hold no line break.
pub proof fn lemma_type_single_line(t: Type)
    requires
        type_names_single_line(t),
    ensures
        is_single_line(type_text(t)),
    decreases t,
{
    reveal_strlit("!");
    reveal_strlit("[");
    reveal_strlit("]");
    reveal_strlit("]!");
    match t {
        Type::Named(n) => {},
        Type::NonNullNamed(n) => {
            lemma_concat_single_line(n@, "!"@);
        },
        Type::List(inner) => {
            lemma_type_single_line(*inner);
            lemma_three("["@, type_text(*inner), "]"@);
        },
        Type::NonNullList(inner) => {
            lemma_type_single_line(*inner);
            lemma_three("["@, type_text(*inner), "]!"@);
        },
    }
}

/// Arguments whose names and values hold no line break are written on one line. The names, types, enum values, variables and number texts in
/// it must hold no line break.
pub proof fn lemma_arguments_single_line(args: Seq<(String, Value)>, lvl: nat)
    requires
        arguments_single_line(args),
    ensures
        is_single_line(arguments_text(args, lvl)),
{
    if args.len() > 0 {
        reveal_strlit("(");
        reveal_strlit(")");
        reveal_strlit(": ");
        lemma_named_values_text(args, None, lvl + 1);
        assert forall|i: int| 0 <= i < args.len() implies is_single_line(
            #[trigger] named_values_text(args, None, lvl + 1)[i],
        ) by {
            lemma_value_single_line(args[i].1, lvl + 1, lvl + 1);
            lemma_three(args[i].0@, ": "@, value_text(args[i].1, None, lvl + 1));
        }
        lemma_comma_block_single_line(lvl, "("@, ")"@, named_values_text(args, None, lvl + 1));
    }
}

proof fn lemma_concat_items_single_line(items: Seq<Seq<char>>)
    requires
        forall|i: int| 0 <= i < items.len() ==> is_single_line(#[trigger] items[i]),
    ensures
        is_single_line(concat(items)),
    decreases items.len(),
{
    if items.len() > 0 {
        let prefix = items.drop_last();
        assert forall|i: int| 0 <= i < prefix.len() implies is_single_line(#[trigger] prefix[i]) by {
            assert(prefix[i] == items[i]);
        }
        lemma_concat_items_single_line(prefix);
        lemma_concat_single_line(concat(prefix), items.last());
    }
}

/// Directives whose names and arguments hold no line break are written on one line. The names, types, enum values, variables and number texts in
/// it must hold no line break.
pub proof fn lemma_directives_single_line(ds: Seq<Directive>, lvl: nat)
    requires
        directives_names_single_line(ds),
    ensures
        is_single_line(directives_text(ds, lvl)),
{
    reveal_strlit(" ");
    reveal_strlit("@");
    assert forall|i: int| 0 <= i < ds.len() implies is_single_line(#[trigger] directive_pieces(ds, lvl)[i]) by {
        lemma_arguments_single_line(ds[i].arguments@, lvl);
        lemma_three("@"@, ds[i].name@, arguments_text(ds[i].arguments@, lvl));
        lemma_concat_single_line(" "@, directive_text(ds[i], lvl));
    }
    lemma_concat_items_single_line(directive_pieces(ds, lvl));
}

/// A default value without line breaks in its names is written on one line. The names, types, enum values, variables and number texts in
/// it must hold no line break.
pub proof fn lemma_default_single_line(dv: Option<Value>, lvl: nat)
    requires
        default_names_single_line(dv),
    ensures
        is_single_line(default_value_text(dv, None, lvl)),
{
    reveal_strlit(" = ");
    if let Some(v) = dv {
        lemma_value_single_line(v, lvl, lvl);
        lemma_concat_single_line(" = "@, value_text(v, None, lvl));
    }
}

/// Without indentation a description, escaped, is written on one line.
pub proof fn lemma_description_single_line(desc: Option<String>, lvl: nat)
    ensures
        is_single_line(description_text(desc, None, lvl)),
{
    if let Some(d) = desc {
        lemma_string_value_single_line(d@);
        lemma_concat_single_line(crate::render::string_text(d@), seq![' ']);
    }
}

/// Without indentation a variable definition is written on one line. The names, types, enum values, variables and number texts in
/// it must hold no line break.
pub proof fn lemma_variable_single_line(v: VariableDefinition, lvl: nat)
    requires
        variable_names_single_line(v),
    ensures
        is_single_line(variable_text(v, None, lvl)),
{
    reveal_strlit("$");
    reveal_strlit(": ");
    lemma_type_single_line(v.ty);
    lemma_default_single_line(v.default_value, lvl);
    lemma_directives_single_line(v.directives@, lvl);
    lemma_three("$"@, v.name@, ": "@);
    lemma_three("$"@ + v.name@ + ": "@, type_text(v.ty), default_value_text(v.default_value, None, lvl));
    lemma_concat_single_line(
        "$"@ + v.name@ + ": "@ + type_text(v.ty) + default_value_text(v.default_value, None, lvl),
        directives_text(v.directives@, lvl),
    );
}

/// Without indentation an input value definition is written on one line. The names, types, enum values, variables and number texts in
/// it must hold no line break.
pub proof fn lemma_input_value_single_line(iv: InputValueDefinition, lvl: nat)
    requires
        input_value_names_single_line(iv),
    ensures
        is_single_line(input_value_text(iv, None, lvl)),
{
    reveal_strlit(": ");
    lemma_description_single_line(iv.description, lvl);
    lemma_type_single_line(iv.ty);
    lemma_default_single_line(iv.default_value, lvl);
    lemma_directives_single_line(iv.directives@, lvl);
    let d = description_text(iv.description, None, lvl);
    lemma_three(d, iv.name@, ": "@);
    lemma_three(d + iv.name@ + ": "@, type_text(iv.ty), default_value_text(iv.default_value, None, lvl));
    lemma_concat_single_line(
        d + iv.name@ + ": "@ + type_text(iv.ty) + default_value_text(iv.default_value, None, lvl),
        directives_text(iv.directives@, lvl),
    );
}

/// Without indentation argument definitions are written on one line. The names, types, enum values, variables and number texts in
/// it must hold no line break.
pub proof fn lemma_arguments_definition_single_line(args: Seq<InputValueDefinition>, lvl: nat)
    requires
        input_values_names_single_line(args),
    ensures
        is_single_line(arguments_definition_text(args, None, lvl)),
{
    if args.len() > 0 {
        reveal_strlit("(");
        reveal_strlit(")");
        assert forall|i: int| 0 <= i < args.len() implies is_single_line(
            #[trigger] input_values_text(args, None, lvl + 1)[i],
        ) by {
            lemma_input_value_single_line(args[i], lvl + 1);
        }
        lemma_comma_block_single_line(lvl, "("@, ")"@, input_values_text(args, None, lvl + 1));
    }
}

/// Without indentation a field definition is written on one line. The names, types, enum values, variables and number texts in
/// it must hold no line break.
pub proof fn lemma_field_definition_single_line(f: FieldDefinition, lvl: nat)
    requires
        field_definition_names_single_line(f),
    ensures
        is_single_line(field_definition_text(f, None, lvl)),
{
    reveal_strlit(": ");
    lemma_description_single_line(f.description, lvl);
    lemma_arguments_definition_single_line(f.arguments@, lvl);
    lemma_type_single_line(f.ty);
    lemma_directives_single_line(f.directives@, lvl);
    let d = description_text(f.description, None, lvl);
    lemma_three(d, f.name@, arguments_definition_text(f.arguments@, None, lvl));
    lemma_three(d + f.name@ + arguments_definition_text(f.arguments@, None, lvl), ": "@, type_text(f.ty));
    lemma_concat_single_line(
        d + f.name@ + arguments_definition_text(f.arguments@, None, lvl) + ": "@ + type_text(f.ty),
        directives_text(f.directives@, lvl),
    );
}

/// Without indentation an enum value definition is written on one line. The names, types, enum values, variables and number texts in
/// it must hold no line break.
pub proof fn lemma_enum_value_single_line(e: EnumValueDefinition, lvl: nat)
    requires
        enum_value_names_single_line(e),
    ensures
        is_single_line(enum_value_text(e, None, lvl)),
{
    lemma_description_single_line(e.description, lvl);
    lemma_directives_single_line(e.directives@, lvl);
    lemma_three(description_text(e.description, None, lvl), e.value@, directives_text(e.directives@, lvl));
}

pub open spec fn selection_names_single_line(s: Selection) -> bool
    decreases s,
{
    match s {
        Selection::Field(f) => field_names_single_line(f),
        Selection::FragmentSpread(fs) => is_single_line(fs.fragment_name@) && directives_names_single_line(
            fs.directives@,
        ),
        Selection::InlineFragment(inf) => inline_fragment_names_single_line(inf),
    }
}

pub open spec fn field_names_single_line(f: Field) -> bool
    decreases f,
{
    &&& match f.alias {
        Some(a) => is_single_line(a@),
        None => true,
    }
    &&& is_single_line(f.name@)
    &&& arguments_single_line(f.arguments@)
    &&& directives_names_single_line(f.directives@)
    &&& forall|i: int|
        0 <= i < f.selection_set@.len() ==> selection_names_single_line(#[trigger] f.selection_set@[i])
}

pub open spec fn inline_fragment_names_single_line(inf: InlineFragment) -> bool
    decreases inf,
{
    &&& match inf.type_condition {
        Some(t) => is_single_line(t@),
        None => true,
    }
    &&& directives_names_single_line(inf.directives@)
    &&& forall|i: int|
        0 <= i < inf.selection_set@.len() ==> selection_names_single_line(#[trigger] inf.selection_set@[i])
}

pub proof fn lemma_curly_block_single_line(lvl: nat, items: Seq<Seq<char>>)
    requires
        forall|i: int| 0 <= i < items.len() ==> is_single_line(#[trigger] items[i]),
    ensures
        is_single_line(curly_block(None, lvl, items)),
{
    if items.len() > 0 {
        lemma_join_single_line(items, seq![' ']);
        lemma_three(seq!['{'], seq![' '], join(items, seq![' ']));
        lemma_three(seq!['{'] + seq![' '] + join(items, seq![' ']), seq![' '], seq!['}']);
    }
}

proof fn lemma_selection_set_single_line(ss: Seq<Selection>, lvl: nat)
    requires
        forall|i: int| 0 <= i < ss.len() ==> selection_names_single_line(#[trigger] ss[i]),
    ensures
        is_single_line(curly_block(None, lvl, selections_text(ss, None, lvl + 1))),
    decreases ss, 0int,
{
    lemma_selections_text(ss, None, lvl + 1);
    assert forall|i: int| 0 <= i < ss.len() implies is_single_line(#[trigger] selections_text(ss, None, lvl + 1)[i]) by {
        lemma_selection_single_line(ss[i], lvl + 1);
    }
    lemma_curly_block_single_line(lvl, selections_text(ss, None, lvl + 1));
}

/// Without indentation a selection, with all it nests, is written on one line. The names, types, enum values, variables and number texts in
/// it must hold no line break.
pub proof fn lemma_selection_single_line(s: Selection, lvl: nat)
    requires
        selection_names_single_line(s),
    ensures
        is_single_line(selection_text(s, None, lvl)),
    decreases s, 1int,
{
    match s {
        Selection::Field(f) => {
            reveal_strlit(": ");
            reveal_strlit(" ");
            let alias = match f.alias {
                Some(a) => a@ + ": "@,
                None => Seq::empty(),
            };
            if let Some(a) = f.alias {
                lemma_concat_single_line(a@, ": "@);
            }
            lemma_arguments_single_line(f.arguments@, lvl);
            lemma_directives_single_line(f.directives@, lvl);
            lemma_three(alias, f.name@, arguments_text(f.arguments@, lvl));
            let head = alias + f.name@ + arguments_text(f.arguments@, lvl) + directives_text(f.directives@, lvl);
            lemma_concat_single_line(alias + f.name@ + arguments_text(f.arguments@, lvl), directives_text(f.directives@, lvl));
            if f.selection_set@.len() > 0 {
                lemma_selection_set_single_line(f.selection_set@, lvl);
                lemma_three(head, " "@, curly_block(None, lvl, selections_text(f.selection_set@, None, lvl + 1)));
            } else {
                assert(head + Seq::<char>::empty() =~= head);
            }
        },
        Selection::FragmentSpread(fs) => {
            reveal_strlit("...");
            lemma_directives_single_line(fs.directives@, lvl);
            lemma_three("..."@, fs.fragment_name@, directives_text(fs.directives@, lvl));
        },
        Selection::InlineFragment(inf) => {
            reveal_strlit("... on ");
            reveal_strlit("...");
            reveal_strlit(" ");
            let head = match inf.type_condition {
                Some(t) => "... on "@ + t@,
                None => "..."@,
            };
            if let Some(t) = inf.type_condition {
                lemma_concat_single_line("... on "@, t@);
            }
            lemma_directives_single_line(inf.directives@, lvl);
            lemma_selection_set_single_line(inf.selection_set@, lvl);
            lemma_three(head, directives_text(inf.directives@, lvl), " "@);
            lemma_concat_single_line(
                head + directives_text(inf.directives@, lvl) + " "@,
                curly_block(None, lvl, selections_text(inf.selection_set@, None, lvl + 1)),
            );
        },
    }
}

/// The names hold no line break.
pub open spec fn names_single_line(ns: Seq<String>) -> bool {
    forall|i: int| 0 <= i < ns.len() ==> is_single_line((#[trigger] ns[i])@)
}

pub open spec fn selections_names_single_line(ss: Seq<Selection>) -> bool {
    forall|i: int| 0 <= i < ss.len() ==> selection_names_single_line(#[trigger] ss[i])
}

pub open spec fn fields_names_single_line(fs: Seq<FieldDefinition>) -> bool {
    forall|i: int| 0 <= i < fs.len() ==> field_definition_names_single_line(#[trigger] fs[i])
}

pub open spec fn enum_values_names_single_line(es: Seq<EnumValueDefinition>) -> bool {
    forall|i: int| 0 <= i < es.len() ==> enum_value_names_single_line(#[trigger] es[i])
}

pub open spec fn root_operations_single_line(ops: Seq<(OperationType, String)>) -> bool {
    forall|i: int| 0 <= i < ops.len() ==> is_single_line((#[trigger] ops[i]).1@)
}

pub open spec fn operation_names_single_line(op: OperationDefinition) -> bool {
    &&& match op.name {
        Some(n) => is_single_line(n@),
        None => true,
    }
    &&& forall|i: int| 0 <= i < op.variables@.len() ==> variable_names_single_line(#[trigger] op.variables@[i])
    &&& directives_names_single_line(op.directives@)
    &&& selections_names_single_line(op.selection_set@)
}

pub open spec fn fragment_names_single_line(fd: FragmentDefinition) -> bool {
    &&& is_single_line(fd.name@)
    &&& is_single_line(fd.type_condition@)
    &&& directives_names_single_line(fd.directives@)
    &&& selections_names_single_line(fd.selection_set@)
}

/// The names, types, enum values, variables and number texts of a definition
/// hold no line break (as GraphQL names and numbers never do).
pub open spec fn definition_names_single_line(d: Definition) -> bool {
    match d {
        Definition::OperationDefinition(x) => operation_names_single_line(x),
        Definition::FragmentDefinition(x) => fragment_names_single_line(x),
        Definition::DirectiveDefinition(x) => is_single_line(x.name@) && input_values_names_single_line(
            x.arguments@,
        ),
        Definition::SchemaDefinition(x) => directives_names_single_line(x.directives@)
            && root_operations_single_line(x.root_operations@),
        Definition::ScalarTypeDefinition(x) => is_single_line(x.name@) && directives_names_single_line(
            x.directives@,
        ),
        Definition::ObjectTypeDefinition(x) => is_single_line(x.name@) && names_single_line(
            x.implements_interfaces@,
        ) && directives_names_single_line(x.directives@) && fields_names_single_line(x.fields@),
        Definition::InterfaceTypeDefinition(x) => is_single_line(x.name@) && names_single_line(
            x.implements_interfaces@,
        ) && directives_names_single_line(x.directives@) && fields_names_single_line(x.fields@),
        Definition::UnionTypeDefinition(x) => is_single_line(x.name@) && directives_names_single_line(
            x.directives@,
        ) && names_single_line(x.members@),
        Definition::EnumTypeDefinition(x) => is_single_line(x.name@) && directives_names_single_line(
            x.directives@,
        ) && enum_values_names_single_line(x.values@),
        Definition::InputObjectTypeDefinition(x) => is_single_line(x.name@) && directives_names_single_line(
            x.directives@,
        ) && input_values_names_single_line(x.fields@),
        Definition::SchemaExtension(x) => directives_names_single_line(x.directives@)
            && root_operations_single_line(x.root_operations@),
        Definition::ScalarTypeExtension(x) => is_single_line(x.name@) && directives_names_single_line(
            x.directives@,
        ),
        Definition::ObjectTypeExtension(x) => is_single_line(x.name@) && names_single_line(
            x.implements_interfaces@,
        ) && directives_names_single_line(x.directives@) && fields_names_single_line(x.fields@),
        Definition::InterfaceTypeExtension(x) => is_single_line(x.name@) && names_single_line(
            x.implements_interfaces@,
        ) && directives_names_single_line(x.directives@) && fields_names_single_line(x.fields@),
        Definition::UnionTypeExtension(x) => is_single_line(x.name@) && directives_names_single_line(
            x.directives@,
        ) && names_single_line(x.members@),
        Definition::EnumTypeExtension(x) => is_single_line(x.name@) && directives_names_single_line(
            x.directives@,
        ) && enum_values_names_single_line(x.values@),
        Definition::InputObjectTypeExtension(x) => is_single_line(x.name@) && directives_names_single_line(
            x.directives@,
        ) && input_values_names_single_line(x.fields@),
    }
}

/// The names, types, enum values, variables and number texts of a document
/// hold no line break.
pub open spec fn document_names_single_line(doc: Document) -> bool {
    forall|i: int| 0 <= i < doc.definitions@.len() ==> definition_names_single_line(#[trigger] doc.definitions@[i])
}

proof fn lemma_operation_keyword(t: OperationType)
    ensures
        is_single_line(t.keyword()),
{
    reveal_strlit("query");
    reveal_strlit("mutation");
    reveal_strlit("subscription");
}

proof fn lemma_location_keyword(l: DirectiveLocation)
    ensures
        is_single_line(l.keyword()),
{
    reveal_strlit("QUERY");
    reveal_strlit("MUTATION");
    reveal_strlit("SUBSCRIPTION");
    reveal_strlit("FIELD");
    reveal_strlit("FRAGMENT_DEFINITION");
    reveal_strlit("FRAGMENT_SPREAD");
    reveal_strlit("INLINE_FRAGMENT");
    reveal_strlit("VARIABLE_DEFINITION");
    reveal_strlit("SCHEMA");
    reveal_strlit("SCALAR");
    reveal_strlit("OBJECT");
    reveal_strlit("FIELD_DEFINITION");
    reveal_strlit("ARGUMENT_DEFINITION");
    reveal_strlit("INTERFACE");
    reveal_strlit("UNION");
    reveal_strlit("ENUM");
    reveal_strlit("ENUM_VALUE");
    reveal_strlit("INPUT_OBJECT");
    reveal_strlit("INPUT_FIELD_DEFINITION");
}

proof fn lemma_names_join(ns: Seq<String>, sep: Seq<char>)
    requires
        names_single_line(ns),
        is_single_line(sep),
    ensures
        is_single_line(join(name_texts(ns), sep)),
{
    assert forall|i: int| 0 <= i < name_texts(ns).len() implies is_single_line(#[trigger] name_texts(ns)[i]) by {}
    lemma_join_single_line(name_texts(ns), sep);
}

proof fn lemma_object_like_single_line(
    name: Seq<char>,
    ifaces: Seq<String>,
    ds: Seq<Directive>,
    fields: Seq<FieldDefinition>,
    lvl: nat,
)
    requires
        is_single_line(name),
        names_single_line(ifaces),
        directives_names_single_line(ds),
        fields_names_single_line(fields),
    ensures
        is_single_line(object_like_text(name, ifaces, ds, fields, None, lvl)),
{
    reveal_strlit(" implements ");
    reveal_strlit(" & ");
    reveal_strlit(" ");
    if ifaces.len() > 0 {
        lemma_names_join(ifaces, " & "@);
        lemma_concat_single_line(" implements "@, join(name_texts(ifaces), " & "@));
    }
    lemma_directives_single_line(ds, lvl);
    assert forall|i: int| 0 <= i < fields.len() implies is_single_line(
        #[trigger] field_definitions_text(fields, None, lvl + 1)[i],
    ) by {
        lemma_field_definition_single_line(fields[i], lvl + 1);
    }
    lemma_curly_block_single_line(lvl, field_definitions_text(fields, None, lvl + 1));
    lemma_three(name, implements_text(ifaces), directives_text(ds, lvl));
    lemma_three(
        name + implements_text(ifaces) + directives_text(ds, lvl),
        " "@,
        curly_block(None, lvl, field_definitions_text(fields, None, lvl + 1)),
    );
}

proof fn lemma_union_body_single_line(name: Seq<char>, ds: Seq<Directive>, members: Seq<String>, lvl: nat)
    requires
        is_single_line(name),
        directives_names_single_line(ds),
        names_single_line(members),
    ensures
        is_single_line(union_body_text(name, ds, members, lvl)),
{
    reveal_strlit(" = ");
    reveal_strlit(" | ");
    if members.len() > 0 {
        lemma_names_join(members, " | "@);
        lemma_concat_single_line(" = "@, join(name_texts(members), " | "@));
    }
    lemma_directives_single_line(ds, lvl);
    lemma_three(name, directives_text(ds, lvl), members_text(members));
}

proof fn lemma_enum_body_single_line(name: Seq<char>, ds: Seq<Directive>, values: Seq<EnumValueDefinition>, lvl: nat)
    requires
        is_single_line(name),
        directives_names_single_line(ds),
        enum_values_names_single_line(values),
    ensures
        is_single_line(enum_body_text(name, ds, values, None, lvl)),
{
    reveal_strlit(" ");
    lemma_directives_single_line(ds, lvl);
    assert forall|i: int| 0 <= i < values.len() implies is_single_line(
        #[trigger] enum_values_text(values, None, lvl + 1)[i],
    ) by {
        lemma_enum_value_single_line(values[i], lvl + 1);
    }
    lemma_curly_block_single_line(lvl, enum_values_text(values, None, lvl + 1));
    lemma_three(name, directives_text(ds, lvl), " "@);
    lemma_concat_single_line(
        name + directives_text(ds, lvl) + " "@,
        curly_block(None, lvl, enum_values_text(values, None, lvl + 1)),
    );
}

proof fn lemma_input_object_body_single_line(
    name: Seq<char>,
    ds: Seq<Directive>,
    fields: Seq<InputValueDefinition>,
    lvl: nat,
)
    requires
        is_single_line(name),
        directives_names_single_line(ds),
        input_values_names_single_line(fields),
    ensures
        is_single_line(input_object_body_text(name, ds, fields, None, lvl)),
{
    reveal_strlit(" ");
    lemma_directives_single_line(ds, lvl);
    assert forall|i: int| 0 <= i < fields.len() implies is_single_line(
        #[trigger] input_values_text(fields, None, lvl + 1)[i],
    ) by {
        lemma_input_value_single_line(fields[i], lvl + 1);
    }
    lemma_curly_block_single_line(lvl, input_values_text(fields, None, lvl + 1));
    lemma_three(name, directives_text(ds, lvl), " "@);
    lemma_concat_single_line(
        name + directives_text(ds, lvl) + " "@,
        curly_block(None, lvl, input_values_text(fields, None, lvl + 1)),
    );
}

proof fn lemma_schema_body_single_line(ds: Seq<Directive>, ops: Seq<(OperationType, String)>, lvl: nat)
    requires
        directives_names_single_line(ds),
        root_operations_single_line(ops),
    ensures
        is_single_line(schema_body_text(ds, ops, None, lvl)),
{
    reveal_strlit(" ");
    reveal_strlit(": ");
    lemma_directives_single_line(ds, lvl);
    assert forall|i: int| 0 <= i < ops.len() implies is_single_line(#[trigger] root_operations_text(ops)[i]) by {
        lemma_operation_keyword(ops[i].0);
        lemma_three(ops[i].0.keyword(), ": "@, ops[i].1@);
    }
    lemma_curly_block_single_line(lvl, root_operations_text(ops));
    lemma_three(directives_text(ds, lvl), " "@, curly_block(None, lvl, root_operations_text(ops)));
}

/// Without indentation an operation is written on one line. The names, types, enum values, variables and number texts in
/// it must hold no line break.
pub proof fn lemma_operation_single_line(op: OperationDefinition, lvl: nat)
    requires
        operation_names_single_line(op),
    ensures
        is_single_line(operation_text(op, None, lvl)),
{
    reveal_strlit(" ");
    reveal_strlit("(");
    reveal_strlit(")");
    lemma_selection_set_single_line(op.selection_set@, lvl);
    if !crate::render::is_shorthand(op) {
        lemma_operation_keyword(op.operation_type);
        let name_part = match op.name {
            Some(n) => " "@ + n@,
            None => Seq::<char>::empty(),
        };
        if let Some(n) = op.name {
            lemma_concat_single_line(" "@, n@);
        }
        if op.variables@.len() > 0 {
            assert forall|i: int| 0 <= i < op.variables@.len() implies is_single_line(
                #[trigger] variables_text(op.variables@, None, lvl + 1)[i],
            ) by {
                lemma_variable_single_line(op.variables@[i], lvl + 1);
            }
            lemma_comma_block_single_line(lvl, "("@, ")"@, variables_text(op.variables@, None, lvl + 1));
        }
        let vars = if op.variables@.len() == 0 {
            Seq::<char>::empty()
        } else {
            comma_block(None, lvl, "("@, ")"@, variables_text(op.variables@, None, lvl + 1))
        };
        lemma_directives_single_line(op.directives@, lvl);
        lemma_three(op.operation_type.keyword(), name_part, vars);
        lemma_three(op.operation_type.keyword() + name_part + vars, directives_text(op.directives@, lvl), " "@);
    }
    lemma_concat_single_line(operation_header_text(op, lvl), selection_set_text(op.selection_set@, None, lvl));
}

/// Without indentation a fragment definition is written on one line. The names, types, enum values, variables and number texts in
/// it must hold no line break.
pub proof fn lemma_fragment_single_line(fd: FragmentDefinition, lvl: nat)
    requires
        fragment_names_single_line(fd),
    ensures
        is_single_line(fragment_definition_text(fd, None, lvl)),
{
    reveal_strlit("fragment ");
    reveal_strlit(" on ");
    reveal_strlit(" ");
    lemma_selection_set_single_line(fd.selection_set@, lvl);
    lemma_directives_single_line(fd.directives@, lvl);
    lemma_three("fragment "@, fd.name@, " on "@);
    lemma_three("fragment "@ + fd.name@ + " on "@, fd.type_condition@, directives_text(fd.directives@, lvl));
    lemma_three(
        "fragment "@ + fd.name@ + " on "@ + fd.type_condition@ + directives_text(fd.directives@, lvl),
        " "@,
        selection_set_text(fd.selection_set@, None, lvl),
    );
}

/// Without indentation a directive definition is written on one line. The names, types, enum values, variables and number texts in
/// it must hold no line break.
pub proof fn lemma_directive_definition_single_line(dd: DirectiveDefinition, lvl: nat)
    requires
        is_single_line(dd.name@),
        input_values_names_single_line(dd.arguments@),
    ensures
        is_single_line(directive_definition_text(dd, None, lvl)),
{
    reveal_strlit("directive @");
    reveal_strlit(" repeatable");
    reveal_strlit(" on ");
    reveal_strlit(" | ");
    lemma_description_single_line(dd.description, lvl);
    lemma_arguments_definition_single_line(dd.arguments@, lvl);
    if dd.locations@.len() > 0 {
        assert forall|i: int| 0 <= i < location_names(dd.locations@).len() implies is_single_line(
            #[trigger] location_names(dd.locations@)[i],
        ) by {
            lemma_location_keyword(dd.locations@[i]);
        }
        lemma_join_single_line(location_names(dd.locations@), " | "@);
        lemma_concat_single_line(" on "@, join(location_names(dd.locations@), " | "@));
    }
    let rep = if dd.repeatable {
        " repeatable"@
    } else {
        Seq::<char>::empty()
    };
    let d = description_text(dd.description, None, lvl);
    lemma_three(d, "directive @"@, dd.name@);
    lemma_three(d + "directive @"@ + dd.name@, arguments_definition_text(dd.arguments@, None, lvl), rep);
    lemma_concat_single_line(
        d + "directive @"@ + dd.name@ + arguments_definition_text(dd.arguments@, None, lvl) + rep,
        locations_text(dd.locations@),
    );
}

proof fn lemma_prefixed(desc: Option<String>, keyword: Seq<char>, body: Seq<char>, lvl: nat)
    requires
        is_single_line(keyword),
        is_single_line(body),
    ensures
        is_single_line(description_text(desc, None, lvl) + keyword + body),
{
    lemma_description_single_line(desc, lvl);
    lemma_three(description_text(desc, None, lvl), keyword, body);
}

/// Without indentation any definition is written on one line. The names, types, enum values, variables and number texts in
/// it must hold no line break.
pub proof fn lemma_definition_single_line(d: Definition, lvl: nat)
    requires
        definition_names_single_line(d),
    ensures
        is_single_line(definition_text(d, None, lvl)),
{
    match d {
        Definition::OperationDefinition(x) => lemma_operation_single_line(x, lvl),
        Definition::FragmentDefinition(x) => lemma_fragment_single_line(x, lvl),
        Definition::DirectiveDefinition(x) => lemma_directive_definition_single_line(x, lvl),
        Definition::SchemaDefinition(x) => {
            reveal_strlit("schema");
            lemma_schema_body_single_line(x.directives@, x.root_operations@, lvl);
            lemma_prefixed(x.description, "schema"@, schema_body_text(x.directives@, x.root_operations@, None, lvl), lvl);
        },
        Definition::ScalarTypeDefinition(x) => {
            reveal_strlit("scalar ");
            lemma_directives_single_line(x.directives@, lvl);
            lemma_description_single_line(x.description, lvl);
            lemma_three(description_text(x.description, None, lvl), "scalar "@, x.name@);
            lemma_concat_single_line(
                description_text(x.description, None, lvl) + "scalar "@ + x.name@,
                directives_text(x.directives@, lvl),
            );
        },
        Definition::ObjectTypeDefinition(x) => {
            reveal_strlit("type ");
            lemma_object_like_single_line(x.name@, x.implements_interfaces@, x.directives@, x.fields@, lvl);
            lemma_prefixed(x.description, "type "@, object_like_text(x.name@, x.implements_interfaces@, x.directives@, x.fields@, None, lvl), lvl);
        },
        Definition::InterfaceTypeDefinition(x) => {
            reveal_strlit("interface ");
            lemma_object_like_single_line(x.name@, x.implements_interfaces@, x.directives@, x.fields@, lvl);
            lemma_prefixed(x.description, "interface "@, object_like_text(x.name@, x.implements_interfaces@, x.directives@, x.fields@, None, lvl), lvl);
        },
        Definition::UnionTypeDefinition(x) => {
            reveal_strlit("union ");
            lemma_union_body_single_line(x.name@, x.directives@, x.members@, lvl);
            lemma_prefixed(x.description, "union "@, union_body_text(x.name@, x.directives@, x.members@, lvl), lvl);
        },
        Definition::EnumTypeDefinition(x) => {
            reveal_strlit("enum ");
            lemma_enum_body_single_line(x.name@, x.directives@, x.values@, lvl);
            lemma_prefixed(x.description, "enum "@, enum_body_text(x.name@, x.directives@, x.values@, None, lvl), lvl);
        },
        Definition::InputObjectTypeDefinition(x) => {
            reveal_strlit("input ");
            lemma_input_object_body_single_line(x.name@, x.directives@, x.fields@, lvl);
            lemma_prefixed(x.description, "input "@, input_object_body_text(x.name@, x.directives@, x.fields@, None, lvl), lvl);
        },
        _ => lemma_extension_single_line(d, lvl),
    }
}

proof fn lemma_extension_single_line(d: Definition, lvl: nat)
    requires
        definition_names_single_line(d),
        d is SchemaExtension || d is ScalarTypeExtension || d is ObjectTypeExtension || d is InterfaceTypeExtension
            || d is UnionTypeExtension || d is EnumTypeExtension || d is InputObjectTypeExtension,
    ensures
        is_single_line(definition_text(d, None, lvl)),
{
    match d {
        Definition::SchemaExtension(x) => {
            reveal_strlit("extend schema");
            lemma_schema_body_single_line(x.directives@, x.root_operations@, lvl);
            lemma_concat_single_line("extend schema"@, schema_body_text(x.directives@, x.root_operations@, None, lvl));
        },
        Definition::ScalarTypeExtension(x) => {
            reveal_strlit("extend scalar ");
            lemma_directives_single_line(x.directives@, lvl);
            lemma_three("extend scalar "@, x.name@, directives_text(x.directives@, lvl));
        },
        Definition::ObjectTypeExtension(x) => {
            reveal_strlit("extend type ");
            lemma_object_like_single_line(x.name@, x.implements_interfaces@, x.directives@, x.fields@, lvl);
            lemma_concat_single_line("extend type "@, object_like_text(x.name@, x.implements_interfaces@, x.directives@, x.fields@, None, lvl));
        },
        Definition::InterfaceTypeExtension(x) => {
            reveal_strlit("extend interface ");
            lemma_object_like_single_line(x.name@, x.implements_interfaces@, x.directives@, x.fields@, lvl);
            lemma_concat_single_line("extend interface "@, object_like_text(x.name@, x.implements_interfaces@, x.directives@, x.fields@, None, lvl));
        },
        Definition::UnionTypeExtension(x) => {
            reveal_strlit("extend union ");
            lemma_union_body_single_line(x.name@, x.directives@, x.members@, lvl);
            lemma_concat_single_line("extend union "@, union_body_text(x.name@, x.directives@, x.members@, lvl));
        },
        Definition::EnumTypeExtension(x) => {
            reveal_strlit("extend enum ");
            lemma_enum_body_single_line(x.name@, x.directives@, x.values@, lvl);
            lemma_concat_single_line("extend enum "@, enum_body_text(x.name@, x.directives@, x.values@, None, lvl));
        },
        Definition::InputObjectTypeExtension(x) => {
            reveal_strlit("extend input ");
            lemma_input_object_body_single_line(x.name@, x.directives@, x.fields@, lvl);
            lemma_concat_single_line("extend input "@, input_object_body_text(x.name@, x.directives@, x.fields@, None, lvl));
        },
        _ => {},
    }
}

/// Without indentation, a document whose names, types, enum values,
/// variables and number texts hold no line break is written on a single
/// line: the definitions are separated by a space, and nothing the writer
/// adds breaks a line.
pub proof fn lemma_document_single_line(doc: Document, lvl: nat)
    requires
        document_names_single_line(doc),
    ensures
        is_single_line(document_text(doc, None, lvl)),
{
    let defs = doc.definitions@;
    if defs.len() > 0 {
        assert forall|i: int| 0 <= i < defs.len() implies is_single_line(#[trigger] definitions_text(defs, None, lvl)[i]) by {
            lemma_definition_single_line(defs[i], lvl);
        }
        let sep = Seq::<char>::empty() + line_break(None, lvl, true);
        assert(sep =~= seq![' ']);
        lemma_join_single_line(definitions_text(defs, None, lvl), sep);
        assert(document_text(doc, None, lvl) =~= join(definitions_text(defs, None, lvl), sep));
    }
}

} // verus!
