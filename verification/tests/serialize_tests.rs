use apollo_graphql::ast::{
    Definition, Directive, DirectiveDefinition, DirectiveLocation, Document, EnumTypeDefinition,
    EnumValueDefinition, Field, FieldDefinition, FragmentSpread, InlineFragment,
    InputValueDefinition, InterfaceTypeDefinition, ObjectTypeDefinition, OperationDefinition,
    OperationType, ScalarTypeDefinition, SchemaDefinition, Selection, Type, UnionTypeDefinition,
    UnionTypeExtension, Value, VariableDefinition,
};
use apollo_graphql::serialize::GraphQLNode;

fn named(n: &str) -> Type {
    Type::Named(n.to_string())
}

fn field_def(name: &str, ty: Type) -> FieldDefinition {
    FieldDefinition {
        description: None,
        name: name.to_string(),
        arguments: vec![],
        ty,
        directives: vec![],
    }
}

fn arg_def(name: &str, ty: Type) -> InputValueDefinition {
    InputValueDefinition {
        description: None,
        name: name.to_string(),
        ty,
        default_value: None,
        directives: vec![],
    }
}

fn leaf(name: &str) -> Selection {
    Selection::Field(Field {
        alias: None,
        name: name.to_string(),
        arguments: vec![],
        directives: vec![],
        selection_set: vec![],
    })
}

#[test]
fn list_value_with_and_without_indentation() {
    let v = Value::List(vec![Value::Int(1), Value::Int(2)]);
    assert_eq!(v.serialize().to_graphql(), "[\n  1,\n  2,\n]");
    assert_eq!(v.serialize().no_indent().to_graphql(), "[1, 2]");
    assert_eq!(Value::List(vec![]).serialize().to_graphql(), "[]");
}

#[test]
fn nested_object_value() {
    let v = Value::Object(vec![
        ("a".to_string(), Value::List(vec![Value::Boolean(true)])),
        ("b".to_string(), Value::Null),
    ]);
    assert_eq!(v.serialize().no_indent().to_graphql(), "{a: [true], b: null}");
    assert_eq!(
        v.serialize().to_graphql(),
        "{\n  a: [\n    true,\n  ],\n  b: null,\n}"
    );
    assert_eq!(
        v.serialize().indent_prefix("\t").to_graphql(),
        "{\n\ta: [\n\t\ttrue,\n\t],\n\tb: null,\n}"
    );
}

#[test]
fn scalar_values() {
    assert_eq!(Value::Int(-42).serialize().to_graphql(), "-42");
    assert_eq!(Value::Int(0).serialize().to_graphql(), "0");
    assert_eq!(Value::Int(i32::MIN).serialize().to_graphql(), "-2147483648");
    assert_eq!(Value::Int(i32::MAX).serialize().to_graphql(), "2147483647");
    assert_eq!(Value::Float(1.0f64.to_string()).serialize().to_graphql(), "1.0");
    assert_eq!(Value::Float(2.5f64.to_string()).serialize().to_graphql(), "2.5");
    assert_eq!(Value::BigInt("123456789012345678901".to_string()).serialize().to_graphql(), "123456789012345678901");
    assert_eq!(Value::Variable("id".to_string()).serialize().to_graphql(), "$id");
    assert_eq!(Value::Enum("RED".to_string()).serialize().to_graphql(), "RED");
    assert_eq!(Value::Boolean(false).serialize().to_graphql(), "false");
}

#[test]
fn string_value_escapes() {
    let v = Value::String("a\"b\\c\nd\u{1}e\tf\u{8}\u{c}\r\u{1f}é".to_string());
    assert_eq!(
        v.serialize().to_graphql(),
        "\"a\\\"b\\\\c\\nd\\u0001e\tf\\b\\f\\r\\u001Fé\""
    );
}

#[test]
fn directive_definition_on_one_line() {
    let def = DirectiveDefinition {
        description: None,
        name: "example".to_string(),
        arguments: vec![arg_def("isTreat", named("Boolean")), arg_def("treatKind", named("String"))],
        repeatable: true,
        locations: vec![DirectiveLocation::Field, DirectiveLocation::Mutation],
    };
    assert_eq!(
        def.serialize().to_graphql(),
        "directive @example(isTreat: Boolean, treatKind: String) repeatable on FIELD | MUTATION"
    );
}

#[test]
fn argument_with_description_breaks_lines() {
    let mut arg = arg_def("x", Type::NonNullNamed("Int".to_string()));
    arg.description = Some("the x".to_string());
    arg.default_value = Some(Value::Int(3));
    let def = DirectiveDefinition {
        description: Some("A directive".to_string()),
        name: "d".to_string(),
        arguments: vec![arg],
        repeatable: false,
        locations: vec![DirectiveLocation::Query],
    };
    assert_eq!(
        def.serialize().to_graphql(),
        "\"A directive\"\ndirective @d(\n  \"the x\"\n  x: Int! = 3,\n) on QUERY"
    );
    assert_eq!(
        def.serialize().no_indent().to_graphql(),
        "\"A directive\" directive @d(\"the x\" x: Int! = 3) on QUERY"
    );
}

#[test]
fn object_type_and_document() {
    let object = ObjectTypeDefinition {
        description: None,
        name: "Query".to_string(),
        implements_interfaces: vec![],
        directives: vec![],
        fields: vec![
            field_def("a", named("Int")),
            FieldDefinition {
                description: None,
                name: "b".to_string(),
                arguments: vec![arg_def("x", named("String"))],
                ty: Type::NonNullList(Box::new(Type::NonNullNamed("Int".to_string()))),
                directives: vec![Directive {
                    name: "deprecated".to_string(),
                    arguments: vec![("reason".to_string(), Value::String("old".to_string()))],
                }],
            },
        ],
    };
    let doc = Document {
        definitions: vec![
            Definition::ObjectTypeDefinition(object),
            Definition::ScalarTypeDefinition(ScalarTypeDefinition {
                description: None,
                name: "Date".to_string(),
                directives: vec![],
            }),
        ],
    };
    assert_eq!(
        doc.serialize().to_graphql(),
        "type Query {\n  a: Int\n  b(x: String): [Int!]! @deprecated(reason: \"old\")\n}\n\nscalar Date\n"
    );
    assert_eq!(
        doc.serialize().no_indent().to_graphql(),
        "type Query { a: Int b(x: String): [Int!]! @deprecated(reason: \"old\") } scalar Date"
    );
    assert_eq!(Document { definitions: vec![] }.serialize().to_graphql(), "");
}

#[test]
fn operations_and_selections() {
    let shorthand = OperationDefinition {
        operation_type: OperationType::Query,
        name: None,
        variables: vec![],
        directives: vec![],
        selection_set: vec![leaf("a")],
    };
    assert_eq!(shorthand.serialize().to_graphql(), "{\n  a\n}");
    let op = OperationDefinition {
        operation_type: OperationType::Query,
        name: Some("Q".to_string()),
        variables: vec![VariableDefinition {
            name: "x".to_string(),
            ty: named("Int"),
            default_value: Some(Value::Int(1)),
            directives: vec![],
        }],
        directives: vec![],
        selection_set: vec![
            Selection::Field(Field {
                alias: Some("al".to_string()),
                name: "f".to_string(),
                arguments: vec![("a".to_string(), Value::Variable("x".to_string()))],
                directives: vec![],
                selection_set: vec![
                    leaf("g"),
                    Selection::InlineFragment(InlineFragment {
                        type_condition: Some("T".to_string()),
                        directives: vec![],
                        selection_set: vec![leaf("h")],
                    }),
                ],
            }),
            Selection::FragmentSpread(FragmentSpread {
                fragment_name: "Frag".to_string(),
                directives: vec![Directive { name: "skip".to_string(), arguments: vec![] }],
            }),
        ],
    };
    assert_eq!(
        op.serialize().to_graphql(),
        "query Q($x: Int = 1) {\n  al: f(a: $x) {\n    g\n    ... on T {\n      h\n    }\n  }\n  ...Frag @skip\n}"
    );
    assert_eq!(
        op.serialize().no_indent().to_graphql(),
        "query Q($x: Int = 1) { al: f(a: $x) { g ... on T { h } } ...Frag @skip }"
    );
    let mutation = OperationDefinition {
        operation_type: OperationType::Mutation,
        name: None,
        variables: vec![],
        directives: vec![],
        selection_set: vec![],
    };
    assert_eq!(mutation.serialize().to_graphql(), "mutation {}");
}

#[test]
fn schema_union_enum_interface() {
    let schema = SchemaDefinition {
        description: None,
        directives: vec![],
        root_operations: vec![
            (OperationType::Query, "Query".to_string()),
            (OperationType::Subscription, "Sub".to_string()),
        ],
    };
    assert_eq!(schema.serialize().to_graphql(), "schema {\n  query: Query\n  subscription: Sub\n}");
    let union = UnionTypeDefinition {
        description: None,
        name: "U".to_string(),
        directives: vec![],
        members: vec!["A".to_string(), "B".to_string()],
    };
    assert_eq!(union.serialize().to_graphql(), "union U = A | B");
    let ext = UnionTypeExtension {
        name: "U".to_string(),
        directives: vec![Directive { name: "d".to_string(), arguments: vec![] }],
        members: vec![],
    };
    assert_eq!(ext.serialize().to_graphql(), "extend union U @d");
    let en = EnumTypeDefinition {
        description: Some("colors".to_string()),
        name: "E".to_string(),
        directives: vec![],
        values: vec![
            EnumValueDefinition { description: None, value: "A".to_string(), directives: vec![] },
            EnumValueDefinition { description: None, value: "B".to_string(), directives: vec![] },
        ],
    };
    assert_eq!(en.serialize().to_graphql(), "\"colors\"\nenum E {\n  A\n  B\n}");
    let iface = InterfaceTypeDefinition {
        description: None,
        name: "I".to_string(),
        implements_interfaces: vec!["A".to_string(), "B".to_string()],
        directives: vec![],
        fields: vec![field_def("f", Type::List(Box::new(named("Int"))))],
    };
    assert_eq!(iface.serialize().to_graphql(), "interface I implements A & B {\n  f: [Int]\n}");
}

#[test]
fn types_and_keywords_as_text() {
    let ty = Type::List(Box::new(Type::NonNullNamed("Int".to_string())));
    assert_eq!(ty.to_string(), "[Int!]");
    let ty = Type::NonNullList(Box::new(Type::List(Box::new(named("A")))));
    assert_eq!(ty.to_string(), "[[A]]!");
    assert_eq!(named("Query").to_string(), "Query");
    assert_eq!(OperationType::Subscription.to_string(), "subscription");
    assert_eq!(DirectiveLocation::InputFieldDefinition.to_string(), "INPUT_FIELD_DEFINITION");
}

#[test]
fn document_without_indentation_has_no_line_break() {
    let doc = Document {
        definitions: vec![
            Definition::EnumTypeDefinition(EnumTypeDefinition {
                description: Some("first line\nsecond line".to_string()),
                name: "Color".to_string(),
                directives: vec![],
                values: vec![
                    EnumValueDefinition {
                        description: Some("warm\r\n".to_string()),
                        value: "RED".to_string(),
                        directives: vec![],
                    },
                    EnumValueDefinition { description: None, value: "BLUE".to_string(), directives: vec![] },
                ],
            }),
            Definition::UnionTypeExtension(UnionTypeExtension {
                name: "Pet".to_string(),
                directives: vec![],
                members: vec!["Cat".to_string(), "Dog".to_string()],
            }),
        ],
    };
    let text = doc.serialize().no_indent().to_graphql();
    assert!(!text.contains('\n') && !text.contains('\r'), "{text}");
    assert_eq!(
        text,
        "\"first line\\nsecond line\" enum Color { \"warm\\r\\n\" RED BLUE } extend union Pet = Cat | Dog"
    );
}
