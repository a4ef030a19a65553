use apollo_graphql::ast::{DirectiveLocation, InputValueDefinition, Type};
use apollo_graphql::validation::{
    validate_argument_definitions, validate_input_object_definition,
    validate_input_value_definitions, BuiltInScalars, DiagnosticData, DiagnosticList,
    ExtendedType, InputObjectType, Node, Schema, SourceSpan,
};

fn span(offset: usize) -> Option<SourceSpan> {
    Some(SourceSpan { offset, len: 1 })
}

fn input_value(name: &str, ty: Type, offset: usize) -> Node<InputValueDefinition> {
    Node {
        node: InputValueDefinition {
            description: None,
            name: name.to_string(),
            ty,
            default_value: None,
            directives: vec![],
        },
        location: span(offset),
    }
}

fn non_null(name: &str) -> Type {
    Type::NonNullNamed(name.to_string())
}

fn input_object(name: &str, fields: Vec<Node<InputValueDefinition>>, offset: usize) -> InputObjectType {
    InputObjectType {
        name: name.to_string(),
        location: span(offset),
        fields,
        extension_locations: vec![],
    }
}

#[test]
fn mutually_recursive_input_objects_are_reported() {
    let schema = Schema {
        types: vec![
            ("A".to_string(), ExtendedType::InputObject(input_object("A", vec![input_value("b", non_null("B"), 1)], 0))),
            ("B".to_string(), ExtendedType::InputObject(input_object("B", vec![input_value("a", non_null("A"), 3)], 2))),
        ],
    };
    let a = input_object("A", vec![input_value("b", non_null("B"), 1)], 0);
    let mut diagnostics = DiagnosticList::new();
    let mut built_ins = BuiltInScalars::new();
    validate_input_object_definition(&mut diagnostics, &schema, &mut built_ins, &a);
    let list = diagnostics.as_slice();
    assert_eq!(list.len(), 1);
    assert_eq!(list[0].location, span(0));
    match &list[0].data {
        DiagnosticData::RecursiveInputObjectDefinition { name, trace } => {
            assert_eq!(name, "A");
            assert_eq!(trace.len(), 2);
            assert_eq!(trace[0].name, "a");
            assert_eq!(trace[0].field_type, "A");
            assert_eq!(trace[0].location, span(3));
            assert_eq!(trace[1].name, "b");
            assert_eq!(trace[1].field_type, "B");
        }
        other => panic!("unexpected diagnostic {other:?}"),
    }
}

#[test]
fn nullable_and_list_references_are_not_cycles() {
    let schema = Schema {
        types: vec![
            ("A".to_string(), ExtendedType::InputObject(input_object("A", vec![input_value("b", Type::Named("B".to_string()), 1)], 0))),
            ("B".to_string(), ExtendedType::InputObject(input_object("B", vec![input_value("a", Type::NonNullList(Box::new(non_null("A"))), 3)], 2))),
        ],
    };
    let a = input_object("A", vec![input_value("b", Type::Named("B".to_string()), 1)], 0);
    let mut diagnostics = DiagnosticList::new();
    let mut built_ins = BuiltInScalars::new();
    validate_input_object_definition(&mut diagnostics, &schema, &mut built_ins, &a);
    assert_eq!(diagnostics.len(), 0);
}

#[test]
fn cycle_not_through_the_root_is_left_alone() {
    // A -> B -> C -> B: the cycle does not return to A.
    let schema = Schema {
        types: vec![
            ("A".to_string(), ExtendedType::InputObject(input_object("A", vec![input_value("b", non_null("B"), 1)], 0))),
            ("B".to_string(), ExtendedType::InputObject(input_object("B", vec![input_value("c", non_null("C"), 3)], 2))),
            ("C".to_string(), ExtendedType::InputObject(input_object("C", vec![input_value("b", non_null("B"), 5)], 4))),
        ],
    };
    let a = input_object("A", vec![input_value("b", non_null("B"), 1)], 0);
    let mut diagnostics = DiagnosticList::new();
    let mut built_ins = BuiltInScalars::new();
    validate_input_object_definition(&mut diagnostics, &schema, &mut built_ins, &a);
    assert_eq!(diagnostics.len(), 0);
}

#[test]
fn deeply_nested_input_objects_hit_the_limit() {
    let count = 502;
    let mut types = Vec::new();
    for k in 0..count {
        let next = format!("O{}", (k + 1) % count);
        let name = format!("O{}", k);
        types.push((name.clone(), ExtendedType::InputObject(input_object(&name, vec![input_value("next", non_null(&next), k)], k))));
    }
    let schema = Schema { types };
    let root = input_object("O0", vec![input_value("next", non_null("O1"), 0)], 0);
    let mut diagnostics = DiagnosticList::new();
    let mut built_ins = BuiltInScalars::new();
    validate_input_object_definition(&mut diagnostics, &schema, &mut built_ins, &root);
    let list = diagnostics.as_slice();
    assert_eq!(list.len(), 1);
    match &list[0].data {
        DiagnosticData::DeeplyNestedType { name, describe_type } => {
            assert_eq!(name, "O0");
            assert_eq!(*describe_type, "input object");
        }
        other => panic!("unexpected diagnostic {other:?}"),
    }
}

#[test]
fn empty_input_object_is_reported() {
    let schema = Schema { types: vec![] };
    let mut empty = input_object("E", vec![], 7);
    empty.extension_locations = vec![span(9)];
    let mut diagnostics = DiagnosticList::new();
    let mut built_ins = BuiltInScalars::new();
    validate_input_object_definition(&mut diagnostics, &schema, &mut built_ins, &empty);
    let list = diagnostics.as_slice();
    assert_eq!(list.len(), 1);
    match &list[0].data {
        DiagnosticData::EmptyInputValueSet { object_name, type_location, extensions_locations } => {
            assert_eq!(object_name, "E");
            assert_eq!(*type_location, span(7));
            assert_eq!(extensions_locations, &vec![span(9)]);
        }
        other => panic!("unexpected diagnostic {other:?}"),
    }
}

#[test]
fn duplicate_argument_names_are_reported_at_the_first_definition() {
    let schema = Schema { types: vec![] };
    let args = vec![
        input_value("a", Type::Named("Int".to_string()), 10),
        input_value("b", Type::Named("Int".to_string()), 20),
        input_value("a", Type::Named("Int".to_string()), 30),
        input_value("a", Type::Named("String".to_string()), 40),
    ];
    let mut diagnostics = DiagnosticList::new();
    let mut built_ins = BuiltInScalars::new();
    validate_argument_definitions(&mut diagnostics, &schema, &mut built_ins, &args, DirectiveLocation::FieldDefinition);
    let list = diagnostics.as_slice();
    assert_eq!(list.len(), 2);
    for (d, redefined) in list.iter().zip([span(30), span(40)]) {
        assert_eq!(d.location, span(10));
        match &d.data {
            DiagnosticData::UniqueInputValue { name, original_definition, redefined_definition } => {
                assert_eq!(name, "a");
                assert_eq!(*original_definition, span(10));
                assert_eq!(*redefined_definition, redefined);
            }
            other => panic!("unexpected diagnostic {other:?}"),
        }
    }
    assert!(built_ins.int && built_ins.string && !built_ins.float && !built_ins.boolean && !built_ins.id);
}

#[test]
fn input_values_must_have_defined_input_types() {
    let schema = Schema {
        types: vec![
            ("Obj".to_string(), ExtendedType::Object),
            ("Color".to_string(), ExtendedType::Enum),
        ],
    };
    let values = vec![
        input_value("o", Type::List(Box::new(non_null("Obj"))), 1),
        input_value("c", non_null("Color"), 2),
        input_value("m", Type::Named("Missing".to_string()), 3),
        input_value("__x", Type::Named("ID".to_string()), 4),
    ];
    let mut diagnostics = DiagnosticList::new();
    let mut built_ins = BuiltInScalars::new();
    validate_input_value_definitions(
        &mut diagnostics,
        &schema,
        &mut built_ins,
        &values,
        DirectiveLocation::InputFieldDefinition,
        "an input object field",
    );
    let list = diagnostics.as_slice();
    assert_eq!(list.len(), 3);
    match &list[0].data {
        DiagnosticData::InputType { name, describe_type, type_location } => {
            assert_eq!(name, "o");
            assert_eq!(*describe_type, "an object type");
            assert_eq!(*type_location, span(1));
        }
        other => panic!("unexpected diagnostic {other:?}"),
    }
    match &list[1].data {
        DiagnosticData::UndefinedDefinition { name } => assert_eq!(name, "Missing"),
        other => panic!("unexpected diagnostic {other:?}"),
    }
    assert_eq!(list[1].location, span(3));
    match &list[2].data {
        DiagnosticData::ReservedName { name, describe } => {
            assert_eq!(name, "__x");
            assert_eq!(*describe, "an input object field");
        }
        other => panic!("unexpected diagnostic {other:?}"),
    }
    assert!(built_ins.id && !built_ins.int);
}
