//! The abstract syntax tree of a GraphQL document.
//!
//! Names are plain `String`s. A float value is held as the decimal text of the
//! number (what Rust's `Display` for `f64` prints), so the tree holds no
//! floating-point data.
use vstd::prelude::*;

verus! {

/// `query`, `mutation` or `subscription`.
#[derive(Debug, Clone, Copy, PartialEq, Eq, Structural)]
pub enum OperationType {
    Query,
    Mutation,
    Subscription,
}

impl OperationType {
    /// The keyword of this operation type.
    pub open spec fn keyword(self) -> Seq<char> {
        match self {
            OperationType::Query => "query"@,
            OperationType::Mutation => "mutation"@,
            OperationType::Subscription => "subscription"@,
        }
    }

    /// The keyword of this operation type, as written in GraphQL syntax.
    pub fn name(&self) -> (r: &'static str)
        ensures
            r@ == self.keyword(),
    {
        match self {
            OperationType::Query => "query",
            OperationType::Mutation => "mutation",
            OperationType::Subscription => "subscription",
        }
    }
}

/// The places where a directive may be used.
#[derive(Debug, Clone, Copy, PartialEq, Eq, Structural)]
pub enum DirectiveLocation {
    Query,
    Mutation,
    Subscription,
    Field,
    FragmentDefinition,
    FragmentSpread,
    InlineFragment,
    VariableDefinition,
    Schema,
    Scalar,
    Object,
    FieldDefinition,
    ArgumentDefinition,
    Interface,
    Union,
    Enum,
    EnumValue,
    InputObject,
    InputFieldDefinition,
}

impl DirectiveLocation {
    /// The name of this location, as written in GraphQL syntax.
    pub open spec fn keyword(self) -> Seq<char> {
        match self {
            DirectiveLocation::Query => "QUERY"@,
            DirectiveLocation::Mutation => "MUTATION"@,
            DirectiveLocation::Subscription => "SUBSCRIPTION"@,
            DirectiveLocation::Field => "FIELD"@,
            DirectiveLocation::FragmentDefinition => "FRAGMENT_DEFINITION"@,
            DirectiveLocation::FragmentSpread => "FRAGMENT_SPREAD"@,
            DirectiveLocation::InlineFragment => "INLINE_FRAGMENT"@,
            DirectiveLocation::VariableDefinition => "VARIABLE_DEFINITION"@,
            DirectiveLocation::Schema => "SCHEMA"@,
            DirectiveLocation::Scalar => "SCALAR"@,
            DirectiveLocation::Object => "OBJECT"@,
            DirectiveLocation::FieldDefinition => "FIELD_DEFINITION"@,
            DirectiveLocation::ArgumentDefinition => "ARGUMENT_DEFINITION"@,
            DirectiveLocation::Interface => "INTERFACE"@,
            DirectiveLocation::Union => "UNION"@,
            DirectiveLocation::Enum => "ENUM"@,
            DirectiveLocation::EnumValue => "ENUM_VALUE"@,
            DirectiveLocation::InputObject => "INPUT_OBJECT"@,
            DirectiveLocation::InputFieldDefinition => "INPUT_FIELD_DEFINITION"@,
        }
    }

    /// The name of this location, as written in GraphQL syntax.
    pub fn name(&self) -> (r: &'static str)
        ensures
            r@ == self.keyword(),
    {
        match self {
            DirectiveLocation::Query => "QUERY",
            DirectiveLocation::Mutation => "MUTATION",
            DirectiveLocation::Subscription => "SUBSCRIPTION",
            DirectiveLocation::Field => "FIELD",
            DirectiveLocation::FragmentDefinition => "FRAGMENT_DEFINITION",
            DirectiveLocation::FragmentSpread => "FRAGMENT_SPREAD",
            DirectiveLocation::InlineFragment => "INLINE_FRAGMENT",
            DirectiveLocation::VariableDefinition => "VARIABLE_DEFINITION",
            DirectiveLocation::Schema => "SCHEMA",
            DirectiveLocation::Scalar => "SCALAR",
            DirectiveLocation::Object => "OBJECT",
            DirectiveLocation::FieldDefinition => "FIELD_DEFINITION",
            DirectiveLocation::ArgumentDefinition => "ARGUMENT_DEFINITION",
            DirectiveLocation::Interface => "INTERFACE",
            DirectiveLocation::Union => "UNION",
            DirectiveLocation::Enum => "ENUM",
            DirectiveLocation::EnumValue => "ENUM_VALUE",
            DirectiveLocation::InputObject => "INPUT_OBJECT",
            DirectiveLocation::InputFieldDefinition => "INPUT_FIELD_DEFINITION",
        }
    }
}

/// A reference to a type: a named type, a list type, and their non-null forms.
#[derive(Debug)]
pub enum Type {
    Named(String),
    NonNullNamed(String),
    List(Box<Type>),
    NonNullList(Box<Type>),
}

impl Type {
    /// The name of the type at the core of this (possibly list) type.
    pub open spec fn inner_name(self) -> Seq<char>
        decreases self,
    {
        match self {
            Type::Named(n) => n@,
            Type::NonNullNamed(n) => n@,
            Type::List(inner) => inner.inner_name(),
            Type::NonNullList(inner) => inner.inner_name(),
        }
    }

    /// The name of the type at the core of this (possibly list) type.
    pub fn inner_named_type(&self) -> (r: &String)
        ensures
            r@ == self.inner_name(),
        decreases self,
    {
        match self {
            Type::Named(n) => n,
            Type::NonNullNamed(n) => n,
            Type::List(inner) => inner.inner_named_type(),
            Type::NonNullList(inner) => inner.inner_named_type(),
        }
    }
}

/// A GraphQL input value.
///
/// `Float` holds the decimal text of the number as Rust's `Display` for `f64`
/// prints it; `Int` is a 32-bit integer and `BigInt` the text of an integer
/// that does not fit in one.
#[derive(Debug)]
pub enum Value {
    Null,
    Enum(String),
    Variable(String),
    String(String),
    Float(String),
    Int(i32),
    BigInt(String),
    Boolean(bool),
    List(Vec<Value>),
    Object(Vec<(String, Value)>),
}

/// `@name(arg: value, ...)`
#[derive(Debug)]
pub struct Directive {
    pub name: String,
    pub arguments: Vec<(String, Value)>,
}

/// `$name: Type = default @directives`
#[derive(Debug)]
pub struct VariableDefinition {
    pub name: String,
    pub ty: Type,
    pub default_value: Option<Value>,
    pub directives: Vec<Directive>,
}

/// An argument or an input field definition.
#[derive(Debug)]
pub struct InputValueDefinition {
    pub description: Option<String>,
    pub name: String,
    pub ty: Type,
    pub default_value: Option<Value>,
    pub directives: Vec<Directive>,
}

/// A field of an object or interface type.
#[derive(Debug)]
pub struct FieldDefinition {
    pub description: Option<String>,
    pub name: String,
    pub arguments: Vec<InputValueDefinition>,
    pub ty: Type,
    pub directives: Vec<Directive>,
}

/// A value of an enum type.
#[derive(Debug)]
pub struct EnumValueDefinition {
    pub description: Option<String>,
    pub value: String,
    pub directives: Vec<Directive>,
}

/// One item of a selection set.
#[derive(Debug)]
pub enum Selection {
    Field(Field),
    FragmentSpread(FragmentSpread),
    InlineFragment(InlineFragment),
}

/// `alias: name(args) @directives { selections }`
#[derive(Debug)]
pub struct Field {
    pub alias: Option<String>,
    pub name: String,
    pub arguments: Vec<(String, Value)>,
    pub directives: Vec<Directive>,
    pub selection_set: Vec<Selection>,
}

/// `...name @directives`
#[derive(Debug)]
pub struct FragmentSpread {
    pub fragment_name: String,
    pub directives: Vec<Directive>,
}

/// `... on Type @directives { selections }`
#[derive(Debug)]
pub struct InlineFragment {
    pub type_condition: Option<String>,
    pub directives: Vec<Directive>,
    pub selection_set: Vec<Selection>,
}

#[derive(Debug)]
pub struct OperationDefinition {
    pub operation_type: OperationType,
    pub name: Option<String>,
    pub variables: Vec<VariableDefinition>,
    pub directives: Vec<Directive>,
    pub selection_set: Vec<Selection>,
}

#[derive(Debug)]
pub struct FragmentDefinition {
    pub name: String,
    pub type_condition: String,
    pub directives: Vec<Directive>,
    pub selection_set: Vec<Selection>,
}

#[derive(Debug)]
pub struct DirectiveDefinition {
    pub description: Option<String>,
    pub name: String,
    pub arguments: Vec<InputValueDefinition>,
    pub repeatable: bool,
    pub locations: Vec<DirectiveLocation>,
}

#[derive(Debug)]
pub struct SchemaDefinition {
    pub description: Option<String>,
    pub directives: Vec<Directive>,
    pub root_operations: Vec<(OperationType, String)>,
}

#[derive(Debug)]
pub struct ScalarTypeDefinition {
    pub description: Option<String>,
    pub name: String,
    pub directives: Vec<Directive>,
}

#[derive(Debug)]
pub struct ObjectTypeDefinition {
    pub description: Option<String>,
    pub name: String,
    pub implements_interfaces: Vec<String>,
    pub directives: Vec<Directive>,
    pub fields: Vec<FieldDefinition>,
}

#[derive(Debug)]
pub struct InterfaceTypeDefinition {
    pub description: Option<String>,
    pub name: String,
    pub implements_interfaces: Vec<String>,
    pub directives: Vec<Directive>,
    pub fields: Vec<FieldDefinition>,
}

#[derive(Debug)]
pub struct UnionTypeDefinition {
    pub description: Option<String>,
    pub name: String,
    pub directives: Vec<Directive>,
    pub members: Vec<String>,
}

#[derive(Debug)]
pub struct EnumTypeDefinition {
    pub description: Option<String>,
    pub name: String,
    pub directives: Vec<Directive>,
    pub values: Vec<EnumValueDefinition>,
}

#[derive(Debug)]
pub struct InputObjectTypeDefinition {
    pub description: Option<String>,
    pub name: String,
    pub directives: Vec<Directive>,
    pub fields: Vec<InputValueDefinition>,
}

#[derive(Debug)]
pub struct SchemaExtension {
    pub directives: Vec<Directive>,
    pub root_operations: Vec<(OperationType, String)>,
}

#[derive(Debug)]
pub struct ScalarTypeExtension {
    pub name: String,
    pub directives: Vec<Directive>,
}

#[derive(Debug)]
pub struct ObjectTypeExtension {
    pub name: String,
    pub implements_interfaces: Vec<String>,
    pub directives: Vec<Directive>,
    pub fields: Vec<FieldDefinition>,
}

#[derive(Debug)]
pub struct InterfaceTypeExtension {
    pub name: String,
    pub implements_interfaces: Vec<String>,
    pub directives: Vec<Directive>,
    pub fields: Vec<FieldDefinition>,
}

#[derive(Debug)]
pub struct UnionTypeExtension {
    pub name: String,
    pub directives: Vec<Directive>,
    pub members: Vec<String>,
}

#[derive(Debug)]
pub struct EnumTypeExtension {
    pub name: String,
    pub directives: Vec<Directive>,
    pub values: Vec<EnumValueDefinition>,
}

#[derive(Debug)]
pub struct InputObjectTypeExtension {
    pub name: String,
    pub directives: Vec<Directive>,
    pub fields: Vec<InputValueDefinition>,
}

/// A top-level definition of a document.
#[derive(Debug)]
pub enum Definition {
    OperationDefinition(OperationDefinition),
    FragmentDefinition(FragmentDefinition),
    DirectiveDefinition(DirectiveDefinition),
    SchemaDefinition(SchemaDefinition),
    ScalarTypeDefinition(ScalarTypeDefinition),
    ObjectTypeDefinition(ObjectTypeDefinition),
    InterfaceTypeDefinition(InterfaceTypeDefinition),
    UnionTypeDefinition(UnionTypeDefinition),
    EnumTypeDefinition(EnumTypeDefinition),
    InputObjectTypeDefinition(InputObjectTypeDefinition),
    SchemaExtension(SchemaExtension),
    ScalarTypeExtension(ScalarTypeExtension),
    ObjectTypeExtension(ObjectTypeExtension),
    InterfaceTypeExtension(InterfaceTypeExtension),
    UnionTypeExtension(UnionTypeExtension),
    EnumTypeExtension(EnumTypeExtension),
    InputObjectTypeExtension(InputObjectTypeExtension),
}

/// A GraphQL document: a list of definitions.
#[derive(Debug)]
pub struct Document {
    pub definitions: Vec<Definition>,
}

} // verus!
