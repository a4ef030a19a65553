//! Validation of input object types and of argument and input field
//! definitions against a schema.
//!
//! Implements the [Circular References](https://spec.graphql.org/October2021/#sec-Input-Objects.Circular-References)
//! part of the input object validation spec, the uniqueness of argument
//! names, and the rule that input values only have input types.
use vstd::prelude::*;
use crate::ast::{DirectiveLocation, InputValueDefinition, Type};

verus! {

/// Where a definition stands in its source text.
#[derive(Debug, Clone, Copy, PartialEq, Eq, Structural)]
pub struct SourceSpan {
    pub offset: usize,
    pub len: usize,
}

/// A syntax tree node together with where it was parsed from.
#[derive(Debug)]
pub struct Node<T> {
    pub node: T,
    pub location: Option<SourceSpan>,
}

impl<T> Node<T> {
    /// Where the node stands in the source, if known.
    pub fn location(&self) -> (r: Option<SourceSpan>)
        ensures
            r == self.location,
    {
        self.location
    }
}

/// An input object type of a schema, with its fields in definition order.
#[derive(Debug)]
pub struct InputObjectType {
    pub name: String,
    pub location: Option<SourceSpan>,
    pub fields: Vec<Node<InputValueDefinition>>,
    /// Where the extensions of this type were defined.
    pub extension_locations: Vec<Option<SourceSpan>>,
}

/// The definition of a named type of a schema.
#[derive(Debug)]
pub enum ExtendedType {
    Scalar,
    Object,
    Interface,
    Union,
    Enum,
    InputObject(InputObjectType),
}

impl ExtendedType {
    /// Scalars, enums and input objects are input types.
    pub open spec fn spec_is_input_type(self) -> bool {
        match self {
            ExtendedType::Scalar | ExtendedType::Enum | ExtendedType::InputObject(_) => true,
            _ => false,
        }
    }

    /// Whether values of this type can be given as input: scalars, enums
    /// and input objects.
    pub fn is_input_type(&self) -> (r: bool)
        ensures
            r == self.spec_is_input_type(),
    {
        match self {
            ExtendedType::Scalar | ExtendedType::Enum | ExtendedType::InputObject(_) => true,
            _ => false,
        }
    }

    /// How diagnostics name this kind of type.
    pub open spec fn description(self) -> Seq<char> {
        match self {
            ExtendedType::Scalar => "a scalar type"@,
            ExtendedType::Object => "an object type"@,
            ExtendedType::Interface => "an interface type"@,
            ExtendedType::Union => "a union type"@,
            ExtendedType::Enum => "an enum type"@,
            ExtendedType::InputObject(_) => "an input object type"@,
        }
    }

    /// How this kind of type is named in diagnostics.
    pub fn describe(&self) -> (r: &'static str)
        ensures
            r@ == self.description(),
    {
        match self {
            ExtendedType::Scalar => "a scalar type",
            ExtendedType::Object => "an object type",
            ExtendedType::Interface => "an interface type",
            ExtendedType::Union => "a union type",
            ExtendedType::Enum => "an enum type",
            ExtendedType::InputObject(_) => "an input object type",
        }
    }
}

/// The named types of a schema, in definition order. A name is looked up by
/// its first entry.
#[derive(Debug)]
pub struct Schema {
    pub types: Vec<(String, ExtendedType)>,
}

/// The definition of the first entry named `name`.
pub open spec fn find_type(types: Seq<(String, ExtendedType)>, name: Seq<char>) -> Option<ExtendedType>
    decreases types.len(),
{
    if types.len() == 0 {
        None
    } else if types[0].0@ == name {
        Some(types[0].1)
    } else {
        find_type(types.skip(1), name)
    }
}

/// The input object type named `name`, if that name is defined as one.
pub open spec fn find_input_object(types: Seq<(String, ExtendedType)>, name: Seq<char>) -> Option<
    InputObjectType,
> {
    match find_type(types, name) {
        Some(ExtendedType::InputObject(o)) => Some(o),
        _ => None,
    }
}

impl Schema {
    /// The definition of the type named `name`.
    pub fn get_type(&self, name: &String) -> (r: Option<&ExtendedType>)
        ensures
            match r {
                Some(t) => find_type(self.types@, name@) == Some(*t),
                None => find_type(self.types@, name@) is None,
            },
    {
        let mut i: usize = 0;
        assert(self.types@.skip(0) =~= self.types@);
        while i < self.types.len()
            invariant
                i <= self.types@.len(),
                find_type(self.types@, name@) == find_type(self.types@.skip(i as int), name@),
            decreases self.types.len() - i,
        {
            assert(self.types@.skip(i as int).skip(1) =~= self.types@.skip(i + 1));
            if self.types[i].0 == *name {
                return Some(&self.types[i].1);
            }
            i += 1;
        }
        None
    }

    /// The input object type named `name`, if that name is defined as one.
    pub fn get_input_object(&self, name: &String) -> (r: Option<&InputObjectType>)
        ensures
            match r {
                Some(o) => find_input_object(self.types@, name@) == Some(*o),
                None => find_input_object(self.types@, name@) is None,
            },
    {
        match self.get_type(name) {
            Some(ExtendedType::InputObject(o)) => Some(o),
            _ => None,
        }
    }
}

/// The built-in scalar types that the schema refers to.
#[derive(Debug)]
pub struct BuiltInScalars {
    pub string: bool,
    pub boolean: bool,
    pub int: bool,
    pub float: bool,
    pub id: bool,
}

/// Whether a name is that of a built-in scalar type.
pub open spec fn is_built_in_scalar(name: Seq<char>) -> bool {
    name == "String"@ || name == "Boolean"@ || name == "Int"@ || name == "Float"@ || name == "ID"@
}

/// `s` as an owned string, compared by its characters.
fn str_eq(s: &String, t: &str) -> (r: bool)
    ensures
        r == (s@ == t@),
{
    let owned = t.to_string();
    *s == owned
}

impl BuiltInScalars {
    /// No built-in scalar referenced yet.
    pub fn new() -> (r: Self)
        ensures
            !r.string && !r.boolean && !r.int && !r.float && !r.id,
    {
        BuiltInScalars { string: false, boolean: false, int: false, float: false, id: false }
    }

    /// Records a reference to the type `name`; returns whether it is a
    /// built-in scalar type.
    pub fn record_type_ref(&mut self, name: &String) -> (r: bool)
        ensures
            r == is_built_in_scalar(name@),
            final(self).string == (old(self).string || name@ == "String"@),
            final(self).boolean == (old(self).boolean || name@ == "Boolean"@),
            final(self).int == (old(self).int || name@ == "Int"@),
            final(self).float == (old(self).float || name@ == "Float"@),
            final(self).id == (old(self).id || name@ == "ID"@),
    {
        proof {
            reveal_strlit("String");
            reveal_strlit("Boolean");
            reveal_strlit("Int");
            reveal_strlit("Float");
            reveal_strlit("ID");
            assert("String"@[0] == 'S' && "Boolean"@[0] == 'B' && "Int"@[0] == 'I' && "Float"@[0] == 'F');
            assert("ID"@[0] == 'I' && "ID"@.len() == 2 && "Int"@.len() == 3);
        }
        if str_eq(name, "String") {
            self.string = true;
            true
        } else if str_eq(name, "Boolean") {
            self.boolean = true;
            true
        } else if str_eq(name, "Int") {
            self.int = true;
            true
        } else if str_eq(name, "Float") {
            self.float = true;
            true
        } else if str_eq(name, "ID") {
            self.id = true;
            true
        } else {
            false
        }
    }
}

// ---------------------------------------------------------------------------
// Diagnostics

/// One field of a chain of input object fields.
#[derive(Debug)]
pub struct TraceStep {
    /// The name of the field.
    pub name: String,
    /// The name of the (non-null) input object type of the field.
    pub field_type: String,
    pub location: Option<SourceSpan>,
}

/// What a validation reports.
#[derive(Debug)]
pub enum DiagnosticData {
    /// The input object refers to itself through non-null fields; `trace`
    /// holds the fields of the cycle, the innermost first.
    RecursiveInputObjectDefinition { name: String, trace: Vec<TraceStep> },
    /// Input object fields nest deeper than the recursion limit.
    DeeplyNestedType { name: String, describe_type: &'static str },
    /// The input object has no fields.
    EmptyInputValueSet {
        object_name: String,
        type_location: Option<SourceSpan>,
        extensions_locations: Vec<Option<SourceSpan>>,
    },
    /// Two arguments share a name.
    UniqueInputValue {
        name: String,
        original_definition: Option<SourceSpan>,
        redefined_definition: Option<SourceSpan>,
    },
    /// An input value has a type that is not an input type.
    InputType { name: String, describe_type: &'static str, type_location: Option<SourceSpan> },
    /// An input value refers to a type that the schema does not define.
    UndefinedDefinition { name: String },
    /// A name of the type system begins with `__`.
    ReservedName { name: String, describe: &'static str },
}

/// A diagnostic and where it applies.
#[derive(Debug)]
pub struct Diagnostic {
    pub location: Option<SourceSpan>,
    pub data: DiagnosticData,
}

/// `DiagnosticData` as mathematical values.
pub enum DiagnosticDataView {
    RecursiveInputObjectDefinition { name: Seq<char>, trace: Seq<TraceStep> },
    DeeplyNestedType { name: Seq<char>, describe_type: Seq<char> },
    EmptyInputValueSet {
        object_name: Seq<char>,
        type_location: Option<SourceSpan>,
        extensions_locations: Seq<Option<SourceSpan>>,
    },
    UniqueInputValue {
        name: Seq<char>,
        original_definition: Option<SourceSpan>,
        redefined_definition: Option<SourceSpan>,
    },
    InputType { name: Seq<char>, describe_type: Seq<char>, type_location: Option<SourceSpan> },
    UndefinedDefinition { name: Seq<char> },
    ReservedName { name: Seq<char>, describe: Seq<char> },
}

/// `Diagnostic` as mathematical values.
pub struct DiagnosticView {
    pub location: Option<SourceSpan>,
    pub data: DiagnosticDataView,
}

impl View for DiagnosticData {
    type V = DiagnosticDataView;

    open spec fn view(&self) -> DiagnosticDataView {
        match *self {
            DiagnosticData::RecursiveInputObjectDefinition { name, trace } => {
                DiagnosticDataView::RecursiveInputObjectDefinition { name: name@, trace: trace@ }
            },
            DiagnosticData::DeeplyNestedType { name, describe_type } => {
                DiagnosticDataView::DeeplyNestedType { name: name@, describe_type: describe_type@ }
            },
            DiagnosticData::EmptyInputValueSet { object_name, type_location, extensions_locations } => {
                DiagnosticDataView::EmptyInputValueSet {
                    object_name: object_name@,
                    type_location,
                    extensions_locations: extensions_locations@,
                }
            },
            DiagnosticData::UniqueInputValue { name, original_definition, redefined_definition } => {
                DiagnosticDataView::UniqueInputValue { name: name@, original_definition, redefined_definition }
            },
            DiagnosticData::InputType { name, describe_type, type_location } => {
                DiagnosticDataView::InputType { name: name@, describe_type: describe_type@, type_location }
            },
            DiagnosticData::UndefinedDefinition { name } => {
                DiagnosticDataView::UndefinedDefinition { name: name@ }
            },
            DiagnosticData::ReservedName { name, describe } => {
                DiagnosticDataView::ReservedName { name: name@, describe: describe@ }
            },
        }
    }
}

impl View for Diagnostic {
    type V = DiagnosticView;

    open spec fn view(&self) -> DiagnosticView {
        DiagnosticView { location: self.location, data: self.data@ }
    }
}

/// The diagnostics reported so far, in order.
#[derive(Debug)]
pub struct DiagnosticList {
    diagnostics: Vec<Diagnostic>,
}

impl View for DiagnosticList {
    type V = Seq<DiagnosticView>;

    closed spec fn view(&self) -> Seq<DiagnosticView> {
        self.diagnostics@.map_values(|d: Diagnostic| d@)
    }
}

impl DiagnosticList {
    /// An empty list.
    pub fn new() -> (r: Self)
        ensures
            r@ == Seq::<DiagnosticView>::empty(),
    {
        let r = DiagnosticList { diagnostics: Vec::new() };
        assert(r@ =~= Seq::<DiagnosticView>::empty());
        r
    }

    /// Adds a diagnostic at the end.
    pub fn push(&mut self, location: Option<SourceSpan>, data: DiagnosticData)
        ensures
            final(self)@ == old(self)@.push(DiagnosticView { location, data: data@ }),
    {
        let ghost d = data@;
        self.diagnostics.push(Diagnostic { location, data });
        assert(self@ =~= old(self)@.push(DiagnosticView { location, data: d }));
    }

    /// The number of diagnostics.
    pub fn len(&self) -> (n: usize)
        ensures
            n == self@.len(),
    {
        self.diagnostics.len()
    }

    /// The diagnostics, in the order they were reported.
    pub fn as_slice(&self) -> (r: &[Diagnostic])
        ensures
            r@.map_values(|d: Diagnostic| d@) == self@,
    {
        self.diagnostics.as_slice()
    }
}

// ---------------------------------------------------------------------------
// Circular references of input objects

/// How deep input object fields may nest before the search gives up.
pub const DEFAULT_RECURSION_LIMIT: usize = 500;

/// The names on the current path of a depth-first search, the root first.
#[derive(Debug)]
pub struct RecursionStack {
    seen: Vec<String>,
    limit: usize,
}

/// The search went deeper than the recursion limit.
#[derive(Debug)]
pub struct RecursionLimitError {}

impl RecursionStack {
    /// The names on the path, the root first.
    pub closed spec fn names(&self) -> Seq<Seq<char>> {
        self.seen@.map_values(|n: String| n@)
    }

    /// How many names the path may hold.
    pub closed spec fn max_len(&self) -> nat {
        self.limit as nat
    }

    /// A path holding only `root`, with the default limit.
    pub fn with_root(root: String) -> (r: Self)
        ensures
            r.names() == seq![root@],
            r.max_len() == DEFAULT_RECURSION_LIMIT,
    {
        let mut seen = Vec::new();
        seen.push(root);
        let r = RecursionStack { seen, limit: DEFAULT_RECURSION_LIMIT };
        assert(r.names() =~= seq![root@]);
        r
    }

    /// Whether `name` is on the path.
    pub fn contains(&self, name: &String) -> (r: bool)
        ensures
            r == self.names().contains(name@),
    {
        let mut i: usize = 0;
        while i < self.seen.len()
            invariant
                i <= self.seen@.len(),
                forall|j: int| 0 <= j < i ==> self.seen@[j]@ != name@,
            decreases self.seen.len() - i,
        {
            if self.seen[i] == *name {
                assert(self.names()[i as int] == name@);
                return true;
            }
            i += 1;
        }
        assert forall|j: int| 0 <= j < self.names().len() implies self.names()[j] != name@ by {
            assert(self.seen@[j]@ != name@);
        }
        false
    }

    /// The root of the path.
    pub fn first(&self) -> (r: Option<&String>)
        ensures
            match r {
                Some(n) => self.names().len() > 0 && n@ == self.names()[0],
                None => self.names().len() == 0,
            },
    {
        if self.seen.len() > 0 {
            Some(&self.seen[0])
        } else {
            None
        }
    }

    /// Adds `name` to the path; fails when the path becomes longer than the
    /// limit.
    pub fn push(&mut self, name: &String) -> (r: Result<(), RecursionLimitError>)
        ensures
            final(self).names() == old(self).names().push(name@),
            final(self).max_len() == old(self).max_len(),
            r is Ok <==> old(self).names().len() + 1 <= old(self).max_len(),
    {
        self.seen.push(name.clone());
        assert(self.names() =~= old(self).names().push(name@));
        if self.seen.len() > self.limit {
            Err(RecursionLimitError {})
        } else {
            Ok(())
        }
    }

    /// Removes the last name of the path.
    pub fn pop(&mut self)
        requires
            old(self).names().len() > 0,
        ensures
            final(self).names() == old(self).names().drop_last(),
            final(self).max_len() == old(self).max_len(),
    {
        let _ = self.seen.pop();
        assert(self.names() =~= old(self).names().drop_last());
    }
}

/// Why an input object fails the check for circular references.
#[derive(Debug)]
pub enum CycleError {
    /// The fields of a cycle back to the root, the innermost first.
    Recursed(Vec<TraceStep>),
    /// The fields nest deeper than the recursion limit.
    Limit(RecursionLimitError),
}

/// `CycleError` as mathematical values.
pub enum CycleOutcome {
    Recursed(Seq<TraceStep>),
    Limit,
}

pub open spec fn outcome(r: Result<(), CycleError>) -> Result<(), CycleOutcome> {
    match r {
        Ok(()) => Ok(()),
        Err(CycleError::Recursed(t)) => Err(CycleOutcome::Recursed(t@)),
        Err(CycleError::Limit(_)) => Err(CycleOutcome::Limit),
    }
}

/// The trace entry of a field whose type is the non-null named type `ty`.
pub open spec fn trace_step(def: Node<InputValueDefinition>, ty: String) -> TraceStep {
    TraceStep { name: def.node.name, field_type: ty, location: def.location }
}

/// The outcome of searching for a cycle through the field `def`, on the
/// path `stack` of input object names (the root first).
///
/// Only a non-null named type can make a cycle. When its type is not on
/// the path, the search goes on through the fields of that input object;
/// when it is the root, a cycle is found; a type elsewhere on the path
/// closes a cycle that does not go through the root, which is left alone.
pub open spec fn cycle_in_value(
    types: Seq<(String, ExtendedType)>,
    stack: Seq<Seq<char>>,
    limit: nat,
    def: Node<InputValueDefinition>,
) -> Result<(), CycleOutcome>
    decreases limit + 1 - stack.len(), 0int,
{
    match def.node.ty {
        Type::NonNullNamed(name) => {
            if !stack.contains(name@) {
                match find_input_object(types, name@) {
                    Some(object_def) => {
                        if stack.len() + 1 > limit {
                            Err(CycleOutcome::Limit)
                        } else {
                            match cycle_in_fields(types, stack.push(name@), limit, object_def.fields@) {
                                Err(CycleOutcome::Recursed(t)) => Err(
                                    CycleOutcome::Recursed(t.push(trace_step(def, name))),
                                ),
                                other => other,
                            }
                        }
                    },
                    None => Ok(()),
                }
            } else if stack.len() > 0 && stack[0] == name@ {
                Err(CycleOutcome::Recursed(seq![trace_step(def, name)]))
            } else {
                Ok(())
            }
        },
        _ => Ok(()),
    }
}

/// The outcome of searching the fields in order: the first that fails.
pub open spec fn cycle_in_fields(
    types: Seq<(String, ExtendedType)>,
    stack: Seq<Seq<char>>,
    limit: nat,
    fields: Seq<Node<InputValueDefinition>>,
) -> Result<(), CycleOutcome>
    decreases limit + 1 - stack.len(), fields.len() + 1,
{
    if fields.len() == 0 {
        Ok(())
    } else {
        match cycle_in_value(types, stack, limit, fields[0]) {
            Ok(()) => cycle_in_fields(types, stack, limit, fields.skip(1)),
            other => other,
        }
    }
}

impl CycleError {
    /// Adds `def` to the trace of a cycle.
    pub fn trace(self, def: &Node<InputValueDefinition>, ty: &String) -> (r: Self)
        ensures
            match outcome(Err(self)) {
                Err(CycleOutcome::Recursed(t)) => outcome(Err(r)) == Err::<(), CycleOutcome>(
                    CycleOutcome::Recursed(t.push(trace_step(*def, *ty))),
                ),
                other => outcome(Err(r)) == other,
            },
    {
        match self {
            CycleError::Recursed(mut trace) => {
                trace.push(TraceStep { name: def.node.name.clone(), field_type: ty.clone(), location: def.location });
                CycleError::Recursed(trace)
            },
            other => other,
        }
    }
}

/// The depth-first search for circular references.
struct FindRecursiveInputValue<'a> {
    schema: &'a Schema,
}

impl FindRecursiveInputValue<'_> {
    fn input_value_definition(
        &self,
        seen: &mut RecursionStack,
        def: &Node<InputValueDefinition>,
    ) -> (r: Result<(), CycleError>)
        requires
            old(seen).names().len() <= old(seen).max_len() + 1,
        ensures
            outcome(r) == cycle_in_value(self.schema.types@, old(seen).names(), old(seen).max_len(), *def),
            final(seen).names() == old(seen).names(),
            final(seen).max_len() == old(seen).max_len(),
        decreases old(seen).max_len() + 1 - old(seen).names().len(), 0int,
    {
        match &def.node.ty {
            // NonNull type followed by Named type is the one that's not allowed
            // to be cyclical, so this is only case we care about.
            //
            // Everything else may be a cyclical input value.
            Type::NonNullNamed(name) => {
                if !seen.contains(name) {
                    if let Some(object_def) = self.schema.get_input_object(name) {
                        let ghost before = seen.names();
                        if let Err(e) = seen.push(name) {
                            seen.pop();
                            assert(seen.names() =~= before);
                            return Err(CycleError::Limit(e));
                        }
                        let result = self.input_object_definition(seen, object_def);
                        seen.pop();
                        assert(seen.names() =~= before);
                        if let Err(err) = result {
                            return Err(err.trace(def, name));
                        }
                    }
                } else {
                    let first = seen.first();
                    if let Some(root) = first {
                        if *root == *name {
                            let mut trace = Vec::new();
                            trace.push(TraceStep {
                                name: def.node.name.clone(),
                                field_type: name.clone(),
                                location: def.location,
                            });
                            assert(trace@ =~= seq![trace_step(*def, *name)]);
                            return Err(CycleError::Recursed(trace));
                        }
                    }
                }
                Ok(())
            },
            _ => Ok(()),
        }
    }

    fn input_object_definition(&self, seen: &mut RecursionStack, input_object: &InputObjectType) -> (r:
        Result<(), CycleError>)
        requires
            old(seen).names().len() <= old(seen).max_len() + 1,
        ensures
            outcome(r) == cycle_in_fields(
                self.schema.types@,
                old(seen).names(),
                old(seen).max_len(),
                input_object.fields@,
            ),
            final(seen).names() == old(seen).names(),
            final(seen).max_len() == old(seen).max_len(),
        decreases old(seen).max_len() + 1 - old(seen).names().len(), 1int,
    {
        let ghost types = self.schema.types@;
        let ghost stack = seen.names();
        let ghost limit = seen.max_len();
        let fields = input_object.fields.as_slice();
        let mut i: usize = 0;
        assert(fields@.skip(0) =~= fields@);
        while i < fields.len()
            invariant
                i <= fields@.len(),
                fields@ == input_object.fields@,
                types == self.schema.types@,
                stack == old(seen).names(),
                limit == old(seen).max_len(),
                seen.names() == stack,
                seen.max_len() == limit,
                stack.len() <= limit + 1,
                cycle_in_fields(types, stack, limit, fields@) == cycle_in_fields(
                    types,
                    stack,
                    limit,
                    fields@.skip(i as int),
                ),
            decreases fields.len() - i,
        {
            assert(fields@.skip(i as int)[0] == fields@[i as int]);
            assert(fields@.skip(i as int).skip(1) =~= fields@.skip(i + 1));
            let result = self.input_value_definition(seen, &fields[i]);
            if result.is_err() {
                return result;
            }
            i += 1;
        }
        Ok(())
    }

    fn check(schema: &Schema, input_object: &InputObjectType) -> (r: Result<(), CycleError>)
        ensures
            outcome(r) == cycle_in_fields(
                schema.types@,
                seq![input_object.name@],
                DEFAULT_RECURSION_LIMIT as nat,
                input_object.fields@,
            ),
    {
        let mut recursion_stack = RecursionStack::with_root(input_object.name.clone());
        FindRecursiveInputValue { schema }.input_object_definition(&mut recursion_stack, input_object)
    }
}

// ---------------------------------------------------------------------------
// Validation of input values, arguments and input objects

/// Names beginning with `__` are reserved for introspection.
pub open spec fn is_reserved_name(name: Seq<char>) -> bool {
    name.len() >= 2 && name[0] == '_' && name[1] == '_'
}

/// What validating one input value reports: a reserved name, then a type
/// that is not an input type or is not defined at all. `describe` says what
/// the input value is (an argument, an input object field).
pub open spec fn input_value_diagnostics(
    types: Seq<(String, ExtendedType)>,
    iv: Node<InputValueDefinition>,
    describe: Seq<char>,
) -> Seq<DiagnosticView> {
    let name = iv.node.name@;
    let named_type = iv.node.ty.inner_name();
    (if is_reserved_name(name) {
        seq![DiagnosticView { location: iv.location, data: DiagnosticDataView::ReservedName { name, describe } }]
    } else {
        Seq::empty()
    }) + match find_type(types, named_type) {
        Some(t) => if t.spec_is_input_type() {
            Seq::empty()
        } else {
            seq![
                DiagnosticView {
                    location: iv.location,
                    data: DiagnosticDataView::InputType {
                        name,
                        describe_type: t.description(),
                        type_location: iv.location,
                    },
                },
            ]
        },
        None => if is_built_in_scalar(named_type) {
            Seq::empty()
        } else {
            seq![
                DiagnosticView {
                    location: iv.location,
                    data: DiagnosticDataView::UndefinedDefinition { name: named_type },
                },
            ]
        },
    }
}

/// What validating the input values in order reports.
pub open spec fn input_values_diagnostics(
    types: Seq<(String, ExtendedType)>,
    ivs: Seq<Node<InputValueDefinition>>,
    describe: Seq<char>,
) -> Seq<DiagnosticView>
    decreases ivs.len(),
{
    if ivs.len() == 0 {
        Seq::empty()
    } else {
        input_values_diagnostics(types, ivs.drop_last(), describe) + input_value_diagnostics(
            types,
            ivs.last(),
            describe,
        )
    }
}

/// Whether one of the input values has a type whose core is named `name`.
pub open spec fn refers_to(ivs: Seq<Node<InputValueDefinition>>, name: Seq<char>) -> bool {
    exists|i: int| 0 <= i < ivs.len() && (#[trigger] ivs[i]).node.ty.inner_name() == name
}

/// The built-in scalars recorded as used, after the references of `ivs`.
pub open spec fn recorded_after(b: BuiltInScalars, ivs: Seq<Node<InputValueDefinition>>) -> BuiltInScalars {
    BuiltInScalars {
        string: b.string || refers_to(ivs, "String"@),
        boolean: b.boolean || refers_to(ivs, "Boolean"@),
        int: b.int || refers_to(ivs, "Int"@),
        float: b.float || refers_to(ivs, "Float"@),
        id: b.id || refers_to(ivs, "ID"@),
    }
}

/// The index of the first input value named `name`.
pub open spec fn first_named(ivs: Seq<Node<InputValueDefinition>>, name: Seq<char>) -> Option<int>
    decreases ivs.len(),
{
    if ivs.len() == 0 {
        None
    } else {
        match first_named(ivs.drop_last(), name) {
            Some(j) => Some(j),
            None => if ivs.last().node.name@ == name {
                Some(ivs.len() - 1)
            } else {
                None
            },
        }
    }
}

/// One diagnostic for each input value whose name an earlier one has,
/// placed at the first definition of the name.
pub open spec fn unique_input_value_diagnostics(ivs: Seq<Node<InputValueDefinition>>) -> Seq<DiagnosticView>
    decreases ivs.len(),
{
    if ivs.len() == 0 {
        Seq::empty()
    } else {
        let iv = ivs.last();
        unique_input_value_diagnostics(ivs.drop_last()) + match first_named(ivs.drop_last(), iv.node.name@) {
            Some(j) => seq![
                DiagnosticView {
                    location: ivs[j].location,
                    data: DiagnosticDataView::UniqueInputValue {
                        name: iv.node.name@,
                        original_definition: ivs[j].location,
                        redefined_definition: iv.location,
                    },
                },
            ],
            None => Seq::empty(),
        }
    }
}

/// What the check for circular references reports for an input object.
pub open spec fn cycle_diagnostics(types: Seq<(String, ExtendedType)>, input_object: InputObjectType) -> Seq<
    DiagnosticView,
> {
    match cycle_in_fields(types, seq![input_object.name@], DEFAULT_RECURSION_LIMIT as nat, input_object.fields@) {
        Ok(()) => Seq::empty(),
        Err(CycleOutcome::Recursed(trace)) => seq![
            DiagnosticView {
                location: input_object.location,
                data: DiagnosticDataView::RecursiveInputObjectDefinition { name: input_object.name@, trace },
            },
        ],
        Err(CycleOutcome::Limit) => seq![
            DiagnosticView {
                location: input_object.location,
                data: DiagnosticDataView::DeeplyNestedType {
                    name: input_object.name@,
                    describe_type: "input object"@,
                },
            },
        ],
    }
}

/// What validating an input object reports: circular references, then its
/// fields, then the absence of fields.
pub open spec fn input_object_diagnostics(types: Seq<(String, ExtendedType)>, input_object: InputObjectType) -> Seq<
    DiagnosticView,
> {
    cycle_diagnostics(types, input_object) + input_values_diagnostics(
        types,
        input_object.fields@,
        "an input object field"@,
    ) + (if input_object.fields@.len() == 0 {
        seq![
            DiagnosticView {
                location: input_object.location,
                data: DiagnosticDataView::EmptyInputValueSet {
                    object_name: input_object.name@,
                    type_location: input_object.location,
                    extensions_locations: input_object.extension_locations@,
                },
            },
        ]
    } else {
        Seq::empty()
    })
}

pub proof fn lemma_first_named(ivs: Seq<Node<InputValueDefinition>>, name: Seq<char>)
    ensures
        match first_named(ivs, name) {
            Some(j) => 0 <= j < ivs.len() && ivs[j].node.name@ == name && forall|k: int|
                0 <= k < j ==> (#[trigger] ivs[k]).node.name@ != name,
            None => forall|k: int| 0 <= k < ivs.len() ==> (#[trigger] ivs[k]).node.name@ != name,
        },
    decreases ivs.len(),
{
    if ivs.len() > 0 {
        lemma_first_named(ivs.drop_last(), name);
        let prefix = ivs.drop_last();
        assert forall|k: int| 0 <= k < prefix.len() implies prefix[k] == ivs[k] by {}
    }
}

/// Whether `name` is reserved for introspection.
fn is_reserved(name: &String) -> (r: bool)
    ensures
        r == is_reserved_name(name@),
{
    let s = name.as_str();
    let n = s.unicode_len();
    n >= 2 && s.get_char(0) == '_' && s.get_char(1) == '_'
}

/// Reports a type system name that begins with `__`.
pub(crate) fn validate_type_system_name(
    diagnostics: &mut DiagnosticList,
    name: &String,
    location: Option<SourceSpan>,
    describe: &'static str,
)
    ensures
        final(diagnostics)@ == old(diagnostics)@ + (if is_reserved_name(name@) {
            seq![
                DiagnosticView {
                    location,
                    data: DiagnosticDataView::ReservedName { name: name@, describe: describe@ },
                },
            ]
        } else {
            Seq::<DiagnosticView>::empty()
        }),
{
    if is_reserved(name) {
        diagnostics.push(location, DiagnosticData::ReservedName { name: name.clone(), describe });
    }
    assert(diagnostics@ =~= old(diagnostics)@ + (if is_reserved_name(name@) {
        seq![
            DiagnosticView {
                location,
                data: DiagnosticDataView::ReservedName { name: name@, describe: describe@ },
            },
        ]
    } else {
        Seq::<DiagnosticView>::empty()
    }));
}

fn validate_input_value_definition(
    diagnostics: &mut DiagnosticList,
    schema: &Schema,
    built_in_scalars: &mut BuiltInScalars,
    input_value: &Node<InputValueDefinition>,
    describe: &'static str,
)
    ensures
        final(diagnostics)@ == old(diagnostics)@ + input_value_diagnostics(schema.types@, *input_value, describe@),
        *final(built_in_scalars) == recorded_after(*old(built_in_scalars), seq![*input_value]),
{
    validate_type_system_name(diagnostics, &input_value.node.name, input_value.location, describe);
    // Input values must only contain input types.
    let loc = input_value.location();
    let named_type = input_value.node.ty.inner_named_type();
    let is_built_in = built_in_scalars.record_type_ref(named_type);
    let ghost mid = diagnostics@;
    if let Some(field_ty) = schema.get_type(named_type) {
        if !field_ty.is_input_type() {
            diagnostics.push(
                loc,
                DiagnosticData::InputType {
                    name: input_value.node.name.clone(),
                    describe_type: field_ty.describe(),
                    type_location: loc,
                },
            );
        }
    } else if is_built_in {
        // `validate_schema()` will insert the missing definition
    } else {
        diagnostics.push(loc, DiagnosticData::UndefinedDefinition { name: named_type.clone() });
    }
    assert(diagnostics@ =~= old(diagnostics)@ + input_value_diagnostics(schema.types@, *input_value, describe@));
    assert(seq![*input_value][0] == *input_value);
    assert(*built_in_scalars == recorded_after(*old(built_in_scalars), seq![*input_value]));
}

/// Validates each input value definition in turn: its name, and that its
/// type is a defined input type; `describe` says what the values are. The
/// values stand at the directive location given, against which their
/// directives are checked elsewhere.
pub fn validate_input_value_definitions(
    diagnostics: &mut DiagnosticList,
    schema: &Schema,
    built_in_scalars: &mut BuiltInScalars,
    input_values: &[Node<InputValueDefinition>],
    _directive_location: DirectiveLocation,
    describe: &'static str,
)
    ensures
        final(diagnostics)@ == old(diagnostics)@ + input_values_diagnostics(schema.types@, input_values@, describe@),
        *final(built_in_scalars) == recorded_after(*old(built_in_scalars), input_values@),
{
    let ghost types = schema.types@;
    let mut i: usize = 0;
    while i < input_values.len()
        invariant
            i <= input_values@.len(),
            types == schema.types@,
            diagnostics@ == old(diagnostics)@ + input_values_diagnostics(
                types,
                input_values@.take(i as int),
                describe@,
            ),
            *built_in_scalars == recorded_after(*old(built_in_scalars), input_values@.take(i as int)),
        decreases input_values.len() - i,
    {
        let ghost prev = *built_in_scalars;
        validate_input_value_definition(diagnostics, schema, built_in_scalars, &input_values[i], describe);
        proof {
            let take = input_values@.take(i + 1);
            assert(take.drop_last() =~= input_values@.take(i as int));
            assert(take.last() == input_values@[i as int]);
            let one = seq![input_values@[i as int]];
            assert(one[0] == input_values@[i as int]);
            assert forall|n: Seq<char>| refers_to(take, n) == (refers_to(input_values@.take(i as int), n)
                || refers_to(one, n)) by {
                if refers_to(take, n) {
                    let k = choose|k: int| 0 <= k < take.len() && (#[trigger] take[k]).node.ty.inner_name() == n;
                    if k < i {
                        assert(input_values@.take(i as int)[k] == take[k]);
                    } else {
                        assert(one[0] == take[k]);
                    }
                }
                if refers_to(input_values@.take(i as int), n) {
                    let k = choose|k: int| 0 <= k < i && (#[trigger] input_values@.take(i as int)[k]).node.ty.inner_name() == n;
                    assert(take[k] == input_values@.take(i as int)[k]);
                }
                if refers_to(one, n) {
                    assert(take[i as int] == one[0]);
                }
            }
        }
        assert(diagnostics@ =~= old(diagnostics)@ + input_values_diagnostics(
            types,
            input_values@.take(i + 1),
            describe@,
        ));
        i += 1;
    }
    assert(input_values@.take(input_values@.len() as int) =~= input_values@);
}

/// The index of the first input value named `name` among the first `end`.
fn find_first_named(input_values: &[Node<InputValueDefinition>], end: usize, name: &String) -> (r: Option<usize>)
    requires
        end <= input_values@.len(),
    ensures
        match r {
            Some(j) => j < end && first_named(input_values@.take(end as int), name@) == Some(j as int),
            None => first_named(input_values@.take(end as int), name@) is None,
        },
{
    let mut j: usize = 0;
    while j < end
        invariant
            j <= end <= input_values@.len(),
            forall|k: int| 0 <= k < j ==> (#[trigger] input_values@[k]).node.name@ != name@,
        decreases end - j,
    {
        if input_values[j].node.name == *name {
            proof {
                let prefix = input_values@.take(end as int);
                lemma_first_named(prefix, name@);
                assert(prefix[j as int] == input_values@[j as int]);
                match first_named(prefix, name@) {
                    Some(m) => {
                        assert(prefix[m] == input_values@[m]);
                        if m < j {
                            assert(input_values@[m].node.name@ != name@);
                        }
                        if (j as int) < m {
                            assert(prefix[j as int].node.name@ != name@);
                        }
                    },
                    None => {
                        assert(prefix[j as int].node.name@ != name@);
                    },
                }
            }
            return Some(j);
        }
        j += 1;
    }
    proof {
        let prefix = input_values@.take(end as int);
        lemma_first_named(prefix, name@);
        match first_named(prefix, name@) {
            Some(m) => {
                assert(prefix[m] == input_values@[m]);
            },
            None => {},
        }
    }
    None
}

/// Validates the argument definitions of a field or directive, then reports
/// each argument whose name an earlier argument already has, at that earlier
/// one.
pub fn validate_argument_definitions(
    diagnostics: &mut DiagnosticList,
    schema: &Schema,
    built_in_scalars: &mut BuiltInScalars,
    input_values: &[Node<InputValueDefinition>],
    directive_location: DirectiveLocation,
)
    ensures
        final(diagnostics)@ == old(diagnostics)@ + input_values_diagnostics(schema.types@, input_values@, "an argument"@)
            + unique_input_value_diagnostics(input_values@),
        *final(built_in_scalars) == recorded_after(*old(built_in_scalars), input_values@),
{
    validate_input_value_definitions(
        diagnostics,
        schema,
        built_in_scalars,
        input_values,
        directive_location,
        "an argument",
    );
    let ghost mid = diagnostics@;
    let mut i: usize = 0;
    while i < input_values.len()
        invariant
            i <= input_values@.len(),
            diagnostics@ == mid + unique_input_value_diagnostics(input_values@.take(i as int)),
        decreases input_values.len() - i,
    {
        let input_value = &input_values[i];
        let name = &input_value.node.name;
        let ghost take = input_values@.take(i + 1);
        proof {
            assert(take.drop_last() =~= input_values@.take(i as int));
            assert(take.last() == input_values@[i as int]);
        }
        if let Some(j) = find_first_named(input_values, i, name) {
            let prev_value = &input_values[j];
            let (original_definition, redefined_definition) = (prev_value.location(), input_value.location());
            proof {
                assert(take[j as int] == input_values@[j as int]);
            }
            diagnostics.push(
                original_definition,
                DiagnosticData::UniqueInputValue {
                    name: name.clone(),
                    original_definition,
                    redefined_definition,
                },
            );
        }
        assert(diagnostics@ =~= mid + unique_input_value_diagnostics(input_values@.take(i + 1)));
        i += 1;
    }
    assert(input_values@.take(input_values@.len() as int) =~= input_values@);
}

/// Validates an input object type: no circular chain of non-null input
/// object fields, valid fields, and at least one field.
pub fn validate_input_object_definition(
    diagnostics: &mut DiagnosticList,
    schema: &Schema,
    built_in_scalars: &mut BuiltInScalars,
    input_object: &InputObjectType,
)
    ensures
        final(diagnostics)@ == old(diagnostics)@ + input_object_diagnostics(schema.types@, *input_object),
        *final(built_in_scalars) == recorded_after(*old(built_in_scalars), input_object.fields@),
{
    proof {
        reveal_strlit("input object");
    }
    match FindRecursiveInputValue::check(schema, input_object) {
        Ok(_) => {},
        Err(CycleError::Recursed(trace)) => diagnostics.push(
            input_object.location,
            DiagnosticData::RecursiveInputObjectDefinition { name: input_object.name.clone(), trace },
        ),
        Err(CycleError::Limit(_)) => {
            diagnostics.push(
                input_object.location,
                DiagnosticData::DeeplyNestedType {
                    name: input_object.name.clone(),
                    describe_type: "input object",
                },
            );
        },
    }
    let ghost after_cycle = diagnostics@;
    assert(after_cycle =~= old(diagnostics)@ + cycle_diagnostics(schema.types@, *input_object));

    // Fields in an Input Object Definition must be unique
    //
    // Returns Unique Definition error.
    validate_input_value_definitions(
        diagnostics,
        schema,
        built_in_scalars,
        input_object.fields.as_slice(),
        DirectiveLocation::InputFieldDefinition,
        "an input object field",
    );

    // validate there is at least one input value on the input object type
    // https://spec.graphql.org/draft/#sel-HAHhBXDBABAB5BvgD
    let ghost after_fields = diagnostics@;
    if input_object.fields.len() == 0 {
        let mut extensions_locations: Vec<Option<SourceSpan>> = Vec::new();
        let mut k: usize = 0;
        while k < input_object.extension_locations.len()
            invariant
                k <= input_object.extension_locations@.len(),
                extensions_locations@ == input_object.extension_locations@.take(k as int),
            decreases input_object.extension_locations.len() - k,
        {
            extensions_locations.push(input_object.extension_locations[k]);
            assert(extensions_locations@ =~= input_object.extension_locations@.take(k + 1));
            k += 1;
        }
        assert(extensions_locations@ =~= input_object.extension_locations@);
        diagnostics.push(
            input_object.location,
            DiagnosticData::EmptyInputValueSet {
                object_name: input_object.name.clone(),
                type_location: input_object.location,
                extensions_locations,
            },
        );
    }
    assert(diagnostics@ =~= old(diagnostics)@ + input_object_diagnostics(schema.types@, *input_object));
}

} // verus!
