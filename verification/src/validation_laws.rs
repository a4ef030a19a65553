//! What the validation of input objects and arguments guarantees.
use vstd::prelude::*;
use crate::ast::{InputValueDefinition, Type};
use crate::validation::{
    cycle_diagnostics, cycle_in_fields, cycle_in_value, find_input_object, first_named, lemma_first_named,
    trace_step, unique_input_value_diagnostics, CycleOutcome, ExtendedType, InputObjectType, Node, TraceStep,
    DEFAULT_RECURSION_LIMIT, find_type, input_value_diagnostics, DiagnosticDataView,
};

verus! {

/// `step` records one of `fields` whose type is a non-null named type.
pub open spec fn is_step_of(fields: Seq<Node<InputValueDefinition>>, step: TraceStep) -> bool {
    exists|k: int|
        0 <= k < fields.len() && match (#[trigger] fields[k]).node.ty {
            Type::NonNullNamed(n) => trace_step(fields[k], n) == step,
            _ => false,
        }
}

/// Each step of `t` but the last is a field of the input object named by the
/// type of the next step.
pub open spec fn is_chain(types: Seq<(String, ExtendedType)>, t: Seq<TraceStep>) -> bool {
    forall|j: int|
        0 <= j < t.len() - 1 ==> match find_input_object(types, (#[trigger] t[j + 1]).field_type@) {
            Some(o) => is_step_of(o.fields@, t[j]),
            None => false,
        }
}

/// `t` is a cycle of non-null fields from the input object `root` (whose
/// fields are `fields`) back to `root`: its last step is a field of `root`,
/// each other step a field of the type of the step after it, and the first
/// step has type `root`.
pub open spec fn is_cycle_trace(
    types: Seq<(String, ExtendedType)>,
    root: Seq<char>,
    fields: Seq<Node<InputValueDefinition>>,
    t: Seq<TraceStep>,
) -> bool {
    &&& t.len() > 0
    &&& t[0].field_type@ == root
    &&& is_step_of(fields, t.last())
    &&& is_chain(types, t)
}

proof fn lemma_cycle_in_value(
    types: Seq<(String, ExtendedType)>,
    stack: Seq<Seq<char>>,
    limit: nat,
    def: Node<InputValueDefinition>,
)
    requires
        stack.len() > 0,
    ensures
        match cycle_in_value(types, stack, limit, def) {
            Err(CycleOutcome::Recursed(t)) => {
                &&& t.len() > 0
                &&& t[0].field_type@ == stack[0]
                &&& is_chain(types, t)
                &&& match def.node.ty {
                    Type::NonNullNamed(n) => t.last() == trace_step(def, n),
                    _ => false,
                }
            },
            _ => true,
        },
    decreases limit + 1 - stack.len(), 0int,
{
    match def.node.ty {
        Type::NonNullNamed(name) => {
            if !stack.contains(name@) {
                match find_input_object(types, name@) {
                    Some(object_def) => {
                        if stack.len() + 1 <= limit {
                            let inner = stack.push(name@);
                            lemma_cycle_in_fields(types, inner, limit, object_def.fields@);
                            match cycle_in_fields(types, inner, limit, object_def.fields@) {
                                Err(CycleOutcome::Recursed(t0)) => {
                                    let t = t0.push(trace_step(def, name));
                                    assert(t[0] == t0[0]);
                                    assert forall|j: int| 0 <= j < t.len() - 1 implies match find_input_object(
                                        types,
                                        (#[trigger] t[j + 1]).field_type@,
                                    ) {
                                        Some(o) => is_step_of(o.fields@, t[j]),
                                        None => false,
                                    } by {
                                        if j < t0.len() - 1 {
                                            assert(t[j + 1] == t0[j + 1]);
                                            assert(t[j] == t0[j]);
                                        } else {
                                            assert(t[j] == t0.last());
                                            assert(t[j + 1] == trace_step(def, name));
                                        }
                                    }
                                },
                                _ => {},
                            }
                        }
                    },
                    None => {},
                }
            }
        },
        _ => {},
    }
}

proof fn lemma_cycle_in_fields(
    types: Seq<(String, ExtendedType)>,
    stack: Seq<Seq<char>>,
    limit: nat,
    fields: Seq<Node<InputValueDefinition>>,
)
    requires
        stack.len() > 0,
    ensures
        match cycle_in_fields(types, stack, limit, fields) {
            Err(CycleOutcome::Recursed(t)) => {
                &&& t.len() > 0
                &&& t[0].field_type@ == stack[0]
                &&& is_chain(types, t)
                &&& is_step_of(fields, t.last())
            },
            _ => true,
        },
    decreases limit + 1 - stack.len(), fields.len() + 1,
{
    if fields.len() > 0 {
        lemma_cycle_in_value(types, stack, limit, fields[0]);
        match cycle_in_value(types, stack, limit, fields[0]) {
            Ok(()) => {
                lemma_cycle_in_fields(types, stack, limit, fields.skip(1));
                match cycle_in_fields(types, stack, limit, fields.skip(1)) {
                    Err(CycleOutcome::Recursed(t)) => {
                        let k = choose|k: int|
                            0 <= k < fields.skip(1).len() && match (#[trigger] fields.skip(1)[k]).node.ty {
                                Type::NonNullNamed(n) => trace_step(fields.skip(1)[k], n) == t.last(),
                                _ => false,
                            };
                        assert(fields.skip(1)[k] == fields[k + 1]);
                    },
                    _ => {},
                }
            },
            Err(CycleOutcome::Recursed(t)) => {
                assert(fields[0] == fields[0]);
            },
            _ => {},
        }
    }
}

/// A cycle reported for an input object is a real one: a chain of non-null
/// fields that leads from the input object back to itself.
pub proof fn lemma_reported_cycle_is_real(
    types: Seq<(String, ExtendedType)>,
    root: String,
    fields: Seq<Node<InputValueDefinition>>,
    limit: nat,
    t: Seq<TraceStep>,
)
    requires
        cycle_in_fields(types, seq![root@], limit, fields) == Err::<(), CycleOutcome>(
            CycleOutcome::Recursed(t),
        ),
    ensures
        is_cycle_trace(types, root@, fields, t),
{
    lemma_cycle_in_fields(types, seq![root@], limit, fields);
}

/// A field whose type is nullable, a list, or a non-null type that is not an
/// input object never leads to a cycle: only non-null named input objects
/// are followed.
pub proof fn lemma_only_non_null_input_objects_recurse(
    types: Seq<(String, ExtendedType)>,
    stack: Seq<Seq<char>>,
    limit: nat,
    def: Node<InputValueDefinition>,
)
    requires
        match def.node.ty {
            Type::NonNullNamed(n) => find_input_object(types, n@) is None && stack.len() > 0 && stack[0] != n@,
            _ => true,
        },
    ensures
        cycle_in_value(types, stack, limit, def) == Ok::<(), CycleOutcome>(()),
{
}

/// Argument names are all distinct exactly when no duplicate is reported.
pub proof fn lemma_unique_names_iff_no_duplicate_reported(ivs: Seq<Node<InputValueDefinition>>)
    ensures
        (unique_input_value_diagnostics(ivs).len() == 0) <==> (forall|i: int, j: int|
            0 <= i < j < ivs.len() ==> (#[trigger] ivs[i]).node.name@ != (#[trigger] ivs[j]).node.name@),
    decreases ivs.len(),
{
    if ivs.len() > 0 {
        let prefix = ivs.drop_last();
        lemma_unique_names_iff_no_duplicate_reported(prefix);
        let last = ivs.last();
        lemma_first_named(prefix, last.node.name@);
        assert forall|i: int| 0 <= i < prefix.len() implies prefix[i] == ivs[i] by {}
        if unique_input_value_diagnostics(ivs).len() == 0 {
            assert forall|i: int, j: int| 0 <= i < j < ivs.len() implies (#[trigger] ivs[i]).node.name@
                != (#[trigger] ivs[j]).node.name@ by {
                if j < ivs.len() - 1 {
                    assert(prefix[i] == ivs[i] && prefix[j] == ivs[j]);
                } else {
                    assert(prefix[i] == ivs[i]);
                }
            }
        } else {
            if unique_input_value_diagnostics(prefix).len() == 0 {
                let j = first_named(prefix, last.node.name@)->0;
                assert(ivs[j].node.name@ == ivs[ivs.len() - 1].node.name@);
            } else {
                let (i, j) = choose|i: int, j: int|
                    0 <= i < j < prefix.len() && (#[trigger] prefix[i]).node.name@ == (#[trigger] prefix[j]).node.name@;
                assert(ivs[i] == prefix[i] && ivs[j] == prefix[j]);
            }
        }
    }
}

/// When one field fails the search, the search of all the fields fails.
proof fn lemma_field_fails(
    types: Seq<(String, ExtendedType)>,
    stack: Seq<Seq<char>>,
    limit: nat,
    fields: Seq<Node<InputValueDefinition>>,
    k: int,
)
    requires
        0 <= k < fields.len(),
        cycle_in_value(types, stack, limit, fields[k]) is Err,
    ensures
        cycle_in_fields(types, stack, limit, fields) is Err,
    decreases k,
{
    if k > 0 && cycle_in_value(types, stack, limit, fields[0]) is Ok {
        assert(fields.skip(1)[k - 1] == fields[k]);
        lemma_field_fails(types, stack, limit, fields.skip(1), k - 1);
    }
}

/// Following steps `m` down to `0` of a chain that ends at the root of the
/// search, through types off the path and distinct, the search fails.
proof fn lemma_chain_found(
    types: Seq<(String, ExtendedType)>,
    stack: Seq<Seq<char>>,
    limit: nat,
    fields: Seq<Node<InputValueDefinition>>,
    t: Seq<TraceStep>,
    m: int,
)
    requires
        0 <= m < t.len(),
        stack.len() > 0,
        t[0].field_type@ == stack[0],
        is_step_of(fields, t[m]),
        is_chain(types, t),
        forall|j: int| 1 <= j <= m ==> !stack.contains(#[trigger] t[j].field_type@),
        forall|i: int, j: int| 1 <= i < j <= m ==> (#[trigger] t[i]).field_type@ != (#[trigger] t[j]).field_type@,
    ensures
        cycle_in_fields(types, stack, limit, fields) is Err,
    decreases m,
{
    let k = choose|k: int|
        0 <= k < fields.len() && match (#[trigger] fields[k]).node.ty {
            Type::NonNullNamed(n) => trace_step(fields[k], n) == t[m],
            _ => false,
        };
    let def = fields[k];
    let n = def.node.ty->NonNullNamed_0;
    assert(n@ == t[m].field_type@);
    if m == 0 {
        assert(stack[0] == n@);
        assert(stack.contains(n@));
    } else {
        assert(!stack.contains(n@));
        assert(match find_input_object(types, (#[trigger] t[(m - 1) + 1]).field_type@) {
            Some(o) => is_step_of(o.fields@, t[m - 1]),
            None => false,
        });
        let o = find_input_object(types, n@)->0;
        if stack.len() + 1 <= limit {
            let inner = stack.push(n@);
            assert forall|j: int| 1 <= j <= m - 1 implies !inner.contains(#[trigger] t[j].field_type@) by {
                assert(t[j].field_type@ != t[m].field_type@);
                if inner.contains(t[j].field_type@) {
                    let x = choose|x: int| 0 <= x < inner.len() && inner[x] == t[j].field_type@;
                    if x < stack.len() {
                        assert(stack[x] == inner[x]);
                        assert(stack.contains(t[j].field_type@));
                    }
                }
            }
            assert(inner[0] == stack[0]);
            lemma_chain_found(types, inner, limit, o.fields@, t, m - 1);
        }
    }
    lemma_field_fails(types, stack, limit, fields, k);
}

/// An input object that leads back to itself through a chain of non-null
/// input object fields, over distinct types, is reported: with the cycle, or
/// as nested too deep.
pub proof fn lemma_real_cycle_is_reported(
    types: Seq<(String, ExtendedType)>,
    input_object: InputObjectType,
    t: Seq<TraceStep>,
)
    requires
        is_cycle_trace(types, input_object.name@, input_object.fields@, t),
        forall|j: int| 1 <= j < t.len() ==> (#[trigger] t[j]).field_type@ != input_object.name@,
        forall|i: int, j: int| 1 <= i < j < t.len() ==> (#[trigger] t[i]).field_type@ != (#[trigger] t[j]).field_type@,
    ensures
        cycle_diagnostics(types, input_object).len() == 1,
{
    let stack = seq![input_object.name@];
    assert forall|j: int| 1 <= j <= t.len() - 1 implies !stack.contains(#[trigger] t[j].field_type@) by {
        if stack.contains(t[j].field_type@) {
            assert(stack[0] == t[j].field_type@);
        }
    }
    lemma_chain_found(types, stack, DEFAULT_RECURSION_LIMIT as nat, input_object.fields@, t, t.len() - 1);
}

/// A name is reported as reserved exactly when it begins with two
/// underscores: a single leading underscore makes an ordinary name. The
/// report comes first, at the input value, with its name and `describe`.
pub proof fn lemma_reserved_name_reported(
    types: Seq<(String, ExtendedType)>,
    iv: Node<InputValueDefinition>,
    describe: Seq<char>,
)
    ensures
        (exists|i: int|
            0 <= i < input_value_diagnostics(types, iv, describe).len()
                && (#[trigger] input_value_diagnostics(types, iv, describe)[i]).data is ReservedName)
            <==> (iv.node.name@.len() >= 2 && iv.node.name@[0] == '_' && iv.node.name@[1] == '_'),
        (iv.node.name@.len() >= 2 && iv.node.name@[0] == '_' && iv.node.name@[1] == '_') ==> (
        input_value_diagnostics(types, iv, describe)[0].data == DiagnosticDataView::ReservedName {
            name: iv.node.name@,
            describe,
        } && input_value_diagnostics(types, iv, describe)[0].location == iv.location),
{
    let d = input_value_diagnostics(types, iv, describe);
    let name = iv.node.name@;
    let reserved = name.len() >= 2 && name[0] == '_' && name[1] == '_';
    if reserved {
        assert(d[0].data is ReservedName);
    } else {
        assert forall|i: int| 0 <= i < d.len() implies !((#[trigger] d[i]).data is ReservedName) by {}
    }
}

/// Scalars, enums and input objects are input types; objects, interfaces
/// and unions are not. An input value whose named type is defined is
/// reported for its type exactly when that type is an object, an interface
/// or a union, so a value of a defined scalar type is never reported.
pub proof fn lemma_input_type_reported(
    types: Seq<(String, ExtendedType)>,
    iv: Node<InputValueDefinition>,
    describe: Seq<char>,
    t: ExtendedType,
)
    requires
        find_type(types, iv.node.ty.inner_name()) == Some(t),
    ensures
        (exists|i: int|
            0 <= i < input_value_diagnostics(types, iv, describe).len()
                && (#[trigger] input_value_diagnostics(types, iv, describe)[i]).data is InputType)
            <==> (t is Object || t is Interface || t is Union),
{
    let d = input_value_diagnostics(types, iv, describe);
    if t is Object || t is Interface || t is Union {
        assert(d[d.len() - 1].data is InputType);
    } else {
        assert forall|i: int| 0 <= i < d.len() implies !((#[trigger] d[i]).data is InputType) by {}
    }
}

} // verus!
