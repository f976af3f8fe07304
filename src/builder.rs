//! The builder generator: the definition of a typestate builder family for
//! one operation schema.
use vstd::prelude::*;
use crate::schema::{builder_fields, required, required_of, required_fields, Field, OperationSchema};
use crate::type_state::{arguments_with, generic_arguments, marker, TypeArgument, TypeState};

verus! {

/// One setter method of the builder, with the `impl` block that holds it.
#[derive(Debug)]
pub struct SetterDefinition {
    /// The field that the setter supplies; the method is named after it.
    pub field: Field,
    /// The type-state coordinate of a required field; `None` for an optional
    /// or variadic one.
    pub coordinate: Option<usize>,
    /// The generic parameters of the `impl` block.
    pub generics: Vec<usize>,
    /// The builder type that the method is defined on.
    pub receiver: Vec<TypeArgument>,
    /// The builder type that the method returns.
    pub returns: Vec<TypeArgument>,
}

/// The `new` constructor, defined at the all-unset instantiation.
#[derive(Debug)]
pub struct ConstructorDefinition {
    /// The fully qualified operation name that the host builder is keyed by.
    pub full_name: String,
    pub receiver: Vec<TypeArgument>,
}

/// The `build` method, defined at the all-set instantiation only.
#[derive(Debug)]
pub struct BuildDefinition {
    pub receiver: Vec<TypeArgument>,
    /// Whether the host library is asked to infer result types.
    pub infer_result_types: bool,
}

/// The definition of the builder type family of one operation.
#[derive(Debug)]
pub struct BuilderDefinition {
    /// The short operation name that the builder and the wrapper are named by.
    pub operation_name: String,
    /// The generic parameters of the builder type, one per coordinate.
    pub parameters: Vec<usize>,
    pub new_fn: ConstructorDefinition,
    /// One setter per builder field, in declaration order.
    pub setters: Vec<SetterDefinition>,
    pub build_fn: BuildDefinition,
}

/// The generic parameters of every coordinate below `k` but `c`, ascending.
pub open spec fn parameters_without(g: Seq<usize>, k: nat, c: int) -> bool {
    &&& forall|j: usize| g.contains(j) <==> (j < k && j != c)
    &&& forall|a: int, b: int| 0 <= a < b < g.len() ==> g[a] < g[b]
}

/// `m` is the setter of field `f` in a builder with `k` coordinates, `c`
/// being the coordinate that `f` takes if it is required.
pub open spec fn setter_of(m: SetterDefinition, f: Field, k: nat, c: nat) -> bool {
    &&& m.field == f
    &&& if required(f) {
        &&& c < k
        &&& m.coordinate == Some(c as usize)
        &&& parameters_without(m.generics@, k, c as int)
        &&& m.receiver@ == arguments_with(k, c as int, false)
        &&& m.returns@ == arguments_with(k, c as int, true)
    } else {
        &&& m.coordinate.is_none()
        &&& m.generics@ == Seq::new(k, |i: int| i as usize)
        &&& m.receiver@ == generic_arguments(k)
        &&& m.returns@ == generic_arguments(k)
    }
}

/// The coordinate of the field at position `j` of `fs`: the number of
/// required fields before it.
pub open spec fn coordinate_of(fs: Seq<Field>, j: int) -> nat {
    required_of(fs.subrange(0, j)).len()
}

/// The number of coordinates of a builder: one per required field.
pub open spec fn state_count(d: BuilderDefinition) -> nat {
    d.parameters@.len()
}

/// Every setter of `d` maps instantiations of `d` to instantiations of `d`:
/// its types have one argument per coordinate, and a generic parameter in
/// what it returns stands at its own coordinate.
pub open spec fn well_formed(d: BuilderDefinition) -> bool {
    forall|m: int|
        0 <= m < d.setters@.len() ==> {
            let setter = #[trigger] d.setters@[m];
            &&& setter.receiver@.len() == state_count(d)
            &&& setter.returns@.len() == state_count(d)
            &&& forall|i: int|
                0 <= i < setter.returns@.len() ==> (#[trigger] setter.returns@[i] matches TypeArgument::Parameter(
                    j,
                ) ==> j == i)
        }
}

/// `d` is the builder definition of schema `s`.
pub open spec fn builder_of(d: BuilderDefinition, s: OperationSchema) -> bool {
    let fs = builder_fields(s);
    let k = required_fields(s).len();
    &&& d.operation_name == s.name
    &&& k <= usize::MAX
    &&& d.parameters@ == Seq::new(k, |i: int| i as usize)
    &&& d.new_fn.full_name == s.full_name
    &&& d.new_fn.receiver@ == Seq::new(k, |i: int| marker(false))
    &&& d.setters@.len() == fs.len()
    &&& forall|j: int| 0 <= j < fs.len() ==> setter_of(#[trigger] d.setters@[j], fs[j], k, coordinate_of(fs, j))
    &&& d.build_fn.receiver@ == Seq::new(k, |i: int| marker(true))
    &&& d.build_fn.infer_result_types == s.can_infer_type
}

/// The setter of `field`, whose coordinate is `coordinate` if it is required.
pub fn generate_field_fn(type_state: &TypeState, field: &Field, coordinate: usize) -> (r: SetterDefinition)
    requires
        required(*field) ==> coordinate < type_state.count,
    ensures
        setter_of(r, *field, type_state.count as nat, coordinate as nat),
{
    if field.is_optional() {
        SetterDefinition {
            field: field.duplicate(),
            coordinate: None,
            generics: type_state.parameters(),
            receiver: type_state.arguments_generic(),
            returns: type_state.arguments_generic(),
        }
    } else {
        SetterDefinition {
            field: field.duplicate(),
            coordinate: Some(coordinate),
            generics: type_state.parameters_without(coordinate),
            receiver: type_state.arguments_set(coordinate, false),
            returns: type_state.arguments_set(coordinate, true),
        }
    }
}

/// The `new` constructor of the builder of `schema`.
pub fn generate_new_fn(schema: &OperationSchema, type_state: &TypeState) -> (r: ConstructorDefinition)
    ensures
        r.full_name == schema.full_name,
        r.receiver@ == Seq::new(type_state.count as nat, |i: int| marker(false)),
{
    ConstructorDefinition { full_name: schema.full_name.clone(), receiver: type_state.arguments_all_set(false) }
}

/// The `build` method of the builder of `schema`.
pub fn generate_build_fn(schema: &OperationSchema, type_state: &TypeState) -> (r: BuildDefinition)
    ensures
        r.receiver@ == Seq::new(type_state.count as nat, |i: int| marker(true)),
        r.infer_result_types == schema.can_infer_type,
{
    BuildDefinition { receiver: type_state.arguments_all_set(true), infer_result_types: schema.can_infer_type }
}

/// The definition of the builder family of `schema`.
pub fn generate_operation_builder(schema: &OperationSchema) -> (r: BuilderDefinition)
    requires
        builder_fields(*schema).len() < usize::MAX,
    ensures
        builder_of(r, *schema),
{
    let fields = schema.builder_fields();
    let count = schema.required_fields().len();
    let type_state = TypeState::new(count);
    let ghost fs = fields@;
    let ghost k = count as nat;
    let mut setters: Vec<SetterDefinition> = Vec::new();
    let mut coordinate: usize = 0;
    let mut i: usize = 0;
    while i < fields.len()
        invariant
            fs == fields@,
            fs == builder_fields(*schema),
            k == required_of(fs).len(),
            type_state.count == k,
            fs.len() < usize::MAX,
            i <= fs.len(),
            coordinate == coordinate_of(fs, i as int),
            setters@.len() == i,
            forall|j: int| 0 <= j < i ==> setter_of(#[trigger] setters@[j], fs[j], k, coordinate_of(fs, j)),
        decreases fs.len() - i,
    {
        proof {
            let next = fs.subrange(0, i + 1);
            assert(next.drop_last() == fs.subrange(0, i as int));
            assert(next.last() == fs[i as int]);
            lemma_required_prefix(fs, i + 1);
        }
        let setter = generate_field_fn(&type_state, &fields[i], coordinate);
        setters.push(setter);
        if fields[i].is_required() {
            coordinate = coordinate + 1;
        }
        i = i + 1;
    }
    BuilderDefinition {
        operation_name: schema.name.clone(),
        parameters: type_state.parameters(),
        new_fn: generate_new_fn(schema, &type_state),
        setters,
        build_fn: generate_build_fn(schema, &type_state),
    }
}

/// A prefix of `fs` has no more required fields than `fs`.
proof fn lemma_required_prefix(fs: Seq<Field>, n: int)
    requires
        0 <= n <= fs.len(),
    ensures
        required_of(fs.subrange(0, n)).len() <= required_of(fs).len(),
    decreases fs.len(),
{
    if n < fs.len() {
        assert(fs.drop_last().subrange(0, n) == fs.subrange(0, n));
        lemma_required_prefix(fs.drop_last(), n);
    } else {
        assert(fs.subrange(0, n) == fs);
    }
}

/// The definition generated for a schema is well formed.
pub proof fn lemma_builder_well_formed(d: BuilderDefinition, s: OperationSchema)
    requires
        builder_of(d, s),
    ensures
        well_formed(d),
{
    let fs = builder_fields(s);
    let k = required_fields(s).len();
    assert forall|m: int| 0 <= m < d.setters@.len() implies {
        let setter = #[trigger] d.setters@[m];
        &&& setter.receiver@.len() == state_count(d)
        &&& setter.returns@.len() == state_count(d)
        &&& forall|i: int|
            0 <= i < setter.returns@.len() ==> (#[trigger] setter.returns@[i] matches TypeArgument::Parameter(
                j,
            ) ==> j == i)
    } by {
        assert(setter_of(d.setters@[m], fs[m], k, coordinate_of(fs, m)));
    }
}

} // verus!
