//! The operation wrapper generator: everything generated for one operation.
use vstd::prelude::*;
use crate::accessor::{access_of, generate_accessor, Access};
use crate::builder::{builder_of, generate_operation_builder, state_count, BuilderDefinition};
use crate::operation::default_calls;
use crate::schema::{builder_fields, Field, OperationSchema};
use crate::type_state::{marker, TypeArgument};

verus! {

/// The read accessor of one field of the wrapper.
#[derive(Debug)]
pub struct AccessorDefinition {
    pub field: Field,
    pub access: Access,
}

/// The default constructor: one parameter per required field, in declaration
/// order, and the setters it calls between `new` and `build`.
#[derive(Debug)]
pub struct DefaultConstructorDefinition {
    pub parameters: Vec<Field>,
    pub calls: Vec<usize>,
}

/// Everything generated for one operation.
#[derive(Debug)]
pub struct OperationDefinition {
    pub name: String,
    pub full_name: String,
    pub summary: String,
    pub description: String,
    pub result_accessors: Vec<AccessorDefinition>,
    pub operand_accessors: Vec<AccessorDefinition>,
    pub region_accessors: Vec<AccessorDefinition>,
    pub successor_accessors: Vec<AccessorDefinition>,
    /// Attributes are read by name.
    pub attribute_accessors: Vec<Field>,
    pub builder: BuilderDefinition,
    /// The builder type that the wrapper's `builder` entry point returns.
    pub builder_fn: Vec<TypeArgument>,
    pub default_constructor: DefaultConstructorDefinition,
}

/// `a` holds the accessors of the category `fs`, in order.
pub open spec fn accessors_of(a: Seq<AccessorDefinition>, fs: Seq<Field>) -> bool {
    &&& a.len() == fs.len()
    &&& forall|i: int| 0 <= i < fs.len() ==> (#[trigger] a[i]).field == fs[i] && a[i].access == access_of(fs, i)
}

fn generate_accessors(fields: &Vec<Field>) -> (r: Vec<AccessorDefinition>)
    ensures
        accessors_of(r@, fields@),
{
    let mut r: Vec<AccessorDefinition> = Vec::new();
    let mut i: usize = 0;
    while i < fields.len()
        invariant
            i <= fields@.len(),
            r@.len() == i,
            forall|j: int| 0 <= j < i ==> (#[trigger] r@[j]).field == fields@[j] && r@[j].access == access_of(fields@, j),
        decreases fields@.len() - i,
    {
        r.push(AccessorDefinition { field: fields[i].duplicate(), access: generate_accessor(fields, i) });
        i = i + 1;
    }
    r
}

fn copy_fields(fields: &Vec<Field>) -> (r: Vec<Field>)
    ensures
        r@ == fields@,
{
    let mut r: Vec<Field> = Vec::new();
    let mut i: usize = 0;
    while i < fields.len()
        invariant
            i <= fields@.len(),
            r@ == fields@.subrange(0, i as int),
        decreases fields@.len() - i,
    {
        r.push(fields[i].duplicate());
        i = i + 1;
        proof {
            assert(r@ =~= fields@.subrange(0, i as int));
        }
    }
    r
}

/// The builder type that the wrapper's `builder` entry point returns: every
/// coordinate unset.
pub fn generate_operation_builder_fn(builder: &BuilderDefinition) -> (r: Vec<TypeArgument>)
    ensures
        r@ == Seq::new(state_count(*builder), |i: int| marker(false)),
{
    let mut r: Vec<TypeArgument> = Vec::new();
    let mut i: usize = 0;
    while i < builder.parameters.len()
        invariant
            i <= builder.parameters@.len(),
            r@ == Seq::new(i as nat, |j: int| marker(false)),
        decreases builder.parameters@.len() - i,
    {
        r.push(TypeArgument::UnsetMarker);
        i = i + 1;
        proof {
            assert(r@ == Seq::new(i as nat, |j: int| marker(false)));
        }
    }
    r
}

/// The default constructor of a builder: it takes the required fields in
/// declaration order and calls their setters in that order.
pub fn generate_default_constructor(builder: &BuilderDefinition) -> (r: DefaultConstructorDefinition)
    ensures
        r.calls@.len() == default_calls(*builder, builder.setters@.len() as int).len(),
        r.parameters@.len() == r.calls@.len(),
        forall|i: int|
            0 <= i < r.calls@.len() ==> #[trigger] r.calls@[i] as int == default_calls(
                *builder,
                builder.setters@.len() as int,
            )[i] && r.parameters@[i] == builder.setters@[r.calls@[i] as int].field,
{
    let ghost d = *builder;
    let mut parameters: Vec<Field> = Vec::new();
    let mut calls: Vec<usize> = Vec::new();
    let mut i: usize = 0;
    while i < builder.setters.len()
        invariant
            d == *builder,
            i <= d.setters@.len(),
            calls@.len() == default_calls(d, i as int).len(),
            parameters@.len() == calls@.len(),
            forall|j: int|
                0 <= j < calls@.len() ==> #[trigger] calls@[j] as int == default_calls(d, i as int)[j]
                    && 0 <= calls@[j] < d.setters@.len() && parameters@[j] == d.setters@[calls@[j] as int].field,
        decreases d.setters@.len() - i,
    {
        if builder.setters[i].coordinate.is_some() {
            parameters.push(builder.setters[i].field.duplicate());
            calls.push(i);
        }
        i = i + 1;
    }
    DefaultConstructorDefinition { parameters, calls }
}

/// Everything generated for `schema`: the wrapper's accessors, its builder
/// family, the builder entry point and the default constructor.
pub fn generate_operation(schema: &OperationSchema) -> (r: OperationDefinition)
    requires
        builder_fields(*schema).len() < usize::MAX,
    ensures
        r.name == schema.name,
        r.full_name == schema.full_name,
        r.summary == schema.summary,
        r.description == schema.description,
        accessors_of(r.result_accessors@, schema.results@),
        accessors_of(r.operand_accessors@, schema.operands@),
        accessors_of(r.region_accessors@, schema.regions@),
        accessors_of(r.successor_accessors@, schema.successors@),
        r.attribute_accessors@ == schema.attributes@,
        builder_of(r.builder, *schema),
        r.builder_fn@ == r.builder.new_fn.receiver@,
        r.default_constructor.calls@.len() == default_calls(r.builder, r.builder.setters@.len() as int).len(),
        forall|i: int|
            0 <= i < r.default_constructor.calls@.len() ==> #[trigger] r.default_constructor.calls@[i] as int
                == default_calls(r.builder, r.builder.setters@.len() as int)[i],
{
    let builder = generate_operation_builder(schema);
    let builder_fn = generate_operation_builder_fn(&builder);
    let default_constructor = generate_default_constructor(&builder);
    OperationDefinition {
        name: schema.name.clone(),
        full_name: schema.full_name.clone(),
        summary: schema.summary.clone(),
        description: schema.description.clone(),
        result_accessors: generate_accessors(&schema.results),
        operand_accessors: generate_accessors(&schema.operands),
        region_accessors: generate_accessors(&schema.regions),
        successor_accessors: generate_accessors(&schema.successors),
        attribute_accessors: copy_fields(&schema.attributes),
        builder,
        builder_fn,
        default_constructor,
    }
}

} // verus!
