//! A runtime model of the generated code: the generic operation that the host
//! library builds, the builder that fills it, and the named wrapper.
use vstd::prelude::*;
use crate::builder::{builder_of, well_formed, coordinate_of, setter_of, state_count, BuilderDefinition};
use crate::protocol::{available, buildable, complete, initial, step};
use crate::schema::{builder_fields, required, Category, Field, OperationSchema};
use crate::type_state::instantiate;

verus! {

/// One attribute of an operation: a name and a value handle.
#[derive(Debug)]
pub struct Attribute {
    pub name: String,
    pub value: u64,
}

/// A generic operation as the host library holds it: a fully qualified name,
/// the items of each category as handles, and named attributes.
#[derive(Debug)]
pub struct GenericOperation {
    pub name: String,
    pub results: Vec<u64>,
    pub operands: Vec<u64>,
    pub regions: Vec<u64>,
    pub successors: Vec<u64>,
    pub attributes: Vec<Attribute>,
}

/// What a generic operation holds.
pub struct OperationView {
    pub name: Seq<char>,
    pub results: Seq<u64>,
    pub operands: Seq<u64>,
    pub regions: Seq<u64>,
    pub successors: Seq<u64>,
    pub attributes: Seq<(Seq<char>, u64)>,
}

impl View for GenericOperation {
    type V = OperationView;

    open spec fn view(&self) -> OperationView {
        OperationView {
            name: self.name@,
            results: self.results@,
            operands: self.operands@,
            regions: self.regions@,
            successors: self.successors@,
            attributes: Seq::new(
                self.attributes@.len(),
                |i: int| (self.attributes@[i].name@, self.attributes@[i].value),
            ),
        }
    }
}

/// An operation named `name` with nothing in it.
pub open spec fn empty_operation(name: Seq<char>) -> OperationView {
    OperationView {
        name,
        results: Seq::empty(),
        operands: Seq::empty(),
        regions: Seq::empty(),
        successors: Seq::empty(),
        attributes: Seq::empty(),
    }
}

/// `op` after the items `values` of field `f` were appended to it.
pub open spec fn appended(op: OperationView, f: Field, values: Seq<u64>) -> OperationView {
    match f.category {
        Category::Result => OperationView { results: op.results + values, ..op },
        Category::Operand => OperationView { operands: op.operands + values, ..op },
        Category::Region => OperationView { regions: op.regions + values, ..op },
        Category::Successor => OperationView { successors: op.successors + values, ..op },
        Category::Attribute => OperationView {
            attributes: op.attributes + Seq::new(values.len(), |i: int| (f.name@, values[i])),
            ..op
        },
    }
}

/// The number of items a setter of `f` takes: exactly one unless `f` is variadic.
pub open spec fn fits(f: Field, values: Seq<u64>) -> bool {
    f.cardinality != crate::schema::Cardinality::Variadic ==> values.len() == 1
}

fn extend_values(dst: &mut Vec<u64>, src: &Vec<u64>)
    ensures
        final(dst)@ == old(dst)@ + src@,
{
    let ghost start = dst@;
    let mut i: usize = 0;
    while i < src.len()
        invariant
            i <= src.len(),
            dst@ == start + src@.subrange(0, i as int),
        decreases src.len() - i,
    {
        dst.push(src[i]);
        proof {
            assert(src@.subrange(0, i + 1) == src@.subrange(0, i as int).push(src@[i as int]));
        }
        i = i + 1;
    }
    proof {
        assert(src@.subrange(0, src@.len() as int) == src@);
    }
}

impl GenericOperation {
    pub fn new(name: String) -> (r: GenericOperation)
        ensures
            r@ == empty_operation(name@),
    {
        let r = GenericOperation {
            name,
            results: Vec::new(),
            operands: Vec::new(),
            regions: Vec::new(),
            successors: Vec::new(),
            attributes: Vec::new(),
        };
        proof {
            assert(r@.attributes == Seq::<(Seq<char>, u64)>::empty());
        }
        r
    }

    /// Appends the items of field `f`, as the host library's `add_*` methods do.
    pub fn append(&mut self, f: &Field, values: &Vec<u64>)
        ensures
            final(self)@ == appended(old(self)@, *f, values@),
    {
        match f.category {
            Category::Result => extend_values(&mut self.results, values),
            Category::Operand => extend_values(&mut self.operands, values),
            Category::Region => extend_values(&mut self.regions, values),
            Category::Successor => extend_values(&mut self.successors, values),
            Category::Attribute => {
                let ghost start = self@.attributes;
                let mut i: usize = 0;
                while i < values.len()
                    invariant
                        i <= values.len(),
                        self@.attributes == start + Seq::new(i as nat, |j: int| (f.name@, values@[j])),
                        self@.name == old(self)@.name,
                        self@.results == old(self)@.results,
                        self@.operands == old(self)@.operands,
                        self@.regions == old(self)@.regions,
                        self@.successors == old(self)@.successors,
                    decreases values.len() - i,
                {
                    let ghost prev = self@.attributes;
                    let a = Attribute { name: f.name.clone(), value: values[i] };
                    assert(a.name@ == f.name@);
                    self.attributes.push(a);
                    assert(self@.attributes =~= prev.push((f.name@, values@[i as int])));
                    i = i + 1;
                    proof {
                        assert(self@.attributes =~= start + Seq::new(i as nat, |j: int| (f.name@, values@[j])));
                    }
                }
            },
        }
        proof {
            assert(final(self)@ == appended(old(self)@, *f, values@));
        }
    }
}

/// The runtime counterpart of a builder instantiation: the coordinates that
/// are set, and the operation filled so far.
#[derive(Debug)]
pub struct OperationBuilder {
    pub state: Vec<bool>,
    pub operation: GenericOperation,
}

impl OperationBuilder {
    /// The builder that `new` returns: nothing set, and an empty operation
    /// keyed by the fully qualified name.
    pub fn new(definition: &BuilderDefinition) -> (r: OperationBuilder)
        ensures
            r.state@ == initial(*definition),
            r.operation@ == empty_operation(definition.new_fn.full_name@),
    {
        let mut state: Vec<bool> = Vec::new();
        let mut i: usize = 0;
        while i < definition.parameters.len()
            invariant
                i <= definition.parameters@.len(),
                state@ == Seq::new(i as nat, |j: int| false),
            decreases definition.parameters@.len() - i,
        {
            state.push(false);
            i = i + 1;
            proof {
                assert(state@ == Seq::new(i as nat, |j: int| false));
            }
        }
        OperationBuilder { state, operation: GenericOperation::new(definition.new_fn.full_name.clone()) }
    }

    /// Calls setter `m`, which must exist on the current instantiation.
    pub fn set(&mut self, definition: &BuilderDefinition, m: usize, values: &Vec<u64>)
        requires
            well_formed(*definition),
            available(*definition, m as int, old(self).state@),
            fits(definition.setters@[m as int].field, values@),
        ensures
            step(*definition, m as int, old(self).state@) == Some(final(self).state@),
            final(self).operation@ == appended(old(self).operation@, definition.setters@[m as int].field, values@),
    {
        let setter = &definition.setters[m];
        let ghost old_state = self.state@;
        let mut next: Vec<bool> = Vec::new();
        let mut i: usize = 0;
        while i < setter.returns.len()
            invariant
                setter == definition.setters@[m as int],
                old_state == self.state@,
                setter.receiver@.len() == old_state.len(),
                setter.returns@.len() == old_state.len(),
                well_formed(*definition),
                0 <= m < definition.setters@.len(),
                i <= setter.returns@.len(),
                next@ == instantiate(setter.returns@, old_state).subrange(0, i as int),
            decreases setter.returns@.len() - i,
        {
            let value = match setter.returns[i] {
                crate::type_state::TypeArgument::SetMarker => true,
                crate::type_state::TypeArgument::UnsetMarker => false,
                crate::type_state::TypeArgument::Parameter(j) => {
                    assert(j == i);
                    self.state[j]
                },
            };
            next.push(value);
            i = i + 1;
            proof {
                assert(next@ =~= instantiate(setter.returns@, old_state).subrange(0, i as int));
            }
        }
        proof {
            assert(next@ =~= instantiate(setter.returns@, old_state));
        }
        self.state = next;
        self.operation.append(&setter.field, values);
    }

    /// Whether setter `m` exists on the current instantiation.
    pub fn has_setter(&self, definition: &BuilderDefinition, m: usize) -> (r: bool)
        ensures
            r == available(*definition, m as int, self.state@),
    {
        m < definition.setters.len() && crate::type_state::applies_to(&definition.setters[m].receiver, &self.state)
    }

    /// Whether `build` exists on the current instantiation.
    pub fn has_build(&self, definition: &BuilderDefinition) -> (r: bool)
        ensures
            r == buildable(*definition, self.state@),
    {
        crate::type_state::applies_to(&definition.build_fn.receiver, &self.state)
    }

    /// Finishes the operation; `build` exists only once every required field
    /// is set.
    pub fn build(self, definition: &BuilderDefinition) -> (r: GenericOperation)
        requires
            buildable(*definition, self.state@),
        ensures
            r@ == self.operation@,
    {
        self.operation
    }
}

/// A generic operation could not be narrowed: its name is not the expected one.
#[derive(Debug)]
pub enum ConversionError {
    NameMismatch { expected: String, actual: String },
}

/// The named wrapper of one operation kind: it owns a generic operation whose
/// name is the wrapper's fully qualified name.
#[derive(Debug)]
pub struct NamedOperation {
    pub full_name: String,
    pub operation: GenericOperation,
}

/// The generic operation under a named wrapper.
pub open spec fn widen(n: NamedOperation) -> GenericOperation {
    n.operation
}

/// The wrapper named `full_name` of `op`, if its name matches.
pub open spec fn narrow(full_name: String, op: GenericOperation) -> Result<NamedOperation, ConversionError> {
    if op@.name == full_name@ {
        Ok(NamedOperation { full_name, operation: op })
    } else {
        Err(ConversionError::NameMismatch { expected: full_name, actual: op.name })
    }
}

impl NamedOperation {
    /// The wrapper's invariant: the operation bears the wrapper's name.
    pub open spec fn wf(&self) -> bool {
        self.operation@.name == self.full_name@
    }

    /// Narrows a generic operation into the wrapper named `full_name`.
    pub fn try_from_generic(full_name: String, operation: GenericOperation) -> (r: Result<NamedOperation, ConversionError>)
        ensures
            r == narrow(full_name, operation),
            r matches Ok(n) ==> n.wf(),
    {
        if operation.name == full_name {
            Ok(NamedOperation { full_name, operation })
        } else {
            let actual = operation.name;
            Err(ConversionError::NameMismatch { expected: full_name, actual })
        }
    }

    /// Widens the wrapper into its generic operation.
    pub fn into_generic(self) -> (r: GenericOperation)
        ensures
            r == widen(self),
    {
        self.operation
    }

    /// The fully qualified operation name.
    pub fn name(&self) -> (r: &String)
        ensures
            *r == self.full_name,
    {
        &self.full_name
    }

    /// The generic operation, borrowed.
    pub fn as_operation(&self) -> (r: &GenericOperation)
        ensures
            *r == self.operation,
    {
        &self.operation
    }
}

/// Widening a well-formed wrapper and narrowing it back under its own name
/// gives the same wrapper; narrowing under another name fails.
pub proof fn lemma_round_trip(n: NamedOperation, other: String)
    requires
        n.wf(),
    ensures
        narrow(n.full_name, widen(n)) == Ok::<NamedOperation, ConversionError>(n),
        other@ != n.full_name@ ==> narrow(other, widen(n)) is Err,
{
}

/// The setter calls of the default constructor among the first `n` setters:
/// each required field's setter once, in declaration order.
pub open spec fn default_calls(d: BuilderDefinition, n: int) -> Seq<int>
    decreases n,
{
    if n <= 0 {
        Seq::empty()
    } else if d.setters@[n - 1].coordinate is Some {
        default_calls(d, n - 1).push(n - 1)
    } else {
        default_calls(d, n - 1)
    }
}

/// The operation after the required-field setter calls `calls` on `op`, each
/// setter handed the value of its coordinate in `values`.
pub open spec fn drive(d: BuilderDefinition, calls: Seq<int>, values: Seq<u64>, op: OperationView) -> OperationView
    decreases calls.len(),
{
    if calls.len() == 0 {
        op
    } else {
        let m = calls.last();
        appended(
            drive(d, calls.drop_last(), values, op),
            d.setters@[m].field,
            seq![values[d.setters@[m].coordinate->0 as int]],
        )
    }
}

/// Driving the builder keeps the operation's name.
proof fn lemma_drive_keeps_name(d: BuilderDefinition, calls: Seq<int>, values: Seq<u64>, op: OperationView)
    ensures
        drive(d, calls, values, op).name == op.name,
    decreases calls.len(),
{
    if calls.len() > 0 {
        lemma_drive_keeps_name(d, calls.drop_last(), values, op);
    }
}

/// Builds the operation of `schema` from one value per required field, in
/// declaration order, by calling `new`, each required field's setter in
/// declaration order, and `build`. The calls are a legal builder sequence, and
/// the result is what driving the builder through them by hand gives.
pub fn construct_default(schema: &OperationSchema, definition: &BuilderDefinition, values: &Vec<u64>) -> (r: NamedOperation)
    requires
        builder_of(*definition, *schema),
        values@.len() == state_count(*definition),
    ensures
        crate::protocol::run(*definition, default_calls(*definition, definition.setters@.len() as int), initial(*definition))
            matches Some(t) && buildable(*definition, t),
        r.operation@ == drive(
            *definition,
            default_calls(*definition, definition.setters@.len() as int),
            values@,
            empty_operation(schema.full_name@),
        ),
        narrow(schema.full_name, r.operation) == Ok::<NamedOperation, ConversionError>(r),
{
    let ghost d = *definition;
    let ghost fs = builder_fields(*schema);
    let ghost k = state_count(d);
    proof {
        crate::builder::lemma_builder_well_formed(d, *schema);
    }
    let mut builder = OperationBuilder::new(definition);
    let mut i: usize = 0;
    while i < definition.setters.len()
        invariant
            d == *definition,
            builder_of(d, *schema),
            well_formed(d),
            fs == builder_fields(*schema),
            k == state_count(d),
            values@.len() == k,
            i <= d.setters@.len(),
            builder.state@ == Seq::new(k, |c: int| c < coordinate_of(fs, i as int)),
            crate::protocol::run(d, default_calls(d, i as int), initial(d)) == Some(builder.state@),
            builder.operation@ == drive(d, default_calls(d, i as int), values@, empty_operation(schema.full_name@)),
        decreases d.setters@.len() - i,
    {
        proof {
            assert(setter_of(d.setters@[i as int], fs[i as int], k, coordinate_of(fs, i as int)));
            let next = fs.subrange(0, i + 1);
            assert(next.drop_last() == fs.subrange(0, i as int));
            assert(next.last() == fs[i as int]);
            crate::protocol::lemma_setter(d, *schema, i as int, builder.state@);
        }
        match definition.setters[i].coordinate {
            Some(c) => {
                let item: Vec<u64> = vec![values[c]];
                assert(item@ == seq![values@[c as int]]);
                builder.set(definition, i, &item);
                proof {
                    assert(default_calls(d, i + 1).drop_last() == default_calls(d, i as int));
                    assert(builder.state@ =~= Seq::new(k, |x: int| x < coordinate_of(fs, i + 1)));
                }
            },
            None => {
                proof {
                    assert(builder.state@ =~= Seq::new(k, |x: int| x < coordinate_of(fs, i + 1)));
                }
            },
        }
        i = i + 1;
    }
    proof {
        assert(fs.subrange(0, fs.len() as int) == fs);
        assert(complete(builder.state@));
        crate::protocol::lemma_build_only_when_complete(d, *schema, builder.state@);
        lemma_drive_keeps_name(d, default_calls(d, i as int), values@, empty_operation(schema.full_name@));
    }
    let operation = builder.build(definition);
    NamedOperation { full_name: schema.full_name.clone(), operation }
}

} // verus!
