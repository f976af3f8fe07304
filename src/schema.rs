//! The schema model of one operation and the field classifier.
use vstd::prelude::*;

verus! {

/// How many runtime items a field holds.
#[derive(PartialEq, Eq, Structural, Clone, Copy, Debug)]
pub enum Cardinality {
    /// Exactly one item.
    Single,
    /// Zero or one item.
    Optional,
    /// Zero or more items.
    Variadic,
}

/// The category of a field, which decides where its items are stored.
#[derive(PartialEq, Eq, Structural, Clone, Copy, Debug)]
pub enum Category {
    Result,
    Operand,
    Region,
    Successor,
    Attribute,
}

/// One field of an operation schema.
#[derive(Debug)]
pub struct Field {
    pub name: String,
    pub element_type: String,
    pub category: Category,
    pub cardinality: Cardinality,
}

/// A field must be supplied exactly once before an operation can be built.
pub open spec fn required(f: Field) -> bool {
    f.cardinality == Cardinality::Single
}

impl Field {
    pub fn new(name: String, element_type: String, category: Category, cardinality: Cardinality) -> (r: Field)
        ensures
            r.name == name,
            r.element_type == element_type,
            r.category == category,
            r.cardinality == cardinality,
    {
        Field { name, element_type, category, cardinality }
    }

    /// An exact copy of the field.
    pub fn duplicate(&self) -> (r: Field)
        ensures
            r == *self,
    {
        Field {
            name: self.name.clone(),
            element_type: self.element_type.clone(),
            category: self.category,
            cardinality: self.cardinality,
        }
    }

    pub fn is_required(&self) -> (r: bool)
        ensures
            r == required(*self),
    {
        self.cardinality == Cardinality::Single
    }

    /// Optional and variadic fields stay outside the type state.
    pub fn is_optional(&self) -> (r: bool)
        ensures
            r == !required(*self),
    {
        self.cardinality != Cardinality::Single
    }

    pub fn is_variadic(&self) -> (r: bool)
        ensures
            r == (self.cardinality == Cardinality::Variadic),
    {
        self.cardinality == Cardinality::Variadic
    }

    /// Whether a setter of this field takes a sequence of items rather than
    /// one item. Only variadic fields do.
    pub fn takes_sequence(&self) -> (r: bool)
        ensures
            r == (self.cardinality == Cardinality::Variadic),
    {
        self.is_variadic()
    }
}

/// The schema of one operation.
#[derive(Debug)]
pub struct OperationSchema {
    /// The short name, used for the wrapper type.
    pub name: String,
    /// The fully qualified name, such as `arith.addi`.
    pub full_name: String,
    pub summary: String,
    pub description: String,
    pub results: Vec<Field>,
    pub operands: Vec<Field>,
    pub regions: Vec<Field>,
    pub successors: Vec<Field>,
    pub attributes: Vec<Field>,
    /// Result types are inferred by the host library, so results are not
    /// set through the builder.
    pub can_infer_type: bool,
}

/// The fields that the builder sets, in declaration order: results (unless
/// their types are inferred), operands, regions, successors, attributes.
pub open spec fn builder_fields(s: OperationSchema) -> Seq<Field> {
    (if s.can_infer_type { Seq::empty() } else { s.results@ }) + s.operands@ + s.regions@
        + s.successors@ + s.attributes@
}

/// The required fields among `fs`, in order.
pub open spec fn required_of(fs: Seq<Field>) -> Seq<Field>
    decreases fs.len(),
{
    if fs.len() == 0 {
        Seq::empty()
    } else if required(fs.last()) {
        required_of(fs.drop_last()).push(fs.last())
    } else {
        required_of(fs.drop_last())
    }
}

/// The required fields of a schema: one type-state coordinate each.
pub open spec fn required_fields(s: OperationSchema) -> Seq<Field> {
    required_of(builder_fields(s))
}

/// Appends copies of all of `src` to `dst`.
fn extend_fields(dst: &mut Vec<Field>, src: &Vec<Field>)
    ensures
        final(dst)@ == old(dst)@ + src@,
{
    let ghost start = dst@;
    let mut i: usize = 0;
    while i < src.len()
        invariant
            i <= src.len(),
            dst@ == start + src@.subrange(0, i as int),
        decreases src.len() - i,
    {
        dst.push(src[i].duplicate());
        proof {
            assert(src@.subrange(0, i + 1) == src@.subrange(0, i as int).push(src@[i as int]));
        }
        i = i + 1;
    }
    proof {
        assert(src@.subrange(0, src@.len() as int) == src@);
    }
}

impl OperationSchema {
    /// All fields that the builder sets, in declaration order.
    pub fn builder_fields(&self) -> (r: Vec<Field>)
        ensures
            r@ == builder_fields(*self),
    {
        let mut r: Vec<Field> = Vec::new();
        if !self.can_infer_type {
            extend_fields(&mut r, &self.results);
        }
        proof {
            assert(r@ == (if self.can_infer_type { Seq::empty() } else { self.results@ }));
        }
        extend_fields(&mut r, &self.operands);
        extend_fields(&mut r, &self.regions);
        extend_fields(&mut r, &self.successors);
        extend_fields(&mut r, &self.attributes);
        r
    }

    /// The required fields, in declaration order.
    pub fn required_fields(&self) -> (r: Vec<Field>)
        ensures
            r@ == required_fields(*self),
    {
        let fs = self.builder_fields();
        let mut r: Vec<Field> = Vec::new();
        let mut i: usize = 0;
        while i < fs.len()
            invariant
                i <= fs.len(),
                r@ == required_of(fs@.subrange(0, i as int)),
            decreases fs.len() - i,
        {
            proof {
                let next = fs@.subrange(0, i + 1);
                assert(next.drop_last() == fs@.subrange(0, i as int));
                assert(next.last() == fs@[i as int]);
            }
            if fs[i].is_required() {
                r.push(fs[i].duplicate());
            }
            i = i + 1;
        }
        proof {
            assert(fs@.subrange(0, fs@.len() as int) == fs@);
        }
        r
    }
}

} // verus!
