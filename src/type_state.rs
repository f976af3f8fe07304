//! The typestate synthesizer: one type parameter per required field, and the
//! argument lists that scope each builder method.
use vstd::prelude::*;

verus! {

/// One argument of the builder type: a generic parameter, or a marker that
/// fixes a coordinate of the type state.
#[derive(PartialEq, Eq, Structural, Clone, Copy, Debug)]
pub enum TypeArgument {
    /// The generic parameter of the coordinate with this index.
    Parameter(usize),
    /// The coordinate's field has been set.
    SetMarker,
    /// The coordinate's field has not been set yet.
    UnsetMarker,
}

/// The marker that fixes a coordinate to `set`.
pub open spec fn marker(set: bool) -> TypeArgument {
    if set {
        TypeArgument::SetMarker
    } else {
        TypeArgument::UnsetMarker
    }
}

/// `args` names the builder type with the coordinate `p` fixed to `set` and
/// every other coordinate left as its generic parameter.
pub open spec fn arguments_with(k: nat, p: int, set: bool) -> Seq<TypeArgument> {
    Seq::new(k, |i: int| if i == p { marker(set) } else { TypeArgument::Parameter(i as usize) })
}

/// The builder type with every coordinate left as its generic parameter.
pub open spec fn generic_arguments(k: nat) -> Seq<TypeArgument> {
    Seq::new(k, |i: int| TypeArgument::Parameter(i as usize))
}

/// Whether the builder instantiation `state` (one flag per coordinate, true
/// for `Set`) is an instance of the builder type named by `args` in an `impl`
/// header, whose generic parameters stand at their own coordinates.
pub open spec fn applies(args: Seq<TypeArgument>, state: Seq<bool>) -> bool {
    &&& args.len() == state.len()
    &&& forall|i: int|
        0 <= i < args.len() ==> match #[trigger] args[i] {
            TypeArgument::SetMarker => state[i],
            TypeArgument::UnsetMarker => !state[i],
            TypeArgument::Parameter(j) => j == i,
        }
}

/// Whether the instantiation `state` is an instance of the builder type
/// named by `args`.
pub fn applies_to(args: &Vec<TypeArgument>, state: &Vec<bool>) -> (r: bool)
    ensures
        r == applies(args@, state@),
{
    if args.len() != state.len() {
        return false;
    }
    let mut i: usize = 0;
    while i < args.len()
        invariant
            args@.len() == state@.len(),
            i <= args@.len(),
            forall|k: int|
                0 <= k < i ==> match #[trigger] args@[k] {
                    TypeArgument::SetMarker => state@[k],
                    TypeArgument::UnsetMarker => !state@[k],
                    TypeArgument::Parameter(j) => j == k,
                },
        decreases args@.len() - i,
    {
        let ok = match args[i] {
            TypeArgument::SetMarker => state[i],
            TypeArgument::UnsetMarker => !state[i],
            TypeArgument::Parameter(j) => j == i,
        };
        if !ok {
            return false;
        }
        i = i + 1;
    }
    true
}

/// The instantiation that `args` names once its generic parameters are bound
/// to the coordinates of `state`.
pub open spec fn instantiate(args: Seq<TypeArgument>, state: Seq<bool>) -> Seq<bool> {
    Seq::new(
        args.len(),
        |i: int|
            match args[i] {
                TypeArgument::SetMarker => true,
                TypeArgument::UnsetMarker => false,
                TypeArgument::Parameter(j) => state[j as int],
            },
    )
}

/// The type state of a builder with `count` required fields; coordinate `p`
/// belongs to the `p`-th required field in declaration order.
#[derive(Clone, Copy, Debug)]
pub struct TypeState {
    pub count: usize,
}

impl TypeState {
    pub fn new(count: usize) -> (r: TypeState)
        ensures
            r.count == count,
    {
        TypeState { count }
    }

    /// The generic parameters, one per coordinate.
    pub fn parameters(&self) -> (r: Vec<usize>)
        ensures
            r@ == Seq::new(self.count as nat, |i: int| i as usize),
    {
        let mut r: Vec<usize> = Vec::new();
        let mut i: usize = 0;
        while i < self.count
            invariant
                i <= self.count,
                r@ == Seq::new(i as nat, |j: int| j as usize),
            decreases self.count - i,
        {
            r.push(i);
            i = i + 1;
            proof {
                assert(r@ == Seq::new(i as nat, |j: int| j as usize));
            }
        }
        r
    }

    /// The generic parameters of every coordinate but `p`: those of the
    /// `impl` block that holds the transition of the `p`-th field.
    pub fn parameters_without(&self, p: usize) -> (r: Vec<usize>)
        ensures
            forall|j: usize| r@.contains(j) <==> (j < self.count && j != p),
            forall|a: int, b: int| 0 <= a < b < r@.len() ==> r@[a] < r@[b],
    {
        let mut r: Vec<usize> = Vec::new();
        let mut i: usize = 0;
        while i < self.count
            invariant
                i <= self.count,
                forall|j: usize| r@.contains(j) <==> (j < i && j != p),
                forall|a: int| 0 <= a < r@.len() ==> r@[a] < i,
                forall|a: int, b: int| 0 <= a < b < r@.len() ==> r@[a] < r@[b],
            decreases self.count - i,
        {
            let ghost before = r@;
            if i != p {
                r.push(i);
                proof {
                    assert forall|j: usize| r@.contains(j) <==> (j < i + 1 && j != p) by {
                        if j == i {
                            assert(r@[r@.len() - 1] == j);
                        }
                        if r@.contains(j) && j != i {
                            let a = choose|a: int| 0 <= a < r@.len() && r@[a] == j;
                            assert(a < before.len());
                            assert(before.contains(j));
                        }
                        if j < i && j != p {
                            assert(before.contains(j));
                            let a = choose|a: int| 0 <= a < before.len() && before[a] == j;
                            assert(r@[a] == j);
                        }
                    }
                }
            } else {
                proof {
                    assert forall|j: usize| r@.contains(j) <==> (j < i + 1 && j != p) by {
                        if r@.contains(j) {
                            let a = choose|a: int| 0 <= a < r@.len() && r@[a] == j;
                            assert(r@[a] < i);
                        }
                    }
                }
            }
            i = i + 1;
        }
        r
    }

    /// The arguments of the builder type with every coordinate generic.
    pub fn arguments_generic(&self) -> (r: Vec<TypeArgument>)
        ensures
            r@ == generic_arguments(self.count as nat),
    {
        let mut r: Vec<TypeArgument> = Vec::new();
        let mut i: usize = 0;
        while i < self.count
            invariant
                i <= self.count,
                r@ == generic_arguments(i as nat),
            decreases self.count - i,
        {
            r.push(TypeArgument::Parameter(i));
            i = i + 1;
            proof {
                assert(r@ == generic_arguments(i as nat));
            }
        }
        r
    }

    /// The arguments of the builder type with coordinate `p` fixed to `set`
    /// and every other coordinate generic.
    pub fn arguments_set(&self, p: usize, set: bool) -> (r: Vec<TypeArgument>)
        ensures
            r@ == arguments_with(self.count as nat, p as int, set),
    {
        let mut r: Vec<TypeArgument> = Vec::new();
        let mut i: usize = 0;
        while i < self.count
            invariant
                i <= self.count,
                r@ == arguments_with(i as nat, p as int, set),
            decreases self.count - i,
        {
            if i == p {
                if set {
                    r.push(TypeArgument::SetMarker);
                } else {
                    r.push(TypeArgument::UnsetMarker);
                }
            } else {
                r.push(TypeArgument::Parameter(i));
            }
            i = i + 1;
            proof {
                assert(r@ == arguments_with(i as nat, p as int, set));
            }
        }
        r
    }

    /// The arguments of the builder type with every coordinate fixed to
    /// `set`.
    pub fn arguments_all_set(&self, set: bool) -> (r: Vec<TypeArgument>)
        ensures
            r@ == Seq::new(self.count as nat, |i: int| marker(set)),
    {
        let mut r: Vec<TypeArgument> = Vec::new();
        let mut i: usize = 0;
        while i < self.count
            invariant
                i <= self.count,
                r@ == Seq::new(i as nat, |j: int| marker(set)),
            decreases self.count - i,
        {
            if set {
                r.push(TypeArgument::SetMarker);
            } else {
                r.push(TypeArgument::UnsetMarker);
            }
            i = i + 1;
            proof {
                assert(r@ == Seq::new(i as nat, |j: int| marker(set)));
            }
        }
        r
    }
}

} // verus!
