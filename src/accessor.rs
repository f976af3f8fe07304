//! The accessor generator: where each field of a category is read from the
//! runtime list of that category's items.
use vstd::prelude::*;
use crate::schema::{Cardinality, Field};

verus! {

/// How an accessor reads its field from the items of its category.
#[derive(PartialEq, Eq, Structural, Clone, Copy, Debug)]
pub enum Access {
    /// The item at this position from the front.
    Front(usize),
    /// The item at this distance from the back (1 is the last item).
    Back(usize),
    /// The items between `before` items at the front and `after` at the back.
    Slice { before: usize, after: usize },
}

pub open spec fn variadic(f: Field) -> bool {
    f.cardinality == Cardinality::Variadic
}


/// How the field at position `i` of the category `fs` is read: a variadic
/// field takes what the fixed fields around it leave, a field after it is
/// counted from the back, any other field from the front.
pub open spec fn access_of(fs: Seq<Field>, i: int) -> Access {
    if variadic(fs[i]) {
        Access::Slice { before: i as usize, after: (fs.len() - i - 1) as usize }
    } else if exists|j: int| 0 <= j < i && variadic(#[trigger] fs[j]) {
        Access::Back((fs.len() - i) as usize)
    } else {
        Access::Front(i as usize)
    }
}

/// The accessor of the field at position `index` of the category `fields`.
pub fn generate_accessor(fields: &Vec<Field>, index: usize) -> (r: Access)
    requires
        index < fields@.len(),
    ensures
        r == access_of(fields@, index as int),
{
    if fields[index].is_variadic() {
        return Access::Slice { before: index, after: fields.len() - index - 1 };
    }
    let mut j: usize = 0;
    while j < index
        invariant
            j <= index < fields@.len(),
            !variadic(fields@[index as int]),
            forall|k: int| 0 <= k < j ==> !variadic(#[trigger] fields@[k]),
        decreases index - j,
    {
        if fields[j].is_variadic() {
            assert(variadic(fields@[j as int]));
            return Access::Back(fields.len() - index);
        }
        j = j + 1;
    }
    Access::Front(index)
}

/// The position of a singular field's item in a list of `total` items, if
/// the list has one there.
pub open spec fn position(access: Access, total: nat) -> Option<int> {
    match access {
        Access::Front(i) => if i < total { Some(i as int) } else { None },
        Access::Back(n) => if 1 <= n <= total { Some(total - n) } else { None },
        Access::Slice { .. } => None,
    }
}

/// The bounds of a variadic field's items in a list of `total` items, if the
/// fixed fields around it fit.
pub open spec fn slice_bounds(before: nat, after: nat, total: nat) -> Option<(int, int)> {
    if before + after <= total {
        Some((before as int, total - after))
    } else {
        None
    }
}

/// The bounds of a variadic field's items among `total` items.
pub fn variadic_bounds(before: usize, after: usize, total: usize) -> (r: Option<(usize, usize)>)
    ensures
        r matches Some((s, e)) ==> slice_bounds(before as nat, after as nat, total as nat) == Some((s as int, e as int)),
        r is None <==> slice_bounds(before as nat, after as nat, total as nat) is None,
{
    if before <= total && after <= total - before {
        Some((before, total - after))
    } else {
        None
    }
}

/// Reads a singular field: the item at its position, or `None` where the
/// list is too short (an absent optional field).
pub fn read_single(items: &Vec<u64>, access: Access) -> (r: Option<u64>)
    requires
        access !is Slice,
    ensures
        r == (match position(access, items@.len()) {
            Some(p) => Some(items@[p]),
            None => None,
        }),
{
    match access {
        Access::Front(i) => {
            if i < items.len() {
                Some(items[i])
            } else {
                None
            }
        },
        Access::Back(n) => {
            if 1 <= n && n <= items.len() {
                Some(items[items.len() - n])
            } else {
                None
            }
        },
        Access::Slice { .. } => None,
    }
}

/// Reads a variadic field: the items between its bounds, or `None` where the
/// fixed fields around it do not fit.
pub fn read_slice(items: &Vec<u64>, before: usize, after: usize) -> (r: Option<Vec<u64>>)
    ensures
        r matches Some(v) ==> slice_bounds(before as nat, after as nat, items@.len()) matches Some((s, e))
            && v@ == items@.subrange(s, e),
        r is None <==> slice_bounds(before as nat, after as nat, items@.len()) is None,
{
    match variadic_bounds(before, after, items.len()) {
        Some((s, e)) => {
            let mut v: Vec<u64> = Vec::new();
            let mut i: usize = s;
            while i < e
                invariant
                    s <= i <= e <= items@.len(),
                    v@ == items@.subrange(s as int, i as int),
                decreases e - i,
            {
                v.push(items[i]);
                i = i + 1;
                proof {
                    assert(v@ =~= items@.subrange(s as int, i as int));
                }
            }
            Some(v)
        },
        None => None,
    }
}

/// One more item in a category's list grows the variadic field's slice by one
/// and moves nothing else: its start and the fields before it keep their
/// positions, and the fields after it keep their distance from the back.
pub proof fn lemma_variadic_growth(before: nat, after: nat, total: nat, front: usize, back: usize)
    requires
        before + after <= total,
        front < before,
        1 <= back <= after,
    ensures
        slice_bounds(before, after, total) matches Some((s, e)) && slice_bounds(before, after, total + 1) matches Some(
            (s2, e2),
        ) && s2 == s && e2 == e + 1,
        position(Access::Front(front), total + 1) == position(Access::Front(front), total),
        position(Access::Back(back), total) matches Some(p) && position(Access::Back(back), total + 1) == Some(p + 1),
        position(Access::Back(back), total + 1) matches Some(p) && total + 1 - p == back,
{
}

/// A category holds at most one variadic field.
pub open spec fn at_most_one_variadic(fs: Seq<Field>) -> bool {
    forall|a: int, b: int|
        0 <= a < fs.len() && 0 <= b < fs.len() && variadic(#[trigger] fs[a]) && variadic(#[trigger] fs[b]) ==> a == b
}

/// In a category whose variadic field stands at `v`, on a list that holds at
/// least one item per fixed field, the fields before `v` are read before the
/// variadic slice, those after it behind the slice, and only `v` reads the
/// slice.
pub proof fn lemma_accessor_layout(fs: Seq<Field>, v: int, i: int, total: nat)
    requires
        at_most_one_variadic(fs),
        0 <= v < fs.len(),
        variadic(fs[v]),
        0 <= i < fs.len(),
        fs.len() <= total + 1,
        fs.len() <= usize::MAX,
    ensures
        i < v ==> access_of(fs, i) == Access::Front(i as usize) && position(access_of(fs, i), total) == Some(i),
        i > v ==> access_of(fs, i) == Access::Back((fs.len() - i) as usize),
        i > v ==> position(access_of(fs, i), total) == Some(total - (fs.len() - i)),
        i > v ==> total - (fs.len() - i) >= total - (fs.len() - v - 1),
        i == v ==> access_of(fs, i) == (Access::Slice { before: v as usize, after: (fs.len() - v - 1) as usize })
            && slice_bounds(v as nat, (fs.len() - v - 1) as nat, total) == Some((v, total - (fs.len() - v - 1))),
{
    if i < v {
        assert(!variadic(fs[i]));
        assert(forall|j: int| 0 <= j < i ==> !variadic(#[trigger] fs[j]));
    }
    if i > v {
        assert(!variadic(fs[i]));
        assert(0 <= v < i && variadic(fs[v]));
    }
}

} // verus!
