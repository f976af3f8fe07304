//! The protocol that a builder definition encodes: which methods exist on
//! which instantiation, and where each call leads.
use vstd::prelude::*;
use crate::builder::{builder_of, state_count, BuilderDefinition};
use crate::schema::{required, OperationSchema};
use crate::type_state::{applies, instantiate, marker};

verus! {

/// The instantiation that `new` returns: every coordinate unset.
pub open spec fn initial(d: BuilderDefinition) -> Seq<bool> {
    Seq::new(state_count(d), |i: int| false)
}

/// Every coordinate of `s` is set.
pub open spec fn complete(s: Seq<bool>) -> bool {
    forall|i: int| 0 <= i < s.len() ==> s[i]
}

/// Whether the setter `m` exists on the instantiation `s`.
pub open spec fn available(d: BuilderDefinition, m: int, s: Seq<bool>) -> bool {
    0 <= m < d.setters@.len() && applies(d.setters@[m].receiver@, s)
}

/// Whether `build` exists on the instantiation `s`.
pub open spec fn buildable(d: BuilderDefinition, s: Seq<bool>) -> bool {
    applies(d.build_fn.receiver@, s)
}

/// The instantiation that calling setter `m` on `s` returns, if it exists there.
pub open spec fn step(d: BuilderDefinition, m: int, s: Seq<bool>) -> Option<Seq<bool>> {
    if available(d, m, s) {
        Some(instantiate(d.setters@[m].returns@, s))
    } else {
        None
    }
}

/// The instantiation after the setter calls `calls`, from `s`; `None` where
/// one of them does not exist on the instantiation it is called on.
pub open spec fn run(d: BuilderDefinition, calls: Seq<int>, s: Seq<bool>) -> Option<Seq<bool>>
    decreases calls.len(),
{
    if calls.len() == 0 {
        Some(s)
    } else {
        match run(d, calls.drop_last(), s) {
            Some(t) => step(d, calls.last(), t),
            None => None,
        }
    }
}

/// Every call names a setter of `d`.
pub open spec fn valid_calls(d: BuilderDefinition, calls: Seq<int>) -> bool {
    forall|i: int| 0 <= i < calls.len() ==> 0 <= #[trigger] calls[i] < d.setters@.len()
}

/// Whether call `c` sets coordinate `p`.
pub open spec fn sets(d: BuilderDefinition, c: int, p: nat) -> bool {
    &&& 0 <= c < d.setters@.len()
    &&& d.setters@[c].coordinate is Some
    &&& d.setters@[c].coordinate->0 as nat == p
}

/// How many of `calls` set coordinate `p`.
pub open spec fn times_set(d: BuilderDefinition, calls: Seq<int>, p: nat) -> nat
    decreases calls.len(),
{
    if calls.len() == 0 {
        0
    } else {
        times_set(d, calls.drop_last(), p) + if sets(d, calls.last(), p) { 1nat } else { 0nat }
    }
}

/// What a setter does on an instantiation of the right length: a required
/// field's setter exists exactly where its coordinate is unset and sets it; an
/// optional or variadic field's setter exists everywhere and changes nothing.
pub proof fn lemma_setter(d: BuilderDefinition, schema: OperationSchema, m: int, s: Seq<bool>)
    requires
        builder_of(d, schema),
        0 <= m < d.setters@.len(),
        s.len() == state_count(d),
    ensures
        d.setters@[m].coordinate matches Some(c) ==> {
            &&& c < s.len()
            &&& available(d, m, s) == !s[c as int]
            &&& available(d, m, s) ==> instantiate(d.setters@[m].returns@, s) == s.update(c as int, true)
        },
        d.setters@[m].coordinate.is_none() ==> available(d, m, s) && instantiate(d.setters@[m].returns@, s) == s,
{
    let fs = crate::schema::builder_fields(schema);
    let setter = d.setters@[m];
    assert(crate::builder::setter_of(setter, fs[m], state_count(d), crate::builder::coordinate_of(fs, m)));
    if required(fs[m]) {
        let c = crate::builder::coordinate_of(fs, m) as int;
        let rec = setter.receiver@;
        if available(d, m, s) {
            assert(rec[c] == marker(false));
            assert(instantiate(setter.returns@, s) == s.update(c, true));
        }
        if !s[c] {
            assert forall|i: int| 0 <= i < rec.len() implies match #[trigger] rec[i] {
                crate::type_state::TypeArgument::SetMarker => s[i],
                crate::type_state::TypeArgument::UnsetMarker => !s[i],
                crate::type_state::TypeArgument::Parameter(j) => j == i,
            } by {}
        }
    } else {
        assert(instantiate(setter.returns@, s) == s);
    }
}

/// `build` exists on exactly one instantiation: the one where every required
/// field is set.
pub proof fn lemma_build_only_when_complete(d: BuilderDefinition, schema: OperationSchema, s: Seq<bool>)
    requires
        builder_of(d, schema),
        s.len() == state_count(d),
    ensures
        buildable(d, s) <==> complete(s),
{
    if complete(s) {
        assert forall|i: int| 0 <= i < s.len() implies match #[trigger] d.build_fn.receiver@[i] {
            crate::type_state::TypeArgument::SetMarker => s[i],
            crate::type_state::TypeArgument::UnsetMarker => !s[i],
            crate::type_state::TypeArgument::Parameter(j) => j == i,
        } by {}
    }
    if buildable(d, s) {
        assert forall|i: int| 0 <= i < s.len() implies s[i] by {
            assert(d.build_fn.receiver@[i] == marker(true));
        }
    }
}

/// Once a required field's setter has been called, the instantiation it
/// returns no longer has that setter, while every other coordinate is kept.
pub proof fn lemma_no_double_set(d: BuilderDefinition, schema: OperationSchema, m: int, s: Seq<bool>)
    requires
        builder_of(d, schema),
        0 <= m < d.setters@.len(),
        d.setters@[m].coordinate is Some,
        s.len() == state_count(d),
        available(d, m, s),
    ensures
        step(d, m, s) matches Some(t) && {
            &&& !available(d, m, t)
            &&& t.len() == s.len()
            &&& forall|i: int| 0 <= i < s.len() && i != d.setters@[m].coordinate->0 ==> t[i] == s[i]
            &&& t[d.setters@[m].coordinate->0 as int]
        },
{
    lemma_setter(d, schema, m, s);
    let t = instantiate(d.setters@[m].returns@, s);
    lemma_setter(d, schema, m, t);
}

/// The setter of an optional or variadic field exists on every instantiation
/// and returns the instantiation it was called on, however often it is called.
pub proof fn lemma_optional_keeps_state(d: BuilderDefinition, schema: OperationSchema, m: int, s: Seq<bool>, n: nat)
    requires
        builder_of(d, schema),
        0 <= m < d.setters@.len(),
        d.setters@[m].coordinate is None,
        s.len() == state_count(d),
    ensures
        run(d, Seq::new(n, |i: int| m), s) == Some(s),
    decreases n,
{
    let calls = Seq::new(n, |i: int| m);
    if n > 0 {
        assert(calls.drop_last() == Seq::new((n - 1) as nat, |i: int| m));
        lemma_optional_keeps_state(d, schema, m, s, (n - 1) as nat);
        lemma_setter(d, schema, m, s);
    }
}

/// What holds after any sequence of calls from the initial instantiation:
/// the calls go through exactly when each names a setter and no coordinate is
/// set twice, and then a coordinate is set exactly when one call set it.
proof fn lemma_run(d: BuilderDefinition, schema: OperationSchema, calls: Seq<int>)
    requires
        builder_of(d, schema),
    ensures
        run(d, calls, initial(d)) is Some <==> (valid_calls(d, calls) && forall|p: nat|
            p < state_count(d) ==> #[trigger] times_set(d, calls, p) <= 1),
        run(d, calls, initial(d)) matches Some(t) ==> t.len() == state_count(d) && forall|p: nat|
            p < state_count(d) ==> (t[p as int] <==> #[trigger] times_set(d, calls, p) == 1),
        forall|p: nat| p >= state_count(d) ==> #[trigger] times_set(d, calls, p) == 0,
    decreases calls.len(),
{
    let k = state_count(d);
    if calls.len() == 0 {
        assert(valid_calls(d, calls));
    } else {
        let prefix = calls.drop_last();
        let m = calls.last();
        lemma_run(d, schema, prefix);
        assert(forall|i: int| 0 <= i < prefix.len() ==> prefix[i] == calls[i]);
        assert(valid_calls(d, calls) <==> valid_calls(d, prefix) && 0 <= m < d.setters@.len());
        if 0 <= m < d.setters@.len() {
            let fs = crate::schema::builder_fields(schema);
            assert(crate::builder::setter_of(d.setters@[m], fs[m], k, crate::builder::coordinate_of(fs, m)));
        }
        match run(d, prefix, initial(d)) {
            Some(t) => {
                if 0 <= m < d.setters@.len() {
                    lemma_setter(d, schema, m, t);
                    match d.setters@[m].coordinate {
                        Some(c) => {
                            assert(times_set(d, calls, c as nat) == times_set(d, prefix, c as nat) + 1);
                            assert forall|p: nat| p != c implies #[trigger] times_set(d, calls, p) == times_set(d, prefix, p) by {}
                        },
                        None => {
                            assert forall|p: nat| #[trigger] times_set(d, calls, p) == times_set(d, prefix, p) by {}
                        },
                    }
                } else {
                    assert(!valid_calls(d, calls));
                }
                assert forall|p: nat| p >= k implies #[trigger] times_set(d, calls, p) == 0 by {
                    assert(times_set(d, prefix, p) == 0);
                }
            },
            None => {
                if 0 <= m < d.setters@.len() {
                    assert forall|p: nat| #[trigger] times_set(d, calls, p) >= times_set(d, prefix, p) by {}
                    if valid_calls(d, prefix) {
                        let p = choose|p: nat| p < k && #[trigger] times_set(d, prefix, p) > 1;
                        assert(times_set(d, calls, p) > 1);
                    }
                }
                assert forall|p: nat| p >= k implies #[trigger] times_set(d, calls, p) == 0 by {
                    assert(times_set(d, prefix, p) == 0);
                }
            },
        }
    }
}

/// From the instantiation that `new` returns, a sequence of setter calls goes
/// through and reaches the instantiation that has `build` exactly when every
/// call names a setter and each required field's setter is called exactly
/// once; calls of optional and variadic setters may be interleaved freely.
pub proof fn lemma_completeness(d: BuilderDefinition, schema: OperationSchema, calls: Seq<int>)
    requires
        builder_of(d, schema),
    ensures
        (run(d, calls, initial(d)) matches Some(t) && buildable(d, t)) <==> (valid_calls(d, calls) && forall|
            p: nat,
        |
            p < state_count(d) ==> #[trigger] times_set(d, calls, p) == 1),
{
    lemma_run(d, schema, calls);
    if let Some(t) = run(d, calls, initial(d)) {
        lemma_build_only_when_complete(d, schema, t);
        if buildable(d, t) {
            assert forall|p: nat| p < state_count(d) implies #[trigger] times_set(d, calls, p) == 1 by {
                assert(t[p as int]);
            }
        }
        if forall|p: nat| p < state_count(d) ==> #[trigger] times_set(d, calls, p) == 1 {
            assert forall|i: int| 0 <= i < t.len() implies t[i] by {
                assert(times_set(d, calls, i as nat) == 1);
            }
        }
    }
}

} // verus!
