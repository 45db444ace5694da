//! Properties of the hotkey registry that relate several operations.
use vstd::prelude::*;
use crate::hotkey::{Binding, RegistryState, lemma_first_match_exists};

verus! {

/// One change to a registry.
pub enum Operation {
    Register(Binding),
    Unregister(Seq<char>, Set<Seq<char>>),
    SetEnabled(bool),
}

/// The state after `op`.
pub open spec fn apply(s: RegistryState, op: Operation) -> RegistryState {
    match op {
        Operation::Register(b) => s.registered(b),
        Operation::Unregister(key, modifiers) => s.unregistered(key, modifiers),
        Operation::SetEnabled(e) => s.with_enabled(e),
    }
}

/// The state after `ops`, applied in order.
pub open spec fn run(s: RegistryState, ops: Seq<Operation>) -> RegistryState
    decreases ops.len(),
{
    if ops.len() == 0 {
        s
    } else {
        apply(run(s, ops.drop_last()), ops.last())
    }
}

/// How many of `ops` are registrations that succeed.
pub open spec fn registrations_ok(s: RegistryState, ops: Seq<Operation>) -> nat
    decreases ops.len(),
{
    if ops.len() == 0 {
        0
    } else {
        let t = run(s, ops.drop_last());
        registrations_ok(s, ops.drop_last()) + match ops.last() {
            Operation::Register(b) => if t.has(b.key, b.modifiers) { 0nat } else { 1nat },
            _ => 0nat,
        }
    }
}

/// How many of `ops` are unregistrations that succeed.
pub open spec fn unregistrations_ok(s: RegistryState, ops: Seq<Operation>) -> nat
    decreases ops.len(),
{
    if ops.len() == 0 {
        0
    } else {
        let t = run(s, ops.drop_last());
        unregistrations_ok(s, ops.drop_last()) + match ops.last() {
            Operation::Unregister(key, modifiers) => if t.has(key, modifiers) { 1nat } else { 0nat },
            _ => 0nat,
        }
    }
}

/// Registering two bindings for the same key and modifier set one after the
/// other: the second registration is refused and changes nothing, so an
/// empty registry ends with exactly one binding.
pub proof fn law_duplicate_registration_refused(s: RegistryState, b1: Binding, b2: Binding)
    requires
        b1.key == b2.key,
        b1.modifiers == b2.modifiers,
    ensures
        s.registered(b1).has(b2.key, b2.modifiers),
        s.registered(b1).registered(b2) == s.registered(b1),
        s.bindings.len() == 0 ==> s.registered(b1).registered(b2).bindings.len() == 1,
{
    let t = s.registered(b1);
    if !s.has(b1.key, b1.modifiers) {
        assert(t.bindings[s.bindings.len() as int] == b1);
        assert(t.bindings[s.bindings.len() as int].binds(b2.key, b2.modifiers));
    }
}

/// Unregistering the key and modifiers of a registered binding succeeds,
/// and afterwards that key and modifier set no longer match.
pub proof fn law_unregister_removes_match(s: RegistryState, key: Seq<char>, modifiers: Set<Seq<char>>)
    requires
        s.unique(),
        s.has(key, modifiers),
    ensures
        !s.unregistered(key, modifiers).has(key, modifiers),
        !s.unregistered(key, modifiers).matches(key, modifiers),
{
    let i = choose|i: int| 0 <= i < s.bindings.len() && #[trigger] s.bindings[i].binds(key, modifiers);
    lemma_first_match_exists(s, key, modifiers, i);
    let p = choose|p: int| s.is_first_match(key, modifiers, p);
    let t = s.unregistered(key, modifiers);
    assert(t.bindings == s.bindings.remove(p));
    if t.has(key, modifiers) {
        let a = choose|a: int| 0 <= a < t.bindings.len() && #[trigger] t.bindings[a].binds(key, modifiers);
        let a0 = if a < p { a } else { a + 1 };
        assert(t.bindings[a] == s.bindings[a0]);
        assert(s.bindings[a0].binds(s.bindings[p].key, s.bindings[p].modifiers));
    }
}

/// While disabled nothing matches; enabling again restores the matches of
/// the bindings, which disabling kept.
pub proof fn law_disable_gates_matching(s: RegistryState, key: Seq<char>, modifiers: Set<Seq<char>>)
    ensures
        !s.with_enabled(false).matches(key, modifiers),
        s.with_enabled(false).with_enabled(true).bindings == s.bindings,
        s.with_enabled(false).with_enabled(true).matches(key, modifiers) == s.has(key, modifiers),
        s.enabled ==> s.with_enabled(false).with_enabled(true).matches(key, modifiers) == s.matches(key, modifiers),
{
}

/// One operation changes the number of bindings by one where it is a
/// successful registration (up) or unregistration (down), else not at all.
pub proof fn lemma_apply_len(s: RegistryState, op: Operation)
    ensures
        apply(s, op).bindings.len() == s.bindings.len() + match op {
            Operation::Register(b) => if s.has(b.key, b.modifiers) { 0int } else { 1int },
            Operation::Unregister(key, modifiers) => if s.has(key, modifiers) { -1int } else { 0int },
            Operation::SetEnabled(_) => 0int,
        },
{
    if let Operation::Unregister(key, modifiers) = op {
        if s.has(key, modifiers) {
            let i = choose|i: int| 0 <= i < s.bindings.len() && #[trigger] s.bindings[i].binds(key, modifiers);
            lemma_first_match_exists(s, key, modifiers, i);
        }
    }
}

/// After any sequence of operations, the number of bindings is the number
/// at the start plus the successful registrations minus the successful
/// unregistrations.
pub proof fn law_length_counts_successes(s: RegistryState, ops: Seq<Operation>)
    ensures
        run(s, ops).bindings.len() == s.bindings.len() + registrations_ok(s, ops) - unregistrations_ok(s, ops),
    decreases ops.len(),
{
    if ops.len() > 0 {
        law_length_counts_successes(s, ops.drop_last());
        lemma_apply_len(run(s, ops.drop_last()), ops.last());
    }
}

} // verus!
