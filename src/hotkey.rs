//! Hotkey bindings and the registry that matches key presses against them.
use vstd::prelude::*;

verus! {

/// A set of modifier names (`ctrl`, `shift`, ...); order is irrelevant and
/// each name is held once.
#[derive(Debug, Clone)]
pub struct ModifierSet {
    names: Vec<String>,
}

impl View for ModifierSet {
    type V = Set<Seq<char>>;

    closed spec fn view(&self) -> Set<Seq<char>> {
        Set::new(|m: Seq<char>| exists|i: int| 0 <= i < self.names@.len() && #[trigger] self.names@[i]@ == m)
    }
}

impl ModifierSet {
    /// The empty set.
    pub fn new() -> (r: Self)
        ensures
            r@ == Set::<Seq<char>>::empty(),
    {
        let r = ModifierSet { names: Vec::new() };
        assert(r@ =~= Set::<Seq<char>>::empty());
        r
    }

    /// Whether `name` is in the set.
    pub fn contains(&self, name: &str) -> (r: bool)
        ensures
            r == self@.contains(name@),
    {
        self.contains_string(&name.to_owned())
    }

    /// Adds `name`; returns whether it was not there before.
    pub fn insert(&mut self, name: String) -> (r: bool)
        ensures
            r == !old(self)@.contains(name@),
            final(self)@ == old(self)@.insert(name@),
    {
        if self.contains_string(&name) {
            assert(self@ =~= old(self)@.insert(name@));
            false
        } else {
            let ghost n = name@;
            self.names.push(name);
            assert forall|m: Seq<char>| #[trigger] self@.contains(m) == old(self)@.insert(n).contains(m) by {
                if m == n {
                    assert(self.names@[self.names@.len() - 1]@ == m);
                }
                if old(self)@.contains(m) {
                    let i = choose|i: int| 0 <= i < old(self).names@.len() && #[trigger] old(self).names@[i]@ == m;
                    assert(self.names@[i]@ == m);
                }
            }
            assert(self@ =~= old(self)@.insert(n));
            true
        }
    }

    /// Whether every name of `self` is in `other`.
    fn is_subset_of(&self, other: &ModifierSet) -> (r: bool)
        ensures
            r == self@.subset_of(other@),
    {
        let mut i: usize = 0;
        while i < self.names.len()
            invariant
                i <= self.names@.len(),
                forall|j: int| 0 <= j < i ==> other@.contains(#[trigger] self.names@[j]@),
            decreases self.names@.len() - i,
        {
            if !other.contains_string(&self.names[i]) {
                assert(self@.contains(self.names@[i as int]@));
                return false;
            }
            i += 1;
        }
        true
    }

    /// Whether both sets hold the same names.
    pub fn same_as(&self, other: &ModifierSet) -> (r: bool)
        ensures
            r == (self@ == other@),
    {
        let r = self.is_subset_of(other) && other.is_subset_of(self);
        if r {
            assert(self@ =~= other@);
        }
        r
    }

    fn contains_string(&self, name: &String) -> (r: bool)
        ensures
            r == self@.contains(name@),
    {
        let mut i: usize = 0;
        while i < self.names.len()
            invariant
                i <= self.names@.len(),
                forall|j: int| 0 <= j < i ==> self.names@[j]@ != name@,
            decreases self.names@.len() - i,
        {
            if self.names[i] == *name {
                return true;
            }
            i += 1;
        }
        false
    }
}

/// What a hotkey stands for: its key, its modifier set and its description.
pub struct Binding {
    pub key: Seq<char>,
    pub modifiers: Set<Seq<char>>,
    pub description: Seq<char>,
}

impl Binding {
    /// Whether this binding is for exactly `key` held with exactly `modifiers`.
    pub open spec fn binds(self, key: Seq<char>, modifiers: Set<Seq<char>>) -> bool {
        self.key == key && self.modifiers == modifiers
    }
}

/// The contents of a registry: its bindings in order of registration, and
/// whether matching is enabled.
pub struct RegistryState {
    pub bindings: Seq<Binding>,
    pub enabled: bool,
}

impl RegistryState {
    /// Whether some binding is for exactly `key` with exactly `modifiers`.
    pub open spec fn has(self, key: Seq<char>, modifiers: Set<Seq<char>>) -> bool {
        exists|i: int| 0 <= i < self.bindings.len() && #[trigger] self.bindings[i].binds(key, modifiers)
    }

    /// No two bindings share a key and a modifier set.
    pub open spec fn unique(self) -> bool {
        forall|i: int, j: int|
            0 <= i < self.bindings.len() && 0 <= j < self.bindings.len() && i != j
                ==> !(#[trigger] self.bindings[i]).binds((#[trigger] self.bindings[j]).key, self.bindings[j].modifiers)
    }

    /// Whether a key press of `key` with `modifiers` triggers a binding.
    pub open spec fn matches(self, key: Seq<char>, modifiers: Set<Seq<char>>) -> bool {
        self.enabled && self.has(key, modifiers)
    }

    /// The state after registering `b`: unchanged where its key and
    /// modifiers are taken, else with `b` appended.
    pub open spec fn registered(self, b: Binding) -> RegistryState {
        if self.has(b.key, b.modifiers) {
            self
        } else {
            RegistryState { bindings: self.bindings.push(b), ..self }
        }
    }

    /// `p` is the first position of a binding for `key` with `modifiers`.
    pub open spec fn is_first_match(self, key: Seq<char>, modifiers: Set<Seq<char>>, p: int) -> bool {
        &&& 0 <= p < self.bindings.len()
        &&& self.bindings[p].binds(key, modifiers)
        &&& forall|j: int| 0 <= j < p ==> !(#[trigger] self.bindings[j]).binds(key, modifiers)
    }

    /// The state after unregistering `key` with `modifiers`: the first
    /// binding for them removed, if there is one.
    pub open spec fn unregistered(self, key: Seq<char>, modifiers: Set<Seq<char>>) -> RegistryState {
        if self.has(key, modifiers) {
            let p = choose|p: int| self.is_first_match(key, modifiers, p);
            RegistryState { bindings: self.bindings.remove(p), ..self }
        } else {
            self
        }
    }

    /// The state with the enabled flag set to `enabled`.
    pub open spec fn with_enabled(self, enabled: bool) -> RegistryState {
        RegistryState { enabled, ..self }
    }
}

/// There is at most one first position of a binding for a key and modifiers.
pub proof fn lemma_first_match_unique(s: RegistryState, key: Seq<char>, modifiers: Set<Seq<char>>, p: int, q: int)
    requires
        s.is_first_match(key, modifiers, p),
        s.is_first_match(key, modifiers, q),
    ensures
        p == q,
{
    if p < q {
        assert(s.bindings[p].binds(key, modifiers));
    } else if q < p {
        assert(s.bindings[q].binds(key, modifiers));
    }
}

/// Where some binding is for a key and modifiers, a first one is.
pub proof fn lemma_first_match_exists(s: RegistryState, key: Seq<char>, modifiers: Set<Seq<char>>, i: int)
    requires
        0 <= i < s.bindings.len(),
        s.bindings[i].binds(key, modifiers),
    ensures
        exists|p: int| s.is_first_match(key, modifiers, p),
    decreases i,
{
    if exists|j: int| 0 <= j < i && #[trigger] s.bindings[j].binds(key, modifiers) {
        let j = choose|j: int| 0 <= j < i && #[trigger] s.bindings[j].binds(key, modifiers);
        lemma_first_match_exists(s, key, modifiers, j);
    } else {
        assert(s.is_first_match(key, modifiers, i));
    }
}

/// Removing a binding keeps the bindings pairwise distinct.
proof fn lemma_remove_keeps_unique(s: RegistryState, p: int)
    requires
        s.unique(),
        0 <= p < s.bindings.len(),
    ensures
        (RegistryState { bindings: s.bindings.remove(p), ..s }).unique(),
{
    let t = RegistryState { bindings: s.bindings.remove(p), ..s };
    assert forall|a: int, b: int|
        0 <= a < t.bindings.len() && 0 <= b < t.bindings.len() && a != b
        implies !(#[trigger] t.bindings[a]).binds((#[trigger] t.bindings[b]).key, t.bindings[b].modifiers) by {
        let a0 = if a < p { a } else { a + 1 };
        let b0 = if b < p { b } else { b + 1 };
        assert(t.bindings[a] == s.bindings[a0]);
        assert(t.bindings[b] == s.bindings[b0]);
        assert(!s.bindings[a0].binds(s.bindings[b0].key, s.bindings[b0].modifiers));
    }
}

/// A hotkey binding.
#[derive(Debug, Clone)]
pub struct Hotkey {
    pub key: String,
    pub modifiers: ModifierSet,
    pub description: String,
}

impl View for Hotkey {
    type V = Binding;

    open spec fn view(&self) -> Binding {
        Binding { key: self.key@, modifiers: self.modifiers@, description: self.description@ }
    }
}

impl Hotkey {
    /// A hotkey for `key` with no modifiers and an empty description.
    pub fn new(key: &str) -> (r: Self)
        ensures
            r@ == (Binding { key: key@, modifiers: Set::empty(), description: Seq::empty() }),
    {
        Self { key: key.to_owned(), modifiers: ModifierSet::new(), description: String::new() }
    }

    /// This hotkey with `modifier` added to its modifiers.
    pub fn with_modifier(self, modifier: &str) -> (r: Self)
        ensures
            r@ == (Binding { modifiers: self@.modifiers.insert(modifier@), ..self@ }),
    {
        let mut r = self;
        r.modifiers.insert(modifier.to_owned());
        r
    }

    /// This hotkey with `description` as its description.
    pub fn with_description(self, description: &str) -> (r: Self)
        ensures
            r@ == (Binding { description: description@, ..self@ }),
    {
        let mut r = self;
        r.description = description.to_owned();
        r
    }

    /// Whether this hotkey is for exactly `key` with exactly `modifiers`.
    pub fn matches(&self, key: &str, modifiers: &ModifierSet) -> (r: bool)
        ensures
            r == self@.binds(key@, modifiers@),
    {
        self.key == key.to_owned() && self.modifiers.same_as(modifiers)
    }
}

/// A registry of hotkey bindings, at most one for each key and modifier
/// set, with a switch that turns matching off.
pub struct HotkeyManager {
    hotkeys: Vec<Hotkey>,
    enabled: bool,
}

impl View for HotkeyManager {
    type V = RegistryState;

    closed spec fn view(&self) -> RegistryState {
        RegistryState { bindings: self.hotkeys@.map_values(|h: Hotkey| h@), enabled: self.enabled }
    }
}

impl HotkeyManager {
    /// No two bindings share a key and a modifier set.
    pub open spec fn wf(&self) -> bool {
        self@.unique()
    }

    /// An empty, enabled registry.
    pub fn new() -> (r: Self)
        ensures
            r.wf(),
            r@.bindings.len() == 0,
            r@.enabled,
    {
        let r = Self { hotkeys: Vec::new(), enabled: true };
        assert(r@.bindings =~= Seq::<Binding>::empty());
        r
    }

    /// Whether matching is enabled.
    pub fn is_enabled(&self) -> (r: bool)
        ensures
            r == self@.enabled,
    {
        self.enabled
    }

    /// Turns matching on.
    pub fn enable(&mut self)
        requires
            old(self).wf(),
        ensures
            final(self).wf(),
            final(self)@ == old(self)@.with_enabled(true),
    {
        self.enabled = true;
        assert(self@.bindings == old(self)@.bindings);
    }

    /// Turns matching off; the bindings stay.
    pub fn disable(&mut self)
        requires
            old(self).wf(),
        ensures
            final(self).wf(),
            final(self)@ == old(self)@.with_enabled(false),
    {
        self.enabled = false;
        assert(self@.bindings == old(self)@.bindings);
    }

    /// Registers `hotkey` unless a binding for its key and modifiers is
    /// there already; returns whether it was added.
    pub fn register(&mut self, hotkey: Hotkey) -> (r: bool)
        requires
            old(self).wf(),
        ensures
            final(self).wf(),
            r == !old(self)@.has(hotkey@.key, hotkey@.modifiers),
            final(self)@ == old(self)@.registered(hotkey@),
    {
        let mut i: usize = 0;
        while i < self.hotkeys.len()
            invariant
                i <= self.hotkeys@.len(),
                old(self).wf(),
                self@ == old(self)@,
                forall|j: int| 0 <= j < i ==> !(#[trigger] self@.bindings[j]).binds(hotkey@.key, hotkey@.modifiers),
            decreases self.hotkeys@.len() - i,
        {
            if self.hotkeys[i].matches(hotkey.key.as_str(), &hotkey.modifiers) {
                assert(self@.bindings[i as int].binds(hotkey@.key, hotkey@.modifiers));
                return false;
            }
            i += 1;
        }
        let ghost h = hotkey@;
        self.hotkeys.push(hotkey);
        assert(self@.bindings =~= old(self)@.bindings.push(h));
        assert(self@.unique()) by {
            let n = self@.bindings.len() - 1;
            assert forall|a: int, b: int|
                0 <= a < self@.bindings.len() && 0 <= b < self@.bindings.len() && a != b
                implies !(#[trigger] self@.bindings[a]).binds((#[trigger] self@.bindings[b]).key, self@.bindings[b].modifiers) by {
                if a == n {
                    assert(!old(self)@.bindings[b].binds(h.key, h.modifiers));
                } else if b == n {
                    assert(!old(self)@.bindings[a].binds(h.key, h.modifiers));
                } else {
                    assert(old(self)@.bindings[a] == self@.bindings[a]);
                    assert(old(self)@.bindings[b] == self@.bindings[b]);
                }
            }
        }
        true
    }

    /// Removes the binding for exactly `key` with exactly `modifiers`;
    /// returns whether there was one.
    pub fn unregister(&mut self, key: &str, modifiers: &ModifierSet) -> (r: bool)
        requires
            old(self).wf(),
        ensures
            final(self).wf(),
            r == old(self)@.has(key@, modifiers@),
            final(self)@ == old(self)@.unregistered(key@, modifiers@),
    {
        let mut i: usize = 0;
        while i < self.hotkeys.len()
            invariant
                i <= self.hotkeys@.len(),
                old(self).wf(),
                self@ == old(self)@,
                forall|j: int| 0 <= j < i ==> !(#[trigger] self@.bindings[j]).binds(key@, modifiers@),
            decreases self.hotkeys@.len() - i,
        {
            if self.hotkeys[i].matches(key, modifiers) {
                let ghost s = self@;
                proof {
                    assert(s.is_first_match(key@, modifiers@, i as int));
                    let p = choose|p: int| s.is_first_match(key@, modifiers@, p);
                    lemma_first_match_unique(s, key@, modifiers@, p, i as int);
                    lemma_remove_keeps_unique(s, i as int);
                }
                self.hotkeys.remove(i);
                assert(self@.bindings =~= s.bindings.remove(i as int));
                return true;
            }
            i += 1;
        }
        false
    }

    /// Whether `key` with `modifiers` triggers a binding: never while
    /// disabled, else where a binding is for exactly them.
    pub fn matches(&self, key: &str, modifiers: &ModifierSet) -> (r: bool)
        ensures
            r == self@.matches(key@, modifiers@),
    {
        if !self.enabled {
            return false;
        }
        let mut i: usize = 0;
        while i < self.hotkeys.len()
            invariant
                i <= self.hotkeys@.len(),
                self.enabled,
                forall|j: int| 0 <= j < i ==> !(#[trigger] self@.bindings[j]).binds(key@, modifiers@),
            decreases self.hotkeys@.len() - i,
        {
            if self.hotkeys[i].matches(key, modifiers) {
                assert(self@.bindings[i as int].binds(key@, modifiers@));
                return true;
            }
            i += 1;
        }
        false
    }

    /// The bindings, in order of registration.
    pub fn list_hotkeys(&self) -> (r: &[Hotkey])
        ensures
            r@.map_values(|h: Hotkey| h@) == self@.bindings,
    {
        self.hotkeys.as_slice()
    }
}

impl Default for HotkeyManager {
    fn default() -> (r: Self)
        ensures
            r.wf(),
            r@.bindings.len() == 0,
            r@.enabled,
    {
        Self::new()
    }
}

} // verus!
