use vstd::prelude::*;

use crate::event::KeyEvent;
use crate::keymap::mode::Mode;

verus! {

/// A keybinding maps a key in a mode to a named action.
#[derive(Debug, Clone)]
pub struct Keybinding {
    pub mode: Mode,
    pub key: KeyEvent,
    pub action: String,
    pub description: String,
}

/// The mode and key a binding is registered under.
pub open spec fn slot(b: Keybinding) -> (Mode, KeyEvent) {
    (b.mode, b.key)
}

/// No slot holds two bindings.
pub open spec fn unique_slots(s: Seq<Keybinding>) -> bool {
    forall|i: int, j: int| 0 <= i < j < s.len() ==> slot(#[trigger] s[i]) != slot(#[trigger] s[j])
}

/// The bindings by slot.
pub open spec fn binding_map(s: Seq<Keybinding>) -> Map<(Mode, KeyEvent), Keybinding> {
    Map::new(
        |k: (Mode, KeyEvent)| exists|i: int| 0 <= i < s.len() && slot(#[trigger] s[i]) == k,
        |k: (Mode, KeyEvent)| s[choose|i: int| 0 <= i < s.len() && slot(#[trigger] s[i]) == k],
    )
}

proof fn lemma_map_at(s: Seq<Keybinding>, i: int)
    requires
        unique_slots(s),
        0 <= i < s.len(),
    ensures
        binding_map(s).dom().contains(slot(s[i])),
        binding_map(s)[slot(s[i])] == s[i],
{
    let k = slot(s[i]);
    let j = choose|j: int| 0 <= j < s.len() && slot(#[trigger] s[j]) == k;
    if j != i {
        if i < j {
            assert(slot(s[i]) != slot(s[j]));
        } else {
            assert(slot(s[j]) != slot(s[i]));
        }
    }
}

proof fn lemma_map_update(s: Seq<Keybinding>, i: int, b: Keybinding)
    requires
        unique_slots(s),
        0 <= i < s.len(),
        slot(s[i]) == slot(b),
    ensures
        unique_slots(s.update(i, b)),
        binding_map(s.update(i, b)) == binding_map(s).insert(slot(b), b),
{
    let d = s.update(i, b);
    assert(unique_slots(d)) by {
        assert forall|a: int, c: int| 0 <= a < c < d.len() implies slot(#[trigger] d[a]) != slot(
            #[trigger] d[c],
        ) by {
            assert(slot(d[a]) == slot(s[a]));
            assert(slot(d[c]) == slot(s[c]));
        }
    }
    assert forall|k: (Mode, KeyEvent)| #[trigger]
        binding_map(d).dom().contains(k) == binding_map(s).insert(slot(b), b).dom().contains(k) by {
        if binding_map(s).dom().contains(k) {
            let j = choose|j: int| 0 <= j < s.len() && slot(#[trigger] s[j]) == k;
            assert(slot(d[j]) == k);
        }
        if binding_map(d).dom().contains(k) {
            let j = choose|j: int| 0 <= j < d.len() && slot(#[trigger] d[j]) == k;
            assert(slot(s[j]) == k);
        }
    }
    assert forall|k: (Mode, KeyEvent)| #[trigger] binding_map(d).dom().contains(k) implies binding_map(
        d,
    )[k] == binding_map(s).insert(slot(b), b)[k] by {
        let j = choose|j: int| 0 <= j < d.len() && slot(#[trigger] d[j]) == k;
        lemma_map_at(d, j);
        if j != i {
            assert(d[j] == s[j]);
            lemma_map_at(s, j);
        }
    }
    assert(binding_map(d) =~= binding_map(s).insert(slot(b), b));
}

proof fn lemma_map_push(s: Seq<Keybinding>, b: Keybinding)
    requires
        unique_slots(s),
        !binding_map(s).dom().contains(slot(b)),
    ensures
        unique_slots(s.push(b)),
        binding_map(s.push(b)) == binding_map(s).insert(slot(b), b),
{
    let d = s.push(b);
    assert forall|k: int| 0 <= k < s.len() implies slot(#[trigger] s[k]) != slot(b) by {
        if slot(s[k]) == slot(b) {
            assert(binding_map(s).dom().contains(slot(b)));
        }
    }
    assert(unique_slots(d)) by {
        assert forall|a: int, c: int| 0 <= a < c < d.len() implies slot(#[trigger] d[a]) != slot(
            #[trigger] d[c],
        ) by {
            assert(d[a] == s[a]);
            if c < s.len() {
                assert(d[c] == s[c]);
            }
        }
    }
    assert forall|k: (Mode, KeyEvent)| #[trigger]
        binding_map(d).dom().contains(k) == binding_map(s).insert(slot(b), b).dom().contains(k) by {
        if binding_map(s).dom().contains(k) {
            let j = choose|j: int| 0 <= j < s.len() && slot(#[trigger] s[j]) == k;
            assert(slot(d[j]) == k);
        }
        if k == slot(b) {
            assert(slot(d[s.len() as int]) == k);
        }
        if binding_map(d).dom().contains(k) {
            let j = choose|j: int| 0 <= j < d.len() && slot(#[trigger] d[j]) == k;
            if j < s.len() {
                assert(slot(s[j]) == k);
            }
        }
    }
    assert forall|k: (Mode, KeyEvent)| #[trigger] binding_map(d).dom().contains(k) implies binding_map(
        d,
    )[k] == binding_map(s).insert(slot(b), b)[k] by {
        let j = choose|j: int| 0 <= j < d.len() && slot(#[trigger] d[j]) == k;
        lemma_map_at(d, j);
        if j < s.len() {
            assert(d[j] == s[j]);
            lemma_map_at(s, j);
        }
    }
    assert(binding_map(d) =~= binding_map(s).insert(slot(b), b));
}

/// Keybinding registry for user customization: at most one binding per mode
/// and key. The bindings are kept in a `Vec` with no slot twice, viewed as a
/// map: std's `HashMap` keyed by a struct with derived `Hash` and `Eq` has no
/// specification Verus can prove lookups from.
#[derive(Debug)]
pub struct KeybindingRegistry {
    bindings: Vec<Keybinding>,
}

impl View for KeybindingRegistry {
    type V = Map<(Mode, KeyEvent), Keybinding>;

    closed spec fn view(&self) -> Map<(Mode, KeyEvent), Keybinding> {
        binding_map(self.bindings@)
    }
}

impl KeybindingRegistry {
    /// No mode and key is bound twice.
    #[verifier::type_invariant]
    spec fn wf(self) -> bool {
        unique_slots(self.bindings@)
    }

    /// An empty registry.
    pub fn new() -> (r: KeybindingRegistry)
        ensures
            r@ == Map::<(Mode, KeyEvent), Keybinding>::empty(),
    {
        let r = KeybindingRegistry { bindings: Vec::new() };
        assert(r@ =~= Map::<(Mode, KeyEvent), Keybinding>::empty());
        r
    }

    fn find(&self, mode: Mode, key: KeyEvent) -> (r: Option<usize>)
        ensures
            match r {
                Some(i) => i < self.bindings@.len() && slot(self.bindings@[i as int]) == (mode, key),
                None => !self@.dom().contains((mode, key)),
            },
    {
        proof {
            use_type_invariant(self);
        }
        let mut i: usize = 0;
        while i < self.bindings.len()
            invariant
                i <= self.bindings@.len(),
                forall|k: int| 0 <= k < i ==> slot(#[trigger] self.bindings@[k]) != (mode, key),
            decreases self.bindings@.len() - i,
        {
            let b = &self.bindings[i];
            if b.mode == mode && b.key == key {
                return Some(i);
            }
            i = i + 1;
        }
        None
    }

    /// Bind a key in a mode, replacing the binding it had.
    pub fn register(&mut self, binding: Keybinding)
        ensures
            final(self)@ == old(self)@.insert((binding.mode, binding.key), binding),
    {
        proof {
            use_type_invariant(&*self);
        }
        let ghost s = self.bindings@;
        let found = self.find(binding.mode, binding.key);
        let mut bindings: Vec<Keybinding> = Vec::new();
        std::mem::swap(&mut bindings, &mut self.bindings);
        match found {
            Some(i) => {
                proof {
                    lemma_map_update(s, i as int, binding);
                }
                bindings.set(i, binding);
            },
            None => {
                proof {
                    lemma_map_push(s, binding);
                }
                bindings.push(binding);
            },
        }
        self.bindings = bindings;
    }

    /// The binding of a key in a mode, if any.
    pub fn get(&self, mode: Mode, key: KeyEvent) -> (r: Option<&Keybinding>)
        ensures
            match r {
                Some(b) => self@.dom().contains((mode, key)) && *b == self@[(mode, key)],
                None => !self@.dom().contains((mode, key)),
            },
    {
        proof {
            use_type_invariant(self);
        }
        match self.find(mode, key) {
            Some(i) => {
                proof {
                    lemma_map_at(self.bindings@, i as int);
                }
                Some(&self.bindings[i])
            },
            None => None,
        }
    }

    /// All bindings of a mode, each once.
    pub fn all_for_mode(&self, mode: Mode) -> (r: Vec<&Keybinding>)
        ensures
            forall|i: int| 0 <= i < r@.len() ==> (#[trigger] r@[i]).mode == mode,
            forall|i: int| 0 <= i < r@.len() ==> self@.dom().contains(slot(*#[trigger] r@[i])) && self@[slot(*r@[i])] == *r@[i],
            forall|k: (Mode, KeyEvent)|
                self@.dom().contains(k) && k.0 == mode ==> exists|i: int| 0 <= i < r@.len() && slot(*#[trigger] r@[i]) == k,
            forall|i: int, j: int| 0 <= i < j < r@.len() ==> slot(*#[trigger] r@[i]) != slot(*#[trigger] r@[j]),
    {
        proof {
            use_type_invariant(self);
        }
        let mut r: Vec<&Keybinding> = Vec::new();
        let mut i: usize = 0;
        while i < self.bindings.len()
            invariant
                unique_slots(self.bindings@),
                i <= self.bindings@.len(),
                forall|t: int| 0 <= t < r@.len() ==> (#[trigger] r@[t]).mode == mode,
                forall|t: int| 0 <= t < r@.len() ==> exists|k: int| 0 <= k < i && *#[trigger] r@[t] == self.bindings@[k],
                forall|k: int| 0 <= k < i && self.bindings@[k].mode == mode ==> exists|t: int| 0 <= t < r@.len() && *#[trigger] r@[t] == self.bindings@[k],
                forall|a: int, c: int| 0 <= a < c < r@.len() ==> slot(*#[trigger] r@[a]) != slot(*#[trigger] r@[c]),
            decreases self.bindings@.len() - i,
        {
            let b = &self.bindings[i];
            let ghost old_r = r@;
            if b.mode == mode {
                proof {
                    assert forall|t: int| 0 <= t < r@.len() implies slot(*#[trigger] r@[t]) != slot(*b) by {
                        let k = choose|k: int| 0 <= k < i && *r@[t] == self.bindings@[k];
                        assert(slot(self.bindings@[k]) != slot(self.bindings@[i as int]));
                    }
                }
                r.push(b);
                proof {
                    assert(*r@[r@.len() - 1] == self.bindings@[i as int]);
                }
            }
            proof {
                assert forall|k: int| 0 <= k < i + 1 && self.bindings@[k].mode == mode implies exists|t: int| 0 <= t < r@.len() && *#[trigger] r@[t] == self.bindings@[k] by {
                    if k < i {
                        let t = choose|t: int| 0 <= t < old_r.len() && *#[trigger] old_r[t] == self.bindings@[k];
                        assert(*r@[t] == *old_r[t]);
                    } else {
                        assert(*r@[r@.len() - 1] == self.bindings@[k]);
                    }
                }
            }
            i = i + 1;
        }
        proof {
            assert forall|t: int| 0 <= t < r@.len() implies self@.dom().contains(slot(*#[trigger] r@[t])) && self@[slot(*r@[t])] == *r@[t] by {
                let k = choose|k: int| 0 <= k < i && *r@[t] == self.bindings@[k];
                lemma_map_at(self.bindings@, k);
            }
            assert forall|key: (Mode, KeyEvent)| self@.dom().contains(key) && key.0 == mode implies exists|t: int| 0 <= t < r@.len() && slot(*#[trigger] r@[t]) == key by {
                let k = choose|k: int| 0 <= k < self.bindings@.len() && slot(#[trigger] self.bindings@[k]) == key;
                let t = choose|t: int| 0 <= t < r@.len() && *#[trigger] r@[t] == self.bindings@[k];
                assert(slot(*r@[t]) == key);
            }
        }
        r
    }
}

impl Default for KeybindingRegistry {
    fn default() -> (r: KeybindingRegistry)
        ensures
            r@ == Map::<(Mode, KeyEvent), Keybinding>::empty(),
    {
        KeybindingRegistry::new()
    }
}

} // verus!
