//! Hotkey identity: a key symbol, a canonical modifier set, and the trigger
//! phase on which the binding fires.

use vstd::prelude::*;
use crate::modifiers::Modifier;
use crate::modifiers::canon_spec;
use crate::modifiers::canonicalize;
use crate::modifiers::lemma_canonicalize_idempotent;
use crate::modifiers::lemma_canon_no_duplicates;

verus! {

/// Whether a binding fires on key-down or key-up.
#[derive(Clone, Copy, PartialEq, Eq, Hash, Debug, Structural)]
pub enum TriggerOn {
    Press,
    Release,
}

/// A registered shortcut: a native key symbol, the modifiers that must be
/// held, and the phase on which it fires. A value type, never mutated
/// after construction; the registry keys on `key` and `trigger` alone.
#[derive(PartialEq, Eq, Hash, Debug, Clone)]
pub struct HotKey {
    pub key: u64,
    pub modifiers: Vec<Modifier>,
    pub trigger: TriggerOn,
}

impl HotKey {
    /// The modifier list is in canonical form: sorted, deduplicated.
    pub open spec fn is_canonical(self) -> bool {
        self.modifiers@ == canon_spec(self.modifiers@)
    }

    /// Builds a hotkey from a key symbol, an unordered modifier list and a
    /// trigger phase; the modifiers are canonicalized (sorted and
    /// deduplicated).
    pub fn new(key: u32, modifiers: Vec<Modifier>, trigger: TriggerOn) -> (r: HotKey)
        ensures
            r.key == key as u64,
            r.modifiers@ == canon_spec(modifiers@),
            r.trigger == trigger,
            r.is_canonical(),
            r.modifiers@.no_duplicates(),
    {
        let canonical = canonicalize(&modifiers);
        proof {
            lemma_canonicalize_idempotent(modifiers@);
            lemma_canon_no_duplicates(modifiers@);
        }
        HotKey { key: key as u64, modifiers: canonical, trigger }
    }
}

} // verus!
