//! The callback registry: two independent tables, one per trigger phase,
//! each mapping a key code to the ordered list of callbacks registered for
//! it. First-insert and last-remove per key code are tied to a grab or
//! ungrab request that the caller performs against the host before handling
//! further events, so that a key code is grabbed exactly while its callback
//! list is non-empty.

use vstd::prelude::*;
use std::collections::HashMap;
use crate::expand::expand;
use crate::expand::expand_spec;
use crate::hotkey::HotKey;
use crate::hotkey::TriggerOn;

verus! {

broadcast use vstd::std_specs::hash::group_hash_axioms;

/// A grab or ungrab the caller owes the host: resolve `keysym` to a native
/// key code and grab (or ungrab) it once per mask in `masks`.
pub struct GrabRequest {
    pub keysym: u64,
    pub masks: Vec<u32>,
}

impl GrabRequest {
    /// The request carries the hotkey's own key symbol and the expansion
    /// of the hotkey's modifier set.
    pub open spec fn is_for(self, key: HotKey) -> bool {
        self.keysym == key.key && self.masks@ == expand_spec(key.modifiers@)
    }
}

/// How a native event is classified for dispatch.
#[derive(Clone, Copy, PartialEq, Eq, Debug, Structural)]
pub enum EventKind {
    KeyPress,
    KeyRelease,
    Other,
}

/// A decoded native input event: its classification and the key symbol it
/// resolves to. Events of kind `Other` are ignored by dispatch.
#[derive(Clone, Copy, PartialEq, Eq, Debug, Structural)]
pub struct InputEvent {
    pub kind: EventKind,
    pub keysym: u64,
}

/// The model of one phase table: key code to the ordered callback list.
pub open spec fn phase_table<C>(m: Map<u64, Vec<C>>) -> Map<u64, Seq<C>> {
    Map::new(|k: u64| m.contains_key(k), |k: u64| m[k]@)
}

/// The callbacks a phase table holds for a key code; empty when the key
/// code has no entry.
pub open spec fn phase_callbacks<C>(m: Map<u64, Vec<C>>, keysym: u64) -> Seq<C> {
    if m.contains_key(keysym) {
        m[keysym]@
    } else {
        Seq::empty()
    }
}

/// Every entry a phase table holds is non-empty: entries are created on
/// first insert and removed whole, never left empty.
pub open spec fn phase_wf<C>(m: Map<u64, Vec<C>>) -> bool {
    forall|k: u64| #[trigger] m.contains_key(k) ==> m[k]@.len() > 0
}

/// The registry: one table per trigger phase. Callbacks are opaque values
/// of type `C`, shared with whatever executes them; the registry never
/// invokes one.
#[derive(Debug)]
pub struct CallbackStorage<C> {
    pressed_storage: HashMap<u64, Vec<C>>,
    released_storage: HashMap<u64, Vec<C>>,
}

impl<C> CallbackStorage<C> {
    /// The table for one trigger phase, as a map from key code to the
    /// ordered callback list.
    pub closed spec fn table(self, t: TriggerOn) -> Map<u64, Seq<C>> {
        match t {
            TriggerOn::Press => phase_table(self.pressed_storage@),
            TriggerOn::Release => phase_table(self.released_storage@),
        }
    }

    /// The callbacks registered for a key code in a phase, in registration
    /// order; empty when none are.
    pub open spec fn callbacks(self, t: TriggerOn, keysym: u64) -> Seq<C> {
        if self.table(t).contains_key(keysym) {
            self.table(t)[keysym]
        } else {
            Seq::empty()
        }
    }

    /// A key code is grabbed for a phase exactly while the phase table has
    /// an entry for it: `add` requests the grab when it creates the entry
    /// and `remove_all` requests the ungrab when it removes it.
    pub open spec fn is_grabbed(self, t: TriggerOn, keysym: u64) -> bool {
        self.table(t).contains_key(keysym)
    }

    /// Every entry of either table is non-empty.
    pub open spec fn wf(self) -> bool {
        forall|t: TriggerOn, k: u64| #[trigger] self.table(t).contains_key(k) ==> self.table(
            t,
        )[k].len() > 0
    }

    /// What dispatching an event delivers: the callback list registered
    /// for the event's key symbol in the matching phase, in registration
    /// order; nothing for other event kinds.
    pub open spec fn spec_dispatch(self, event: InputEvent) -> Seq<C> {
        match event.kind {
            EventKind::KeyPress => self.callbacks(TriggerOn::Press, event.keysym),
            EventKind::KeyRelease => self.callbacks(TriggerOn::Release, event.keysym),
            EventKind::Other => Seq::empty(),
        }
    }

    /// An empty registry: both tables empty, nothing grabbed.
    pub fn new() -> (r: Self)
        ensures
            r.wf(),
            r.table(TriggerOn::Press) == Map::<u64, Seq<C>>::empty(),
            r.table(TriggerOn::Release) == Map::<u64, Seq<C>>::empty(),
    {
        let r = CallbackStorage {
            pressed_storage: HashMap::new(),
            released_storage: HashMap::new(),
        };
        proof {
            assert(r.table(TriggerOn::Press) =~= Map::<u64, Seq<C>>::empty());
            assert(r.table(TriggerOn::Release) =~= Map::<u64, Seq<C>>::empty());
        }
        r
    }
}

impl<C> CallbackStorage<C> {
    proof fn lemma_wf_unfold(self)
        requires
            self.wf(),
        ensures
            phase_wf(self.pressed_storage@),
            phase_wf(self.released_storage@),
    {
        assert forall|k: u64| #[trigger] self.pressed_storage@.contains_key(k) implies
            self.pressed_storage@[k]@.len() > 0 by {
            assert(self.table(TriggerOn::Press).contains_key(k));
            assert(self.table(TriggerOn::Press)[k] == self.pressed_storage@[k]@);
        }
        assert forall|k: u64| #[trigger] self.released_storage@.contains_key(k) implies
            self.released_storage@[k]@.len() > 0 by {
            assert(self.table(TriggerOn::Release).contains_key(k));
            assert(self.table(TriggerOn::Release)[k] == self.released_storage@[k]@);
        }
    }

    proof fn lemma_wf_fold(self)
        requires
            phase_wf(self.pressed_storage@),
            phase_wf(self.released_storage@),
        ensures
            self.wf(),
    {
        assert forall|t: TriggerOn, k: u64| #[trigger] self.table(t).contains_key(k) implies
            self.table(t)[k].len() > 0 by {
            match t {
                TriggerOn::Press => {
                    assert(self.pressed_storage@.contains_key(k));
                },
                TriggerOn::Release => {
                    assert(self.released_storage@.contains_key(k));
                },
            }
        }
    }
}

fn add_to<C>(m: &mut HashMap<u64, Vec<C>>, key: &HotKey, callback: C) -> (grab: Option<
    GrabRequest,
>)
    requires
        phase_wf(old(m)@),
    ensures
        phase_wf(final(m)@),
        phase_table(final(m)@) == phase_table(old(m)@).insert(
            key.key,
            phase_callbacks(old(m)@, key.key).push(callback),
        ),
        match grab {
            Some(g) => !old(m)@.contains_key(key.key) && g.is_for(*key),
            None => old(m)@.contains_key(key.key),
        },
{
    let existing = m.remove(&key.key);
    match existing {
        Some(mut list) => {
            list.push(callback);
            m.insert(key.key, list);
            proof {
                assert(phase_table(m@) =~= phase_table(old(m)@).insert(
                    key.key,
                    phase_callbacks(old(m)@, key.key).push(callback),
                ));
            }
            None
        },
        None => {
            let masks = expand(&key.modifiers);
            let mut list: Vec<C> = Vec::new();
            list.push(callback);
            m.insert(key.key, list);
            proof {
                assert(phase_table(m@) =~= phase_table(old(m)@).insert(
                    key.key,
                    phase_callbacks(old(m)@, key.key).push(callback),
                ));
            }
            Some(GrabRequest { keysym: key.key, masks })
        },
    }
}

fn remove_from<C>(m: &mut HashMap<u64, Vec<C>>, key: &HotKey) -> (ungrab: Option<GrabRequest>)
    requires
        phase_wf(old(m)@),
    ensures
        phase_wf(final(m)@),
        phase_table(final(m)@) == phase_table(old(m)@).remove(key.key),
        match ungrab {
            Some(g) => old(m)@.contains_key(key.key) && g.is_for(*key),
            None => !old(m)@.contains_key(key.key),
        },
{
    let existing = m.remove(&key.key);
    proof {
        assert(phase_table(m@) =~= phase_table(old(m)@).remove(key.key));
    }
    match existing {
        Some(_) => {
            let masks = expand(&key.modifiers);
            Some(GrabRequest { keysym: key.key, masks })
        },
        None => None,
    }
}

impl<C> CallbackStorage<C> {
    /// Appends `callback` to the list for `key`'s key code in the table
    /// for `key.trigger`. When the key code had no entry there, the entry
    /// is created and the grab request for `expand(key.modifiers)` is
    /// returned; the caller performs it against the host before handling
    /// further events, so a late event cannot be dropped.
    pub fn add(&mut self, key: &HotKey, callback: C) -> (grab: Option<GrabRequest>)
        requires
            old(self).wf(),
        ensures
            final(self).wf(),
            final(self).table(key.trigger) == old(self).table(key.trigger).insert(
                key.key,
                old(self).callbacks(key.trigger, key.key).push(callback),
            ),
            forall|t: TriggerOn|
                t != key.trigger ==> #[trigger] final(self).table(t) == old(self).table(t),
            match grab {
                Some(g) => !old(self).is_grabbed(key.trigger, key.key) && g.is_for(*key),
                None => old(self).is_grabbed(key.trigger, key.key),
            },
    {
        proof {
            self.lemma_wf_unfold();
        }
        let grab = match key.trigger {
            TriggerOn::Press => add_to(&mut self.pressed_storage, key, callback),
            TriggerOn::Release => add_to(&mut self.released_storage, key, callback),
        };
        proof {
            self.lemma_wf_fold();
        }
        grab
    }

    /// Removes the whole callback list for `key`'s key code from the table
    /// for `key.trigger`. When an entry was there, the ungrab request for
    /// `expand(key.modifiers)` is returned — computed from the modifiers
    /// of the hotkey passed here, so the caller must pass a hotkey equal
    /// to the one it registered, or the ungrab masks will not match the
    /// grab masks.
    pub fn remove_all(&mut self, key: &HotKey) -> (ungrab: Option<GrabRequest>)
        requires
            old(self).wf(),
        ensures
            final(self).wf(),
            final(self).table(key.trigger) == old(self).table(key.trigger).remove(key.key),
            forall|t: TriggerOn|
                t != key.trigger ==> #[trigger] final(self).table(t) == old(self).table(t),
            match ungrab {
                Some(g) => old(self).is_grabbed(key.trigger, key.key) && g.is_for(*key),
                None => !old(self).is_grabbed(key.trigger, key.key),
            },
    {
        proof {
            self.lemma_wf_unfold();
        }
        let ungrab = match key.trigger {
            TriggerOn::Press => remove_from(&mut self.pressed_storage, key),
            TriggerOn::Release => remove_from(&mut self.released_storage, key),
        };
        proof {
            self.lemma_wf_fold();
        }
        ungrab
    }
}

fn snapshot<C: Copy>(v: &Vec<C>) -> (r: Vec<C>)
    ensures
        r@ == v@,
{
    let mut r: Vec<C> = Vec::new();
    let mut i: usize = 0;
    while i < v.len()
        invariant
            i <= v@.len(),
            r@ == v@.take(i as int),
        decreases v@.len() - i,
    {
        r.push(v[i]);
        proof {
            assert(r@ =~= v@.take(i as int + 1));
        }
        i += 1;
    }
    proof {
        assert(v@.take(v@.len() as int) =~= v@);
    }
    r
}

impl<C: Copy> CallbackStorage<C> {
    fn trigger_press(&self, keysym: u64) -> (r: Vec<C>)
        ensures
            r@ == self.callbacks(TriggerOn::Press, keysym),
    {
        match self.pressed_storage.get(&keysym) {
            Some(list) => snapshot(list),
            None => Vec::new(),
        }
    }

    fn trigger_release(&self, keysym: u64) -> (r: Vec<C>)
        ensures
            r@ == self.callbacks(TriggerOn::Release, keysym),
    {
        match self.released_storage.get(&keysym) {
            Some(list) => snapshot(list),
            None => Vec::new(),
        }
    }

    /// Classifies the event and takes a snapshot of the callback list
    /// registered for its key symbol in the matching phase, in
    /// registration order. The caller schedules every returned callback
    /// for independent execution; the registry itself invokes none of
    /// them, so one callback's failure cannot affect another's delivery.
    pub fn dispatch(&self, event: &InputEvent) -> (scheduled: Vec<C>)
        ensures
            scheduled@ == self.spec_dispatch(*event),
    {
        match event.kind {
            EventKind::KeyPress => self.trigger_press(event.keysym),
            EventKind::KeyRelease => self.trigger_release(event.keysym),
            EventKind::Other => Vec::new(),
        }
    }
}

impl<C> Default for CallbackStorage<C> {
    /// Same as `new`: an empty registry.
    fn default() -> (r: Self)
        ensures
            r.wf(),
            r.table(TriggerOn::Press) == Map::<u64, Seq<C>>::empty(),
            r.table(TriggerOn::Release) == Map::<u64, Seq<C>>::empty(),
    {
        Self::new()
    }
}

/// Law: after any sequence of `add` and `remove_all` calls (each of which
/// preserves `wf`), a key code is grabbed for a phase if and only if its
/// callback list for that phase is non-empty.
pub proof fn lemma_grab_state_matches_occupancy<C>(s: CallbackStorage<C>, t: TriggerOn, keysym: u64)
    requires
        s.wf(),
    ensures
        s.is_grabbed(t, keysym) <==> s.callbacks(t, keysym).len() > 0,
{
}

/// Law: a press event for a key code delivers every callback registered
/// for it in the press table — as many as are registered, each at its
/// registration position, none skipped; a release event does the same
/// against the release table.
pub proof fn lemma_dispatch_delivers_in_order<C>(s: CallbackStorage<C>, event: InputEvent)
    requires
        event.kind == EventKind::KeyPress || event.kind == EventKind::KeyRelease,
    ensures
        s.spec_dispatch(event).len() == s.callbacks(
            if event.kind == EventKind::KeyPress {
                TriggerOn::Press
            } else {
                TriggerOn::Release
            },
            event.keysym,
        ).len(),
        forall|j: int|
            0 <= j < s.spec_dispatch(event).len() ==> s.spec_dispatch(event)[j] == s.callbacks(
                if event.kind == EventKind::KeyPress {
                    TriggerOn::Press
                } else {
                    TriggerOn::Release
                },
                event.keysym,
            )[j],
{
}

} // verus!
