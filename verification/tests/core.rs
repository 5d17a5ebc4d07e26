use bindkey::canonicalize;
use bindkey::CallbackStorage;
use bindkey::EventKind;
use bindkey::GrabRequest;
use bindkey::HotKey;
use bindkey::InputEvent;
use bindkey::Modifier;
use bindkey::TriggerOn;
use bindkey::ANY_MODIFIER;
use bindkey::IGNORED_MODIFIER_MASK;

const XK_Q: u32 = 113;

fn expand_of(mods: Vec<Modifier>) -> Vec<u32> {
    bindkey::expand::expand(&mods)
}

#[test]
fn mask_values() {
    assert_eq!(Modifier::Shift.mask(), 1);
    assert_eq!(Modifier::CapsLock.mask(), 2);
    assert_eq!(Modifier::Ctrl.mask(), 4);
    assert_eq!(Modifier::Alt.mask(), 8);
    assert_eq!(Modifier::NumLock.mask(), 16);
    assert_eq!(Modifier::ScrollLock.mask(), 32);
    assert_eq!(Modifier::Window.mask(), 64);
    assert_eq!(Modifier::Mod5.mask(), 128);
}

#[test]
fn masks_are_single_distinct_bits() {
    let all = vec![
        Modifier::Shift,
        Modifier::CapsLock,
        Modifier::Ctrl,
        Modifier::Alt,
        Modifier::NumLock,
        Modifier::ScrollLock,
        Modifier::Window,
        Modifier::Mod5,
    ];
    for (i, a) in all.iter().enumerate() {
        let m = a.mask();
        assert_eq!(m & (m - 1), 0, "one bit per modifier");
        for (j, b) in all.iter().enumerate() {
            if i != j {
                assert_ne!(m, b.mask(), "no two modifiers share a bit");
            }
        }
    }
}

#[test]
fn ignored_mask_is_the_lock_modifiers() {
    let locks = Modifier::CapsLock.mask()
        | Modifier::NumLock.mask()
        | Modifier::ScrollLock.mask()
        | Modifier::Mod5.mask();
    assert_eq!(IGNORED_MODIFIER_MASK, locks);
    assert_eq!(IGNORED_MODIFIER_MASK, 178);
    assert_eq!(ANY_MODIFIER, 32768);
}

#[test]
fn canonicalize_sorts_and_dedups() {
    let got = canonicalize(&vec![
        Modifier::Alt,
        Modifier::Ctrl,
        Modifier::Alt,
        Modifier::Shift,
    ]);
    assert_eq!(got, vec![Modifier::Shift, Modifier::Ctrl, Modifier::Alt]);
}

#[test]
fn canonicalize_empty_is_empty() {
    assert_eq!(canonicalize(&vec![]), Vec::<Modifier>::new());
}

#[test]
fn canonicalize_is_idempotent() {
    let input = vec![
        Modifier::Mod5,
        Modifier::Ctrl,
        Modifier::Ctrl,
        Modifier::CapsLock,
    ];
    let once = canonicalize(&input);
    let twice = canonicalize(&once);
    assert_eq!(twice, once);
}

#[test]
fn canonicalize_is_order_insensitive() {
    let a = canonicalize(&vec![Modifier::Ctrl, Modifier::Alt, Modifier::Window]);
    let b = canonicalize(&vec![Modifier::Window, Modifier::Ctrl, Modifier::Alt]);
    let c = canonicalize(&vec![Modifier::Alt, Modifier::Window, Modifier::Ctrl]);
    assert_eq!(a, b);
    assert_eq!(b, c);
}

#[test]
fn expand_yields_16_distinct_masks() {
    let masks = expand_of(vec![Modifier::Ctrl, Modifier::Alt]);
    assert_eq!(masks.len(), 16);
    for (i, a) in masks.iter().enumerate() {
        for (j, b) in masks.iter().enumerate() {
            if i != j {
                assert_ne!(a, b);
            }
        }
    }
    // expansion only varies the ignored bits
    let base = Modifier::Ctrl.mask() | Modifier::Alt.mask();
    for m in &masks {
        assert_eq!(m & !IGNORED_MODIFIER_MASK, base & !IGNORED_MODIFIER_MASK);
    }
}

#[test]
fn expand_exact_values_for_ctrl() {
    let masks = expand_of(vec![Modifier::Ctrl]);
    let expected: Vec<u32> = vec![
        4, 6, 20, 22, 36, 38, 52, 54, 132, 134, 148, 150, 164, 166, 180, 182,
    ];
    assert_eq!(masks, expected);
}

#[test]
fn expand_empty_set_anchors_at_wildcard() {
    let masks = expand_of(vec![]);
    assert_eq!(masks.len(), 16);
    for m in &masks {
        assert_eq!(m & !IGNORED_MODIFIER_MASK, ANY_MODIFIER);
    }
    assert_eq!(masks[0], ANY_MODIFIER);
    assert_eq!(masks[15], ANY_MODIFIER | IGNORED_MODIFIER_MASK);
}

#[test]
fn expand_of_an_ignored_modifier_repeats_masks() {
    // A required set that itself holds a lock modifier makes variants
    // coincide: the 16 outputs are not pairwise distinct.
    let masks = expand_of(vec![Modifier::CapsLock]);
    assert_eq!(masks.len(), 16);
    assert_eq!(masks[0], 2);
    assert_eq!(masks[1], 2);
}

#[test]
fn hotkey_new_canonicalizes_modifiers() {
    let hk = HotKey::new(
        XK_Q,
        vec![Modifier::Alt, Modifier::Ctrl, Modifier::Alt],
        TriggerOn::Press,
    );
    assert_eq!(hk.key, 113u64);
    assert_eq!(hk.modifiers, vec![Modifier::Ctrl, Modifier::Alt]);
    assert_eq!(hk.trigger, TriggerOn::Press);
}

#[test]
fn hotkeys_from_permuted_modifiers_are_equal() {
    let a = HotKey::new(
        XK_Q,
        vec![Modifier::Ctrl, Modifier::Alt],
        TriggerOn::Press,
    );
    let b = HotKey::new(
        XK_Q,
        vec![Modifier::Alt, Modifier::Ctrl],
        TriggerOn::Press,
    );
    assert_eq!(a, b);
}

#[test]
fn add_grabs_on_first_insert_only() {
    let mut storage: CallbackStorage<u64> = CallbackStorage::new();
    let hk = HotKey::new(XK_Q, vec![Modifier::Ctrl], TriggerOn::Press);
    let first = storage.add(&hk, 1);
    let grab = first.expect("first insert for a key code must grab it");
    assert_eq!(grab.keysym, 113u64);
    assert_eq!(grab.masks, expand_of(vec![Modifier::Ctrl]));
    let second = storage.add(&hk, 2);
    assert!(second.is_none(), "a grabbed key code is not grabbed again");
}

#[test]
fn remove_all_ungrabs_exactly_once_with_the_grab_masks() {
    let mut storage: CallbackStorage<u64> = CallbackStorage::new();
    let hk = HotKey::new(XK_Q, vec![Modifier::Ctrl, Modifier::Alt], TriggerOn::Press);
    let grab = storage.add(&hk, 1).expect("first insert grabs");
    let ungrab = storage
        .remove_all(&hk)
        .expect("removing a present entry ungrabs");
    assert_eq!(ungrab.keysym, grab.keysym);
    assert_eq!(ungrab.masks, grab.masks);
    let event = InputEvent {
        kind: EventKind::KeyPress,
        keysym: 113,
    };
    assert!(storage.dispatch(&event).is_empty(), "nothing fires after remove_all");
    assert!(
        storage.remove_all(&hk).is_none(),
        "a second remove_all finds nothing and must not ungrab again"
    );
}

#[test]
fn dispatch_delivers_all_callbacks_in_registration_order() {
    let mut storage: CallbackStorage<u64> = CallbackStorage::new();
    let hk = HotKey::new(XK_Q, vec![Modifier::Ctrl], TriggerOn::Press);
    let _ = storage.add(&hk, 10);
    let _ = storage.add(&hk, 20);
    let _ = storage.add(&hk, 30);
    let event = InputEvent {
        kind: EventKind::KeyPress,
        keysym: 113,
    };
    assert_eq!(storage.dispatch(&event), vec![10, 20, 30]);
}

#[test]
fn a_failing_callback_does_not_block_the_others_or_the_loop() {
    let mut storage: CallbackStorage<u64> = CallbackStorage::new();
    let hk = HotKey::new(XK_Q, vec![Modifier::Ctrl], TriggerOn::Press);
    let _ = storage.add(&hk, 1);
    let _ = storage.add(&hk, 2);
    let _ = storage.add(&hk, 3);
    let event = InputEvent {
        kind: EventKind::KeyPress,
        keysym: 113,
    };
    // Each scheduled callback runs in isolation; model callback 2 failing.
    let mut outcomes: Vec<(u64, Result<(), ()>)> = Vec::new();
    for id in storage.dispatch(&event) {
        let result = if id == 2 { Err(()) } else { Ok(()) };
        outcomes.push((id, result));
    }
    assert_eq!(
        outcomes,
        vec![(1, Ok(())), (2, Err(())), (3, Ok(()))],
        "the failure of one callback does not skip the ones after it"
    );
    // and the loop keeps processing events afterwards
    assert_eq!(storage.dispatch(&event), vec![1, 2, 3]);
}

#[test]
fn press_and_release_tables_are_independent() {
    let mut storage: CallbackStorage<u64> = CallbackStorage::new();
    let press = HotKey::new(XK_Q, vec![Modifier::Ctrl], TriggerOn::Press);
    let release = HotKey::new(XK_Q, vec![Modifier::Ctrl], TriggerOn::Release);
    let press_grab = storage.add(&press, 1);
    let release_grab = storage.add(&release, 2);
    assert!(press_grab.is_some());
    assert!(
        release_grab.is_some(),
        "the release table grabs independently of the press table"
    );
    let down = InputEvent {
        kind: EventKind::KeyPress,
        keysym: 113,
    };
    let up = InputEvent {
        kind: EventKind::KeyRelease,
        keysym: 113,
    };
    assert_eq!(storage.dispatch(&down), vec![1]);
    assert_eq!(storage.dispatch(&up), vec![2]);
}

#[test]
fn other_event_kinds_fire_nothing() {
    let mut storage: CallbackStorage<u64> = CallbackStorage::new();
    let hk = HotKey::new(XK_Q, vec![], TriggerOn::Press);
    let _ = storage.add(&hk, 1);
    let event = InputEvent {
        kind: EventKind::Other,
        keysym: 113,
    };
    assert!(storage.dispatch(&event).is_empty());
}

#[test]
fn default_storage_is_empty() {
    let storage: CallbackStorage<u64> = CallbackStorage::default();
    let event = InputEvent {
        kind: EventKind::KeyPress,
        keysym: 113,
    };
    assert!(storage.dispatch(&event).is_empty());
}

/// The host delivers a grabbed key's event only for the grabbed masks;
/// a matching event with CapsLock on is delivered, one missing Alt is not.
#[test]
fn scenario_ctrl_alt_q_ignores_capslock() {
    let mut storage: CallbackStorage<u64> = CallbackStorage::new();
    let hk = HotKey::new(XK_Q, vec![Modifier::Ctrl, Modifier::Alt], TriggerOn::Press);
    let grab: GrabRequest = storage.add(&hk, 1).expect("first insert grabs");

    // press of 'q' with Ctrl|Alt|CapsLock held: the host matches a grabbed
    // mask and delivers the event, so the callback fires
    let with_capslock =
        Modifier::Ctrl.mask() | Modifier::Alt.mask() | Modifier::CapsLock.mask();
    assert!(grab.masks.contains(&with_capslock));
    let event = InputEvent {
        kind: EventKind::KeyPress,
        keysym: 113,
    };
    assert_eq!(storage.dispatch(&event), vec![1]);

    // press of 'q' with Ctrl alone: no grabbed mask matches, the host never
    // delivers the event, so nothing fires
    let ctrl_only = Modifier::Ctrl.mask();
    assert!(!grab.masks.contains(&ctrl_only));
}

/// Adding the same hotkey twice shares the entry; one event fires both
/// callbacks in registration order.
#[test]
fn scenario_same_hotkey_twice_fires_both() {
    let mut storage: CallbackStorage<u64> = CallbackStorage::new();
    let hk = HotKey::new(XK_Q, vec![Modifier::Ctrl, Modifier::Alt], TriggerOn::Press);
    assert!(storage.add(&hk, 1).is_some());
    assert!(storage.add(&hk, 2).is_none());
    let event = InputEvent {
        kind: EventKind::KeyPress,
        keysym: 113,
    };
    assert_eq!(storage.dispatch(&event), vec![1, 2]);
}
