use capture_sidecar::keybind::{
    current_modifiers_match, is_push_keybind_active, map_key_code_to_virtual_key,
    parse_push_keybind, resolve_push_keybinds, ModifierState, PushKeybindKind, PushKeybindWatcherState,
    WindowsPushKeybind,
};

#[test]
fn maps_key_names() {
    assert_eq!(map_key_code_to_virtual_key("KeyA"), Some(0x41));
    assert_eq!(map_key_code_to_virtual_key("Keyz"), Some(0x5A));
    assert_eq!(map_key_code_to_virtual_key("Key1"), None);
    assert_eq!(map_key_code_to_virtual_key("Digit7"), Some(0x37));
    assert_eq!(map_key_code_to_virtual_key("F1"), Some(0x70));
    assert_eq!(map_key_code_to_virtual_key("F24"), Some(0x87));
    assert_eq!(map_key_code_to_virtual_key("F25"), None);
    assert_eq!(map_key_code_to_virtual_key("F0"), None);
    assert_eq!(map_key_code_to_virtual_key("F+05"), Some(0x74));
    assert_eq!(map_key_code_to_virtual_key("Numpad3"), Some(0x63));
    assert_eq!(map_key_code_to_virtual_key("NumpadEnter"), Some(0x0D));
    assert_eq!(map_key_code_to_virtual_key("Space"), Some(0x20));
    assert_eq!(map_key_code_to_virtual_key("Backquote"), Some(0xC0));
    assert_eq!(map_key_code_to_virtual_key("Unknown"), None);
    assert_eq!(map_key_code_to_virtual_key(""), None);
}

#[test]
fn parses_keybind_strings() {
    assert_eq!(parse_push_keybind(None), Ok(None));
    assert_eq!(parse_push_keybind(Some("   ")), Ok(None));
    assert_eq!(parse_push_keybind(Some(" + + ")), Ok(None));
    assert_eq!(
        parse_push_keybind(Some("Ctrl + Shift+KeyM")),
        Ok(Some(WindowsPushKeybind { key_code: 0x4D, ctrl: true, alt: false, shift: true, meta: false }))
    );
    assert_eq!(
        parse_push_keybind(Some("Command+Alt+F5")),
        Ok(Some(WindowsPushKeybind { key_code: 0x74, ctrl: false, alt: true, shift: false, meta: true }))
    );
    assert_eq!(
        parse_push_keybind(Some("KeyA+KeyB")),
        Err("Invalid keybind format.".to_string())
    );
    assert_eq!(
        parse_push_keybind(Some("Ctrl+Alt")),
        Err("Missing key code in keybind.".to_string())
    );
    assert_eq!(
        parse_push_keybind(Some("Ctrl+Pause")),
        Err("Unsupported key for global keybind monitoring.".to_string())
    );
    assert_eq!(
        parse_push_keybind(Some("\u{3000}Space\t")),
        Ok(Some(WindowsPushKeybind { key_code: 0x20, ctrl: false, alt: false, shift: false, meta: false }))
    );
}

#[test]
fn keybind_activity_needs_exact_modifiers() {
    let keybind = WindowsPushKeybind { key_code: 0x4D, ctrl: true, alt: false, shift: false, meta: false };
    let ctrl = ModifierState { ctrl: true, alt: false, shift: false, meta: false };
    let ctrl_shift = ModifierState { ctrl: true, alt: false, shift: true, meta: false };
    assert!(current_modifiers_match(&keybind, &ctrl));
    assert!(!current_modifiers_match(&keybind, &ctrl_shift));
    assert!(is_push_keybind_active(&keybind, true, &ctrl));
    assert!(!is_push_keybind_active(&keybind, false, &ctrl));
    assert!(!is_push_keybind_active(&keybind, true, &ctrl_shift));
}

#[test]
fn watcher_reports_changes_and_release() {
    let mut watcher = PushKeybindWatcherState::new();
    assert!(watcher.observe(false, false).is_empty());
    assert_eq!(watcher.observe(true, false), vec![(PushKeybindKind::Talk, true)]);
    assert!(watcher.observe(true, false).is_empty());
    assert_eq!(watcher.observe(true, true), vec![(PushKeybindKind::Mute, true)]);
    assert_eq!(
        watcher.release(),
        vec![(PushKeybindKind::Talk, false), (PushKeybindKind::Mute, false)]
    );
    assert!(watcher.release().is_empty());
    assert_eq!(PushKeybindKind::Talk.as_str(), "talk");
    assert_eq!(PushKeybindKind::Mute.as_str(), "mute");
}

#[test]
fn keybind_setup_reports_problems() {
    let setup = resolve_push_keybinds(Some("Ctrl+KeyT"), Some("Ctrl+KeyT"));
    assert!(setup.talk.is_some());
    assert!(setup.mute.is_none());
    assert_eq!(setup.errors, vec!["Push-to-mute keybind matches push-to-talk and was ignored.".to_string()]);
    let setup = resolve_push_keybinds(Some("KeyA+KeyB"), Some("Alt"));
    assert!(setup.talk.is_none() && setup.mute.is_none());
    assert_eq!(
        setup.errors,
        vec![
            "Push-to-talk keybind is invalid: Invalid keybind format.".to_string(),
            "Push-to-mute keybind is invalid: Missing key code in keybind.".to_string(),
        ]
    );
    let setup = resolve_push_keybinds(None, Some("Shift+F9"));
    assert!(setup.talk.is_none());
    assert_eq!(setup.mute.map(|k| k.key_code), Some(0x78));
    assert!(setup.errors.is_empty());
}
