use rwm::config::{BorderConfig, GapsConfig, KeyBinding, KeyboardConfig, MainConfig, TagsConfig};
use rwm::keybind::KeybindAction;
use rwm::keyboard::{
    decode_keysym, find_keybind_action_for, mod_mask, modifier_bit, modifiers_mask, CONTROL_MASK,
    MOD1_MASK, MOD4_MASK, SHIFT_MASK,
};

fn config(bindings: Vec<KeyBinding>) -> MainConfig {
    MainConfig {
        tags: TagsConfig::default(),
        keyboard: KeyboardConfig::default(),
        bindings,
        border: BorderConfig::default(),
        gaps: GapsConfig::default(),
    }
}

fn binding(key: &str, mods: Option<Vec<&str>>, action: KeybindAction) -> KeyBinding {
    KeyBinding {
        key: key.to_string(),
        modifiers: mods.map(|m| m.into_iter().map(|s| s.to_string()).collect()),
        action,
    }
}

#[test]
fn modifier_masks() {
    assert_eq!(mod_mask(&KeyboardConfig { mod_key: "alt".to_string() }), MOD1_MASK);
    assert_eq!(mod_mask(&KeyboardConfig { mod_key: "ctrl".to_string() }), CONTROL_MASK);
    for k in ["super", "meta", "windows", "win"] {
        assert_eq!(mod_mask(&KeyboardConfig { mod_key: k.to_string() }), MOD4_MASK);
    }
    assert_eq!(modifier_bit("shift"), Some(SHIFT_MASK));
    assert_eq!(modifier_bit("control"), Some(CONTROL_MASK));
    assert_eq!(modifier_bit("hyper"), None);
    assert_eq!(modifiers_mask(&vec!["shift".to_string(), "super".to_string()]), Some(0x41));
    assert_eq!(modifiers_mask(&vec![]), Some(0));
    assert_eq!(modifiers_mask(&vec!["alt".to_string(), "x".to_string()]), None);
}

#[test]
fn keysym_names() {
    assert_eq!(decode_keysym(0x61, 38), Some("a".to_string()));
    assert_eq!(decode_keysym(0x20, 65), Some(" ".to_string()));
    assert_eq!(decode_keysym(0x7E, 49), Some("~".to_string()));
    assert_eq!(decode_keysym(0xff0d, 36), Some("return".to_string()));
    assert_eq!(decode_keysym(0xffe1, 50), None);
    assert_eq!(decode_keysym(0x7F, 22), None);
}

#[test]
fn binding_fires_on_exact_modifier_set_in_any_order() {
    let c = config(vec![binding("f", Some(vec!["super", "shift"]), KeybindAction::ToggleFullscreen)]);
    assert_eq!(
        find_keybind_action_for(&c, Some(0x66), 41, MOD4_MASK | SHIFT_MASK),
        Some(KeybindAction::ToggleFullscreen)
    );
    // A missing or an extra modifier does not fire it.
    assert_eq!(find_keybind_action_for(&c, Some(0x66), 41, MOD4_MASK), None);
    assert_eq!(find_keybind_action_for(&c, Some(0x66), 41, MOD4_MASK | SHIFT_MASK | 0x2), None);
    // Another key does not fire it.
    assert_eq!(find_keybind_action_for(&c, Some(0x67), 42, MOD4_MASK | SHIFT_MASK), None);
    // No key symbol read.
    assert_eq!(find_keybind_action_for(&c, None, 41, MOD4_MASK | SHIFT_MASK), None);
}

#[test]
fn binding_without_modifiers_uses_the_global_key() {
    let c = config(vec![binding("return", None, KeybindAction::Shell("xterm".to_string()))]);
    assert_eq!(
        find_keybind_action_for(&c, Some(0xff0d), 36, MOD4_MASK),
        Some(KeybindAction::Shell("xterm".to_string()))
    );
    assert_eq!(find_keybind_action_for(&c, Some(0xff0d), 36, MOD1_MASK), None);
}

#[test]
fn first_firing_binding_wins() {
    let c = config(vec![
        binding("q", Some(vec!["alt"]), KeybindAction::Shell("first".to_string())),
        binding("q", Some(vec!["alt"]), KeybindAction::Shell("second".to_string())),
    ]);
    assert_eq!(
        find_keybind_action_for(&c, Some(0x71), 24, MOD1_MASK),
        Some(KeybindAction::Shell("first".to_string()))
    );
}
