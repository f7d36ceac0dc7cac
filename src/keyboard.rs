use vstd::prelude::*;

use crate::config::{valid_modifier, KeyBinding, KeyboardConfig, MainConfig};
use crate::keybind::KeybindAction;
use crate::util::{char_to_string, str_eq};

verus! {

/// The shift modifier bit.
pub const SHIFT_MASK: u16 = 0x1;

/// The control modifier bit.
pub const CONTROL_MASK: u16 = 0x4;

/// The first modifier bit (alt).
pub const MOD1_MASK: u16 = 0x8;

/// The fourth modifier bit (super).
pub const MOD4_MASK: u16 = 0x40;

/// The modifier and button bits that a key event's state can carry.
pub const STATE_BITS: u16 = 0x1FFF;

/// The key code of the return key.
pub const RETURN_KEYCODE: u8 = 36;

/// The mask bit of the configured modifier key.
pub open spec fn mod_mask_of(key: Seq<char>) -> u16 {
    if key == "alt"@ {
        MOD1_MASK
    } else if key == "ctrl"@ {
        CONTROL_MASK
    } else {
        MOD4_MASK
    }
}

/// The mask bit of the configured modifier key.
pub fn mod_mask(config: &KeyboardConfig) -> (r: u16)
    requires
        valid_modifier(config.mod_key@),
    ensures
        r == mod_mask_of(config.mod_key@),
{
    let key = config.mod_key.as_str();
    if str_eq(key, "alt") {
        MOD1_MASK
    } else if str_eq(key, "ctrl") {
        CONTROL_MASK
    } else {
        MOD4_MASK
    }
}

/// The mask bit a modifier name stands for in a binding.
pub open spec fn modifier_bit_of(name: Seq<char>) -> Option<u16> {
    if name == "shift"@ {
        Some(SHIFT_MASK)
    } else if name == "control"@ || name == "ctrl"@ {
        Some(CONTROL_MASK)
    } else if name == "alt"@ {
        Some(MOD1_MASK)
    } else if name == "super"@ || name == "meta"@ || name == "windows"@ || name == "win"@ {
        Some(MOD4_MASK)
    } else {
        None
    }
}

/// The mask bit a modifier name stands for in a binding.
pub fn modifier_bit(name: &str) -> (r: Option<u16>)
    ensures
        r == modifier_bit_of(name@),
{
    if str_eq(name, "shift") {
        Some(SHIFT_MASK)
    } else if str_eq(name, "control") || str_eq(name, "ctrl") {
        Some(CONTROL_MASK)
    } else if str_eq(name, "alt") {
        Some(MOD1_MASK)
    } else if str_eq(name, "super") || str_eq(name, "meta") || str_eq(name, "windows") || str_eq(
        name,
        "win",
    ) {
        Some(MOD4_MASK)
    } else {
        None
    }
}

/// The union of the bits that `names` stand for; `None` if one is unknown.
pub open spec fn combined_mask(names: Seq<String>) -> Option<u16>
    decreases names.len(),
{
    if names.len() == 0 {
        Some(0)
    } else {
        match (combined_mask(names.drop_last()), modifier_bit_of(names.last()@)) {
            (Some(a), Some(b)) => Some(a | b),
            _ => None,
        }
    }
}

/// The union of the bits that `names` stand for; `None` if one is unknown.
pub fn modifiers_mask(names: &Vec<String>) -> (r: Option<u16>)
    ensures
        r == combined_mask(names@),
{
    let mut acc: u16 = 0;
    let n = names.len();
    let mut i: usize = 0;
    assert(names@.take(0) =~= Seq::<String>::empty());
    while i < n
        invariant
            n == names@.len(),
            i <= n,
            combined_mask(names@.take(i as int)) == Some(acc),
        decreases n - i,
    {
        assert(names@.take(i + 1).drop_last() =~= names@.take(i as int));
        assert(names@.take(i + 1).last() == names@[i as int]);
        match modifier_bit(names[i].as_str()) {
            Some(b) => {
                acc = acc | b;
            },
            None => {
                proof {
                    lemma_combined_unknown(names@, (i + 1) as int);
                }
                return None;
            },
        }
        i += 1;
    }
    assert(names@.take(n as int) =~= names@);
    Some(acc)
}

proof fn lemma_combined_unknown(names: Seq<String>, k: int)
    requires
        0 < k <= names.len(),
        combined_mask(names.take(k)) is None,
    ensures
        combined_mask(names) is None,
    decreases names.len() - k,
{
    if k < names.len() {
        assert(names.take(k + 1).drop_last() =~= names.take(k));
        lemma_combined_unknown(names, k + 1);
    } else {
        assert(names.take(k) =~= names);
    }
}

/// The mask a binding asks for: its own modifiers, or the global modifier key.
pub open spec fn binding_mask(b: KeyBinding, default_mod: String) -> Option<u16> {
    match b.modifiers {
        Some(ms) => combined_mask(ms@),
        None => combined_mask(seq![default_mod]),
    }
}

/// Whether `b` fires for the key named `key` pressed with `state`: same key,
/// and the same set of modifier and button bits.
pub open spec fn binding_fires(b: KeyBinding, default_mod: String, key: Seq<char>, state: u16) -> bool {
    b.key@ == key && binding_mask(b, default_mod) == Some(state & STATE_BITS)
}

/// The action of the first binding of `bs` that fires.
pub open spec fn first_firing(bs: Seq<KeyBinding>, default_mod: String, key: Seq<char>, state: u16) -> Option<KeybindAction>
    decreases bs.len(),
{
    if bs.len() == 0 {
        None
    } else if binding_fires(bs[0], default_mod, key, state) {
        Some(bs[0].action)
    } else {
        first_firing(bs.drop_first(), default_mod, key, state)
    }
}

/// The name of a key: `return` for the return key, the character itself for
/// a printable ASCII key symbol, `None` otherwise.
pub open spec fn key_name(keysym: u32, keycode: u8) -> Option<Seq<char>> {
    if keycode == RETURN_KEYCODE {
        Some("return"@)
    } else if 0x20 <= keysym <= 0x7E {
        Some(seq![(keysym as u8) as char])
    } else {
        None
    }
}

/// The name of a key, as key bindings write it.
pub fn decode_keysym(keysym: u32, keycode: u8) -> (r: Option<String>)
    ensures
        r is Some == key_name(keysym, keycode) is Some,
        r matches Some(s) ==> key_name(keysym, keycode) == Some(s@),
{
    if keycode == RETURN_KEYCODE {
        Some(String::from_str("return"))
    } else if 0x20 <= keysym && keysym <= 0x7E {
        Some(char_to_string((keysym as u8) as char))
    } else {
        None
    }
}

/// The action of the first binding of `config` that fires for the key named
/// `key` pressed with `state`.
pub fn find_binding(config: &MainConfig, key: &String, state: u16) -> (r: Option<KeybindAction>)
    ensures
        r == first_firing(config.bindings@, config.keyboard.mod_key, key@, state),
{
    let wanted = state & STATE_BITS;
    let n = config.bindings.len();
    let mut i: usize = 0;
    assert(config.bindings@.skip(0) =~= config.bindings@);
    while i < n
        invariant
            n == config.bindings@.len(),
            i <= n,
            wanted == state & STATE_BITS,
            first_firing(config.bindings@, config.keyboard.mod_key, key@, state) == first_firing(
                config.bindings@.skip(i as int),
                config.keyboard.mod_key,
                key@,
                state,
            ),
        decreases n - i,
    {
        let b = &config.bindings[i];
        assert(config.bindings@.skip(i as int)[0] == *b);
        assert(config.bindings@.skip(i as int).drop_first() =~= config.bindings@.skip(i + 1));
        let mask = match &b.modifiers {
            Some(ms) => modifiers_mask(ms),
            None => {
                let default_mods = vec![config.keyboard.mod_key.clone()];
                assert(default_mods@ =~= seq![config.keyboard.mod_key]);
                modifiers_mask(&default_mods)
            },
        };
        if b.key == *key {
            if let Some(m) = mask {
                if m == wanted {
                    return Some(b.action.duplicate());
                }
            }
        }
        i += 1;
    }
    assert(config.bindings@.skip(i as int) =~= Seq::<KeyBinding>::empty());
    None
}

/// The action bound to the key with symbol `keysym` and code `keycode`
/// pressed with `state`; `None` when no symbol was read, the symbol has no
/// name, or no binding fires.
pub fn find_keybind_action_for(config: &MainConfig, keysym: Option<u32>, keycode: u8, state: u16) -> (r:
    Option<KeybindAction>)
    ensures
        r == match keysym {
            None => None,
            Some(sym) => match key_name(sym, keycode) {
                None => None,
                Some(name) => first_firing(config.bindings@, config.keyboard.mod_key, name, state),
            },
        },
{
    match keysym {
        None => None,
        Some(sym) => match decode_keysym(sym, keycode) {
            None => None,
            Some(name) => find_binding(config, &name, state),
        },
    }
}

} // verus!
