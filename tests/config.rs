use rwm::config::{
    enabled_tags, BorderConfig, ConfigColor, ConfigError, GapsConfig, KeyBinding, KeyboardConfig,
    MainConfig, TagsConfig,
};
use rwm::keybind::KeybindAction;

fn labelled_tags() -> TagsConfig {
    let mut t = TagsConfig::default();
    t.enabled_tags = vec![1, 2, 3];
    t.label_1 = Some("one".to_string());
    t.label_2 = Some("two".to_string());
    t.label_3 = Some("three".to_string());
    t
}

fn config_with(tags: TagsConfig, bindings: Vec<KeyBinding>, border: BorderConfig) -> MainConfig {
    MainConfig {
        tags,
        keyboard: KeyboardConfig::default(),
        bindings,
        border,
        gaps: GapsConfig::default(),
    }
}

#[test]
fn default_enabled_tags_are_one_to_nine() {
    assert_eq!(enabled_tags(), vec![1, 2, 3, 4, 5, 6, 7, 8, 9]);
}

#[test]
fn accepted_modifiers() {
    for m in ["super", "alt", "ctrl", "meta", "windows", "win"] {
        assert_eq!(KeyboardConfig::validate_modifier(m), Ok(()));
    }
    assert_eq!(
        KeyboardConfig::validate_modifier("hyper"),
        Err(ConfigError::InvalidModifier("hyper".to_string()))
    );
    assert!(KeyboardConfig::validate_modifier("Super").is_err());
    assert!(KeyboardConfig::validate_modifier("").is_err());
}

#[test]
fn keyboard_default_is_super() {
    let k = KeyboardConfig::default();
    assert_eq!(k.mod_key, "super");
    assert_eq!(k.validate(), Ok(()));
    let bad = KeyboardConfig { mod_key: "shift".to_string() };
    assert_eq!(bad.validate(), Err(ConfigError::InvalidModifier("shift".to_string())));
}

#[test]
fn binding_reports_its_first_invalid_modifier() {
    let b = KeyBinding {
        key: "f".to_string(),
        modifiers: Some(vec!["alt".to_string(), "hyper".to_string(), "nope".to_string()]),
        action: KeybindAction::ToggleFullscreen,
    };
    assert_eq!(b.validate(), Err(ConfigError::InvalidModifier("hyper".to_string())));
    let none = KeyBinding { key: "f".to_string(), modifiers: None, action: KeybindAction::ToggleFullscreen };
    assert_eq!(none.validate(), Ok(()));
}

#[test]
fn tags_validation() {
    assert_eq!(labelled_tags().validate(), Ok(()));

    let mut unlabelled = labelled_tags();
    unlabelled.label_2 = None;
    assert_eq!(unlabelled.validate(), Err(ConfigError::MissingLabel(2)));

    let mut empty = labelled_tags();
    empty.label_3 = Some(String::new());
    assert_eq!(empty.validate(), Err(ConfigError::MissingLabel(3)));

    let mut zero = labelled_tags();
    zero.enabled_tags = vec![1, 0];
    assert_eq!(zero.validate(), Err(ConfigError::TagOutOfRange(0)));

    let mut eleven = labelled_tags();
    eleven.enabled_tags = vec![11];
    assert_eq!(eleven.validate(), Err(ConfigError::TagOutOfRange(11)));

    let mut many = labelled_tags();
    many.enabled_tags = vec![1; 11];
    assert_eq!(many.validate(), Err(ConfigError::TooManyTags(11)));

    // The default names tags without labels.
    assert_eq!(TagsConfig::default().validate(), Err(ConfigError::MissingLabel(1)));
}

#[test]
fn labels_follow_enabled_order() {
    let mut t = labelled_tags();
    t.label_10 = Some("ten".to_string());
    t.enabled_tags = vec![10, 2, 5, 1];
    assert_eq!(t.labels(), vec!["ten".to_string(), "two".to_string(), "one".to_string()]);
    assert_eq!(t.label(10), Some("ten".to_string()));
    assert_eq!(t.label(5), None);
    assert_eq!(t.label(0), None);
    assert_eq!(t.label(11), None);
}

#[test]
fn colour_values() {
    assert_eq!(ConfigColor::Rgb(0x12, 0x34, 0x56).hex_value(), Ok(0x123456));
    assert_eq!(ConfigColor::Hex(0xABCDEF).hex_value(), Ok(0xABCDEF));
    assert_eq!(ConfigColor::default().hex_value(), Ok(0xFFFFFF));
    assert_eq!(ConfigColor::HexString("#ff8800".to_string()).hex_value(), Ok(0xFF8800));
    assert_eq!(ConfigColor::HexString("FF8800".to_string()).hex_value(), Ok(0xFF8800));
    assert_eq!(ConfigColor::HexString("##a".to_string()).hex_value(), Ok(0xA));
    assert_eq!(ConfigColor::HexString("+1f".to_string()).hex_value(), Ok(0x1F));
    assert_eq!(ConfigColor::HexString("#FFFFFFFF".to_string()).hex_value(), Ok(u32::MAX));
}

#[test]
fn bad_colour_strings() {
    for s in ["", "#", "#12g", "#100000000", "+", "-1", " 12", "12 "] {
        assert_eq!(
            ConfigColor::HexString(s.to_string()).hex_value(),
            Err(ConfigError::InvalidHexColor(s.to_string())),
            "{s}"
        );
    }
}

#[test]
fn border_colours_matter_only_when_enabled() {
    let bad = ConfigColor::HexString("zz".to_string());
    let off = BorderConfig { enabled: false, selected_color: bad.clone(), inactive_color: bad.clone(), width: 2 };
    assert_eq!(off.validate(), Ok(()));
    let sel = BorderConfig { enabled: true, selected_color: bad.clone(), inactive_color: bad.clone(), width: 2 };
    assert_eq!(sel.validate(), Err(ConfigError::InvalidSelectedColor));
    let ina = BorderConfig { enabled: true, selected_color: ConfigColor::Hex(1), inactive_color: bad, width: 2 };
    assert_eq!(ina.validate(), Err(ConfigError::InvalidInactiveColor));
}

#[test]
fn main_config_checks_sections_in_order() {
    let good = config_with(labelled_tags(), vec![], BorderConfig::default());
    assert_eq!(good.validate(), Ok(()));

    let mut bad_tags = labelled_tags();
    bad_tags.label_1 = None;
    let bad_border = BorderConfig {
        enabled: true,
        selected_color: ConfigColor::HexString("x".to_string()),
        inactive_color: ConfigColor::Hex(0),
        width: 1,
    };
    let c = config_with(bad_tags, vec![], bad_border.clone());
    assert_eq!(c.validate(), Err(ConfigError::MissingLabel(1)));

    let bindings = vec![
        KeyBinding { key: "a".to_string(), modifiers: Some(vec!["ctrl".to_string()]), action: KeybindAction::ToggleFullscreen },
        KeyBinding { key: "b".to_string(), modifiers: Some(vec!["bogus".to_string()]), action: KeybindAction::ToggleFullscreen },
    ];
    let c = config_with(labelled_tags(), bindings, bad_border.clone());
    assert_eq!(c.validate(), Err(ConfigError::InvalidModifier("bogus".to_string())));

    let c = config_with(labelled_tags(), vec![], bad_border);
    assert_eq!(c.validate(), Err(ConfigError::InvalidSelectedColor));

    let mut c = config_with(labelled_tags(), vec![], BorderConfig::default());
    c.keyboard.mod_key = "hyper".to_string();
    assert_eq!(c.validate(), Err(ConfigError::InvalidModifier("hyper".to_string())));
}
