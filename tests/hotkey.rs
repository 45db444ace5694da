use aicodex::hotkey::{Hotkey, HotkeyManager, ModifierSet};

fn ctrl() -> ModifierSet {
    let mut modifiers = ModifierSet::new();
    modifiers.insert("ctrl".to_string());
    modifiers
}

#[test]
fn test_hotkey_matches() {
    let modifiers = ctrl();

    let hotkey = Hotkey::new("a").with_modifier("ctrl");
    assert!(hotkey.matches("a", &modifiers));
    assert!(!hotkey.matches("b", &modifiers));
    assert!(!hotkey.matches("a", &ModifierSet::new()));
}

#[test]
fn test_register_hotkey() {
    let mut manager = HotkeyManager::new();
    let hotkey = Hotkey::new("a").with_modifier("ctrl");
    assert!(manager.register(hotkey));
    assert_eq!(manager.list_hotkeys().len(), 1);
}

#[test]
fn test_register_duplicate_hotkey() {
    let mut manager = HotkeyManager::new();
    let hotkey1 = Hotkey::new("a").with_modifier("ctrl");
    let hotkey2 = Hotkey::new("a").with_modifier("ctrl");
    manager.register(hotkey1);
    assert!(!manager.register(hotkey2));
    assert_eq!(manager.list_hotkeys().len(), 1);
}

#[test]
fn test_unregister_hotkey() {
    let mut manager = HotkeyManager::new();
    let hotkey = Hotkey::new("a").with_modifier("ctrl");
    manager.register(hotkey);

    let modifiers = ctrl();
    assert!(manager.unregister("a", &modifiers));
    assert_eq!(manager.list_hotkeys().len(), 0);
}

#[test]
fn test_matches_when_disabled() {
    let mut manager = HotkeyManager::new();
    let hotkey = Hotkey::new("a");
    manager.register(hotkey);
    manager.disable();
    assert!(!manager.matches("a", &ModifierSet::new()));
}

#[test]
fn duplicate_with_other_description_is_refused() {
    let mut manager = HotkeyManager::new();
    assert!(manager.register(Hotkey::new("a").with_modifier("ctrl").with_description("copy")));
    assert!(!manager.register(Hotkey::new("a").with_modifier("ctrl").with_description("paste")));
    assert_eq!(manager.list_hotkeys().len(), 1);
    assert_eq!(manager.list_hotkeys()[0].description, "copy");
}

#[test]
fn modifier_order_is_irrelevant() {
    let mut manager = HotkeyManager::new();
    assert!(manager.register(Hotkey::new("s").with_modifier("ctrl").with_modifier("shift")));
    assert!(!manager.register(Hotkey::new("s").with_modifier("shift").with_modifier("ctrl")));
    let mut modifiers = ModifierSet::new();
    modifiers.insert("shift".to_string());
    modifiers.insert("ctrl".to_string());
    assert!(manager.matches("s", &modifiers));
}

#[test]
fn modifiers_match_exactly_not_by_subset() {
    let mut manager = HotkeyManager::new();
    manager.register(Hotkey::new("a").with_modifier("ctrl"));
    let mut more = ctrl();
    more.insert("shift".to_string());
    assert!(!manager.matches("a", &more));
    assert!(!manager.matches("a", &ModifierSet::new()));
    assert!(manager.matches("a", &ctrl()));
}

#[test]
fn register_same_twice_keeps_one() {
    let mut manager = HotkeyManager::new();
    assert!(manager.register(Hotkey::new("a").with_modifier("ctrl")));
    assert!(!manager.register(Hotkey::new("a").with_modifier("ctrl")));
    assert_eq!(manager.list_hotkeys().len(), 1);
}

#[test]
fn disabled_registry_does_not_match() {
    let mut manager = HotkeyManager::new();
    manager.register(Hotkey::new("a").with_modifier("ctrl"));
    manager.disable();
    assert!(!manager.matches("a", &ctrl()));
}

#[test]
fn empty_modifiers_do_not_match_ctrl() {
    let mut manager = HotkeyManager::new();
    manager.register(Hotkey::new("a"));
    assert!(!manager.matches("a", &ctrl()));
}

#[test]
fn reenabling_restores_matching() {
    let mut manager = HotkeyManager::new();
    manager.register(Hotkey::new("a").with_modifier("ctrl"));
    assert!(manager.matches("a", &ctrl()));
    manager.disable();
    assert!(!manager.is_enabled());
    assert!(!manager.matches("a", &ctrl()));
    manager.disable();
    assert!(!manager.is_enabled());
    manager.enable();
    assert!(manager.is_enabled());
    assert!(manager.matches("a", &ctrl()));
    assert_eq!(manager.list_hotkeys().len(), 1);
}

#[test]
fn unregister_then_no_match() {
    let mut manager = HotkeyManager::new();
    manager.register(Hotkey::new("a").with_modifier("ctrl"));
    manager.register(Hotkey::new("a"));
    assert!(manager.unregister("a", &ctrl()));
    assert!(!manager.matches("a", &ctrl()));
    assert!(manager.matches("a", &ModifierSet::new()));
    assert!(!manager.unregister("a", &ctrl()));
}

#[test]
fn unregister_unknown_returns_false() {
    let mut manager = HotkeyManager::default();
    assert!(!manager.unregister("x", &ModifierSet::new()));
    assert_eq!(manager.list_hotkeys().len(), 0);
}

#[test]
fn list_length_counts_successful_calls() {
    let mut manager = HotkeyManager::new();
    let mut ok_registers = 0usize;
    let mut ok_unregisters = 0usize;
    for key in ["a", "b", "a", "c", "b"] {
        if manager.register(Hotkey::new(key).with_modifier("alt")) {
            ok_registers += 1;
        }
    }
    let mut alt = ModifierSet::new();
    alt.insert("alt".to_string());
    for key in ["a", "z", "a"] {
        if manager.unregister(key, &alt) {
            ok_unregisters += 1;
        }
    }
    assert_eq!(ok_registers, 3);
    assert_eq!(ok_unregisters, 1);
    assert_eq!(manager.list_hotkeys().len(), ok_registers - ok_unregisters);
}

#[test]
fn list_keeps_registration_order() {
    let mut manager = HotkeyManager::new();
    manager.register(Hotkey::new("x"));
    manager.register(Hotkey::new("y"));
    manager.register(Hotkey::new("z"));
    manager.unregister("y", &ModifierSet::new());
    let keys: Vec<&str> = manager.list_hotkeys().iter().map(|h| h.key.as_str()).collect();
    assert_eq!(keys, vec!["x", "z"]);
}

#[test]
fn builders_set_fields() {
    let hotkey = Hotkey::new("k").with_modifier("ctrl").with_modifier("ctrl").with_description("run");
    assert_eq!(hotkey.key, "k");
    assert_eq!(hotkey.description, "run");
    assert!(hotkey.modifiers.contains("ctrl"));
    assert!(!hotkey.modifiers.contains("shift"));
    assert!(hotkey.modifiers.same_as(&ctrl()));
}

#[test]
fn modifier_set_insert_reports_novelty() {
    let mut set = ModifierSet::new();
    assert!(set.insert("ctrl".to_string()));
    assert!(!set.insert("ctrl".to_string()));
    assert!(set.same_as(&ctrl()));
    assert!(!set.same_as(&ModifierSet::new()));
}
