use garterm::config::colors::parse_hex_color;
use garterm::config::{Action, ColorPalette, ColorsConfig, Keybind, KeybindConfig, KeybindSet, Modifiers};
use garterm::config::colors::rgb_to_u32;
use garterm::config::Color;

#[test]
fn test_parse_hex_color() {
    assert_eq!(parse_hex_color("#1a1b26"), Some((0x1a, 0x1b, 0x26)));
    assert_eq!(parse_hex_color("1a1b26"), Some((0x1a, 0x1b, 0x26)));
    assert_eq!(parse_hex_color("#ffffff"), Some((255, 255, 255)));
    assert_eq!(parse_hex_color("invalid"), None);
}

#[test]
fn test_preset_lookup() {
    assert!(ColorPalette::from_preset("tokyo-night").is_some());
    assert!(ColorPalette::from_preset("TokyoNight").is_some());
    assert!(ColorPalette::from_preset("catppuccin").is_some());
    assert!(ColorPalette::from_preset("nonexistent").is_none());
}

#[test]
fn test_parse_key_combo() {
    let (mods, key) = Keybind::parse_key_combo("ctrl+shift+t").unwrap();
    assert!(mods.ctrl);
    assert!(mods.shift);
    assert!(!mods.alt);
    assert_eq!(key, "t");

    let (mods, key) = Keybind::parse_key_combo("alt+Return").unwrap();
    assert!(mods.alt);
    assert!(!mods.ctrl);
    assert_eq!(key, "Return");
}

#[test]
fn test_action_parse() {
    assert_eq!(Action::from_str_loose("copy"), Some(Action::Copy));
    assert_eq!(Action::from_str_loose("new_tab"), Some(Action::NewTab));
    assert_eq!(Action::from_str_loose("NewTab"), Some(Action::NewTab));
    assert_eq!(Action::from_str_loose("zoom_in"), Some(Action::IncreaseFontSize));
}

#[test]
fn test_keybind_set_lookup() {
    let set = KeybindSet::defaults();
    let action = set.get(&Modifiers::ctrl_shift(), "c");
    assert_eq!(action, Some(&Action::Copy));
}

#[test]
fn test_color_preset_resolve() {
    let colors = ColorsConfig {
        preset: Some("gruvbox".into()),
        ..Default::default()
    };
    let palette = colors.resolve();
    // Gruvbox background is #282828
    assert_eq!(palette.background.to_u32(), 0x282828);
}

#[test]
fn unknown_preset_keeps_given_palette() {
    let colors = ColorsConfig { preset: Some("no-such-theme".into()), palette: ColorPalette::nord() };
    let palette = colors.resolve();
    assert_eq!(palette.background.to_u32(), ColorPalette::nord().background.to_u32());
    let colors = ColorsConfig { preset: None, palette: ColorPalette::dracula() };
    assert_eq!(colors.resolve().foreground.to_u32(), ColorPalette::dracula().foreground.to_u32());
}

#[test]
fn rgb_packs_into_u32() {
    assert_eq!(rgb_to_u32(0x12, 0x34, 0x56), 0x123456);
    assert_eq!(Color::rgb(1, 2, 3).to_u32(), 0x010203);
    assert_eq!(Color::hex("#0a0b0c").to_rgb(), (10, 11, 12));
    // A malformed hex color falls back to black.
    assert_eq!(Color::hex("#12").to_rgb(), (0, 0, 0));
}

#[test]
fn hex_color_edge_cases() {
    assert_eq!(parse_hex_color("#ABCDEF"), Some((0xab, 0xcd, 0xef)));
    assert_eq!(parse_hex_color("#abcde"), None);
    assert_eq!(parse_hex_color("#abcdefa"), None);
    assert_eq!(parse_hex_color("#gg0000"), None);
    assert_eq!(parse_hex_color(""), None);
}

#[test]
fn preset_names_resolve() {
    for name in ColorPalette::preset_names() {
        assert!(ColorPalette::from_preset(name).is_some(), "{}", name);
    }
    assert!(ColorPalette::from_preset("Solarized_Dark").is_some());
    assert!(ColorPalette::from_preset("one_dark").is_some());
}

#[test]
fn keybind_added_then_found_in_any_case() {
    let mut set = KeybindSet::new();
    let replaced = set.add(Keybind::new(Modifiers::ctrl(), "K", Action::Copy));
    assert!(replaced.is_none());
    assert_eq!(set.get(&Modifiers::ctrl(), "k"), Some(&Action::Copy));
    assert_eq!(set.get(&Modifiers::ctrl(), "K"), Some(&Action::Copy));
    assert_eq!(set.get(&Modifiers::alt(), "k"), None);
    // Rebinding the same combo replaces the old binding and returns it.
    let replaced = set.add(Keybind::new(Modifiers::ctrl(), "k", Action::Paste));
    assert_eq!(replaced.map(|b| b.action), Some(Action::Copy));
    assert_eq!(set.get(&Modifiers::ctrl(), "K"), Some(&Action::Paste));
    assert_eq!(set.iter().len(), 1);
}

#[test]
fn keybind_config_warnings() {
    let config = KeybindConfig {
        bindings: vec![
            ("ctrl+shift".to_string(), "copy".to_string()),
            ("ctrl+x".to_string(), "frobnicate".to_string()),
            ("alt+z".to_string(), "new_tab".to_string()),
        ],
    };
    let (set, warnings) = config.to_keybind_set();
    assert_eq!(
        warnings,
        vec![
            "Invalid key combo: ctrl+shift".to_string(),
            "Unknown action 'frobnicate' for key 'ctrl+x'".to_string(),
        ]
    );
    assert_eq!(set.get(&Modifiers::alt(), "z"), Some(&Action::NewTab));
    assert_eq!(set.get(&Modifiers::ctrl(), "x"), None);
    // The defaults are still there.
    assert_eq!(set.get(&Modifiers::ctrl_shift(), "v"), Some(&Action::Paste));
}

#[test]
fn modifiers_label() {
    assert_eq!(Modifiers::ctrl_shift().to_string(), "ctrl+shift");
    assert_eq!(Modifiers::none().to_string(), "");
    let all = Modifiers { ctrl: true, alt: true, shift: true, super_key: true };
    assert_eq!(all.to_string(), "ctrl+alt+shift+super");
}

#[test]
fn key_combo_aliases_and_last_key() {
    let (mods, key) = Keybind::parse_key_combo("Control+Meta+Win+a").unwrap();
    assert!(mods.ctrl && mods.alt && mods.super_key && !mods.shift);
    assert_eq!(key, "a");
    let (_, key) = Keybind::parse_key_combo("a+b").unwrap();
    assert_eq!(key, "b");
    assert!(Keybind::parse_key_combo("ctrl+alt").is_none());
}

#[test]
fn action_names() {
    assert_eq!(Action::from_str_loose("Split-Horizontal"), Some(Action::SplitHorizontal));
    assert_eq!(Action::from_str_loose("no_such_action"), None);
}

use garterm::config::runtime::{LuaKeybind, LuaState, Session, TerminalCommand};

#[test]
fn lua_state_queues_commands_with_ids() {
    let mut state: LuaState<u32> = LuaState::new();
    assert_eq!(state.request_new_tab(None, Some("htop".into()), None), 1);
    assert_eq!(state.request_new_tab(None, None, None), 2);
    assert_eq!(state.request_split("h".into(), None, None), 1);
    state.request(TerminalCommand::NextTab);
    let cmds = state.take_pending_commands();
    assert_eq!(cmds.len(), 4);
    assert!(matches!(&cmds[0], TerminalCommand::NewTab { cmd: Some(c), .. } if c == "htop"));
    assert!(matches!(&cmds[3], TerminalCommand::NextTab));
    assert!(state.take_pending_commands().is_empty());
}

#[test]
fn lua_state_callbacks_and_sessions() {
    let mut state: LuaState<&'static str> = LuaState::new();
    assert!(!state.has_callbacks());
    assert_eq!(state.register_callback("first"), 0);
    assert_eq!(state.register_callback("second"), 1);
    assert_eq!(state.callback(1), Some(&"second"));
    assert_eq!(state.callback(2), None);
    state.insert_session(Session { name: "a".into(), tabs: vec![] });
    state.insert_session(Session { name: "b".into(), tabs: vec![] });
    state.insert_session(Session { name: "a".into(), tabs: vec![] });
    assert_eq!(state.sessions.len(), 2);
    assert_eq!(state.sessions[0].name, "b");
    assert!(state.get_session("a").is_some());
    assert!(state.get_session("c").is_none());
}

#[test]
fn lua_keybinds_merge() {
    let mut state: LuaState<u8> = LuaState::new();
    state.add_keybind("ctrl+alt+n".into(), LuaKeybind::Action("new_tab".into()));
    state.add_keybind("ctrl+alt+q".into(), LuaKeybind::Callback(0));
    state.add_keybind("ctrl+alt+w".into(), LuaKeybind::SessionLoad("work".into()));
    state.add_keybind("ctrl+alt+z".into(), LuaKeybind::Action("bogus".into()));
    let mut set = KeybindSet::new();
    state.merge_keybinds(&mut set);
    let m = Modifiers::ctrl_alt();
    assert_eq!(set.get(&m, "n"), Some(&Action::NewTab));
    assert_eq!(set.get(&m, "q"), Some(&Action::LuaCallback(0)));
    assert_eq!(set.get(&m, "w"), Some(&Action::LoadSession("work".into())));
    assert_eq!(set.get(&m, "z"), None);
}

use garterm::config::colors::hex_color_is_sliceable;
use garterm::config::GeneralConfig;

#[test]
fn hex_slicing_guard() {
    assert!(hex_color_is_sliceable("#123456"));
    assert!(hex_color_is_sliceable("é"));
    assert!(!hex_color_is_sliceable("aéaaa"));
    assert!(Color::hex("#123456").is_convertible());
    assert!(!Color::hex("aéaaa").is_convertible());
    assert!(Color::rgb(1, 2, 3).is_convertible());
}

#[test]
fn general_defaults() {
    let g = GeneralConfig::with_shell(None);
    assert_eq!(g.shell, "/bin/sh");
    assert!(!g.vsync);
    assert_eq!(g.log_level, "info");
    assert_eq!(GeneralConfig::with_shell(Some("/bin/zsh".into())).shell, "/bin/zsh");
}

#[test]
fn key_combo_text_reads_back() {
    for bits in 0u8..16 {
        let mods = Modifiers { ctrl: bits & 1 != 0, alt: bits & 2 != 0, shift: bits & 4 != 0, super_key: bits & 8 != 0 };
        for key in ["t", "F5", "PageUp", "equal"] {
            let label = mods.to_string();
            let text = if label.is_empty() { key.to_string() } else { format!("{}+{}", label, key) };
            assert_eq!(Keybind::parse_key_combo(&text), Some((mods, key.to_string())));
        }
    }
}

#[test]
fn preset_with_overrides_on_top() {
    let mut palette = ColorPalette::default();
    palette.background = Color::rgb(1, 2, 3);
    let colors = ColorsConfig { preset: Some("gruvbox".into()), palette };
    let resolved = colors.resolve();
    assert_eq!(resolved.background.to_u32(), 0x010203);
    assert_eq!(resolved.foreground.to_u32(), ColorPalette::gruvbox_dark().foreground.to_u32());
}

#[test]
fn bindings_added_in_sequence() {
    let mut set = KeybindSet::new();
    set.add(Keybind::new(Modifiers::ctrl(), "a", Action::Copy));
    set.add(Keybind::new(Modifiers::alt(), "b", Action::Paste));
    set.add(Keybind::new(Modifiers::ctrl(), "A", Action::NewTab));
    set.add(Keybind::new(Modifiers::shift(), "c", Action::CloseTab));
    let items = set.iter();
    assert_eq!(items.len(), 3);
    assert_eq!(items[0].key, "A");
    assert_eq!(items[1].key, "b");
    assert_eq!(items[2].key, "c");
    for b in items.iter() {
        assert_eq!(set.get(&b.modifiers, &b.key), Some(&b.action));
    }
    assert_eq!(set.get(&Modifiers::ctrl(), "a"), Some(&Action::NewTab));
}
