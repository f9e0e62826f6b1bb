use configurator::menu::{ConfigSet, MenuMove, MenuSelected, MenuState, RenderingZone};
use configurator::table::{ConfigEntry, ConfigTable, ConfigValue};
use configurator::text::eq_ignore_ascii_case;

fn table(entries: Vec<(&str, ConfigValue)>) -> ConfigTable {
    ConfigTable {
        entries: entries
            .into_iter()
            .map(|(k, v)| ConfigEntry { key: k.to_string(), value: v })
            .collect(),
    }
}

// main: { Shaders = { ssao = { enabled = true, radius = 3 }, bloom = { strength = 2 } },
//         Main = { fov = 90, vsync = false } }
fn sample() -> ConfigSet<ConfigTable> {
    ConfigSet {
        main: table(vec![
            (
                "Shaders",
                ConfigValue::Table(table(vec![
                    (
                        "ssao",
                        ConfigValue::Table(table(vec![
                            ("enabled", ConfigValue::Boolean(true)),
                            ("radius", ConfigValue::Integer(3)),
                        ])),
                    ),
                    ("bloom", ConfigValue::Table(table(vec![("strength", ConfigValue::Integer(2))]))),
                    ("level", ConfigValue::Integer(1)),
                ])),
            ),
            (
                "Main",
                ConfigValue::Table(table(vec![
                    ("fov", ConfigValue::Integer(90)),
                    ("vsync", ConfigValue::Boolean(false)),
                ])),
            ),
        ]),
        shaders: table(vec![(
            "Pipeline",
            ConfigValue::Table(table(vec![("order", ConfigValue::Other)])),
        )]),
        effects: table(vec![]),
    }
}

fn labels(s: &MenuState) -> (String, String, String, String, bool) {
    (
        s.get_active_config(RenderingZone::ActiveConfig).to_string(),
        s.get_active_config(RenderingZone::ActiveFirst).to_string(),
        s.get_active_config(RenderingZone::ActiveSecond).to_string(),
        s.get_active_config(RenderingZone::ActiveThird).to_string(),
        s.is_terminal(),
    )
}

fn l(c: &str, a: &str, b: &str, f: &str, t: bool) -> (String, String, String, String, bool) {
    (c.to_string(), a.to_string(), b.to_string(), f.to_string(), t)
}

#[test]
fn new_state_shows_main_with_nothing_selected() {
    let s = MenuState::new();
    assert_eq!(labels(&s), l("Main", "", "", "", false));
    assert!(*s.get_active_mainconf() == MenuSelected::Main);
    assert_eq!(s.get_active_config(RenderingZone::Version), "");
}

#[test]
fn header_moves_stop_at_both_ends() {
    let t = sample();
    let mut s = MenuState::new();
    s.move_menu_active_field(MenuMove::Left, &t);
    assert_eq!(labels(&s).0, "Main");
    s.move_menu_active_field(MenuMove::Right, &t);
    assert_eq!(labels(&s).0, "Shaders");
    s.move_menu_active_field(MenuMove::Right, &t);
    assert_eq!(labels(&s).0, "Effects");
    s.move_menu_active_field(MenuMove::Right, &t);
    assert_eq!(labels(&s).0, "Effects");
    assert!(*s.get_active_mainconf() == MenuSelected::Effects);
    s.move_menu_active_field(MenuMove::Left, &t);
    assert_eq!(labels(&s).0, "Shaders");
    s.move_menu_active_field(MenuMove::Up, &t);
    assert_eq!(labels(&s), l("Shaders", "", "", "", false));
}

#[test]
fn active_table_follows_the_configuration_shown() {
    let t = sample();
    let mut s = MenuState::new();
    assert_eq!(s.get_active_table(&t).entries.len(), 2);
    s.move_menu_active_field(MenuMove::Right, &t);
    assert_eq!(s.get_active_table(&t).entries[0].key, "Pipeline");
    s.move_menu_active_field(MenuMove::Right, &t);
    assert_eq!(s.get_active_table(&t).entries.len(), 0);
}

#[test]
fn first_level_walk_and_return_to_header() {
    let t = sample();
    let mut s = MenuState::new();
    s.move_menu_active_field(MenuMove::Down, &t);
    assert_eq!(labels(&s), l("Main", "Shaders", "", "", false));
    s.move_menu_active_field(MenuMove::Down, &t);
    assert_eq!(labels(&s), l("Main", "Main", "", "", false));
    // Down on the last key stays there.
    s.move_menu_active_field(MenuMove::Down, &t);
    assert_eq!(labels(&s), l("Main", "Main", "", "", false));
    // Left does nothing on the first level.
    s.move_menu_active_field(MenuMove::Left, &t);
    assert_eq!(labels(&s), l("Main", "Main", "", "", false));
    s.move_menu_active_field(MenuMove::Up, &t);
    assert_eq!(labels(&s), l("Main", "Shaders", "", "", false));
    // Up on the first key goes back to the header.
    s.move_menu_active_field(MenuMove::Up, &t);
    assert_eq!(labels(&s), l("Main", "", "", "", false));
    s.move_menu_active_field(MenuMove::Down, &t);
    assert_eq!(labels(&s), l("Main", "Shaders", "", "", false));
}

#[test]
fn second_level_enter_walk_and_leave() {
    let t = sample();
    let mut s = MenuState::new();
    s.move_menu_active_field(MenuMove::Down, &t);
    s.move_menu_active_field(MenuMove::Right, &t);
    assert_eq!(labels(&s), l("Main", "Shaders", "ssao", "", false));
    s.move_menu_active_field(MenuMove::Down, &t);
    // the leaf flag describes the key that was left (ssao, a table)
    assert_eq!(labels(&s), l("Main", "Shaders", "bloom", "", false));
    s.move_menu_active_field(MenuMove::Down, &t);
    assert_eq!(labels(&s), l("Main", "Shaders", "level", "", false));
    s.move_menu_active_field(MenuMove::Up, &t);
    // level is a leaf, so the flag is now set although bloom is a table
    assert_eq!(labels(&s), l("Main", "Shaders", "bloom", "", true));
    s.move_menu_active_field(MenuMove::Up, &t);
    assert_eq!(labels(&s), l("Main", "Shaders", "ssao", "", false));
    // Up on the first second-level key stays there.
    s.move_menu_active_field(MenuMove::Up, &t);
    assert_eq!(labels(&s), l("Main", "Shaders", "ssao", "", false));
    s.move_menu_active_field(MenuMove::Left, &t);
    assert_eq!(labels(&s), l("Main", "Shaders", "", "", false));
}

#[test]
fn entering_a_leaf_section_marks_it_terminal() {
    let t = sample();
    let mut s = MenuState::new();
    s.move_menu_active_field(MenuMove::Down, &t);
    s.move_menu_active_field(MenuMove::Down, &t);
    s.move_menu_active_field(MenuMove::Right, &t);
    assert_eq!(labels(&s), l("Main", "Main", "fov", "", true));
    // Right on a leaf does nothing more.
    s.move_menu_active_field(MenuMove::Right, &t);
    assert_eq!(labels(&s), l("Main", "Main", "fov", "", true));
}

#[test]
fn third_level_enter_walk_and_leave() {
    let t = sample();
    let mut s = MenuState::new();
    s.move_menu_active_field(MenuMove::Down, &t);
    s.move_menu_active_field(MenuMove::Right, &t);
    s.move_menu_active_field(MenuMove::Right, &t);
    assert_eq!(labels(&s), l("Main", "Shaders", "ssao", "enabled", false));
    s.move_menu_active_field(MenuMove::Down, &t);
    assert_eq!(labels(&s), l("Main", "Shaders", "ssao", "radius", true));
    s.move_menu_active_field(MenuMove::Up, &t);
    assert_eq!(labels(&s), l("Main", "Shaders", "ssao", "enabled", true));
    // Right on the third level does nothing.
    s.move_menu_active_field(MenuMove::Right, &t);
    assert_eq!(labels(&s), l("Main", "Shaders", "ssao", "enabled", true));
    s.move_menu_active_field(MenuMove::Left, &t);
    assert_eq!(labels(&s), l("Main", "Shaders", "ssao", "", false));
    s.move_menu_active_field(MenuMove::Left, &t);
    assert_eq!(labels(&s), l("Main", "Shaders", "", "", false));
}

#[test]
fn right_then_left_restores_the_state() {
    let t = sample();
    let mut s = MenuState::new();
    s.move_menu_active_field(MenuMove::Down, &t);
    let before = labels(&s);
    s.move_menu_active_field(MenuMove::Right, &t);
    s.move_menu_active_field(MenuMove::Left, &t);
    assert_eq!(labels(&s), before);
    s.move_menu_active_field(MenuMove::Right, &t);
    let before = labels(&s);
    s.move_menu_active_field(MenuMove::Right, &t);
    s.move_menu_active_field(MenuMove::Left, &t);
    assert_eq!(labels(&s), before);
}

#[test]
fn down_then_up_restores_the_key() {
    let t = sample();
    let mut s = MenuState::new();
    s.move_menu_active_field(MenuMove::Down, &t);
    let before = labels(&s);
    s.move_menu_active_field(MenuMove::Down, &t);
    s.move_menu_active_field(MenuMove::Up, &t);
    assert_eq!(labels(&s), before);
}

#[test]
fn case_insensitive_labels() {
    assert!(eq_ignore_ascii_case("Shaders", "sHADERS"));
    assert!(eq_ignore_ascii_case("", ""));
    assert!(!eq_ignore_ascii_case("Shaders", "Shader"));
    assert!(!eq_ignore_ascii_case("Effects", "Shaders"));
    assert!(eq_ignore_ascii_case("Été", "Été"));
    assert!(!eq_ignore_ascii_case("été", "ÉTÉ"));
    assert!(eq_ignore_ascii_case("a-Z_1", "A-z_1"));
}
