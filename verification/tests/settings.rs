use configurator::menu::{ConfigSet, MenuMove, MenuState};
use configurator::setting::{step_value, ChangeCurrentSetting, OperationSetting, SettingEdit};
use configurator::table::{ConfigEntry, ConfigTable, ConfigValue};

fn table(entries: Vec<(&str, ConfigValue)>) -> ConfigTable {
    ConfigTable {
        entries: entries
            .into_iter()
            .map(|(k, v)| ConfigEntry { key: k.to_string(), value: v })
            .collect(),
    }
}

fn sample() -> ConfigSet<ConfigTable> {
    ConfigSet {
        main: table(vec![
            (
                "Shaders",
                ConfigValue::Table(table(vec![(
                    "ssao",
                    ConfigValue::Table(table(vec![
                        ("enabled", ConfigValue::Boolean(true)),
                        ("radius", ConfigValue::UByte(255)),
                    ])),
                )])),
            ),
            (
                "Main",
                ConfigValue::Table(table(vec![
                    ("fov", ConfigValue::Integer(90)),
                    ("gamma", ConfigValue::Float(1.5f64.to_bits())),
                    ("name", ConfigValue::Other),
                ])),
            ),
        ]),
        shaders: table(vec![(
            "Effects",
            ConfigValue::Table(table(vec![("depth", ConfigValue::Short(i16::MIN))])),
        )]),
        effects: table(vec![]),
    }
}

fn stored(e: &SettingEdit) -> Option<String> {
    match e {
        SettingEdit::Store(v) => Some(format!("{:?}", v)),
        _ => None,
    }
}

#[test]
fn steps_saturate_at_the_bounds() {
    assert_eq!(stored(&step_value(&ConfigValue::Integer(i64::MAX), OperationSetting::Add)), Some("Integer(9223372036854775807)".to_string()));
    assert_eq!(stored(&step_value(&ConfigValue::Integer(i64::MIN), OperationSetting::Sub)), Some("Integer(-9223372036854775808)".to_string()));
    assert_eq!(stored(&step_value(&ConfigValue::UInteger(0), OperationSetting::Sub)), Some("UInteger(0)".to_string()));
    assert_eq!(stored(&step_value(&ConfigValue::Int(-5), OperationSetting::Add)), Some("Int(-4)".to_string()));
    assert_eq!(stored(&step_value(&ConfigValue::UInt(7), OperationSetting::Sub)), Some("UInt(6)".to_string()));
    assert_eq!(stored(&step_value(&ConfigValue::Short(i16::MAX), OperationSetting::Add)), Some("Short(32767)".to_string()));
    assert_eq!(stored(&step_value(&ConfigValue::UShort(65535), OperationSetting::Add)), Some("UShort(65535)".to_string()));
    assert_eq!(stored(&step_value(&ConfigValue::Byte(-128), OperationSetting::Sub)), Some("Byte(-128)".to_string()));
    assert_eq!(stored(&step_value(&ConfigValue::UByte(0), OperationSetting::Add)), Some("UByte(1)".to_string()));
}

#[test]
fn booleans_flip_floats_defer_others_keep() {
    assert_eq!(stored(&step_value(&ConfigValue::Boolean(true), OperationSetting::Add)), Some("Boolean(false)".to_string()));
    assert_eq!(stored(&step_value(&ConfigValue::Boolean(false), OperationSetting::Sub)), Some("Boolean(true)".to_string()));
    assert!(matches!(step_value(&ConfigValue::Float(0), OperationSetting::Add), SettingEdit::StepFloat));
    assert!(matches!(step_value(&ConfigValue::Float32(0), OperationSetting::Sub), SettingEdit::StepFloat));
    assert!(matches!(step_value(&ConfigValue::Other, OperationSetting::Add), SettingEdit::Keep));
    assert!(matches!(step_value(&ConfigValue::Table(table(vec![])), OperationSetting::Add), SettingEdit::Keep));
}

#[test]
fn add_then_sub_restores_an_integer() {
    let v = ConfigValue::UShort(10);
    let up = match step_value(&v, OperationSetting::Add) {
        SettingEdit::Store(w) => w,
        _ => panic!("not stored"),
    };
    assert_eq!(stored(&step_value(&up, OperationSetting::Sub)), Some("UShort(10)".to_string()));
}

#[test]
fn no_change_unless_a_leaf_is_selected() {
    let mut t = sample();
    let mut s = MenuState::new();
    let r = ChangeCurrentSetting(&s, &mut t, OperationSetting::Add);
    assert!(matches!(r.edit, SettingEdit::Keep));
    assert!(r.result.is_none());
    s.move_menu_active_field(MenuMove::Down, &t);
    s.move_menu_active_field(MenuMove::Right, &t);
    let r = ChangeCurrentSetting(&s, &mut t, OperationSetting::Add);
    assert!(matches!(r.edit, SettingEdit::Keep));
    assert!(r.result.is_none());
}

#[test]
fn change_in_a_shader_section_names_the_shader() {
    let mut t = sample();
    let mut s = MenuState::new();
    s.move_menu_active_field(MenuMove::Down, &t);
    s.move_menu_active_field(MenuMove::Right, &t);
    s.move_menu_active_field(MenuMove::Right, &t);
    s.move_menu_active_field(MenuMove::Down, &t);
    assert!(s.is_terminal());
    let r = ChangeCurrentSetting(&s, &mut t, OperationSetting::Add);
    assert_eq!(stored(&r.edit), Some("UByte(255)".to_string()));
    assert!(r.third_level);
    assert_eq!(r.result, Some("ssao".to_string()));
    s.move_menu_active_field(MenuMove::Up, &t);
    let r = ChangeCurrentSetting(&s, &mut t, OperationSetting::Sub);
    assert_eq!(stored(&r.edit), Some("Boolean(false)".to_string()));
    assert_eq!(r.result, Some("ssao".to_string()));
}

#[test]
fn change_in_the_main_section_names_nothing() {
    let mut t = sample();
    let mut s = MenuState::new();
    s.move_menu_active_field(MenuMove::Down, &t);
    s.move_menu_active_field(MenuMove::Down, &t);
    s.move_menu_active_field(MenuMove::Right, &t);
    let r = ChangeCurrentSetting(&s, &mut t, OperationSetting::Sub);
    assert_eq!(stored(&r.edit), Some("Integer(89)".to_string()));
    assert!(!r.third_level);
    assert!(r.result.is_none());
    s.move_menu_active_field(MenuMove::Down, &t);
    let r = ChangeCurrentSetting(&s, &mut t, OperationSetting::Add);
    assert!(matches!(r.edit, SettingEdit::StepFloat));
    assert!(r.result.is_none());
    s.move_menu_active_field(MenuMove::Down, &t);
    let r = ChangeCurrentSetting(&s, &mut t, OperationSetting::Add);
    assert!(matches!(r.edit, SettingEdit::Keep));
    assert!(r.result.is_none());
}

#[test]
fn effects_section_of_other_configurations_names_nothing() {
    let mut t = sample();
    let mut s = MenuState::new();
    s.move_menu_active_field(MenuMove::Right, &t);
    s.move_menu_active_field(MenuMove::Down, &t);
    s.move_menu_active_field(MenuMove::Right, &t);
    assert!(s.is_terminal());
    let r = ChangeCurrentSetting(&s, &mut t, OperationSetting::Sub);
    assert_eq!(stored(&r.edit), Some("Short(-32768)".to_string()));
    assert!(r.result.is_none());
}

fn leaf(t: &ConfigTable, path: &[&str]) -> String {
    let mut tab = t;
    for (i, k) in path.iter().enumerate() {
        let e = tab.entries.iter().find(|e| e.key == *k).unwrap();
        if i + 1 == path.len() {
            return format!("{:?}", e.value);
        }
        match &e.value {
            ConfigValue::Table(sub) => tab = sub,
            _ => panic!("not a table"),
        }
    }
    unreachable!()
}

#[test]
fn stored_steps_change_the_table() {
    let mut t = sample();
    let mut s = MenuState::new();
    s.move_menu_active_field(MenuMove::Down, &t);
    s.move_menu_active_field(MenuMove::Down, &t);
    s.move_menu_active_field(MenuMove::Right, &t);
    ChangeCurrentSetting(&s, &mut t, OperationSetting::Add);
    assert_eq!(leaf(&t.main, &["Main", "fov"]), "Integer(91)");
    ChangeCurrentSetting(&s, &mut t, OperationSetting::Sub);
    assert_eq!(leaf(&t.main, &["Main", "fov"]), "Integer(90)");
    // floats are left to the caller
    s.move_menu_active_field(MenuMove::Down, &t);
    ChangeCurrentSetting(&s, &mut t, OperationSetting::Add);
    assert_eq!(leaf(&t.main, &["Main", "gamma"]), format!("Float({})", 1.5f64.to_bits()));
}

#[test]
fn add_then_sub_restores_the_table() {
    let mut t = sample();
    let before = format!("{:?}", t);
    let mut s = MenuState::new();
    s.move_menu_active_field(MenuMove::Down, &t);
    s.move_menu_active_field(MenuMove::Right, &t);
    s.move_menu_active_field(MenuMove::Right, &t);
    s.move_menu_active_field(MenuMove::Down, &t);
    s.move_menu_active_field(MenuMove::Up, &t);
    assert!(s.is_terminal());
    let r1 = ChangeCurrentSetting(&s, &mut t, OperationSetting::Sub);
    assert_eq!(leaf(&t.main, &["Shaders", "ssao", "enabled"]), "Boolean(false)");
    let r2 = ChangeCurrentSetting(&s, &mut t, OperationSetting::Add);
    assert_eq!(r1.result, r2.result);
    assert_eq!(format!("{:?}", t), before);
}
