use configurator::menu::{ConfigSet, MenuMove, MenuState};
use configurator::reflect::{FieldKind, ReflectedField, ReflectedStruct};
use configurator::render::{
    render_reflected_struct, Align, DrawCommand, MenuRect, Rect, RenderHeader, RenderMenu,
    WriteVersionString,
};
use configurator::menu::RenderingZone;
use configurator::table::{ConfigEntry, ConfigTable, ConfigValue};

const ACTIVE: (u32, u32, u32) = (10, 240, 180);
const NORMAL: (u32, u32, u32) = (250, 240, 180);

fn rect(left: i32, top: i32, right: i32, bottom: i32) -> Rect {
    Rect { left, top, right, bottom }
}

fn field(name: &str, kind: FieldKind) -> ReflectedField {
    ReflectedField { name: name.to_string(), kind }
}

fn summary(c: &DrawCommand) -> (String, Rect, (u32, u32, u32), Align) {
    (c.text.clone(), c.rect, c.color, c.align)
}

fn configs() -> ConfigSet<ReflectedStruct> {
    ConfigSet {
        main: ReflectedStruct {
            fields: vec![
                field(
                    "Main",
                    FieldKind::Struct(ReflectedStruct {
                        fields: vec![
                            field("fov", FieldKind::Opaque(Some("90".to_string()))),
                            field(
                                "hud",
                                FieldKind::Struct(ReflectedStruct {
                                    fields: vec![
                                        field("scale", FieldKind::Opaque(None)),
                                        field("mode", FieldKind::Enum),
                                    ],
                                }),
                            ),
                            field("list", FieldKind::Array),
                        ],
                    }),
                ),
                field("Shaders", FieldKind::Struct(ReflectedStruct { fields: vec![] })),
            ],
        },
        shaders: ReflectedStruct { fields: vec![] },
        effects: ReflectedStruct { fields: vec![] },
    }
}

fn tables() -> ConfigSet<ConfigTable> {
    let entry = |k: &str, v: ConfigValue| ConfigEntry { key: k.to_string(), value: v };
    ConfigSet {
        main: ConfigTable {
            entries: vec![
                entry(
                    "Main",
                    ConfigValue::Table(ConfigTable {
                        entries: vec![
                            entry(
                                "hud",
                                ConfigValue::Table(ConfigTable {
                                    entries: vec![entry("scale", ConfigValue::Other)],
                                }),
                            ),
                            entry("fov", ConfigValue::Integer(90)),
                        ],
                    }),
                ),
                entry("Shaders", ConfigValue::Table(ConfigTable { entries: vec![] })),
            ],
        },
        shaders: ConfigTable { entries: vec![] },
        effects: ConfigTable { entries: vec![] },
    }
}

#[test]
fn cursor_moves_by_rows_and_columns() {
    let mut r = MenuRect::new_with_coords(60, 120, 510, 142);
    r.next_row();
    r.save();
    let s = MenuState::new();
    assert_eq!(r.draw(&s, "x", Align::Left, RenderingZone::Version).rect, rect(60, 142, 510, 164));
    r.next_column();
    assert_eq!(r.draw(&s, "x", Align::Left, RenderingZone::Version).rect, rect(510, 142, 960, 164));
    r.restore();
    assert_eq!(r.draw(&s, "x", Align::Left, RenderingZone::Version).rect, rect(60, 142, 510, 164));
    let z = MenuRect::new();
    assert_eq!(z.draw(&s, "x", Align::Left, RenderingZone::Version).rect, rect(0, 0, 0, 0));
}

#[test]
fn active_zone_follows_the_selection_depth() {
    let t = tables();
    let mut s = MenuState::new();
    let r = MenuRect::new();
    assert!(r.is_active_zone(&s, &RenderingZone::ActiveConfig));
    assert!(!r.is_active_zone(&s, &RenderingZone::Version));
    s.move_menu_active_field(MenuMove::Down, &t);
    assert!(!r.is_active_zone(&s, &RenderingZone::ActiveConfig));
    assert!(r.is_active_zone(&s, &RenderingZone::ActiveFirst));
    s.move_menu_active_field(MenuMove::Right, &t);
    assert!(!r.is_active_zone(&s, &RenderingZone::ActiveFirst));
    assert!(r.is_active_zone(&s, &RenderingZone::ActiveSecond));
    assert!(r.is_active_zone(&s, &RenderingZone::ActiveThird));
}

#[test]
fn draw_highlights_the_selected_label_ignoring_case() {
    let s = MenuState::new();
    let r = MenuRect::new();
    assert_eq!(r.draw(&s, "MAIN", Align::Left, RenderingZone::ActiveConfig).color, ACTIVE);
    assert_eq!(r.draw(&s, "Shaders", Align::Left, RenderingZone::ActiveConfig).color, NORMAL);
    let o = r.draw_opt(&s, "main", "1", Align::Right, RenderingZone::ActiveConfig);
    assert_eq!(o.text, "main = 1");
    assert_eq!(o.color, ACTIVE);
    assert_eq!(o.align, Align::Right);
}

#[test]
fn version_line_sits_at_the_bottom() {
    let c = WriteVersionString(800, 600, "v1.0");
    assert_eq!(summary(&c), ("v1.0".to_string(), rect(0, 568, 800, 622), NORMAL, Align::Center));
}

#[test]
fn header_layout() {
    let t = tables();
    let mut s = MenuState::new();
    s.move_menu_active_field(MenuMove::Right, &t);
    let (_, cmds) = RenderHeader(&s);
    let got: Vec<_> = cmds.iter().map(summary).collect();
    assert_eq!(
        got,
        vec![
            ("Oblivion Reloaded - Settings".to_string(), rect(60, 120, 510, 142), NORMAL, Align::Center),
            ("Main".to_string(), rect(60, 142, 510, 164), NORMAL, Align::Left),
            ("Shaders".to_string(), rect(510, 142, 960, 164), ACTIVE, Align::Left),
            ("Effects".to_string(), rect(960, 142, 1410, 164), NORMAL, Align::Left),
        ]
    );
}

#[test]
fn fields_render_by_kind() {
    let s = MenuState::new();
    let r = MenuRect::new();
    let z = RenderingZone::ActiveSecond;
    let st = field("hud", FieldKind::Struct(ReflectedStruct { fields: vec![] }));
    assert_eq!(render_reflected_struct(&st, z, &r, &s).text, "hud");
    assert_eq!(render_reflected_struct(&field("a", FieldKind::Array), z, &r, &s).text, "a = <ARRAY>");
    assert_eq!(render_reflected_struct(&field("e", FieldKind::Enum), z, &r, &s).text, "e = <ENUM>");
    assert_eq!(render_reflected_struct(&field("o", FieldKind::Opaque(None)), z, &r, &s).text, "o = <opaque>");
    let v = field("v", FieldKind::Opaque(Some("true".to_string())));
    assert_eq!(render_reflected_struct(&v, z, &r, &s).text, "v = true");
}

#[test]
fn menu_with_nothing_selected_lists_the_sections() {
    let s = MenuState::new();
    let cmds = RenderMenu(800, 600, &s, &configs()).commands;
    let got: Vec<_> = cmds.iter().map(summary).collect();
    assert_eq!(got.len(), 6);
    assert_eq!(got[1].2, ACTIVE);
    assert_eq!(got[4], ("Main".to_string(), rect(60, 164, 510, 186), NORMAL, Align::Left));
    assert_eq!(got[5], ("Shaders".to_string(), rect(60, 186, 510, 208), NORMAL, Align::Left));
}

#[test]
fn menu_shows_three_columns_for_a_deep_selection() {
    let t = tables();
    let mut s = MenuState::new();
    s.move_menu_active_field(MenuMove::Down, &t);
    s.move_menu_active_field(MenuMove::Right, &t);
    s.move_menu_active_field(MenuMove::Right, &t);
    let cmds = RenderMenu(800, 600, &s, &configs()).commands;
    let got: Vec<_> = cmds.iter().map(summary).collect();
    let mut want = vec![
        ("Oblivion Reloaded - Settings".to_string(), rect(60, 120, 510, 142), NORMAL, Align::Center),
        ("Main".to_string(), rect(60, 142, 510, 164), NORMAL, Align::Left),
        ("Shaders".to_string(), rect(510, 142, 960, 164), NORMAL, Align::Left),
        ("Effects".to_string(), rect(960, 142, 1410, 164), NORMAL, Align::Left),
    ];
    want.push(("Main".to_string(), rect(60, 164, 510, 186), NORMAL, Align::Left));
    want.push(("Shaders".to_string(), rect(60, 186, 510, 208), NORMAL, Align::Left));
    want.push(("fov = 90".to_string(), rect(510, 164, 960, 186), NORMAL, Align::Left));
    want.push(("hud".to_string(), rect(510, 186, 960, 208), NORMAL, Align::Left));
    want.push(("list = <ARRAY>".to_string(), rect(510, 208, 960, 230), NORMAL, Align::Left));
    want.push(("scale = <opaque>".to_string(), rect(960, 164, 1410, 186), ACTIVE, Align::Left));
    want.push(("mode = <ENUM>".to_string(), rect(960, 186, 1410, 208), NORMAL, Align::Left));
    assert_eq!(got, want);
}

#[test]
fn menu_second_column_highlights_the_selected_field() {
    let t = tables();
    let mut s = MenuState::new();
    s.move_menu_active_field(MenuMove::Down, &t);
    s.move_menu_active_field(MenuMove::Right, &t);
    let cmds = RenderMenu(800, 600, &s, &configs()).commands;
    let got: Vec<_> = cmds.iter().map(summary).collect();
    assert_eq!(got.len(), 11);
    assert_eq!(got[4].2, NORMAL);
    assert_eq!(got[6], ("fov = 90".to_string(), rect(510, 164, 960, 186), NORMAL, Align::Left));
    assert_eq!(got[7], ("hud".to_string(), rect(510, 186, 960, 208), ACTIVE, Align::Left));
    assert_eq!(got[8].2, NORMAL);
}

#[test]
fn missing_keys_are_reported() {
    let t = tables();
    let mut s = MenuState::new();
    assert_eq!(RenderMenu(800, 600, &s, &configs()).missing_key, None);
    s.move_menu_active_field(MenuMove::Down, &t);
    s.move_menu_active_field(MenuMove::Down, &t);
    // "Shaders" names an empty structure: nothing is missing
    assert_eq!(RenderMenu(800, 600, &s, &configs()).missing_key, None);
    // the table of the configuration lists a key that the structure lacks
    let other = ConfigSet {
        main: ConfigTable {
            entries: vec![ConfigEntry { key: "Gone".to_string(), value: ConfigValue::Table(ConfigTable { entries: vec![] }) }],
        },
        shaders: ConfigTable { entries: vec![] },
        effects: ConfigTable { entries: vec![] },
    };
    let mut g = MenuState::new();
    g.move_menu_active_field(MenuMove::Down, &other);
    let layout = RenderMenu(800, 600, &g, &configs());
    assert_eq!(layout.missing_key, Some("Gone".to_string()));
    assert_eq!(layout.commands.len(), 6);
}

#[test]
fn missing_second_level_key_is_reported() {
    let t = tables();
    let mut s = MenuState::new();
    s.move_menu_active_field(MenuMove::Down, &t);
    s.move_menu_active_field(MenuMove::Right, &t);
    s.move_menu_active_field(MenuMove::Down, &t);
    // the table has "fov" second, the structure "hud" second: select a key the structure lacks
    let mut cfg = configs();
    if let FieldKind::Struct(st) = &mut cfg.main.fields[0].kind {
        st.fields.retain(|f| f.name != "hud");
    }
    let layout = RenderMenu(800, 600, &s, &cfg);
    assert_eq!(layout.missing_key, None);
    let mut s2 = MenuState::new();
    s2.move_menu_active_field(MenuMove::Down, &t);
    s2.move_menu_active_field(MenuMove::Right, &t);
    let layout = RenderMenu(800, 600, &s2, &cfg);
    assert_eq!(layout.missing_key, Some("hud".to_string()));
}

#[test]
fn layout_does_not_depend_on_screen_size() {
    let t = tables();
    let mut s = MenuState::new();
    s.move_menu_active_field(MenuMove::Down, &t);
    s.move_menu_active_field(MenuMove::Right, &t);
    let a: Vec<_> = RenderMenu(800, 600, &s, &configs()).commands.iter().map(summary).collect();
    let b: Vec<_> = RenderMenu(1920, 1080, &s, &configs()).commands.iter().map(summary).collect();
    assert_eq!(a, b);
}

#[test]
fn restore_returns_to_the_saved_rectangle() {
    let s = MenuState::new();
    let mut r = MenuRect::new_with_coords(1, 2, 3, 4);
    r.save();
    r.next_row();
    r.next_column();
    let _ = r.draw(&s, "x", Align::Left, RenderingZone::Version);
    r.next_row();
    r.restore();
    assert_eq!(r.draw(&s, "x", Align::Left, RenderingZone::Version).rect, rect(1, 2, 3, 4));
}
