//! Changing the value of the selected setting by one step.
use vstd::prelude::*;
use crate::menu::{ConfigSet, MenuSelected, MenuState, MenuView, RenderingZone};
use crate::table::{
    ConfigEntry, ConfigTable, ConfigValue, EntryModel, ValueModel, lookup, holds_table, sub_table,
    first_at, table_model, entries_model, model_lookup, model_put, model_entries, value_model,
    lemma_lookup_in_first, lemma_first_at_model, lemma_model_at, lemma_entries_model_update,
    lemma_entries_model_index, lemma_lookup_model, lemma_value_model_inj,
};
use crate::text::{eq_ignore_ascii_case, eq_ascii_nocase};

verus! {

/// Whether the selected setting is raised or lowered.
#[derive(PartialEq, Eq, Structural, Clone, Copy, Debug)]
pub enum OperationSetting {
    Add,
    Sub,
}

/// What happens to the selected setting.
#[derive(Debug)]
pub enum SettingEdit {
    /// The setting is left as it is.
    Keep,
    /// The setting takes this new value.
    Store(ConfigValue),
    /// The setting is a floating-point number, to be moved by 0.1.
    StepFloat,
}

/// The outcome of a change request.
#[derive(Debug)]
pub struct SettingChange {
    /// What happens to the selected setting.
    pub edit: SettingEdit,
    /// Whether the setting sits on the third level (under the selected
    /// second-level table) rather than on the second.
    pub third_level: bool,
    /// The shader or effect to reload once the change is applied.
    pub result: Option<String>,
}

/// One saturating step of `x` within `lo..=hi`.
pub open spec fn sat_step(x: int, lo: int, hi: int, add: bool) -> int {
    if add {
        if x < hi { x + 1 } else { x }
    } else {
        if x > lo { x - 1 } else { x }
    }
}

/// The change that one step makes to a value: integers move by one and stop
/// at the bounds of their type, booleans flip, floats move by 0.1, and every
/// other value stays.
pub open spec fn stepped(v: ConfigValue, op: OperationSetting) -> SettingEdit {
    let add = op == OperationSetting::Add;
    match v {
        ConfigValue::Integer(x) => SettingEdit::Store(
            ConfigValue::Integer(sat_step(x as int, i64::MIN as int, i64::MAX as int, add) as i64),
        ),
        ConfigValue::UInteger(x) => SettingEdit::Store(
            ConfigValue::UInteger(sat_step(x as int, 0, u64::MAX as int, add) as u64),
        ),
        ConfigValue::Int(x) => SettingEdit::Store(
            ConfigValue::Int(sat_step(x as int, i32::MIN as int, i32::MAX as int, add) as i32),
        ),
        ConfigValue::UInt(x) => SettingEdit::Store(
            ConfigValue::UInt(sat_step(x as int, 0, u32::MAX as int, add) as u32),
        ),
        ConfigValue::Short(x) => SettingEdit::Store(
            ConfigValue::Short(sat_step(x as int, i16::MIN as int, i16::MAX as int, add) as i16),
        ),
        ConfigValue::UShort(x) => SettingEdit::Store(
            ConfigValue::UShort(sat_step(x as int, 0, u16::MAX as int, add) as u16),
        ),
        ConfigValue::Byte(x) => SettingEdit::Store(
            ConfigValue::Byte(sat_step(x as int, i8::MIN as int, i8::MAX as int, add) as i8),
        ),
        ConfigValue::UByte(x) => SettingEdit::Store(
            ConfigValue::UByte(sat_step(x as int, 0, u8::MAX as int, add) as u8),
        ),
        ConfigValue::Float(_) => SettingEdit::StepFloat,
        ConfigValue::Float32(_) => SettingEdit::StepFloat,
        ConfigValue::Boolean(b) => SettingEdit::Store(ConfigValue::Boolean(!b)),
        _ => SettingEdit::Keep,
    }
}

/// The value at the bound of its type that a step in direction `op` cannot
/// pass: the maximum for `Add`, the minimum for `Sub`.
pub open spec fn at_bound(v: ConfigValue, op: OperationSetting) -> bool {
    let add = op == OperationSetting::Add;
    match v {
        ConfigValue::Integer(x) => if add { x == i64::MAX } else { x == i64::MIN },
        ConfigValue::UInteger(x) => if add { x == u64::MAX } else { x == 0 },
        ConfigValue::Int(x) => if add { x == i32::MAX } else { x == i32::MIN },
        ConfigValue::UInt(x) => if add { x == u32::MAX } else { x == 0 },
        ConfigValue::Short(x) => if add { x == i16::MAX } else { x == i16::MIN },
        ConfigValue::UShort(x) => if add { x == u16::MAX } else { x == 0 },
        ConfigValue::Byte(x) => if add { x == i8::MAX } else { x == i8::MIN },
        ConfigValue::UByte(x) => if add { x == u8::MAX } else { x == 0 },
        _ => false,
    }
}

/// The opposite direction.
pub open spec fn reverse_op(op: OperationSetting) -> OperationSetting {
    if op == OperationSetting::Add {
        OperationSetting::Sub
    } else {
        OperationSetting::Add
    }
}

/// The value stored under the second-level key of `s`.
pub open spec fn second_value(s: MenuView, t: ConfigTable) -> Option<ConfigValue> {
    lookup(sub_table(lookup(t, s.first)), s.second)
}

/// The selected setting: the second-level value, or, when that is a table,
/// the value under the third-level key in it.
pub open spec fn selected_leaf(s: MenuView, t: ConfigTable) -> ConfigValue {
    if holds_table(second_value(s, t)) {
        lookup(sub_table(second_value(s, t)), s.field).unwrap()
    } else {
        second_value(s, t).unwrap()
    }
}

/// The inputs on which a change request is defined: when a leaf is selected,
/// the path to it exists.
pub open spec fn can_change(s: MenuView, t: ConfigTable) -> bool {
    s.terminal ==> {
        &&& holds_table(lookup(t, s.first))
        &&& second_value(s, t) is Some
        &&& holds_table(second_value(s, t)) ==> lookup(sub_table(second_value(s, t)), s.field) is Some
    }
}

/// A change in the main configuration under the `Shaders` or `Effects`
/// section names the shader or effect to reload.
pub open spec fn names_reload(s: MenuView) -> bool {
    &&& s.config == MenuSelected::Main
    &&& (eq_ascii_nocase(s.first, "Shaders"@) || eq_ascii_nocase(s.first, "Effects"@))
}

/// One step of `v` in direction `op`.
pub fn step_value(v: &ConfigValue, op: OperationSetting) -> (e: SettingEdit)
    ensures
        e == stepped(*v, op),
{
    let add = op == OperationSetting::Add;
    match v {
        ConfigValue::Integer(x) => {
            let x = *x;
            SettingEdit::Store(
                ConfigValue::Integer(
                    if add {
                        if x < i64::MAX { x + 1 } else { x }
                    } else {
                        if x > i64::MIN { x - 1 } else { x }
                    },
                ),
            )
        },
        ConfigValue::UInteger(x) => {
            let x = *x;
            SettingEdit::Store(
                ConfigValue::UInteger(
                    if add {
                        if x < u64::MAX { x + 1 } else { x }
                    } else {
                        if x > 0 { x - 1 } else { x }
                    },
                ),
            )
        },
        ConfigValue::Int(x) => {
            let x = *x;
            SettingEdit::Store(
                ConfigValue::Int(
                    if add {
                        if x < i32::MAX { x + 1 } else { x }
                    } else {
                        if x > i32::MIN { x - 1 } else { x }
                    },
                ),
            )
        },
        ConfigValue::UInt(x) => {
            let x = *x;
            SettingEdit::Store(
                ConfigValue::UInt(
                    if add {
                        if x < u32::MAX { x + 1 } else { x }
                    } else {
                        if x > 0 { x - 1 } else { x }
                    },
                ),
            )
        },
        ConfigValue::Short(x) => {
            let x = *x;
            SettingEdit::Store(
                ConfigValue::Short(
                    if add {
                        if x < i16::MAX { x + 1 } else { x }
                    } else {
                        if x > i16::MIN { x - 1 } else { x }
                    },
                ),
            )
        },
        ConfigValue::UShort(x) => {
            let x = *x;
            SettingEdit::Store(
                ConfigValue::UShort(
                    if add {
                        if x < u16::MAX { x + 1 } else { x }
                    } else {
                        if x > 0 { x - 1 } else { x }
                    },
                ),
            )
        },
        ConfigValue::Byte(x) => {
            let x = *x;
            SettingEdit::Store(
                ConfigValue::Byte(
                    if add {
                        if x < i8::MAX { x + 1 } else { x }
                    } else {
                        if x > i8::MIN { x - 1 } else { x }
                    },
                ),
            )
        },
        ConfigValue::UByte(x) => {
            let x = *x;
            SettingEdit::Store(
                ConfigValue::UByte(
                    if add {
                        if x < u8::MAX { x + 1 } else { x }
                    } else {
                        if x > 0 { x - 1 } else { x }
                    },
                ),
            )
        },
        ConfigValue::Float(_) => SettingEdit::StepFloat,
        ConfigValue::Float32(_) => SettingEdit::StepFloat,
        ConfigValue::Boolean(b) => SettingEdit::Store(ConfigValue::Boolean(!*b)),
        _ => SettingEdit::Keep,
    }
}

/// The contents `m` of a table with the setting at the path `first`,
/// `second` (and `field`, on the third level) replaced by `v`.
pub open spec fn put_leaf_model(
    m: Seq<EntryModel>,
    first: Seq<char>,
    second: Seq<char>,
    field: Seq<char>,
    third: bool,
    v: ConfigValue,
) -> Seq<EntryModel> {
    let sec = model_entries(model_lookup(m, first));
    let new_sec = if third {
        let thr = model_entries(model_lookup(sec, second));
        model_put(sec, second, ValueModel::Table(model_put(thr, field, ValueModel::Leaf(v))))
    } else {
        model_put(sec, second, ValueModel::Leaf(v))
    };
    model_put(m, first, ValueModel::Table(new_sec))
}

/// The contents `m` of a table with the setting selected in `s` replaced by `v`.
pub open spec fn with_leaf(m: Seq<EntryModel>, s: MenuView, third: bool, v: ConfigValue) -> Seq<EntryModel> {
    put_leaf_model(m, s.first, s.second, s.field, third, v)
}

/// Replacing the value of the first entry named `k`, found at `j`, replaces
/// it in the contents.
proof fn lemma_put_level(es: Seq<ConfigEntry>, k: Seq<char>, j: int, v: ConfigValue)
    requires
        first_at(es, k, j),
    ensures
        model_lookup(entries_model(es), k) == Some(value_model(es[j].value)),
        entries_model(es.update(j, ConfigEntry { key: es[j].key, value: v })) == model_put(
            entries_model(es),
            k,
            value_model(v),
        ),
{
    lemma_first_at_model(es, k, j);
    lemma_entries_model_index(es, j);
    lemma_model_at(entries_model(es), k, j, value_model(v));
    lemma_entries_model_update(es, j, ConfigEntry { key: es[j].key, value: v });
}

/// Finds the first entry named `k`, which `lookup` shows exists.
fn find_existing(t: &ConfigTable, k: &String) -> (j: usize)
    requires
        lookup(*t, k@) is Some,
    ensures
        first_at(t.entries@, k@, j as int),
        lookup(*t, k@) == Some(t.entries@[j as int].value),
{
    proof {
        lemma_lookup_in_first(t.entries@, k@);
    }
    match t.find(k) {
        Some(j) => j,
        None => {
            proof {
                let j = choose|j: int| first_at(t.entries@, k@, j);
                assert(t.entries@[j].key@ == k@);
            }
            unreached()
        },
    }
}

/// Replaces the setting at the path `first`, `second` (and `third`, on the
/// third level) of `t` by `v`.
fn put_leaf(t: &mut ConfigTable, first: &String, second: &String, third: &String, third_level: bool, v: ConfigValue)
    requires
        holds_table(lookup(*old(t), first@)),
        lookup(sub_table(lookup(*old(t), first@)), second@) is Some,
        third_level == holds_table(lookup(sub_table(lookup(*old(t), first@)), second@)),
        third_level ==> lookup(sub_table(lookup(sub_table(lookup(*old(t), first@)), second@)), third@) is Some,
        !(v is Table),
    ensures
        table_model(*final(t)) == put_leaf_model(table_model(*old(t)), first@, second@, third@, third_level, v),
{
    let ghost es0 = t.entries@;
    let j1 = find_existing(t, first);
    let v1 = t.replace_value(j1, ConfigValue::Other);
    match v1 {
        ConfigValue::Table(mut sub) => {
            let ghost ss0 = sub.entries@;
            let j2 = find_existing(&sub, second);
            if third_level {
                let v2 = sub.replace_value(j2, ConfigValue::Other);
                match v2 {
                    ConfigValue::Table(mut sub2) => {
                        let ghost tt0 = sub2.entries@;
                        let j3 = find_existing(&sub2, third);
                        let _ = sub2.replace_value(j3, v);
                        proof {
                            lemma_put_level(tt0, third@, j3 as int, v);
                        }
                        let ghost sub2_final = sub2;
                        let _ = sub.replace_value(j2, ConfigValue::Table(sub2));
                        proof {
                            assert(sub.entries@ =~= ss0.update(
                                j2 as int,
                                ConfigEntry { key: ss0[j2 as int].key, value: ConfigValue::Table(sub2_final) },
                            ));
                            lemma_put_level(ss0, second@, j2 as int, ConfigValue::Table(sub2_final));
                        }
                    },
                    _ => {
                        unreached()
                    },
                }
            } else {
                let _ = sub.replace_value(j2, v);
                proof {
                    lemma_put_level(ss0, second@, j2 as int, v);
                }
            }
            let ghost sub_final = sub;
            let _ = t.replace_value(j1, ConfigValue::Table(sub));
            proof {
                assert(t.entries@ =~= es0.update(
                    j1 as int,
                    ConfigEntry { key: es0[j1 as int].key, value: ConfigValue::Table(sub_final) },
                ));
                lemma_put_level(es0, first@, j1 as int, ConfigValue::Table(sub_final));
            }
        },
        _ => {
            unreached()
        },
    }
}

/// Whether `ChangeCurrentSetting` is defined in this state: when a leaf is
/// selected, the path to it exists.
pub fn can_change_setting(state: &MenuState, tables: &ConfigSet<ConfigTable>) -> (r: bool)
    ensures
        r == can_change(state@, tables.select(state@.config)),
{
    if !state.is_terminal() {
        return true;
    }
    let configtable = state.get_active_table(tables);
    let first = state.get_active_config(RenderingZone::ActiveFirst).to_owned();
    let second = state.get_active_config(RenderingZone::ActiveSecond).to_owned();
    let third = state.get_active_config(RenderingZone::ActiveThird).to_owned();
    match configtable.get(&first) {
        Some(ConfigValue::Table(tab)) => match tab.get(&second) {
            None => false,
            Some(ConfigValue::Table(sub)) => sub.get(&third).is_some(),
            Some(_) => true,
        },
        _ => false,
    }
}

/// A copy of a leaf value.
fn copy_leaf(v: &ConfigValue) -> (r: ConfigValue)
    requires
        !(*v is Table),
    ensures
        r == *v,
{
    match v {
        ConfigValue::Integer(x) => ConfigValue::Integer(*x),
        ConfigValue::UInteger(x) => ConfigValue::UInteger(*x),
        ConfigValue::Int(x) => ConfigValue::Int(*x),
        ConfigValue::UInt(x) => ConfigValue::UInt(*x),
        ConfigValue::Short(x) => ConfigValue::Short(*x),
        ConfigValue::UShort(x) => ConfigValue::UShort(*x),
        ConfigValue::Byte(x) => ConfigValue::Byte(*x),
        ConfigValue::UByte(x) => ConfigValue::UByte(*x),
        ConfigValue::Float(x) => ConfigValue::Float(*x),
        ConfigValue::Float32(x) => ConfigValue::Float32(*x),
        ConfigValue::Boolean(b) => ConfigValue::Boolean(*b),
        ConfigValue::Other => ConfigValue::Other,
        ConfigValue::Table(_) => unreached(),
    }
}

/// Steps the selected setting of the configuration shown, when a leaf is
/// selected: an integer or boolean is stored in the table at once, a float is
/// left for the caller to move by 0.1; says which shader or effect to reload
/// afterwards.
#[allow(non_snake_case)]
pub fn ChangeCurrentSetting(
    state: &MenuState,
    tables: &mut ConfigSet<ConfigTable>,
    op: OperationSetting,
) -> (r: SettingChange)
    requires
        can_change(state@, old(tables).select(state@.config)),
    ensures
        !state@.terminal ==> r.edit == SettingEdit::Keep && !r.third_level,
        state@.terminal ==> r.edit == stepped(selected_leaf(state@, old(tables).select(state@.config)), op)
            && r.third_level == holds_table(second_value(state@, old(tables).select(state@.config))),
        match r.result {
            Some(name) => r.edit != SettingEdit::Keep && names_reload(state@) && name@ == state@.second,
            None => !(r.edit != SettingEdit::Keep && names_reload(state@)),
        },
        (state@.config == MenuSelected::Main && r.edit != SettingEdit::Keep && (eq_ascii_nocase(
            state@.first,
            "Shaders"@,
        ) || eq_ascii_nocase(state@.first, "Effects"@))) ==> (r.result is Some
            && r.result.unwrap()@ == state@.second),
        state@.config != MenuSelected::Main ==> r.result is None,
        r.edit == SettingEdit::Keep ==> r.result is None,
        match r.edit {
            SettingEdit::Store(w) => {
                &&& table_model(final(tables).select(state@.config)) == with_leaf(
                    table_model(old(tables).select(state@.config)),
                    state@,
                    r.third_level,
                    w,
                )
                &&& forall|c: MenuSelected| c != state@.config ==> final(tables).select(c) == old(tables).select(c)
            },
            _ => *final(tables) == *old(tables),
        },
{
    if !state.is_terminal() {
        return SettingChange { edit: SettingEdit::Keep, third_level: false, result: None };
    }
    let conf = *state.get_active_mainconf();
    let first = state.get_active_config(RenderingZone::ActiveFirst).to_owned();
    let second = state.get_active_config(RenderingZone::ActiveSecond).to_owned();
    let third = state.get_active_config(RenderingZone::ActiveThird).to_owned();
    let configtable = state.get_active_table(&*tables);
    let tabled = configtable.get(&first).unwrap().as_table().unwrap().get(&second).unwrap();
    let third_level = tabled.is_table();
    let tab: &ConfigValue = if third_level {
        tabled.as_table().unwrap().get(&third).unwrap()
    } else {
        tabled
    };
    let edit = step_value(tab, op);
    let modified = match edit {
        SettingEdit::Keep => false,
        _ => true,
    };
    if let SettingEdit::Store(w) = &edit {
        let w = copy_leaf(w);
        match conf {
            MenuSelected::Main => put_leaf(&mut tables.main, &first, &second, &third, third_level, w),
            MenuSelected::Shaders => put_leaf(&mut tables.shaders, &first, &second, &third, third_level, w),
            MenuSelected::Effects => put_leaf(&mut tables.effects, &first, &second, &third, third_level, w),
        }
    }
    let mut result: Option<String> = None;
    if modified {
        if conf == MenuSelected::Main {
            if eq_ignore_ascii_case(first.as_str(), "Shaders") || eq_ignore_ascii_case(
                first.as_str(),
                "Effects",
            ) {
                result = Some(second.clone());
            }
        }
    }
    SettingChange { edit, third_level, result }
}

/// A step in one direction is undone by a step in the other, unless the
/// first step was stopped at the bound of the value's type; floats and
/// values that do not step are left to the caller.
pub proof fn law_step_reverses(v: ConfigValue, op: OperationSetting)
    ensures
        stepped(v, op) matches SettingEdit::Store(w) ==> (!at_bound(v, op) ==> stepped(
            w,
            reverse_op(op),
        ) == SettingEdit::Store(v)),
{
}

/// Flipping a boolean setting twice restores it, whichever key is pressed.
pub proof fn law_toggle_twice(b: bool, op1: OperationSetting, op2: OperationSetting)
    ensures
        stepped(ConfigValue::Boolean(b), op1) == SettingEdit::Store(ConfigValue::Boolean(!b)),
        stepped(ConfigValue::Boolean(!b), op2) == SettingEdit::Store(ConfigValue::Boolean(b)),
{
}

/// Looking up in contents after replacing the value under `k`: the new
/// value is found under `k`, and putting the old value back restores the
/// contents.
proof fn lemma_put_then_restore(m: Seq<EntryModel>, k: Seq<char>, v: ValueModel)
    requires
        model_lookup(m, k) is Some,
    ensures
        model_lookup(model_put(m, k, v), k) == Some(v),
        model_put(model_put(m, k, v), k, model_lookup(m, k).unwrap()) == m,
{
    let j = choose|j: int| crate::table::model_first_at(m, k, j);
    lemma_model_at(m, k, j, v);
}

/// A step of the selected setting, stored in the table, is undone by the
/// opposite step: when a step in direction `op` stores `w` (the setting was
/// not at the bound of its type), then in the table that holds `w` the same
/// selection is still defined, still on the same level, the opposite step
/// stores the old value, and storing it gives back the original contents.
pub proof fn law_change_then_reverse_restores(
    s: MenuView,
    t0: ConfigTable,
    t1: ConfigTable,
    op: OperationSetting,
)
    requires
        s.terminal,
        can_change(s, t0),
        !at_bound(selected_leaf(s, t0), op),
        stepped(selected_leaf(s, t0), op) is Store,
        table_model(t1) == with_leaf(
            table_model(t0),
            s,
            holds_table(second_value(s, t0)),
            stepped(selected_leaf(s, t0), op)->Store_0,
        ),
    ensures
        can_change(s, t1),
        holds_table(second_value(s, t1)) == holds_table(second_value(s, t0)),
        stepped(selected_leaf(s, t1), reverse_op(op)) == SettingEdit::Store(selected_leaf(s, t0)),
        with_leaf(table_model(t1), s, holds_table(second_value(s, t0)), selected_leaf(s, t0))
            == table_model(t0),
{
    let third = holds_table(second_value(s, t0));
    let leaf0 = selected_leaf(s, t0);
    let w = stepped(leaf0, op)->Store_0;
    let m0 = table_model(t0);
    let m1 = table_model(t1);
    // first level
    let sub0 = sub_table(lookup(t0, s.first));
    lemma_lookup_model(t0, s.first);
    let ms1 = table_model(sub0);
    assert(model_lookup(m0, s.first) == Some(ValueModel::Table(ms1)));
    let sec = model_entries(model_lookup(m0, s.first));
    assert(sec == ms1);
    lemma_lookup_model(sub0, s.second);
    let v2 = second_value(s, t0).unwrap();
    assert(model_lookup(ms1, s.second) == Some(value_model(v2)));
    let new_sec = if third {
        let thr = model_entries(model_lookup(sec, s.second));
        model_put(sec, s.second, ValueModel::Table(model_put(thr, s.field, ValueModel::Leaf(w))))
    } else {
        model_put(sec, s.second, ValueModel::Leaf(w))
    };
    assert(m1 == model_put(m0, s.first, ValueModel::Table(new_sec)));
    lemma_put_then_restore(m0, s.first, ValueModel::Table(new_sec));
    lemma_lookup_model(t1, s.first);
    let x1 = lookup(t1, s.first).unwrap();
    lemma_value_model_inj(ConfigValue::Other, x1);
    let sub1 = sub_table(lookup(t1, s.first));
    assert(table_model(sub1) == new_sec);
    lemma_lookup_model(sub1, s.second);
    if third {
        let sub02 = sub_table(Some(v2));
        let thr = model_entries(model_lookup(sec, s.second));
        assert(thr == table_model(sub02));
        lemma_lookup_model(sub02, s.field);
        assert(model_lookup(thr, s.field) == Some(value_model(leaf0)));
        assert(value_model(leaf0) == ValueModel::Leaf(leaf0));
        let new_thr = model_put(thr, s.field, ValueModel::Leaf(w));
        lemma_put_then_restore(thr, s.field, ValueModel::Leaf(w));
        lemma_put_then_restore(sec, s.second, ValueModel::Table(new_thr));
        let y = lookup(sub1, s.second).unwrap();
        lemma_value_model_inj(ConfigValue::Other, y);
        let sub12 = sub_table(Some(y));
        assert(table_model(sub12) == new_thr);
        lemma_lookup_model(sub12, s.field);
        let z = lookup(sub12, s.field).unwrap();
        lemma_value_model_inj(w, z);
        assert(z == w);
        assert(selected_leaf(s, t1) == w);
        assert(model_entries(model_lookup(m1, s.first)) == new_sec);
        assert(model_entries(model_lookup(new_sec, s.second)) == new_thr);
        assert(model_put(new_thr, s.field, ValueModel::Leaf(leaf0)) == thr);
        assert(model_put(new_sec, s.second, ValueModel::Table(thr)) == sec);
    } else {
        assert(value_model(v2) == ValueModel::Leaf(v2));
        lemma_put_then_restore(sec, s.second, ValueModel::Leaf(w));
        let y = lookup(sub1, s.second).unwrap();
        lemma_value_model_inj(w, y);
        assert(y == w);
        assert(selected_leaf(s, t1) == w);
        assert(model_entries(model_lookup(m1, s.first)) == new_sec);
        assert(model_put(new_sec, s.second, ValueModel::Leaf(leaf0)) == sec);
    }
    law_step_reverses(leaf0, op);
}

/// Every number and every boolean moves on each key press: integers of
/// every width and booleans are stored anew, floats of both widths are moved
/// by the caller; only tables and other values (strings, arrays, dates) are
/// left as they are.
pub proof fn law_every_setting_kind_steps(v: ConfigValue, op: OperationSetting)
    ensures
        (v is Float || v is Float32) ==> stepped(v, op) == SettingEdit::StepFloat,
        (v is Integer || v is UInteger || v is Int || v is UInt || v is Short || v is UShort
            || v is Byte || v is UByte || v is Boolean) ==> stepped(v, op) is Store,
        stepped(v, op) == SettingEdit::Keep <==> (v is Table || v is Other),
        stepped(v, op) matches SettingEdit::Store(w) ==> !(w is Table),
{
}

/// An integer steps by exactly one in the direction pressed, unless it is
/// already at the bound of its type, where it stays; the kind of the value
/// is kept.
pub proof fn law_integer_step_by_one(x: i64, y: u8, op: OperationSetting)
    ensures
        op == OperationSetting::Add && x < i64::MAX ==> stepped(ConfigValue::Integer(x), op)
            == SettingEdit::Store(ConfigValue::Integer((x + 1) as i64)),
        op == OperationSetting::Sub && x > i64::MIN ==> stepped(ConfigValue::Integer(x), op)
            == SettingEdit::Store(ConfigValue::Integer((x - 1) as i64)),
        op == OperationSetting::Add && y == u8::MAX ==> stepped(ConfigValue::UByte(y), op)
            == SettingEdit::Store(ConfigValue::UByte(y)),
        op == OperationSetting::Sub && y == 0 ==> stepped(ConfigValue::UByte(y), op)
            == SettingEdit::Store(ConfigValue::UByte(y)),
{
}

/// The reload rule: only a change in the main configuration names a shader
/// or effect, and it does so for a first-level key equal, ignoring ASCII
/// case, to `Shaders` or to `Effects`, and for no other key.
pub proof fn law_reload_sections(s: MenuView)
    ensures
        s.config == MenuSelected::Main && eq_ascii_nocase(s.first, "Shaders"@) ==> names_reload(s),
        s.config == MenuSelected::Main && eq_ascii_nocase(s.first, "Effects"@) ==> names_reload(s),
        s.config != MenuSelected::Main ==> !names_reload(s),
        !eq_ascii_nocase(s.first, "Shaders"@) && !eq_ascii_nocase(s.first, "Effects"@)
            ==> !names_reload(s),
{
}

/// The number an integer setting holds, with the bounds of its type.
pub open spec fn integer_with_bounds(v: ConfigValue) -> Option<(int, int, int)> {
    match v {
        ConfigValue::Integer(x) => Some((x as int, -0x8000_0000_0000_0000, 0x7fff_ffff_ffff_ffff)),
        ConfigValue::UInteger(x) => Some((x as int, 0, 0xffff_ffff_ffff_ffff)),
        ConfigValue::Int(x) => Some((x as int, -0x8000_0000, 0x7fff_ffff)),
        ConfigValue::UInt(x) => Some((x as int, 0, 0xffff_ffff)),
        ConfigValue::Short(x) => Some((x as int, -0x8000, 0x7fff)),
        ConfigValue::UShort(x) => Some((x as int, 0, 0xffff)),
        ConfigValue::Byte(x) => Some((x as int, -0x80, 0x7f)),
        ConfigValue::UByte(x) => Some((x as int, 0, 0xff)),
        _ => None,
    }
}

/// An integer setting of any width moves by exactly one in the direction
/// pressed and keeps its type; at the bound of its type it stays. A boolean
/// setting is negated.
pub proof fn law_step_by_one(v: ConfigValue, op: OperationSetting)
    ensures
        integer_with_bounds(v) matches Some((x, lo, hi)) ==> (stepped(v, op) is Store && ({
            let w = stepped(v, op)->Store_0;
            &&& integer_with_bounds(w) is Some
            &&& integer_with_bounds(w).unwrap().1 == lo
            &&& integer_with_bounds(w).unwrap().2 == hi
            &&& integer_with_bounds(w).unwrap().0 == if op == OperationSetting::Add {
                if x < hi { x + 1 } else { x }
            } else {
                if x > lo { x - 1 } else { x }
            }
        })),
        v matches ConfigValue::Boolean(b) ==> stepped(v, op) == SettingEdit::Store(
            ConfigValue::Boolean(!b),
        ),
{
}

/// Storing a setting puts the new value at the selected path and nowhere
/// else: the first-level keys stay in place, every other first-level entry is
/// unchanged, and looking up the path gives the new value.
pub proof fn law_store_hits_selected_path(m: Seq<EntryModel>, s: MenuView, third: bool, v: ConfigValue)
    requires
        model_lookup(m, s.first) matches Some(ValueModel::Table(sec)) && model_lookup(sec, s.second) is Some,
        third ==> (model_lookup(model_entries(model_lookup(m, s.first)), s.second) matches Some(
            ValueModel::Table(thr),
        ) && model_lookup(thr, s.field) is Some),
    ensures
        with_leaf(m, s, third, v).len() == m.len(),
        forall|i: int| 0 <= i < m.len() ==> (#[trigger] with_leaf(m, s, third, v)[i]).key == m[i].key,
        forall|i: int|
            0 <= i < m.len() && m[i].key != s.first ==> #[trigger] with_leaf(m, s, third, v)[i]
                == m[i],
        !third ==> model_lookup(model_entries(model_lookup(with_leaf(m, s, third, v), s.first)), s.second)
            == Some(ValueModel::Leaf(v)),
        third ==> model_lookup(
            model_entries(
                model_lookup(model_entries(model_lookup(with_leaf(m, s, third, v), s.first)), s.second),
            ),
            s.field,
        ) == Some(ValueModel::Leaf(v)),
{
    let sec = model_entries(model_lookup(m, s.first));
    let new_sec = if third {
        let thr = model_entries(model_lookup(sec, s.second));
        model_put(sec, s.second, ValueModel::Table(model_put(thr, s.field, ValueModel::Leaf(v))))
    } else {
        model_put(sec, s.second, ValueModel::Leaf(v))
    };
    let j = choose|j: int| crate::table::model_first_at(m, s.first, j);
    lemma_model_at(m, s.first, j, ValueModel::Table(new_sec));
    if third {
        let thr = model_entries(model_lookup(sec, s.second));
        lemma_put_then_restore(thr, s.field, ValueModel::Leaf(v));
        lemma_put_then_restore(sec, s.second, ValueModel::Table(model_put(thr, s.field, ValueModel::Leaf(v))));
    } else {
        lemma_put_then_restore(sec, s.second, ValueModel::Leaf(v));
    }
}

} // verus!
