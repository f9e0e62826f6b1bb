//! The settings menu: which configuration is shown and which entry of its
//! table is selected, and how the arrow keys move that selection.
use vstd::prelude::*;
use crate::table::{
    ConfigTable, ConfigValue, key_seq, lookup, holds_table, sub_table, next_key_of, prev_key_of,
    lemma_step_found, lemma_lookup_in_found, lemma_next_key_pos, lemma_prev_key_pos,
    lemma_next_key_at, lemma_prev_key_at, lemma_prev_key_absent, keys_distinct,
};

verus! {

/// A direction key pressed in the settings menu.
#[derive(PartialEq, Eq, Structural, Clone, Copy, Debug)]
pub enum MenuMove {
    Up,
    Down,
    Left,
    Right,
}

/// The configuration whose settings the menu shows.
#[derive(PartialEq, Eq, Structural, Clone, Copy, Debug)]
pub enum MenuSelected {
    Main,
    Shaders,
    Effects,
}

/// A part of the menu that is drawn, and whose selected label it shows.
#[derive(PartialEq, Eq, Structural, Clone, Copy, Debug)]
pub enum RenderingZone {
    ActiveConfig,
    ActiveFirst,
    ActiveSecond,
    ActiveThird,
    Version,
}

/// One value for each of the three configurations.
#[derive(Debug)]
pub struct ConfigSet<T> {
    pub main: T,
    pub shaders: T,
    pub effects: T,
}

impl<T> ConfigSet<T> {
    /// The member that belongs to configuration `c`.
    pub open spec fn select(&self, c: MenuSelected) -> T {
        match c {
            MenuSelected::Main => self.main,
            MenuSelected::Shaders => self.shaders,
            MenuSelected::Effects => self.effects,
        }
    }
}

/// What the menu state holds: the configuration shown, the selected key at
/// each of the three levels (empty when nothing is selected there), and
/// whether the selected entry is a leaf that can be changed.
#[verifier::ext_equal]
pub struct MenuView {
    pub config: MenuSelected,
    pub first: Seq<char>,
    pub second: Seq<char>,
    pub field: Seq<char>,
    pub terminal: bool,
}

impl MenuView {
    /// A deeper level is selected only below a selected level.
    pub open spec fn wf(self) -> bool {
        &&& self.second.len() > 0 ==> self.first.len() > 0
        &&& self.field.len() > 0 ==> self.second.len() > 0
    }
}

/// The name under which a configuration is listed in the menu header.
pub open spec fn config_name(c: MenuSelected) -> Seq<char> {
    match c {
        MenuSelected::Main => "Main"@,
        MenuSelected::Shaders => "Shaders"@,
        MenuSelected::Effects => "Effects"@,
    }
}

/// The label that is selected in zone `z`.
pub open spec fn zone_label(s: MenuView, z: RenderingZone) -> Seq<char> {
    match z {
        RenderingZone::ActiveConfig => config_name(s.config),
        RenderingZone::ActiveFirst => s.first,
        RenderingZone::ActiveSecond => s.second,
        RenderingZone::ActiveThird => s.field,
        RenderingZone::Version => ""@,
    }
}

/// The configuration reached by pressing `mov` in the header: `Right` moves
/// one tab right, any other key one tab left, stopping at either end.
pub open spec fn next_config(c: MenuSelected, mov: MenuMove) -> MenuSelected {
    if mov == MenuMove::Right {
        match c {
            MenuSelected::Main => MenuSelected::Shaders,
            MenuSelected::Shaders => MenuSelected::Effects,
            MenuSelected::Effects => MenuSelected::Effects,
        }
    } else {
        match c {
            MenuSelected::Main => MenuSelected::Main,
            MenuSelected::Shaders => MenuSelected::Main,
            MenuSelected::Effects => MenuSelected::Shaders,
        }
    }
}

/// Switching the configuration one tab right is undone by one tab left,
/// except from the last tab, and one tab left by one tab right, except from
/// the first.
pub proof fn law_next_config_undo(c: MenuSelected)
    ensures
        c != MenuSelected::Effects ==> next_config(next_config(c, MenuMove::Right), MenuMove::Left)
            == c,
        c != MenuSelected::Main ==> next_config(next_config(c, MenuMove::Left), MenuMove::Right)
            == c,
{
}

/// The key reached from `k` in `ks` by `mov`: the next one for `Down`, the
/// previous one for `Up`, none for `Left` and `Right`.
pub open spec fn step_key(ks: Seq<Seq<char>>, k: Seq<char>, mov: MenuMove) -> Option<Seq<char>> {
    match mov {
        MenuMove::Down => next_key_of(ks, k),
        MenuMove::Up => prev_key_of(ks, k),
        _ => None,
    }
}

/// The inputs on which a move is defined: the tables that it descends into
/// exist, and the tables whose first entry it selects are not empty.
pub open spec fn can_move(s: MenuView, t: ConfigTable, mov: MenuMove) -> bool {
    if s.first.len() == 0 {
        mov == MenuMove::Down ==> t.entries@.len() > 0
    } else if s.second.len() == 0 {
        mov == MenuMove::Right ==> (holds_table(lookup(t, s.first)) && sub_table(
            lookup(t, s.first),
        ).entries@.len() > 0)
    } else if s.field.len() == 0 {
        let tab = sub_table(lookup(t, s.first));
        &&& holds_table(lookup(t, s.first))
        &&& (mov == MenuMove::Right && !s.terminal) ==> (lookup(tab, s.second) is Some && (
        holds_table(lookup(tab, s.second)) ==> sub_table(lookup(tab, s.second)).entries@.len()
            > 0))
    } else {
        &&& holds_table(lookup(t, s.first))
        &&& lookup(sub_table(lookup(t, s.first)), s.second) is Some
    }
}

/// The state after pressing `mov`, where `t` is the table of the
/// configuration shown.
pub open spec fn moved(s: MenuView, t: ConfigTable, mov: MenuMove) -> MenuView {
    if s.first.len() == 0 {
        if mov == MenuMove::Left || mov == MenuMove::Right {
            MenuView { config: next_config(s.config, mov), ..s }
        } else if mov == MenuMove::Down {
            MenuView { first: t.entries@[0].key@, ..s }
        } else {
            s
        }
    } else if s.second.len() == 0 {
        if mov == MenuMove::Up || mov == MenuMove::Down {
            match step_key(key_seq(t), s.first, mov) {
                Some(k) => MenuView { first: k, ..s },
                None => if mov == MenuMove::Up {
                    MenuView { first: Seq::empty(), ..s }
                } else {
                    s
                },
            }
        } else if mov == MenuMove::Right {
            let e = sub_table(lookup(t, s.first)).entries@[0];
            MenuView { second: e.key@, terminal: !(e.value is Table), ..s }
        } else {
            s
        }
    } else if s.field.len() == 0 {
        let tab = sub_table(lookup(t, s.first));
        if mov == MenuMove::Up || mov == MenuMove::Down {
            match step_key(key_seq(tab), s.second, mov) {
                Some(k) => MenuView {
                    second: k,
                    terminal: !holds_table(lookup(tab, s.second)),
                    ..s
                },
                None => s,
            }
        } else if mov == MenuMove::Right && !s.terminal {
            if holds_table(lookup(tab, s.second)) {
                MenuView {
                    field: sub_table(lookup(tab, s.second)).entries@[0].key@,
                    terminal: false,
                    ..s
                }
            } else {
                MenuView { terminal: true, ..s }
            }
        } else if mov == MenuMove::Left {
            MenuView { second: Seq::empty(), terminal: false, ..s }
        } else {
            s
        }
    } else {
        let v = lookup(sub_table(lookup(t, s.first)), s.second);
        if holds_table(v) {
            if mov == MenuMove::Up || mov == MenuMove::Down {
                match step_key(key_seq(sub_table(v)), s.field, mov) {
                    Some(k) => MenuView { field: k, terminal: true, ..s },
                    None => s,
                }
            } else if mov == MenuMove::Left {
                MenuView { field: Seq::empty(), terminal: false, ..s }
            } else {
                s
            }
        } else {
            s
        }
    }
}

/// The navigation state of the settings menu.
pub struct MenuState {
    active_config: MenuSelected,
    active_firstnode: String,
    active_secondnode: String,
    active_field: String,
    terminal: bool,
}

impl View for MenuState {
    type V = MenuView;

    closed spec fn view(&self) -> MenuView {
        MenuView {
            config: self.active_config,
            first: self.active_firstnode@,
            second: self.active_secondnode@,
            field: self.active_field@,
            terminal: self.terminal,
        }
    }
}

impl MenuState {
    /// The state the menu opens in: the main configuration, nothing selected.
    pub fn new() -> (r: MenuState)
        ensures
            r@ == (MenuView {
                config: MenuSelected::Main,
                first: Seq::empty(),
                second: Seq::empty(),
                field: Seq::empty(),
                terminal: false,
            }),
    {
        MenuState {
            active_config: MenuSelected::Main,
            active_firstnode: String::new(),
            active_secondnode: String::new(),
            active_field: String::new(),
            terminal: false,
        }
    }

    /// The label selected in `zone`: the name of the configuration shown for
    /// the header, the selected key for each of the three levels, and the
    /// empty string for the version line.
    pub fn get_active_config(&self, zone: RenderingZone) -> (r: &str)
        ensures
            r@ == zone_label(self@, zone),
    {
        match zone {
            RenderingZone::ActiveConfig => match self.active_config {
                MenuSelected::Main => "Main",
                MenuSelected::Shaders => "Shaders",
                MenuSelected::Effects => "Effects",
            },
            RenderingZone::ActiveFirst => self.active_firstnode.as_str(),
            RenderingZone::ActiveSecond => self.active_secondnode.as_str(),
            RenderingZone::ActiveThird => self.active_field.as_str(),
            _ => "",
        }
    }

    /// The configuration shown.
    pub fn get_active_mainconf(&self) -> (r: &MenuSelected)
        ensures
            *r == self@.config,
    {
        &self.active_config
    }

    /// The member of `set` that belongs to the configuration shown.
    pub fn get_active_table<'a, T>(&self, set: &'a ConfigSet<T>) -> (r: &'a T)
        ensures
            *r == set.select(self@.config),
    {
        match self.active_config {
            MenuSelected::Main => &set.main,
            MenuSelected::Shaders => &set.shaders,
            MenuSelected::Effects => &set.effects,
        }
    }

    fn move_menu_config(&mut self, mov: MenuMove)
        ensures
            final(self)@ == (MenuView { config: next_config(old(self)@.config, mov), ..old(self)@ }),
    {
        let repl = if mov == MenuMove::Right {
            match self.active_config {
                MenuSelected::Main => MenuSelected::Shaders,
                MenuSelected::Shaders => MenuSelected::Effects,
                MenuSelected::Effects => MenuSelected::Effects,
            }
        } else {
            match self.active_config {
                MenuSelected::Main => MenuSelected::Main,
                MenuSelected::Shaders => MenuSelected::Main,
                MenuSelected::Effects => MenuSelected::Shaders,
            }
        };
        self.active_config = repl;
    }

    fn get_next_state_key<'a>(&self, mov: &MenuMove, table: &'a ConfigTable, active_node: &String) -> (r: Option<&'a String>)
        ensures
            match r {
                Some(k) => step_key(key_seq(*table), active_node@, *mov) == Some(k@),
                None => step_key(key_seq(*table), active_node@, *mov) is None,
            },
    {
        let ghost ks = key_seq(*table);
        let n = table.entries.len();
        if *mov == MenuMove::Down {
            let mut found = false;
            let mut el: Option<&String> = None;
            let mut i: usize = 0;
            while i < n
                invariant
                    n == table.entries@.len(),
                    ks == key_seq(*table),
                    i <= n,
                    found == (i > 0 && ks[i - 1] == active_node@),
                    match el {
                        Some(k) => next_key_of(ks.take(i as int), active_node@) == Some(k@),
                        None => next_key_of(ks.take(i as int), active_node@) is None,
                    },
                decreases n - i,
            {
                assert(ks.take(i + 1).drop_last() =~= ks.take(i as int));
                let key = &table.entries[i].key;
                if found {
                    el = Some(key);
                }
                found = *active_node == *key;
                i = i + 1;
            }
            assert(ks.take(n as int) =~= ks);
            el
        } else if *mov == MenuMove::Up {
            let mut found = false;
            let mut el: Option<&String> = None;
            let mut i: usize = n;
            assert(ks.skip(n as int) =~= Seq::<Seq<char>>::empty());
            while i > 0
                invariant
                    n == table.entries@.len(),
                    ks == key_seq(*table),
                    i <= n,
                    found == (i < n && ks[i as int] == active_node@),
                    match el {
                        Some(k) => prev_key_of(ks.skip(i as int), active_node@) == Some(k@),
                        None => prev_key_of(ks.skip(i as int), active_node@) is None,
                    },
                decreases i,
            {
                assert(ks.skip(i - 1).drop_first() =~= ks.skip(i as int));
                let key = &table.entries[i - 1].key;
                if found {
                    el = Some(key);
                }
                found = *active_node == *key;
                i = i - 1;
            }
            assert(ks.skip(0) =~= ks);
            el
        } else {
            None
        }
    }

    /// Whether the selected entry is a leaf whose value can be changed.
    pub fn is_terminal(&self) -> (r: bool)
        ensures
            r == self@.terminal,
    {
        self.terminal
    }

    /// Whether `move_menu_active_field` is defined for `mov` in this state:
    /// the tables it descends into exist and those it enters are not empty.
    pub fn can_move_active_field(&self, mov: MenuMove, tables: &ConfigSet<ConfigTable>) -> (r: bool)
        ensures
            r == can_move(self@, tables.select(self@.config), mov),
    {
        let table = self.get_active_table(tables);
        if self.active_firstnode.as_str().is_empty() {
            mov != MenuMove::Down || table.entries.len() > 0
        } else if self.active_secondnode.as_str().is_empty() {
            if mov != MenuMove::Right {
                true
            } else {
                match table.get(&self.active_firstnode) {
                    Some(ConfigValue::Table(sub)) => sub.entries.len() > 0,
                    _ => false,
                }
            }
        } else if self.active_field.as_str().is_empty() {
            match table.get(&self.active_firstnode) {
                Some(ConfigValue::Table(tab)) => {
                    if mov == MenuMove::Right && !self.terminal {
                        match tab.get(&self.active_secondnode) {
                            None => false,
                            Some(ConfigValue::Table(sub)) => sub.entries.len() > 0,
                            Some(_) => true,
                        }
                    } else {
                        true
                    }
                },
                _ => false,
            }
        } else {
            match table.get(&self.active_firstnode) {
                Some(ConfigValue::Table(tab)) => tab.get(&self.active_secondnode).is_some(),
                _ => false,
            }
        }
    }

    /// Moves the selection by one key press, over the table of the
    /// configuration shown.
    pub fn move_menu_active_field(&mut self, mov: MenuMove, tables: &ConfigSet<ConfigTable>)
        requires
            can_move(old(self)@, tables.select(old(self)@.config), mov),
        ensures
            final(self)@ == moved(old(self)@, tables.select(old(self)@.config), mov),
            old(self)@.wf() ==> final(self)@.wf(),
    {
        let table = self.get_active_table(tables);
        if self.active_firstnode.as_str().is_empty() {
            if mov == MenuMove::Left || mov == MenuMove::Right {
                self.move_menu_config(mov);
            } else if mov == MenuMove::Down {
                self.active_firstnode = table.entries[0].key.clone();
            }
        } else if self.active_secondnode.as_str().is_empty() {
            if mov == MenuMove::Up || mov == MenuMove::Down {
                match self.get_next_state_key(&mov, table, &self.active_firstnode) {
                    None => {
                        if mov == MenuMove::Up {
                            self.active_firstnode = String::new();
                        }
                    },
                    Some(el) => {
                        self.active_firstnode = el.clone();
                    },
                }
            } else if mov == MenuMove::Right {
                let t = table.get(&self.active_firstnode).unwrap().as_table().unwrap();
                let activ = &t.entries[0];
                let act_key = activ.key.clone();
                let termin = !activ.value.is_table();
                self.active_secondnode = act_key;
                self.terminal = termin;
            }
        } else if self.active_field.as_str().is_empty() {
            let tab = table.get(&self.active_firstnode).unwrap().as_table().unwrap();
            if mov == MenuMove::Up || mov == MenuMove::Down {
                match self.get_next_state_key(&mov, tab, &self.active_secondnode) {
                    None => {},
                    Some(el) => {
                        proof {
                            lemma_step_found(*tab, self.active_secondnode@, mov == MenuMove::Down);
                        }
                        let b = !tab.get(&self.active_secondnode).unwrap().is_table();
                        self.active_secondnode = el.clone();
                        self.terminal = b;
                    },
                }
            } else if mov == MenuMove::Right && !self.terminal {
                let t = tab.get(&self.active_secondnode).unwrap();
                if t.is_table() {
                    self.active_field = t.as_table().unwrap().entries[0].key.clone();
                    self.terminal = false;
                } else {
                    self.terminal = true;
                }
            } else if mov == MenuMove::Left {
                self.active_secondnode = String::new();
                self.terminal = false;
            }
        } else {
            let tabl = table.get(&self.active_firstnode).unwrap().as_table().unwrap().get(
                &self.active_secondnode,
            ).unwrap();
            if tabl.is_table() {
                let tab = tabl.as_table().unwrap();
                if mov == MenuMove::Up || mov == MenuMove::Down {
                    match self.get_next_state_key(&mov, tab, &self.active_field) {
                        None => {},
                        Some(el) => {
                            self.active_field = el.clone();
                            self.terminal = true;
                        },
                    }
                } else if mov == MenuMove::Left {
                    self.active_field = String::new();
                    self.terminal = false;
                }
            }
        }
    }
}

/// Every selected key names an entry that exists: the first-level key in the
/// table shown, the second-level key in the table under the first, and the
/// third-level key in the table under the second.
pub open spec fn path_in(s: MenuView, t: ConfigTable) -> bool {
    let tab = sub_table(lookup(t, s.first));
    &&& s.first.len() > 0 ==> lookup(t, s.first) is Some
    &&& s.second.len() > 0 ==> (holds_table(lookup(t, s.first)) && lookup(tab, s.second) is Some)
    &&& s.field.len() > 0 ==> (holds_table(lookup(tab, s.second)) && lookup(
        sub_table(lookup(tab, s.second)),
        s.field,
    ) is Some)
}

/// A move keeps the selection inside the tables: from a well-formed state
/// whose selected keys all exist, every defined move reaches a state whose
/// selected keys all exist in the table of the configuration then shown.
pub proof fn law_move_keeps_path(s: MenuView, set: ConfigSet<ConfigTable>, mov: MenuMove)
    requires
        s.wf(),
        path_in(s, set.select(s.config)),
        can_move(s, set.select(s.config), mov),
    ensures
        moved(s, set.select(s.config), mov).wf(),
        path_in(moved(s, set.select(s.config), mov), set.select(moved(s, set.select(s.config), mov).config)),
{
    let t = set.select(s.config);
    let r = moved(s, t, mov);
    if s.first.len() == 0 {
        if mov == MenuMove::Down {
            lemma_lookup_in_found(t.entries@, t.entries@[0].key@, 0);
        }
    } else if s.second.len() == 0 {
        if mov == MenuMove::Up || mov == MenuMove::Down {
            if step_key(key_seq(t), s.first, mov) is Some {
                lemma_step_found(t, s.first, mov == MenuMove::Down);
            }
        } else if mov == MenuMove::Right {
            let sub = sub_table(lookup(t, s.first));
            lemma_lookup_in_found(sub.entries@, sub.entries@[0].key@, 0);
        }
    } else if s.field.len() == 0 {
        let tab = sub_table(lookup(t, s.first));
        if mov == MenuMove::Up || mov == MenuMove::Down {
            if step_key(key_seq(tab), s.second, mov) is Some {
                lemma_step_found(tab, s.second, mov == MenuMove::Down);
            }
        } else if mov == MenuMove::Right && !s.terminal {
            if holds_table(lookup(tab, s.second)) {
                let sub = sub_table(lookup(tab, s.second));
                lemma_lookup_in_found(sub.entries@, sub.entries@[0].key@, 0);
            }
        }
    } else {
        let v = lookup(sub_table(lookup(t, s.first)), s.second);
        if holds_table(v) && (mov == MenuMove::Up || mov == MenuMove::Down) {
            if step_key(key_seq(sub_table(v)), s.field, mov) is Some {
                lemma_step_found(sub_table(v), s.field, mov == MenuMove::Down);
            }
        }
    }
}

/// In the header, `Left` undoes `Right` except on the last tab, and `Right`
/// undoes `Left` except on the first tab.
pub proof fn law_header_moves_undo(s: MenuView, set: ConfigSet<ConfigTable>)
    requires
        s.first.len() == 0,
    ensures
        s.config != MenuSelected::Effects ==> ({
            let r = moved(s, set.select(s.config), MenuMove::Right);
            moved(r, set.select(r.config), MenuMove::Left) == s
        }),
        s.config != MenuSelected::Main ==> ({
            let l = moved(s, set.select(s.config), MenuMove::Left);
            moved(l, set.select(l.config), MenuMove::Right) == s
        }),
{
    let r = moved(s, set.select(s.config), MenuMove::Right);
    let l = moved(s, set.select(s.config), MenuMove::Left);
    assert(moved(r, set.select(r.config), MenuMove::Left) =~= MenuView { config: next_config(r.config, MenuMove::Left), ..s });
    assert(moved(l, set.select(l.config), MenuMove::Right) =~= MenuView { config: next_config(l.config, MenuMove::Right), ..s });
}

/// On the first level, `Up` undoes `Down` and `Down` undoes `Up` whenever
/// the move lands on another (non-empty) key of a table with distinct keys.
pub proof fn law_first_level_down_up(s: MenuView, t: ConfigTable)
    requires
        keys_distinct(t),
        s.first.len() > 0,
        s.second.len() == 0,
    ensures
        (next_key_of(key_seq(t), s.first) matches Some(k) && k.len() > 0) ==> moved(
            moved(s, t, MenuMove::Down),
            t,
            MenuMove::Up,
        ) == s,
        (prev_key_of(key_seq(t), s.first) matches Some(k) && k.len() > 0) ==> moved(
            moved(s, t, MenuMove::Up),
            t,
            MenuMove::Down,
        ) == s,
{
    let ks = key_seq(t);
    if next_key_of(ks, s.first) is Some && next_key_of(ks, s.first).unwrap().len() > 0 {
        let j = lemma_next_key_pos(ks, s.first);
        lemma_prev_key_at(ks, j + 1);
        let d = moved(s, t, MenuMove::Down);
        assert(moved(d, t, MenuMove::Up) =~= s);
    }
    if prev_key_of(ks, s.first) is Some && prev_key_of(ks, s.first).unwrap().len() > 0 {
        let j = lemma_prev_key_pos(ks, s.first);
        lemma_next_key_at(ks, j - 1);
        let u = moved(s, t, MenuMove::Up);
        assert(moved(u, t, MenuMove::Down) =~= s);
    }
}

/// `Up` from the first entry of the first level returns to the header, and
/// `Down` from there selects that entry again.
pub proof fn law_up_from_top_and_back(s: MenuView, t: ConfigTable)
    requires
        keys_distinct(t),
        t.entries@.len() > 0,
        s.first == t.entries@[0].key@,
        s.first.len() > 0,
        s.second.len() == 0,
    ensures
        moved(s, t, MenuMove::Up) == (MenuView { first: Seq::empty(), ..s }),
        moved(moved(s, t, MenuMove::Up), t, MenuMove::Down) == s,
{
    let ks = key_seq(t);
    assert(ks[0] == s.first);
    assert forall|j: int| 1 <= j < ks.len() implies ks[j] != s.first by {
        assert(ks.no_duplicates());
        assert(ks[j] != ks[0]);
    }
    lemma_prev_key_absent(ks, s.first);
    let u = moved(s, t, MenuMove::Up);
    assert(u =~= MenuView { first: Seq::empty(), ..s });
    assert(moved(u, t, MenuMove::Down) =~= s);
}

/// On the second level, `Up` after `Down` (and `Down` after `Up`) selects
/// the same key again; only the leaf flag may differ.
pub proof fn law_second_level_down_up(s: MenuView, t: ConfigTable)
    requires
        keys_distinct(sub_table(lookup(t, s.first))),
        s.first.len() > 0,
        s.second.len() > 0,
        s.field.len() == 0,
    ensures
        (next_key_of(key_seq(sub_table(lookup(t, s.first))), s.second) matches Some(k) && k.len()
            > 0) ==> moved(moved(s, t, MenuMove::Down), t, MenuMove::Up) == (MenuView {
            terminal: moved(moved(s, t, MenuMove::Down), t, MenuMove::Up).terminal,
            ..s
        }),
        (prev_key_of(key_seq(sub_table(lookup(t, s.first))), s.second) matches Some(k) && k.len()
            > 0) ==> moved(moved(s, t, MenuMove::Up), t, MenuMove::Down) == (MenuView {
            terminal: moved(moved(s, t, MenuMove::Up), t, MenuMove::Down).terminal,
            ..s
        }),
{
    let ks = key_seq(sub_table(lookup(t, s.first)));
    if next_key_of(ks, s.second) is Some && next_key_of(ks, s.second).unwrap().len() > 0 {
        let j = lemma_next_key_pos(ks, s.second);
        lemma_prev_key_at(ks, j + 1);
        let d = moved(s, t, MenuMove::Down);
        let r = moved(d, t, MenuMove::Up);
        assert(r =~= MenuView { terminal: r.terminal, ..s });
    }
    if prev_key_of(ks, s.second) is Some && prev_key_of(ks, s.second).unwrap().len() > 0 {
        let j = lemma_prev_key_pos(ks, s.second);
        lemma_next_key_at(ks, j - 1);
        let u = moved(s, t, MenuMove::Up);
        let r = moved(u, t, MenuMove::Down);
        assert(r =~= MenuView { terminal: r.terminal, ..s });
    }
}

/// On the third level, `Up` undoes `Down` and `Down` undoes `Up` whenever
/// the move lands on another (non-empty) key; the entry is then a leaf.
pub proof fn law_third_level_down_up(s: MenuView, t: ConfigTable)
    requires
        holds_table(lookup(sub_table(lookup(t, s.first)), s.second)),
        keys_distinct(sub_table(lookup(sub_table(lookup(t, s.first)), s.second))),
        s.first.len() > 0,
        s.second.len() > 0,
        s.field.len() > 0,
    ensures
        (next_key_of(
            key_seq(sub_table(lookup(sub_table(lookup(t, s.first)), s.second))),
            s.field,
        ) matches Some(k) && k.len() > 0) ==> moved(moved(s, t, MenuMove::Down), t, MenuMove::Up)
            == (MenuView { terminal: true, ..s }),
        (prev_key_of(
            key_seq(sub_table(lookup(sub_table(lookup(t, s.first)), s.second))),
            s.field,
        ) matches Some(k) && k.len() > 0) ==> moved(moved(s, t, MenuMove::Up), t, MenuMove::Down)
            == (MenuView { terminal: true, ..s }),
{
    let ks = key_seq(sub_table(lookup(sub_table(lookup(t, s.first)), s.second)));
    if next_key_of(ks, s.field) is Some && next_key_of(ks, s.field).unwrap().len() > 0 {
        let j = lemma_next_key_pos(ks, s.field);
        lemma_prev_key_at(ks, j + 1);
        let d = moved(s, t, MenuMove::Down);
        assert(moved(d, t, MenuMove::Up) =~= MenuView { terminal: true, ..s });
    }
    if prev_key_of(ks, s.field) is Some && prev_key_of(ks, s.field).unwrap().len() > 0 {
        let j = lemma_prev_key_pos(ks, s.field);
        lemma_next_key_at(ks, j - 1);
        let u = moved(s, t, MenuMove::Up);
        assert(moved(u, t, MenuMove::Down) =~= MenuView { terminal: true, ..s });
    }
}

/// `Left` undoes `Right`: entering the table under the first-level key and
/// leaving it again restores the state, with the leaf flag cleared; entering
/// the table under a second-level key and leaving it restores the state.
pub proof fn law_right_then_left(s: MenuView, t: ConfigTable)
    ensures
        (s.wf() && s.first.len() > 0 && s.second.len() == 0 && can_move(s, t, MenuMove::Right)
            && sub_table(lookup(t, s.first)).entries@[0].key@.len() > 0) ==> moved(
            moved(s, t, MenuMove::Right),
            t,
            MenuMove::Left,
        ) == (MenuView { terminal: false, ..s }),
        (s.first.len() > 0 && s.second.len() > 0 && s.field.len() == 0 && !s.terminal
            && can_move(s, t, MenuMove::Right) && holds_table(
            lookup(sub_table(lookup(t, s.first)), s.second),
        ) && sub_table(lookup(sub_table(lookup(t, s.first)), s.second)).entries@[0].key@.len()
            > 0) ==> moved(moved(s, t, MenuMove::Right), t, MenuMove::Left) == s,
{
    let r = moved(s, t, MenuMove::Right);
    if s.wf() && s.first.len() > 0 && s.second.len() == 0 && can_move(s, t, MenuMove::Right) && sub_table(
        lookup(t, s.first),
    ).entries@[0].key@.len() > 0 {
        assert(moved(r, t, MenuMove::Left) =~= MenuView { terminal: false, ..s });
    }
    if s.first.len() > 0 && s.second.len() > 0 && s.field.len() == 0 && !s.terminal && holds_table(
        lookup(sub_table(lookup(t, s.first)), s.second),
    ) && sub_table(lookup(sub_table(lookup(t, s.first)), s.second)).entries@[0].key@.len() > 0 {
        assert(moved(r, t, MenuMove::Left) =~= s);
    }
}

/// At the ends of a list the selection does not leave it: on each level,
/// `Down` on the last key and `Up` on the first key leave the state as it
/// is, except that `Up` on the first key of the first level goes back to the
/// header.
pub proof fn law_moves_at_ends(s: MenuView, t: ConfigTable)
    ensures
        (s.first.len() > 0 && s.second.len() == 0 && next_key_of(key_seq(t), s.first) is None)
            ==> moved(s, t, MenuMove::Down) == s,
        (s.first.len() > 0 && s.second.len() == 0 && prev_key_of(key_seq(t), s.first) is None)
            ==> moved(s, t, MenuMove::Up) == (MenuView { first: Seq::empty(), ..s }),
        (s.first.len() > 0 && s.second.len() > 0 && s.field.len() == 0 && next_key_of(
            key_seq(sub_table(lookup(t, s.first))),
            s.second,
        ) is None) ==> moved(s, t, MenuMove::Down) == s,
        (s.first.len() > 0 && s.second.len() > 0 && s.field.len() == 0 && prev_key_of(
            key_seq(sub_table(lookup(t, s.first))),
            s.second,
        ) is None) ==> moved(s, t, MenuMove::Up) == s,
        (s.first.len() > 0 && s.second.len() > 0 && s.field.len() > 0 && next_key_of(
            key_seq(sub_table(lookup(sub_table(lookup(t, s.first)), s.second))),
            s.field,
        ) is None) ==> moved(s, t, MenuMove::Down) == s,
        (s.first.len() > 0 && s.second.len() > 0 && s.field.len() > 0 && prev_key_of(
            key_seq(sub_table(lookup(sub_table(lookup(t, s.first)), s.second))),
            s.field,
        ) is None) ==> moved(s, t, MenuMove::Up) == s,
{
}

/// A move on a level changes only that level's key and the leaf flag: the
/// configuration and the keys above stay, and `Up`/`Down` on a level never
/// change the keys below it.
pub proof fn law_vertical_moves_stay_on_level(s: MenuView, t: ConfigTable, mov: MenuMove)
    requires
        mov == MenuMove::Up || mov == MenuMove::Down,
        s.first.len() > 0,
    ensures
        moved(s, t, mov).config == s.config,
        s.second.len() > 0 ==> moved(s, t, mov).first == s.first,
        s.second.len() > 0 && s.field.len() == 0 ==> moved(s, t, mov).field == s.field,
        s.field.len() > 0 ==> moved(s, t, mov).second == s.second,
        s.second.len() == 0 ==> moved(s, t, mov).second == s.second && moved(s, t, mov).field
            == s.field && moved(s, t, mov).terminal == s.terminal,
{
}

/// The header tabs are in the order Main, Shaders, Effects: `Right` moves
/// one tab right and `Left` one tab left, stopping at either end.
pub proof fn law_tab_order()
    ensures
        next_config(MenuSelected::Main, MenuMove::Right) == MenuSelected::Shaders,
        next_config(MenuSelected::Shaders, MenuMove::Right) == MenuSelected::Effects,
        next_config(MenuSelected::Effects, MenuMove::Right) == MenuSelected::Effects,
        next_config(MenuSelected::Main, MenuMove::Left) == MenuSelected::Main,
        next_config(MenuSelected::Shaders, MenuMove::Left) == MenuSelected::Main,
        next_config(MenuSelected::Effects, MenuMove::Left) == MenuSelected::Shaders,
{
}

/// `Down` selects the key right after the selected one, and `Up` the key
/// right before it, on whichever level the selection is (over distinct keys).
pub proof fn law_vertical_moves_by_position(s: MenuView, t: ConfigTable, j: int)
    ensures
        (s.first.len() > 0 && s.second.len() == 0 && keys_distinct(t) && 0 <= j < key_seq(t).len()
            && key_seq(t)[j] == s.first) ==> ({
            &&& j + 1 < key_seq(t).len() ==> moved(s, t, MenuMove::Down) == (MenuView {
                first: key_seq(t)[j + 1],
                ..s
            })
            &&& j > 0 ==> moved(s, t, MenuMove::Up) == (MenuView { first: key_seq(t)[j - 1], ..s })
        }),
        ({
            let tab = sub_table(lookup(t, s.first));
            (s.first.len() > 0 && s.second.len() > 0 && s.field.len() == 0 && keys_distinct(tab)
                && 0 <= j < key_seq(tab).len() && key_seq(tab)[j] == s.second) ==> ({
                &&& j + 1 < key_seq(tab).len() ==> moved(s, t, MenuMove::Down).second
                    == key_seq(tab)[j + 1]
                &&& j > 0 ==> moved(s, t, MenuMove::Up).second == key_seq(tab)[j - 1]
            })
        }),
        ({
            let v = lookup(sub_table(lookup(t, s.first)), s.second);
            let sub = sub_table(v);
            (s.first.len() > 0 && s.second.len() > 0 && s.field.len() > 0 && holds_table(v)
                && keys_distinct(sub) && 0 <= j < key_seq(sub).len() && key_seq(sub)[j] == s.field)
                ==> ({
                &&& j + 1 < key_seq(sub).len() ==> moved(s, t, MenuMove::Down) == (MenuView {
                    field: key_seq(sub)[j + 1],
                    terminal: true,
                    ..s
                })
                &&& j > 0 ==> moved(s, t, MenuMove::Up) == (MenuView {
                    field: key_seq(sub)[j - 1],
                    terminal: true,
                    ..s
                })
            })
        }),
{
    let ks = key_seq(t);
    if s.first.len() > 0 && s.second.len() == 0 && keys_distinct(t) && 0 <= j < ks.len() && ks[j]
        == s.first {
        if j + 1 < ks.len() {
            lemma_next_key_at(ks, j);
            assert(moved(s, t, MenuMove::Down) =~= MenuView { first: ks[j + 1], ..s });
        }
        if j > 0 {
            lemma_prev_key_at(ks, j);
            assert(moved(s, t, MenuMove::Up) =~= MenuView { first: ks[j - 1], ..s });
        }
    }
    let tab = sub_table(lookup(t, s.first));
    let ks2 = key_seq(tab);
    if s.first.len() > 0 && s.second.len() > 0 && s.field.len() == 0 && keys_distinct(tab) && 0
        <= j < ks2.len() && ks2[j] == s.second {
        if j + 1 < ks2.len() {
            lemma_next_key_at(ks2, j);
        }
        if j > 0 {
            lemma_prev_key_at(ks2, j);
        }
    }
    let v = lookup(tab, s.second);
    let sub = sub_table(v);
    let ks3 = key_seq(sub);
    if s.first.len() > 0 && s.second.len() > 0 && s.field.len() > 0 && holds_table(v)
        && keys_distinct(sub) && 0 <= j < ks3.len() && ks3[j] == s.field {
        if j + 1 < ks3.len() {
            lemma_next_key_at(ks3, j);
            assert(moved(s, t, MenuMove::Down) =~= MenuView { field: ks3[j + 1], terminal: true, ..s });
        }
        if j > 0 {
            lemma_prev_key_at(ks3, j);
            assert(moved(s, t, MenuMove::Up) =~= MenuView { field: ks3[j - 1], terminal: true, ..s });
        }
    }
}

/// `Right` descends into the first entry of the table under the selection:
/// from the first level it selects that table's first key and marks it a
/// leaf exactly when its value is not a table; from the second level, on a
/// key that is not a leaf, it selects the first key of the table under it,
/// or marks the key a leaf when its value is not a table. `Left` goes back
/// up one level and clears the leaf flag.
pub proof fn law_right_and_left(s: MenuView, t: ConfigTable)
    ensures
        ({
            let sub = sub_table(lookup(t, s.first));
            (s.first.len() > 0 && s.second.len() == 0 && sub.entries@.len() > 0) ==> moved(
                s,
                t,
                MenuMove::Right,
            ) == (MenuView {
                second: sub.entries@[0].key@,
                terminal: !(sub.entries@[0].value is Table),
                ..s
            })
        }),
        ({
            let v = lookup(sub_table(lookup(t, s.first)), s.second);
            (s.first.len() > 0 && s.second.len() > 0 && s.field.len() == 0 && !s.terminal) ==> ({
                &&& (holds_table(v) && sub_table(v).entries@.len() > 0) ==> moved(
                    s,
                    t,
                    MenuMove::Right,
                ) == (MenuView { field: sub_table(v).entries@[0].key@, terminal: false, ..s })
                &&& (v is Some && !holds_table(v)) ==> moved(s, t, MenuMove::Right) == (
                MenuView { terminal: true, ..s })
            })
        }),
        (s.first.len() > 0 && s.second.len() > 0 && s.field.len() == 0) ==> moved(
            s,
            t,
            MenuMove::Left,
        ) == (MenuView { second: Seq::empty(), terminal: false, ..s }),
        (s.first.len() > 0 && s.second.len() > 0 && s.field.len() > 0 && holds_table(
            lookup(sub_table(lookup(t, s.first)), s.second),
        )) ==> moved(s, t, MenuMove::Left) == (MenuView { field: Seq::empty(), terminal: false, ..s }),
        (s.first.len() > 0 && s.second.len() == 0) ==> moved(s, t, MenuMove::Left) == s,
        (s.first.len() == 0 && t.entries@.len() > 0) ==> moved(s, t, MenuMove::Down) == (MenuView {
            first: t.entries@[0].key@,
            ..s
        }),
{
}

} // verus!
