//! Layout of the settings menu: where each label goes, in which colour,
//! and in which order the labels are drawn.
use vstd::prelude::*;
use vstd::string::*;
use crate::menu::{ConfigSet, MenuSelected, MenuState, MenuView, RenderingZone, zone_label};
use crate::text::ascii_lower_code;
use crate::text::{eq_ascii_nocase, eq_ignore_ascii_case};
use crate::reflect::{FieldKind, ReflectedField, ReflectedStruct, field_named, struct_of};

verus! {

/// Left edge of the menu.
#[allow(non_upper_case_globals)]
pub const PositionX: i32 = 60;

/// Top edge of the menu.
#[allow(non_upper_case_globals)]
pub const PositionY: i32 = 120;

/// Width of one menu column.
#[allow(non_upper_case_globals)]
pub const TitleColumnSize: i32 = 450;

/// Height of one menu row.
#[allow(non_upper_case_globals)]
pub const TextSize: i32 = 22;

/// A screen rectangle.
#[derive(Clone, Copy, PartialEq, Eq, Structural, Debug)]
pub struct Rect {
    pub left: i32,
    pub top: i32,
    pub right: i32,
    pub bottom: i32,
}

/// How a label is aligned in its rectangle.
#[derive(Clone, Copy, PartialEq, Eq, Structural, Debug)]
pub enum Align {
    Left,
    Center,
    Right,
}

/// One label to draw.
#[derive(Debug)]
pub struct DrawCommand {
    pub text: String,
    pub rect: Rect,
    pub color: (u32, u32, u32),
    pub align: Align,
}

/// What a draw command holds.
pub struct DrawSpec {
    pub text: Seq<char>,
    pub rect: Rect,
    pub color: (u32, u32, u32),
    pub align: Align,
}

impl View for DrawCommand {
    type V = DrawSpec;

    open spec fn view(&self) -> DrawSpec {
        DrawSpec { text: self.text@, rect: self.rect, color: self.color, align: self.align }
    }
}

/// The colour of the selected label.
pub open spec fn active_color() -> (u32, u32, u32) {
    (10, 240, 180)
}

/// The colour of every other label.
pub open spec fn normal_color() -> (u32, u32, u32) {
    (250, 240, 180)
}

/// Whether zone `z` is the one the selection is in: the header while no
/// first-level key is selected, each level while nothing below it is
/// selected, the third level always, the version line never.
pub open spec fn zone_active(s: MenuView, z: RenderingZone) -> bool {
    match z {
        RenderingZone::ActiveConfig => s.first.len() == 0,
        RenderingZone::ActiveFirst => s.second.len() == 0,
        RenderingZone::ActiveSecond => s.field.len() == 0,
        RenderingZone::ActiveThird => true,
        RenderingZone::Version => false,
    }
}

/// A label in zone `z` is highlighted when the zone is active and the label
/// matches the selection there, ignoring ASCII case.
pub open spec fn highlighted(s: MenuView, z: RenderingZone, label: Seq<char>) -> bool {
    zone_active(s, z) && eq_ascii_nocase(zone_label(s, z), label)
}

/// The colour of a label in zone `z`.
pub open spec fn label_color(s: MenuView, z: RenderingZone, label: Seq<char>) -> (u32, u32, u32) {
    if highlighted(s, z, label) {
        active_color()
    } else {
        normal_color()
    }
}

/// The command that draws `text` in `rect`.
pub open spec fn drawn(rect: Rect, s: MenuView, text: Seq<char>, align: Align, z: RenderingZone) -> DrawSpec {
    DrawSpec { text, rect, color: label_color(s, z, text), align }
}

/// The command that draws `arg = opt` in `rect`, highlighted by `arg`.
pub open spec fn drawn_opt(
    rect: Rect,
    s: MenuView,
    arg: Seq<char>,
    opt: Seq<char>,
    align: Align,
    z: RenderingZone,
) -> DrawSpec {
    DrawSpec { text: arg + " = "@ + opt, rect, color: label_color(s, z, arg), align }
}

/// The rectangle one row below `r`.
pub open spec fn row_below(r: Rect) -> Rect {
    Rect { left: r.left, top: r.bottom, right: r.right, bottom: (r.bottom + TextSize) as i32 }
}

/// The rectangle one column right of `r`.
pub open spec fn column_right(r: Rect) -> Rect {
    Rect { left: r.right, top: r.top, right: (r.right + TitleColumnSize) as i32, bottom: r.bottom }
}

/// What a menu cursor holds: the rectangle it draws into and the one saved.
pub struct MenuRectView {
    pub rect: Rect,
    pub save_rect: Rect,
}

/// The cursor that walks the menu's rows and columns.
pub struct MenuRect {
    rect: Rect,
    save_rect: Rect,
}

impl View for MenuRect {
    type V = MenuRectView;

    closed spec fn view(&self) -> MenuRectView {
        MenuRectView { rect: self.rect, save_rect: self.save_rect }
    }
}

/// One operation on a cursor between a save and a restore.
pub enum CursorStep {
    /// `next_row`.
    Row,
    /// `next_column`.
    Column,
    /// `draw` or `draw_opt`, which leave the cursor as it is.
    Draw,
}

/// The cursor after the given operations.
pub open spec fn run_steps(v: MenuRectView, steps: Seq<CursorStep>) -> MenuRectView
    decreases steps.len(),
{
    if steps.len() == 0 {
        v
    } else {
        let w = match steps[0] {
            CursorStep::Row => MenuRectView { rect: row_below(v.rect), save_rect: v.save_rect },
            CursorStep::Column => MenuRectView { rect: column_right(v.rect), save_rect: v.save_rect },
            CursorStep::Draw => v,
        };
        run_steps(w, steps.drop_first())
    }
}

/// `restore` after any rows, columns and draws goes back to the rectangle
/// saved last: none of these operations touches the saved rectangle.
pub proof fn law_restore_returns_to_save(v: MenuRectView, steps: Seq<CursorStep>)
    ensures
        run_steps(v, steps).save_rect == v.save_rect,
    decreases steps.len(),
{
    if steps.len() > 0 {
        let w = match steps[0] {
            CursorStep::Row => MenuRectView { rect: row_below(v.rect), save_rect: v.save_rect },
            CursorStep::Column => MenuRectView { rect: column_right(v.rect), save_rect: v.save_rect },
            CursorStep::Draw => v,
        };
        law_restore_returns_to_save(w, steps.drop_first());
    }
}

impl MenuRect {
    /// A cursor at the empty rectangle at the origin.
    pub fn new() -> (r: MenuRect)
        ensures
            r@.rect == (Rect { left: 0, top: 0, right: 0, bottom: 0 }),
            r@.save_rect == (Rect { left: 0, top: 0, right: 0, bottom: 0 }),
    {
        MenuRect {
            rect: Rect { left: 0, top: 0, right: 0, bottom: 0 },
            save_rect: Rect { left: 0, top: 0, right: 0, bottom: 0 },
        }
    }

    /// A cursor at the given rectangle, which is also the one saved.
    pub fn new_with_coords(left: i32, top: i32, right: i32, bottom: i32) -> (r: MenuRect)
        ensures
            r@.rect == (Rect { left, top, right, bottom }),
            r@.save_rect == (Rect { left, top, right, bottom }),
    {
        MenuRect {
            rect: Rect { left, top, right, bottom },
            save_rect: Rect { left, top, right, bottom },
        }
    }

    /// Moves the cursor down one row.
    pub fn next_row(&mut self)
        requires
            old(self)@.rect.bottom + TextSize <= i32::MAX,
        ensures
            final(self)@.rect == row_below(old(self)@.rect),
            final(self)@.save_rect == old(self)@.save_rect,
    {
        let r = self.rect;
        self.rect = Rect { left: r.left, top: r.bottom, right: r.right, bottom: r.bottom + TextSize };
    }

    /// Moves the cursor right one column.
    pub fn next_column(&mut self)
        requires
            old(self)@.rect.right + TitleColumnSize <= i32::MAX,
        ensures
            final(self)@.rect == column_right(old(self)@.rect),
            final(self)@.save_rect == old(self)@.save_rect,
    {
        let r = self.rect;
        self.rect = Rect {
            left: r.right,
            top: r.top,
            right: r.right + TitleColumnSize,
            bottom: r.bottom,
        };
    }

    /// Remembers the current rectangle.
    pub fn save(&mut self)
        ensures
            final(self)@.rect == old(self)@.rect,
            final(self)@.save_rect == old(self)@.rect,
    {
        self.save_rect = self.rect;
    }

    /// Goes back to the remembered rectangle.
    pub fn restore(&mut self)
        ensures
            final(self)@.rect == old(self)@.save_rect,
            final(self)@.save_rect == old(self)@.save_rect,
    {
        self.rect = self.save_rect;
    }

    /// Whether `rendering` is the zone the selection is in.
    pub fn is_active_zone(&self, state: &MenuState, rendering: &RenderingZone) -> (r: bool)
        ensures
            r == zone_active(state@, *rendering),
    {
        match rendering {
            RenderingZone::ActiveConfig => state.get_active_config(RenderingZone::ActiveFirst).is_empty(),
            RenderingZone::ActiveFirst => state.get_active_config(RenderingZone::ActiveSecond).is_empty(),
            RenderingZone::ActiveSecond => state.get_active_config(RenderingZone::ActiveThird).is_empty(),
            RenderingZone::ActiveThird => true,
            RenderingZone::Version => false,
        }
    }

    /// The command that draws `text` at the cursor, highlighted when it is the
    /// selected label of `rendering`.
    pub fn draw(&self, state: &MenuState, text: &str, align: Align, rendering: RenderingZone) -> (r: DrawCommand)
        ensures
            r@ == drawn(self@.rect, state@, text@, align, rendering),
    {
        let active_node = self.is_active_zone(state, &rendering) && eq_ignore_ascii_case(
            state.get_active_config(rendering),
            text,
        );
        let color = if active_node {
            (10, 240, 180)
        } else {
            (250, 240, 180)
        };
        DrawCommand { text: text.to_owned(), rect: self.rect, color, align }
    }

    /// The command that draws `arg = opt` at the cursor, highlighted when
    /// `arg` is the selected label of `rendering`.
    pub fn draw_opt(
        &self,
        state: &MenuState,
        arg: &str,
        opt: &str,
        align: Align,
        rendering: RenderingZone,
    ) -> (r: DrawCommand)
        ensures
            r@ == drawn_opt(self@.rect, state@, arg@, opt@, align, rendering),
    {
        let mut it = arg.to_owned();
        it.append(" = ");
        it.append(opt);
        let active_node = self.is_active_zone(state, &rendering) && eq_ignore_ascii_case(
            state.get_active_config(rendering),
            arg,
        );
        let color = if active_node {
            (10, 240, 180)
        } else {
            (250, 240, 180)
        };
        DrawCommand { text: it, rect: self.rect, color, align }
    }
}

/// The rectangle of the version line on a screen of the given size.
pub open spec fn version_rect(width: i32, height: i32) -> Rect {
    Rect { left: 0, top: (height - TextSize - 10) as i32, right: width, bottom: (height + TextSize) as i32 }
}

/// The command that draws the version line centred at the bottom of a
/// screen of the given size.
#[allow(non_snake_case)]
pub fn WriteVersionString(width: i32, height: i32, text: &str) -> (r: DrawCommand)
    requires
        i32::MIN <= height - TextSize - 10,
        height + TextSize <= i32::MAX,
    ensures
        r@ == (DrawSpec {
            text: text@,
            rect: version_rect(width, height),
            color: normal_color(),
            align: Align::Center,
        }),
{
    DrawCommand {
        text: text.to_owned(),
        rect: Rect { left: 0, top: height - TextSize - 10, right: width, bottom: height + TextSize },
        color: (250, 240, 180),
        align: Align::Center,
    }
}

/// The views of a list of draw commands.
pub open spec fn views(cmds: Seq<DrawCommand>) -> Seq<DrawSpec> {
    cmds.map_values(|c: DrawCommand| c@)
}

/// The rectangles of the header: the title row, then the three tabs.
pub open spec fn header_rect(i: int) -> Rect {
    if i == 0 {
        Rect { left: 60, top: 120, right: 510, bottom: 142 }
    } else if i == 1 {
        Rect { left: 60, top: 142, right: 510, bottom: 164 }
    } else if i == 2 {
        Rect { left: 510, top: 142, right: 960, bottom: 164 }
    } else {
        Rect { left: 960, top: 142, right: 1410, bottom: 164 }
    }
}

/// The header: the title, then one tab per configuration, the tab of the
/// configuration shown highlighted while no first-level key is selected.
pub open spec fn header_cmds(s: MenuView) -> Seq<DrawSpec> {
    seq![
        drawn(header_rect(0), s, "Oblivion Reloaded - Settings"@, Align::Center, RenderingZone::Version),
        drawn(header_rect(1), s, "Main"@, Align::Left, RenderingZone::ActiveConfig),
        drawn(header_rect(2), s, "Shaders"@, Align::Left, RenderingZone::ActiveConfig),
        drawn(header_rect(3), s, "Effects"@, Align::Left, RenderingZone::ActiveConfig),
    ]
}

/// Draws the menu header and returns the cursor at the first tab, which is
/// also the rectangle saved, with the commands that draw the header.
#[allow(non_snake_case)]
pub fn RenderHeader(state: &MenuState) -> (r: (MenuRect, Vec<DrawCommand>))
    ensures
        r.0@.rect == header_rect(1),
        r.0@.save_rect == header_rect(1),
        views(r.1@) == header_cmds(state@),
{
    let mut cmds: Vec<DrawCommand> = Vec::new();
    let mut rect = MenuRect::new_with_coords(
        PositionX,
        PositionY,
        PositionX + TitleColumnSize,
        PositionY + TextSize,
    );
    cmds.push(rect.draw(state, "Oblivion Reloaded - Settings", Align::Center, RenderingZone::Version));
    rect.next_row();
    rect.save();
    cmds.push(rect.draw(state, "Main", Align::Left, RenderingZone::ActiveConfig));
    rect.next_column();
    cmds.push(rect.draw(state, "Shaders", Align::Left, RenderingZone::ActiveConfig));
    rect.next_column();
    cmds.push(rect.draw(state, "Effects", Align::Left, RenderingZone::ActiveConfig));
    rect.restore();
    assert(views(cmds@) =~= header_cmds(state@));
    (rect, cmds)
}

/// The command that shows field `f` in zone `z`: a nested structure by its
/// name, anything else as `name = value`.
pub open spec fn field_cmd(f: ReflectedField, z: RenderingZone, rect: Rect, s: MenuView) -> DrawSpec {
    match f.kind {
        FieldKind::Struct(_) => drawn(rect, s, f.name@, Align::Left, z),
        FieldKind::Array => drawn_opt(rect, s, f.name@, "<ARRAY>"@, Align::Left, z),
        FieldKind::Enum => drawn_opt(rect, s, f.name@, "<ENUM>"@, Align::Left, z),
        FieldKind::Opaque(Some(v)) => drawn_opt(rect, s, f.name@, v@, Align::Left, z),
        FieldKind::Opaque(None) => drawn_opt(rect, s, f.name@, "<opaque>"@, Align::Left, z),
        FieldKind::Unsupported => arbitrary(),
    }
}

/// The command that shows field `field` at the cursor in zone `zone`.
pub fn render_reflected_struct(
    field: &ReflectedField,
    zone: RenderingZone,
    rect: &MenuRect,
    state: &MenuState,
) -> (r: DrawCommand)
    requires
        !(field.kind is Unsupported),
    ensures
        r@ == field_cmd(*field, zone, rect@.rect, state@),
{
    match &field.kind {
        FieldKind::Struct(_) => rect.draw(state, field.name.as_str(), Align::Left, zone),
        FieldKind::Array => rect.draw_opt(state, field.name.as_str(), "<ARRAY>", Align::Left, zone),
        FieldKind::Enum => rect.draw_opt(state, field.name.as_str(), "<ENUM>", Align::Left, zone),
        FieldKind::Opaque(Some(v)) => rect.draw_opt(state, field.name.as_str(), v.as_str(), Align::Left, zone),
        FieldKind::Opaque(None) => rect.draw_opt(state, field.name.as_str(), "<opaque>", Align::Left, zone),
        FieldKind::Unsupported => unreached(),
    }
}

/// The cell in column `c` and row `i` of the menu body.
pub open spec fn cell(c: int, i: int) -> Rect {
    Rect {
        left: (60 + 450 * c) as i32,
        top: (164 + 22 * i) as i32,
        right: (510 + 450 * c) as i32,
        bottom: (186 + 22 * i) as i32,
    }
}

/// A column of `n` rows fits on the screen's coordinate range.
pub open spec fn fits_rows(n: int) -> bool {
    186 + 22 * n <= i32::MAX
}

/// Every field of `st` is of a kind that the menu can show.
pub open spec fn renderable(st: ReflectedStruct) -> bool {
    forall|i: int| 0 <= i < st.fields@.len() ==> !(#[trigger] st.fields@[i].kind is Unsupported)
}

/// The first column: the names of the configuration's fields.
pub open spec fn first_column(s: MenuView, top: ReflectedStruct) -> Seq<DrawSpec> {
    Seq::new(
        top.fields@.len(),
        |i: int| drawn(cell(0, i), s, top.fields@[i].name@, Align::Left, RenderingZone::ActiveFirst),
    )
}

/// A column that shows every field of `st` in zone `z`.
pub open spec fn field_column(st: ReflectedStruct, z: RenderingZone, c: int, s: MenuView) -> Seq<DrawSpec> {
    Seq::new(st.fields@.len(), |i: int| field_cmd(st.fields@[i], z, cell(c, i), s))
}

/// The structure shown in the second column: the field named by the
/// selected first-level key, when one is selected and found.
pub open spec fn second_column(s: MenuView, top: ReflectedStruct) -> Option<ReflectedStruct> {
    if s.first.len() > 0 && field_named(top, s.first) is Some {
        Some(struct_of(field_named(top, s.first).unwrap().kind))
    } else {
        None
    }
}

/// The structure shown in the third column: the field named by the selected
/// second-level key, when one is selected, found, and a structure.
pub open spec fn third_column(s: MenuView, top: ReflectedStruct) -> Option<ReflectedStruct> {
    let g = field_named(struct_of(field_named(top, s.first).unwrap().kind), s.second);
    if s.second.len() > 0 && g is Some && g.unwrap().kind is Struct {
        Some(struct_of(g.unwrap().kind))
    } else {
        None
    }
}

/// The inputs on which the menu can be drawn: every column fits, the field
/// shown in the second column is a structure whose fields can be shown, a
/// selected second-level key lies under a first-level structure, and the
/// fields of the third column can be shown.
pub open spec fn can_render(s: MenuView, top: ReflectedStruct) -> bool {
    &&& fits_rows(top.fields@.len() as int)
    &&& (s.first.len() > 0 && field_named(top, s.first) is Some) ==> ({
        let f = field_named(top, s.first).unwrap();
        &&& f.kind is Struct
        &&& renderable(struct_of(f.kind))
        &&& fits_rows(struct_of(f.kind).fields@.len() as int)
    })
    &&& s.second.len() > 0 ==> (field_named(top, s.first) is Some && field_named(
        top,
        s.first,
    ).unwrap().kind is Struct)
    &&& third_column(s, top) matches Some(st) ==> (renderable(st) && fits_rows(
        st.fields@.len() as int,
    ))
}

/// Everything the menu draws: the header, the field names of the
/// configuration shown, the fields under the selected first-level key, and
/// the fields under the selected second-level key.
pub open spec fn menu_cmds(s: MenuView, top: ReflectedStruct) -> Seq<DrawSpec> {
    header_cmds(s) + first_column(s, top) + match second_column(s, top) {
        Some(st) => field_column(st, RenderingZone::ActiveSecond, 1, s),
        None => Seq::empty(),
    } + match third_column(s, top) {
        Some(st) => field_column(st, RenderingZone::ActiveThird, 2, s),
        None => Seq::empty(),
    }
}

/// The key that the menu reports as not found: the selected first-level key
/// when no field has that name, or else the selected second-level key when
/// the structure under the first has no field of that name.
pub open spec fn missing_key(s: MenuView, top: ReflectedStruct) -> Option<Seq<char>> {
    if s.first.len() > 0 && field_named(top, s.first) is None {
        Some(s.first)
    } else if s.second.len() > 0 && field_named(
        struct_of(field_named(top, s.first).unwrap().kind),
        s.second,
    ) is None {
        Some(s.second)
    } else {
        None
    }
}

/// The menu as laid out: the commands that draw it, and the selected key
/// that names no field of the configuration, if any.
#[derive(Debug)]
pub struct MenuLayout {
    pub commands: Vec<DrawCommand>,
    pub missing_key: Option<String>,
}

fn rows_fit(n: usize) -> (r: bool)
    ensures
        r == fits_rows(n as int),
{
    n <= 97612884
}

fn all_renderable(st: &ReflectedStruct) -> (r: bool)
    ensures
        r == renderable(*st),
{
    let n = st.fields.len();
    let mut i: usize = 0;
    while i < n
        invariant
            n == st.fields@.len(),
            i <= n,
            forall|j: int| 0 <= j < i ==> !(#[trigger] st.fields@[j].kind is Unsupported),
        decreases n - i,
    {
        if let FieldKind::Unsupported = st.fields[i].kind {
            return false;
        }
        i = i + 1;
    }
    true
}

/// Whether `RenderMenu` is defined for this state and these configurations.
pub fn can_render_menu(state: &MenuState, configs: &ConfigSet<ReflectedStruct>) -> (r: bool)
    ensures
        r == can_render(state@, configs.select(state@.config)),
{
    let top = state.get_active_table(configs);
    if !rows_fit(top.fields.len()) {
        return false;
    }
    let first = state.get_active_config(RenderingZone::ActiveFirst).to_owned();
    let second = state.get_active_config(RenderingZone::ActiveSecond).to_owned();
    let found = top.field(&first);
    if !first.as_str().is_empty() {
        if let Some(f) = found {
            match &f.kind {
                FieldKind::Struct(sub) => {
                    if !all_renderable(sub) || !rows_fit(sub.fields.len()) {
                        return false;
                    }
                },
                _ => {
                    return false;
                },
            }
        }
    }
    if !second.as_str().is_empty() {
        match found {
            Some(f) => match &f.kind {
                FieldKind::Struct(sub) => match sub.field(&second) {
                    Some(g) => match &g.kind {
                        FieldKind::Struct(st) => all_renderable(st) && rows_fit(st.fields.len()),
                        _ => true,
                    },
                    None => true,
                },
                _ => false,
            },
            None => false,
        }
    } else {
        true
    }
}

fn draw_names(rect: &mut MenuRect, cmds: &mut Vec<DrawCommand>, top: &ReflectedStruct, state: &MenuState)
    requires
        old(rect)@.rect == cell(0, 0),
        fits_rows(top.fields@.len() as int),
    ensures
        final(rect)@.rect == cell(0, top.fields@.len() as int),
        final(rect)@.save_rect == old(rect)@.save_rect,
        views(final(cmds)@) == views(old(cmds)@) + first_column(state@, *top),
{
    let n = top.fields.len();
    let mut i: usize = 0;
    let ghost base = views(cmds@);
    while i < n
        invariant
            n == top.fields@.len(),
            i <= n,
            fits_rows(n as int),
            rect@.rect == cell(0, i as int),
            rect@.save_rect == old(rect)@.save_rect,
            views(cmds@) == base + first_column(state@, *top).take(i as int),
        decreases n - i,
    {
        let c = rect.draw(state, top.fields[i].name.as_str(), Align::Left, RenderingZone::ActiveFirst);
        let ghost before = cmds@;
        cmds.push(c);
        assert(views(cmds@) =~= views(before).push(c@));
        assert(first_column(state@, *top).take(i + 1) =~= first_column(state@, *top).take(i as int).push(c@));
        rect.next_row();
        i = i + 1;
    }
    assert(first_column(state@, *top).take(n as int) =~= first_column(state@, *top));
}

fn draw_fields(
    rect: &mut MenuRect,
    cmds: &mut Vec<DrawCommand>,
    st: &ReflectedStruct,
    zone: RenderingZone,
    Ghost(c): Ghost<int>,
    state: &MenuState,
)
    requires
        0 <= c <= 2,
        old(rect)@.rect == cell(c, 0),
        fits_rows(st.fields@.len() as int),
        renderable(*st),
    ensures
        final(rect)@.rect == cell(c, st.fields@.len() as int),
        final(rect)@.save_rect == old(rect)@.save_rect,
        views(final(cmds)@) == views(old(cmds)@) + field_column(*st, zone, c, state@),
{
    let n = st.fields.len();
    let mut i: usize = 0;
    let ghost base = views(cmds@);
    while i < n
        invariant
            n == st.fields@.len(),
            i <= n,
            0 <= c <= 2,
            fits_rows(n as int),
            renderable(*st),
            rect@.rect == cell(c, i as int),
            rect@.save_rect == old(rect)@.save_rect,
            views(cmds@) == base + field_column(*st, zone, c, state@).take(i as int),
        decreases n - i,
    {
        assert(!(st.fields@[i as int].kind is Unsupported));
        let d = render_reflected_struct(&st.fields[i], zone, rect, state);
        let ghost before = cmds@;
        cmds.push(d);
        assert(views(cmds@) =~= views(before).push(d@));
        assert(field_column(*st, zone, c, state@).take(i + 1) =~= field_column(*st, zone, c, state@).take(i as int).push(d@));
        rect.next_row();
        i = i + 1;
    }
    assert(field_column(*st, zone, c, state@).take(n as int) =~= field_column(*st, zone, c, state@));
}

/// Lays out the whole menu for the configuration shown, taken from
/// `configs`: the header, then up to three columns; a selected key that
/// names no field is reported beside the commands.
#[allow(non_snake_case)]
pub fn RenderMenu(
    width: i32,
    height: i32,
    state: &MenuState,
    configs: &ConfigSet<ReflectedStruct>,
) -> (r: MenuLayout)
    requires
        can_render(state@, configs.select(state@.config)),
    ensures
        views(r.commands@) == menu_cmds(state@, configs.select(state@.config)),
        match r.missing_key {
            Some(k) => missing_key(state@, configs.select(state@.config)) == Some(k@),
            None => missing_key(state@, configs.select(state@.config)) is None,
        },
{
    let mut missing_key: Option<String> = None;
    let (mut rect, mut cmds) = RenderHeader(state);
    let configtable = state.get_active_table(configs);
    rect.next_row();
    rect.save();
    draw_names(&mut rect, &mut cmds, configtable, state);
    rect.restore();
    rect.next_column();
    rect.save();
    let ghost after_first = views(cmds@);
    let first = state.get_active_config(RenderingZone::ActiveFirst).to_owned();
    if !first.as_str().is_empty() {
        match configtable.field(&first) {
            None => {
                missing_key = Some(first.clone());
            },
            Some(val) => {
                let stru = val.kind.as_struct().unwrap();
                draw_fields(&mut rect, &mut cmds, stru, RenderingZone::ActiveSecond, Ghost(1), state);
            },
        }
    }
    let ghost after_second = views(cmds@);
    rect.restore();
    rect.next_column();
    rect.save();
    let second = state.get_active_config(RenderingZone::ActiveSecond).to_owned();
    if !second.as_str().is_empty() {
        let outer = configtable.field(&first).unwrap().kind.as_struct().unwrap();
        match outer.field(&second) {
            None => {
                missing_key = Some(second.clone());
            },
            Some(val) => {
                match val.kind.as_struct() {
                    Some(structure) => {
                        draw_fields(
                            &mut rect,
                            &mut cmds,
                            structure,
                            RenderingZone::ActiveThird,
                            Ghost(2),
                            state,
                        );
                    },
                    None => {},
                }
            },
        }
    }
    let ghost s = state@;
    let ghost top = configs.select(s.config);
    assert(views(cmds@) =~= menu_cmds(s, top));
    MenuLayout { commands: cmds, missing_key }
}

/// The header highlights the tab of the configuration shown, and only it,
/// while no first-level key is selected; the title is never highlighted.
pub proof fn law_header_tabs(s: MenuView)
    ensures
        header_cmds(s)[0].color == normal_color(),
        header_cmds(s)[1].color == (if s.first.len() == 0 && s.config == MenuSelected::Main {
            active_color()
        } else {
            normal_color()
        }),
        header_cmds(s)[2].color == (if s.first.len() == 0 && s.config == MenuSelected::Shaders {
            active_color()
        } else {
            normal_color()
        }),
        header_cmds(s)[3].color == (if s.first.len() == 0 && s.config == MenuSelected::Effects {
            active_color()
        } else {
            normal_color()
        }),
{
    reveal_strlit("Main");
    reveal_strlit("Shaders");
    reveal_strlit("Effects");
    assert(ascii_lower_code("Shaders"@[0]) != ascii_lower_code("Effects"@[0]));
    assert(!eq_ascii_nocase("Main"@, "Shaders"@));
    assert(!eq_ascii_nocase("Main"@, "Effects"@));
    assert(!eq_ascii_nocase("Shaders"@, "Main"@));
    assert(!eq_ascii_nocase("Effects"@, "Main"@));
    assert(!eq_ascii_nocase("Shaders"@, "Effects"@));
    assert(!eq_ascii_nocase("Effects"@, "Shaders"@));
}

/// How a field is shown in the second or third column: a nested structure
/// by its name, an array as `name = <ARRAY>`, an enum as `name = <ENUM>`, a
/// plain value as `name = value` (`<opaque>` when its type is unknown); in
/// the cursor's rectangle, left-aligned, and highlighted exactly when the
/// zone is active and the field's name alone matches the key selected on
/// that level, ignoring ASCII case.
pub proof fn law_field_label(f: ReflectedField, z: RenderingZone, rect: Rect, s: MenuView)
    requires
        !(f.kind is Unsupported),
        z == RenderingZone::ActiveSecond || z == RenderingZone::ActiveThird,
    ensures
        field_cmd(f, z, rect, s).rect == rect,
        field_cmd(f, z, rect, s).align == Align::Left,
        f.kind is Struct ==> field_cmd(f, z, rect, s).text == f.name@,
        f.kind is Array ==> field_cmd(f, z, rect, s).text == f.name@ + " = "@ + "<ARRAY>"@,
        f.kind is Enum ==> field_cmd(f, z, rect, s).text == f.name@ + " = "@ + "<ENUM>"@,
        f.kind matches FieldKind::Opaque(Some(v)) ==> field_cmd(f, z, rect, s).text == f.name@
            + " = "@ + v@,
        f.kind matches FieldKind::Opaque(None) ==> field_cmd(f, z, rect, s).text == f.name@
            + " = "@ + "<opaque>"@,
        z == RenderingZone::ActiveSecond ==> field_cmd(f, z, rect, s).color == (if s.field.len()
            == 0 && eq_ascii_nocase(s.second, f.name@) {
            (10u32, 240u32, 180u32)
        } else {
            (250u32, 240u32, 180u32)
        }),
        z == RenderingZone::ActiveThird ==> field_cmd(f, z, rect, s).color == (if eq_ascii_nocase(
            s.field,
            f.name@,
        ) {
            (10u32, 240u32, 180u32)
        } else {
            (250u32, 240u32, 180u32)
        }),
{
}

/// The first column lists the names of the configuration's fields, one per
/// row from the top of the body, and highlights a name exactly when it is
/// the selected first-level key (ignoring ASCII case) and nothing below it is
/// selected.
pub proof fn law_first_column_entries(s: MenuView, top: ReflectedStruct, i: int)
    requires
        0 <= i < top.fields@.len(),
        fits_rows(top.fields@.len() as int),
    ensures
        menu_cmds(s, top).len() >= 4 + top.fields@.len(),
        menu_cmds(s, top)[4 + i].text == top.fields@[i].name@,
        menu_cmds(s, top)[4 + i].rect == (Rect {
            left: 60,
            top: (164 + 22 * i) as i32,
            right: 510,
            bottom: (186 + 22 * i) as i32,
        }),
        menu_cmds(s, top)[4 + i].align == Align::Left,
        menu_cmds(s, top)[4 + i].color == (if s.second.len() == 0 && eq_ascii_nocase(
            s.first,
            top.fields@[i].name@,
        ) {
            (10u32, 240u32, 180u32)
        } else {
            (250u32, 240u32, 180u32)
        }),
{
}

/// The second column shows the fields of the structure under the selected
/// first-level key, one per row from the top of the body, each highlighted
/// exactly when it is the selected second-level key (ignoring ASCII case)
/// and no third-level key is selected.
pub proof fn law_second_column_entries(s: MenuView, top: ReflectedStruct, i: int)
    requires
        s.first.len() > 0,
        field_named(top, s.first) is Some,
        field_named(top, s.first).unwrap().kind is Struct,
        0 <= i < struct_of(field_named(top, s.first).unwrap().kind).fields@.len(),
        !(struct_of(field_named(top, s.first).unwrap().kind).fields@[i].kind is Unsupported),
    ensures
        ({
            let g = struct_of(field_named(top, s.first).unwrap().kind).fields@[i];
            let c = menu_cmds(s, top)[4 + top.fields@.len() + i];
            &&& c == field_cmd(g, RenderingZone::ActiveSecond, cell(1, i), s)
            &&& c.rect.left == 510 && c.rect.right == 960
            &&& c.color == (if s.field.len() == 0 && eq_ascii_nocase(s.second, g.name@) {
                (10u32, 240u32, 180u32)
            } else {
                (250u32, 240u32, 180u32)
            })
        }),
{
    let g = struct_of(field_named(top, s.first).unwrap().kind).fields@[i];
    law_field_label(g, RenderingZone::ActiveSecond, cell(1, i), s);
}

/// The third column shows the fields of the structure under the selected
/// second-level key, one per row from the top of the body, each highlighted
/// exactly when it is the selected third-level key (ignoring ASCII case).
pub proof fn law_third_column_entries(s: MenuView, top: ReflectedStruct, i: int)
    requires
        third_column(s, top) is Some,
        0 <= i < third_column(s, top).unwrap().fields@.len(),
        !(third_column(s, top).unwrap().fields@[i].kind is Unsupported),
    ensures
        ({
            let g = third_column(s, top).unwrap().fields@[i];
            let n2 = match second_column(s, top) {
                Some(st) => st.fields@.len() as int,
                None => 0,
            };
            let c = menu_cmds(s, top)[4 + top.fields@.len() + n2 + i];
            &&& c == field_cmd(g, RenderingZone::ActiveThird, cell(2, i), s)
            &&& c.rect.left == 960 && c.rect.right == 1410
            &&& c.color == (if eq_ascii_nocase(s.field, g.name@) {
                (10u32, 240u32, 180u32)
            } else {
                (250u32, 240u32, 180u32)
            })
        }),
{
    let g = third_column(s, top).unwrap().fields@[i];
    law_field_label(g, RenderingZone::ActiveThird, cell(2, i), s);
}

/// The header is the title centred over the first column, then the three
/// tabs Main, Shaders, Effects side by side one row lower, each a column wide.
pub proof fn law_header_layout(s: MenuView)
    ensures
        header_cmds(s).len() == 4,
        header_cmds(s)[0].text == "Oblivion Reloaded - Settings"@,
        header_cmds(s)[0].align == Align::Center,
        header_cmds(s)[0].rect == (Rect { left: 60, top: 120, right: 510, bottom: 142 }),
        header_cmds(s)[1].text == "Main"@,
        header_cmds(s)[2].text == "Shaders"@,
        header_cmds(s)[3].text == "Effects"@,
        forall|i: int|
            1 <= i < 4 ==> (#[trigger] header_cmds(s)[i]).align == Align::Left && header_cmds(s)[i].rect
                == (Rect {
                left: (60 + 450 * (i - 1)) as i32,
                top: 142,
                right: (510 + 450 * (i - 1)) as i32,
                bottom: 164,
            }),
{
}

/// A row step moves the cursor down by its 22-pixel height, keeping its
/// horizontal extent; a column step moves it right to start where it ended,
/// 450 pixels wide, keeping its vertical extent.
pub proof fn law_cursor_steps(r: Rect)
    requires
        r.bottom + 22 <= i32::MAX,
        r.right + 450 <= i32::MAX,
    ensures
        row_below(r) == (Rect { left: r.left, top: r.bottom, right: r.right, bottom: (r.bottom + 22) as i32 }),
        column_right(r) == (Rect { left: r.right, top: r.top, right: (r.right + 450) as i32, bottom: r.bottom }),
{
}

/// The version line spans the screen's width and ends 22 pixels below the
/// screen's height, 54 pixels tall.
pub proof fn law_version_rect(width: i32, height: i32)
    requires
        i32::MIN <= height - 32,
        height + 22 <= i32::MAX,
    ensures
        version_rect(width, height) == (Rect {
            left: 0,
            top: (height - 32) as i32,
            right: width,
            bottom: (height + 22) as i32,
        }),
{
}

/// A selected key is reported missing exactly when it names no field: the
/// first-level key when the configuration has no field of that name, the
/// second-level key when the structure under the first has none; nothing
/// is reported when nothing is selected.
pub proof fn law_missing_key(s: MenuView, top: ReflectedStruct)
    ensures
        (s.first.len() > 0 && field_named(top, s.first) is None) ==> missing_key(s, top) == Some(
            s.first,
        ),
        (s.first.len() > 0 && field_named(top, s.first) is Some && s.second.len() > 0 && field_named(
            struct_of(field_named(top, s.first).unwrap().kind),
            s.second,
        ) is None) ==> missing_key(s, top) == Some(s.second),
        s.first.len() == 0 && s.second.len() == 0 ==> missing_key(s, top) is None,
        (s.first.len() > 0 && field_named(top, s.first) is Some && s.second.len() == 0)
            ==> missing_key(s, top) is None,
{
}

} // verus!
