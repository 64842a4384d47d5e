//! A terminal menu's decisions: which rows a tall menu shows, what each row
//! reads, where a key moves the selection, and what pressing enter on an
//! item does. Drawing, reading keys and lines, and numeric items (whose
//! values are floating point) belong to the program.

use vstd::prelude::*;
use vstd::string::StringExecFns;

use crate::parser::{trim, trim_str};
use crate::text::{push_char, string_from_str, views};

verus! {

/// What a menu item is.
#[derive(Debug)]
pub enum ItemKind {
    /// A line of text that cannot be selected.
    Label,
    /// Selecting it closes the menu, which exits with its name.
    Button,
    /// Selecting it closes the menu.
    BackButton,
    /// One value of `values`, shown alone.
    Scroll { values: Vec<String>, selected: usize },
    /// One value of `values`, shown among the others.
    List { values: Vec<String>, selected: usize },
    /// A line of text the user types.
    Text { value: String, allow_empty: bool },
    /// A number. Its value is floating point and is not held here: enter
    /// and the arrow keys on it only ask for it to be read or stepped.
    Numeric,
    /// A menu of its own, run apart from this one ([submenu_done] takes how
    /// it ended).
    Submenu,
}

/// The model of an [ItemKind].
pub enum KindView {
    Label,
    Button,
    BackButton,
    Scroll { values: Seq<Seq<char>>, selected: usize },
    List { values: Seq<Seq<char>>, selected: usize },
    Text { value: Seq<char>, allow_empty: bool },
    Numeric,
    Submenu,
}

impl View for ItemKind {
    type V = KindView;

    open spec fn view(&self) -> KindView {
        match self {
            ItemKind::Label => KindView::Label,
            ItemKind::Button => KindView::Button,
            ItemKind::BackButton => KindView::BackButton,
            ItemKind::Scroll { values, selected } => KindView::Scroll { values: views(values@), selected: *selected },
            ItemKind::List { values, selected } => KindView::List { values: views(values@), selected: *selected },
            ItemKind::Text { value, allow_empty } => KindView::Text { value: value@, allow_empty: *allow_empty },
            ItemKind::Numeric => KindView::Numeric,
            ItemKind::Submenu => KindView::Submenu,
        }
    }
}

/// The colour a row is drawn in: the terminal's own (`Reset`), one of the
/// sixteen named colours, an ANSI palette entry or an RGB colour.
#[derive(Clone, Copy, Debug, PartialEq, Eq, Structural)]
pub enum Colour {
    Reset,
    Black,
    DarkGrey,
    Red,
    DarkRed,
    Green,
    DarkGreen,
    Yellow,
    DarkYellow,
    Blue,
    DarkBlue,
    Magenta,
    DarkMagenta,
    Cyan,
    DarkCyan,
    White,
    Grey,
    Rgb { r: u8, g: u8, b: u8 },
    AnsiValue(u8),
}

/// An item of a menu: its name, the colour its row is drawn in, and what it
/// is.
#[derive(Debug)]
pub struct MenuItem {
    pub name: String,
    pub colour: Colour,
    pub kind: ItemKind,
}

/// The model of a [MenuItem].
pub struct ItemView {
    pub name: Seq<char>,
    pub colour: Colour,
    pub kind: KindView,
}

impl View for MenuItem {
    type V = ItemView;

    open spec fn view(&self) -> ItemView {
        ItemView { name: self.name@, colour: self.colour, kind: self.kind@ }
    }
}

/// A terminal menu.
#[derive(Debug)]
pub struct Menu {
    /// The name the menu exits with when a button closes it.
    pub name: Option<String>,
    /// The items, top to bottom.
    pub items: Vec<MenuItem>,
    /// The index of the selected item.
    pub selected: usize,
    /// Whether the menu is running.
    pub active: bool,
    /// Whether the menu has been closed.
    pub exited: bool,
    /// Whether the user left the menu with escape.
    pub canceled: bool,
    /// What the menu exited with.
    pub exit: Option<String>,
    /// The length, in bytes, of the longest item name.
    pub longest_name: usize,
    /// How the menu is on the screen.
    pub printed: PrintState,
}

/// How a menu is on the screen.
#[derive(Clone, Copy, Debug, PartialEq, Eq, Structural)]
pub enum PrintState {
    /// Not drawn.
    Unprinted,
    /// Drawn in place, one row per item.
    Small,
    /// Drawn on the alternate screen, as a window of its items.
    Big,
}

/// How the menu is to be drawn.
#[derive(Clone, Copy, Debug, PartialEq, Eq, Structural)]
pub enum PrintPlan {
    /// On the alternate screen, as the rows of [window].
    Big,
    /// In place, every row.
    Small,
    /// Not again: it is drawn in place already.
    Keep,
}

/// How a menu of `len` items drawn as `printed` is drawn in a terminal of
/// `height` lines: on the alternate screen once it is there, when its rows
/// and one more line do not fit, or always on Windows; otherwise in place if
/// it is not drawn yet.
pub open spec fn print_plan_spec(printed: PrintState, len: int, height: int, windows: bool) -> PrintPlan {
    if printed == PrintState::Big || len + 1 >= height || windows {
        PrintPlan::Big
    } else if printed == PrintState::Unprinted {
        PrintPlan::Small
    } else {
        PrintPlan::Keep
    }
}

/// How the menu is to be drawn (see [print_plan_spec]).
pub fn print_plan(menu: &Menu, height: usize, windows: bool) -> (p: PrintPlan)
    ensures
        p == print_plan_spec(menu.printed, menu.items@.len() as int, height as int, windows),
{
    if menu.printed == PrintState::Big || height == 0 || menu.items.len() >= height - 1 || windows {
        PrintPlan::Big
    } else if menu.printed == PrintState::Unprinted {
        PrintPlan::Small
    } else {
        PrintPlan::Keep
    }
}

/// Records how the menu was drawn.
pub fn set_printed(menu: &mut Menu, printed: PrintState)
    ensures
        *final(menu) == (Menu { printed, ..*old(menu) }),
{
    menu.printed = printed;
}

/// A key the user pressed.
#[derive(Clone, Copy, Debug, PartialEq, Eq, Structural)]
pub enum Key {
    Up,
    Down,
    Left,
    Right,
    Enter,
    Escape,
    Char(char),
    Other,
}

/// What the program does after a step of the menu.
#[derive(Clone, Copy, Debug, PartialEq, Eq, Structural)]
pub enum MenuAction {
    /// Nothing changed.
    Nothing,
    /// The menu changed: draw it again.
    Redraw,
    /// The menu closed.
    Exit,
    /// Enter was pressed: read a line if the selected item is text, then
    /// hand it to [enter_step].
    Enter,
    /// Show the values of the selected scroll or list as a menu of their
    /// own ([choice_menu]), then hand back the one chosen ([set_choice]).
    OpenChoice,
    /// Run the selected submenu, then hand back how it ended
    /// ([submenu_done]).
    OpenSubmenu,
    /// Read a number for the selected numeric item.
    NumericInput,
    /// Step the selected numeric item up (`true`) or down.
    StepNumeric(bool),
}

/// The views of a menu's items.
pub open spec fn items_view(items: Seq<MenuItem>) -> Seq<ItemView> {
    items.map_values(|i: MenuItem| i@)
}

pub open spec fn opt_view(o: Option<String>) -> Option<Seq<char>> {
    match o {
        Some(s) => Some(s@),
        None => None,
    }
}

// ---------------------------------------------------------------------------
// The window of a tall menu
// ---------------------------------------------------------------------------

/// The rows a menu of `len` items shows in a terminal of `height` lines, as
/// the first item shown and how many: none at all in three lines or fewer;
/// otherwise as many as fit below three lines, centred on the selected item
/// where the items allow it.
pub open spec fn window_spec(selected: int, len: int, height: int) -> Option<(int, int)> {
    if height <= 3 {
        None
    } else {
        let count = if len < height - 3 {
            len
        } else {
            height - 3
        };
        let top = if selected > count / 2 {
            let t = selected - count / 2;
            if t + count > len {
                len - count
            } else {
                t
            }
        } else {
            0
        };
        Some((top, count))
    }
}

/// The first item shown and how many items a tall menu shows.
pub fn window(selected: usize, len: usize, height: usize) -> (r: Option<(usize, usize)>)
    ensures
        r is None <==> height <= 3,
        r matches Some((top, count)) ==> window_spec(selected as int, len as int, height as int) == Some(
            (top as int, count as int),
        ),
{
    if height <= 3 {
        return None;
    }
    let count = if len < height - 3 {
        len
    } else {
        height - 3
    };
    let mut top: usize = 0;
    if selected > count / 2 {
        top = selected - count / 2;
        if top > len - count {
            top = len - count;
        }
    }
    Some((top, count))
}

// ---------------------------------------------------------------------------
// Rows
// ---------------------------------------------------------------------------

/// `n` spaces.
pub open spec fn spaces(n: int) -> Seq<char> {
    Seq::new(if n > 0 { n as nat } else { 0 }, |i: int| ' ')
}

/// The padding after a name: up to five columns past the longest name,
/// counted in bytes.
pub open spec fn pad_len(name: Seq<char>, longest: int) -> int {
    let n = vstd::utf8::encode_utf8(name).len();
    if longest + 5 > n {
        longest + 5 - n
    } else {
        0
    }
}

/// The values of a list, the selected one in brackets and the others
/// between spaces.
pub open spec fn list_text(values: Seq<Seq<char>>, selected: int) -> Seq<char>
    decreases values.len(),
{
    if values.len() == 0 {
        Seq::empty()
    } else {
        list_text(values.drop_last(), selected) + if values.len() - 1 == selected {
            seq!['['] + values.last() + seq![']']
        } else {
            seq![' '] + values.last() + seq![' ']
        }
    }
}

/// What a row shows after the name: a list's values, a scroll's value or a
/// text's value after a space, and nothing for the other kinds (the program
/// writes a numeric item's value).
pub open spec fn kind_text(kind: KindView) -> Seq<char> {
    match kind {
        KindView::List { values, selected } => list_text(values, selected as int),
        KindView::Scroll { values, selected } => seq![' '] + values[selected as int],
        KindView::Text { value, .. } => seq![' '] + value,
        _ => Seq::empty(),
    }
}

/// The text of the row of item `index`: `> ` before the selected item and
/// two spaces before the others, the name, the padding, then the value.
pub open spec fn row(items: Seq<ItemView>, selected: int, longest: int, index: int) -> Seq<char> {
    let item = items[index];
    (if selected == index {
        seq!['>', ' ']
    } else {
        seq![' ', ' ']
    }) + item.name + spaces(pad_len(item.name, longest)) + kind_text(item.kind)
}

/// The text of the row of item `index` (its colour is [row_colour]).
pub fn row_text(menu: &Menu, index: usize) -> (r: String)
    requires
        index < menu.items@.len(),
        menu.longest_name + 5 <= usize::MAX,
        menu.items@[index as int].kind matches ItemKind::Scroll { values, selected } ==> selected
            < values@.len(),
    ensures
        r@ == row(items_view(menu.items@), menu.selected as int, menu.longest_name as int, index as int),
{
    let item = &menu.items[index];
    let mut r = if menu.selected == index {
        string_from_str("> ")
    } else {
        string_from_str("  ")
    };
    proof {
        reveal_strlit("> ");
        reveal_strlit("  ");
    }
    r.append(item.name.as_str());
    let name_len = item.name.as_str().as_bytes().len();
    let end = menu.longest_name + 5;
    let ghost head = r@;
    assert(name_len == vstd::utf8::encode_utf8(item.name@).len());
    let mut k = name_len;
    while k < end
        invariant
            k >= name_len,
            k <= end || k == name_len,
            r@ == head + spaces(k - name_len),
        decreases end - k,
    {
        push_char(&mut r, ' ');
        assert(r@ =~= head + spaces(k + 1 - name_len));
        k = k + 1;
    }
    assert(spaces(k - name_len) =~= spaces(pad_len(item.name@, menu.longest_name as int)));
    let ghost padded = r@;
    match &item.kind {
        ItemKind::List { values, selected } => {
            let mut i: usize = 0;
            while i < values.len()
                invariant
                    i <= values@.len(),
                    r@ == padded + list_text(views(values@).take(i as int), *selected as int),
                decreases values@.len() - i,
            {
                if i == *selected {
                    push_char(&mut r, '[');
                    r.append(values[i].as_str());
                    push_char(&mut r, ']');
                } else {
                    push_char(&mut r, ' ');
                    r.append(values[i].as_str());
                    push_char(&mut r, ' ');
                }
                assert(views(values@).take(i + 1).drop_last() =~= views(values@).take(i as int));
                assert(r@ =~= padded + list_text(views(values@).take(i + 1), *selected as int));
                i = i + 1;
            }
            assert(views(values@).take(values@.len() as int) =~= views(values@));
        },
        ItemKind::Scroll { values, selected } => {
            push_char(&mut r, ' ');
            r.append(values[*selected].as_str());
        },
        ItemKind::Text { value, .. } => {
            push_char(&mut r, ' ');
            r.append(value.as_str());
        },
        _ => {},
    }
    assert(r@ =~= row(items_view(menu.items@), menu.selected as int, menu.longest_name as int, index as int));
    r
}

/// The colour of the row of item `index`: cyan for the selected item,
/// whatever its own colour; the item's colour for the others.
pub fn row_colour(menu: &Menu, index: usize) -> (c: Colour)
    requires
        index < menu.items@.len(),
    ensures
        c == if index == menu.selected {
            Colour::Cyan
        } else {
            menu.items@[index as int].colour
        },
{
    if index == menu.selected {
        Colour::Cyan
    } else {
        menu.items[index].colour
    }
}

// ---------------------------------------------------------------------------
// Moving the selection
// ---------------------------------------------------------------------------

/// The item after `i`, the first after the last.
pub open spec fn succ(len: int, i: int) -> int {
    if i + 1 >= len {
        0
    } else {
        i + 1
    }
}

/// The item before `i`, the last before the first.
pub open spec fn pred(len: int, i: int) -> int {
    if i <= 0 {
        len - 1
    } else {
        i - 1
    }
}

/// `k` steps forward from `i`.
pub open spec fn forward(len: int, i: int, k: nat) -> int
    decreases k,
{
    if k == 0 {
        i
    } else {
        succ(len, forward(len, i, (k - 1) as nat))
    }
}

/// `k` steps back from `i`.
pub open spec fn backward(len: int, i: int, k: nat) -> int
    decreases k,
{
    if k == 0 {
        i
    } else {
        pred(len, backward(len, i, (k - 1) as nat))
    }
}

/// An item the selection can rest on: anything but a label.
pub open spec fn selectable(items: Seq<ItemView>, i: int) -> bool {
    !(items[i].kind is Label)
}

/// `r` is the first selectable item `k >= 1` steps down from `index`,
/// wrapping round.
pub open spec fn next_below(items: Seq<ItemView>, index: int, r: int) -> bool {
    exists|k: nat|
        #![trigger forward(items.len() as int, index, k)]
        k >= 1 && r == forward(items.len() as int, index, k) && selectable(items, r) && forall|m: nat|
            1 <= m < k ==> !selectable(items, #[trigger] forward(items.len() as int, index, m))
}

/// `r` is the first selectable item `k >= 1` steps up from `index`,
/// wrapping round.
pub open spec fn next_above(items: Seq<ItemView>, index: int, r: int) -> bool {
    exists|k: nat|
        #![trigger backward(items.len() as int, index, k)]
        k >= 1 && r == backward(items.len() as int, index, k) && selectable(items, r) && forall|m: nat|
            1 <= m < k ==> !selectable(items, #[trigger] backward(items.len() as int, index, m))
}

/// There is one first selectable item below an index.
pub proof fn lemma_next_below_unique(items: Seq<ItemView>, index: int, a: int, b: int)
    requires
        next_below(items, index, a),
        next_below(items, index, b),
    ensures
        a == b,
{
    let ka = choose|k: nat| #![trigger forward(items.len() as int, index, k)] k >= 1 && a == forward(items.len() as int, index, k) && selectable(items, a) && forall|m: nat| 1 <= m < k ==> !selectable(items, #[trigger] forward(items.len() as int, index, m));
    let kb = choose|k: nat| #![trigger forward(items.len() as int, index, k)] k >= 1 && b == forward(items.len() as int, index, k) && selectable(items, b) && forall|m: nat| 1 <= m < k ==> !selectable(items, #[trigger] forward(items.len() as int, index, m));
    if ka < kb {
        assert(!selectable(items, forward(items.len() as int, index, ka)));
    } else if kb < ka {
        assert(!selectable(items, forward(items.len() as int, index, kb)));
    }
}

/// There is one first selectable item above an index.
pub proof fn lemma_next_above_unique(items: Seq<ItemView>, index: int, a: int, b: int)
    requires
        next_above(items, index, a),
        next_above(items, index, b),
    ensures
        a == b,
{
    let ka = choose|k: nat| #![trigger backward(items.len() as int, index, k)] k >= 1 && a == backward(items.len() as int, index, k) && selectable(items, a) && forall|m: nat| 1 <= m < k ==> !selectable(items, #[trigger] backward(items.len() as int, index, m));
    let kb = choose|k: nat| #![trigger backward(items.len() as int, index, k)] k >= 1 && b == backward(items.len() as int, index, k) && selectable(items, b) && forall|m: nat| 1 <= m < k ==> !selectable(items, #[trigger] backward(items.len() as int, index, m));
    if ka < kb {
        assert(!selectable(items, backward(items.len() as int, index, ka)));
    } else if kb < ka {
        assert(!selectable(items, backward(items.len() as int, index, kb)));
    }
}

/// Some item can be selected.
pub open spec fn has_selectable(items: Seq<ItemView>) -> bool {
    exists|w: int| 0 <= w < items.len() && selectable(items, w)
}

fn is_label(menu: &Menu, i: usize) -> (b: bool)
    requires
        i < menu.items@.len(),
    ensures
        b == !selectable(items_view(menu.items@), i as int),
{
    match menu.items[i].kind {
        ItemKind::Label => true,
        _ => false,
    }
}

/// The first selectable item after `index`, going down and wrapping round.
pub fn inc(menu: &Menu, index: usize) -> (r: usize)
    requires
        index < menu.items@.len(),
        has_selectable(items_view(menu.items@)),
    ensures
        next_below(items_view(menu.items@), index as int, r as int),
        r < menu.items@.len(),
{
    let ghost items = items_view(menu.items@);
    let ghost len = menu.items@.len() as int;
    let ghost w = choose|w: int| 0 <= w < items.len() && selectable(items, w);
    let mut j: usize = if index >= menu.items.len() - 1 {
        0
    } else {
        index + 1
    };
    let ghost mut k: nat = 1;
    assert(forward(len, index as int, 1) == succ(len, forward(len, index as int, 0)));
    while is_label(menu, j)
        invariant
            j < len,
            len == menu.items@.len(),
            items == items_view(menu.items@),
            0 <= w < len,
            selectable(items, w),
            k >= 1,
            j == forward(len, index as int, k),
            forall|m: nat| 1 <= m < k ==> !selectable(items, #[trigger] forward(len, index as int, m)),
        decreases if w >= j { w - j } else { w + len - j },
    {
        assert(!selectable(items, forward(len, index as int, k)));
        j = if j >= menu.items.len() - 1 {
            0
        } else {
            j + 1
        };
        proof {
            k = k + 1;
            assert(forall|m: nat| 1 <= m < k ==> !selectable(items, #[trigger] forward(len, index as int, m)));
        }
    }
    j
}

/// The first selectable item before `index`, going up and wrapping round.
pub fn dec(menu: &Menu, index: usize) -> (r: usize)
    requires
        index < menu.items@.len(),
        has_selectable(items_view(menu.items@)),
    ensures
        next_above(items_view(menu.items@), index as int, r as int),
        r < menu.items@.len(),
{
    let ghost items = items_view(menu.items@);
    let ghost len = menu.items@.len() as int;
    let ghost w = choose|w: int| 0 <= w < items.len() && selectable(items, w);
    let mut j: usize = if index == 0 {
        menu.items.len() - 1
    } else {
        index - 1
    };
    let ghost mut k: nat = 1;
    assert(backward(len, index as int, 1) == pred(len, backward(len, index as int, 0)));
    while is_label(menu, j)
        invariant
            j < len,
            len == menu.items@.len(),
            items == items_view(menu.items@),
            0 <= w < len,
            selectable(items, w),
            k >= 1,
            j == backward(len, index as int, k),
            forall|m: nat| 1 <= m < k ==> !selectable(items, #[trigger] backward(len, index as int, m)),
        decreases if j >= w { j - w } else { j + len - w },
    {
        assert(!selectable(items, backward(len, index as int, k)));
        j = if j == 0 {
            menu.items.len() - 1
        } else {
            j - 1
        };
        proof {
            k = k + 1;
            assert(forall|m: nat| 1 <= m < k ==> !selectable(items, #[trigger] backward(len, index as int, m)));
        }
    }
    j
}

// ---------------------------------------------------------------------------
// Steps of the menu
// ---------------------------------------------------------------------------

/// The length in bytes of the longest name of `items`.
pub open spec fn longest(items: Seq<ItemView>) -> int
    decreases items.len(),
{
    if items.len() == 0 {
        0
    } else {
        let rest = longest(items.drop_last());
        let n = vstd::utf8::encode_utf8(items.last().name).len() as int;
        if n > rest {
            n
        } else {
            rest
        }
    }
}

/// Starts running the menu: active, neither exited nor canceled, with the
/// length of its longest name.
pub fn start(menu: &mut Menu)
    requires
        old(menu).items@.len() > 0,
    ensures
        final(menu).active && !final(menu).exited && !final(menu).canceled,
        final(menu).longest_name == longest(items_view(old(menu).items@)),
        final(menu).items == old(menu).items,
        final(menu).selected == old(menu).selected,
        final(menu).name == old(menu).name,
        final(menu).exit == old(menu).exit,
        final(menu).printed == old(menu).printed,
{
    menu.active = true;
    menu.exited = false;
    menu.canceled = false;
    let ghost items = items_view(menu.items@);
    let mut longest_name: usize = 0;
    let mut i: usize = 0;
    assert(items.take(0) =~= Seq::<ItemView>::empty());
    while i < menu.items.len()
        invariant
            i <= menu.items@.len(),
            items == items_view(menu.items@),
            longest_name == longest(items.take(i as int)),
        decreases menu.items@.len() - i,
    {
        let n = menu.items[i].name.as_str().as_bytes().len();
        assert(items.take(i + 1).drop_last() =~= items.take(i as int));
        if n > longest_name {
            longest_name = n;
        }
        i = i + 1;
    }
    assert(items.take(menu.items@.len() as int) =~= items);
    menu.longest_name = longest_name;
}

/// Marks the menu as closed and no longer drawn.
pub fn finish(menu: &mut Menu)
    ensures
        final(menu).exited,
        final(menu).printed == PrintState::Unprinted,
        final(menu).active == old(menu).active,
        final(menu).canceled == old(menu).canceled,
        final(menu).exit == old(menu).exit,
        final(menu).items == old(menu).items,
        final(menu).selected == old(menu).selected,
{
    menu.exited = true;
    menu.printed = PrintState::Unprinted;
}

fn copy_name(name: &Option<String>) -> (r: Option<String>)
    ensures
        opt_view(r) == opt_view(*name),
{
    match name {
        Some(n) => Some(string_from_str(n.as_str())),
        None => None,
    }
}

/// Up and down (or `w`/`k` and `s`/`j`): the keys that move the selection.
pub open spec fn moves_selection(key: Key) -> bool {
    key is Up || key is Down || key == Key::Char('w') || key == Key::Char('k') || key == Key::Char('s')
        || key == Key::Char('j')
}

/// Escape (or `q`): the keys that leave the menu, canceled.
pub open spec fn leaves(key: Key) -> bool {
    key is Escape || key == Key::Char('q')
}

/// What every key does to whether the menu runs and was canceled: a key
/// that leaves closes the menu and cancels it; any other key changes
/// neither.
pub open spec fn key_frame(before: Menu, key: Key, after: Menu) -> bool {
    &&& after.canceled == (before.canceled || leaves(key))
    &&& after.active == (before.active && !leaves(key))
}

/// Whether one of `keys` leaves the menu.
pub open spec fn left_by(keys: Seq<Key>) -> bool {
    exists|i: int| 0 <= i < keys.len() && leaves(#[trigger] keys[i])
}

/// A started menu that is fed `keys`, one [key_step] each, taking it
/// through `menus`, ends canceled exactly when one of the keys was escape
/// or `q`, and runs on as long as none was.
pub proof fn lemma_key_run(menus: Seq<Menu>, keys: Seq<Key>)
    requires
        menus.len() == keys.len() + 1,
        menus[0].active,
        !menus[0].canceled,
        forall|i: int| 0 <= i < keys.len() ==> key_frame(menus[i], #[trigger] keys[i], menus[i + 1]),
    ensures
        menus.last().canceled == left_by(keys),
        menus.last().active == !left_by(keys),
    decreases keys.len(),
{
    if keys.len() > 0 {
        let n = keys.len() - 1;
        let rest = keys.drop_last();
        assert forall|i: int| 0 <= i < rest.len() implies key_frame(
            menus.drop_last()[i],
            #[trigger] rest[i],
            menus.drop_last()[i + 1],
        ) by {
            assert(keys[i] == rest[i]);
        }
        lemma_key_run(menus.drop_last(), rest);
        assert(key_frame(menus[n], keys[n], menus[n + 1]));
        if left_by(keys) {
            let i = choose|i: int| 0 <= i < keys.len() && leaves(#[trigger] keys[i]);
            if i < n {
                assert(rest[i] == keys[i]);
            }
        }
        if left_by(rest) {
            let i = choose|i: int| 0 <= i < rest.len() && leaves(#[trigger] rest[i]);
            assert(keys[i] == rest[i]);
        }
    }
}

/// What a key does: up and down (or `w`/`k` and `s`/`j`) move the
/// selection to the previous or next selectable item; left and right (or
/// `a`/`h` and `d`/`l`) step the selected value; enter (or space) asks for
/// [enter_step]; escape (or `q`) closes the menu, canceled, with its name.
pub fn key_step(menu: &mut Menu, key: Key) -> (action: MenuAction)
    requires
        old(menu).selected < old(menu).items@.len(),
        moves_selection(key) ==> has_selectable(items_view(old(menu).items@)),
        old(menu).items@[old(menu).selected as int].kind matches ItemKind::Scroll { values, selected }
            ==> values@.len() > 0 && selected < usize::MAX,
        old(menu).items@[old(menu).selected as int].kind matches ItemKind::List { values, selected }
            ==> values@.len() > 0 && selected < usize::MAX,
    ensures
        final(menu).name == old(menu).name,
        final(menu).exited == old(menu).exited,
        final(menu).longest_name == old(menu).longest_name,
        final(menu).printed == old(menu).printed,
        key_frame(*old(menu), key, *final(menu)),
        !leaves(key) ==> final(menu).exit == old(menu).exit,
        match key {
            Key::Up | Key::Char('w') | Key::Char('k') => action == MenuAction::Redraw && next_above(
                items_view(old(menu).items@),
                old(menu).selected as int,
                final(menu).selected as int,
            ) && final(menu).items == old(menu).items,
            Key::Down | Key::Char('s') | Key::Char('j') => action == MenuAction::Redraw
                && next_below(items_view(old(menu).items@), old(menu).selected as int, final(menu).selected as int)
                && final(menu).items == old(menu).items,
            Key::Left | Key::Char('a') | Key::Char('h') => value_stepped(*old(menu), *final(menu), false, action),
            Key::Right | Key::Char('d') | Key::Char('l') => value_stepped(*old(menu), *final(menu), true, action),
            Key::Enter | Key::Char(' ') => action == MenuAction::Enter && *final(menu) == *old(menu),
            Key::Escape | Key::Char('q') => action == MenuAction::Exit && !final(menu).active
                && final(menu).canceled && opt_view(final(menu).exit) == opt_view(old(menu).name)
                && final(menu).items == old(menu).items && final(menu).selected == old(menu).selected,
            _ => action == MenuAction::Nothing && *final(menu) == *old(menu),
        },
{
    match key {
        Key::Up | Key::Char('w') | Key::Char('k') => {
            let new = dec(menu, menu.selected);
            menu.selected = new;
            MenuAction::Redraw
        },
        Key::Down | Key::Char('s') | Key::Char('j') => {
            let new = inc(menu, menu.selected);
            menu.selected = new;
            MenuAction::Redraw
        },
        Key::Left | Key::Char('a') | Key::Char('h') => step_value(menu, false),
        Key::Right | Key::Char('d') | Key::Char('l') => step_value(menu, true),
        Key::Enter | Key::Char(' ') => MenuAction::Enter,
        Key::Escape | Key::Char('q') => {
            menu.active = false;
            menu.exit = copy_name(&menu.name);
            menu.canceled = true;
            MenuAction::Exit
        },
        _ => MenuAction::Nothing,
    }
}

/// The step a value of a scroll or list takes: up to the next value, from
/// the last to the first; down to the previous one, from the first to the
/// last.
pub open spec fn stepped(selected: int, len: int, up: bool) -> int {
    if up {
        if selected + 1 == len {
            0
        } else {
            selected + 1
        }
    } else {
        if selected == 0 {
            len - 1
        } else {
            selected - 1
        }
    }
}

/// Stepping up goes to the next value, from the last round to the first;
/// stepping down goes to the previous value, from the first round to the
/// last.
pub proof fn lemma_stepped_wraps(selected: int, len: int)
    requires
        0 <= selected < len,
    ensures
        stepped(selected, len, true) == (selected + 1) % len,
        stepped(selected, len, false) == (selected + len - 1) % len,
{
    if selected + 1 == len {
        vstd::arithmetic::div_mod::lemma_mod_self_0(len);
    } else {
        vstd::arithmetic::div_mod::lemma_small_mod((selected + 1) as nat, len as nat);
    }
    if selected == 0 {
        vstd::arithmetic::div_mod::lemma_small_mod((len - 1) as nat, len as nat);
    } else {
        vstd::arithmetic::div_mod::lemma_mod_add_multiples_vanish(selected - 1, len);
        vstd::arithmetic::div_mod::lemma_small_mod((selected - 1) as nat, len as nat);
    }
}

/// Stepping a value down undoes stepping it up, and the other way round.
pub proof fn lemma_step_undone(selected: int, len: int)
    requires
        0 <= selected < len,
    ensures
        stepped(stepped(selected, len, true), len, false) == selected,
        stepped(stepped(selected, len, false), len, true) == selected,
{
}

/// `after` is `before` with the selected item's value stepped (`up` or
/// down), and `action` what the program then does.
pub open spec fn value_stepped(before: Menu, after: Menu, up: bool, action: MenuAction) -> bool {
    let items = items_view(before.items@);
    let i = before.selected as int;
    &&& after.selected == before.selected
    &&& after.active == before.active
    &&& after.exit == before.exit
    &&& after.canceled == before.canceled
    &&& after.exited == before.exited
    &&& after.longest_name == before.longest_name
    &&& after.printed == before.printed
    &&& match items[i].kind {
        KindView::Scroll { values, selected } => action == MenuAction::Redraw && items_view(after.items@)
            == items.update(
            i,
            ItemView {
                kind: KindView::Scroll { values, selected: stepped(selected as int, values.len() as int, up) as usize },
                ..items[i]
            },
        ),
        KindView::List { values, selected } => action == MenuAction::Redraw && items_view(after.items@)
            == items.update(
            i,
            ItemView {
                kind: KindView::List { values, selected: stepped(selected as int, values.len() as int, up) as usize },
                ..items[i]
            },
        ),
        KindView::Numeric => action == MenuAction::StepNumeric(up) && after.items == before.items,
        _ => action == MenuAction::Nothing && after.items == before.items,
    }
}

/// Steps the value of the selected scroll or list; asks the program to
/// step a numeric item.
fn step_value(menu: &mut Menu, up: bool) -> (action: MenuAction)
    requires
        old(menu).selected < old(menu).items@.len(),
        old(menu).items@[old(menu).selected as int].kind matches ItemKind::Scroll { values, selected }
            ==> values@.len() > 0 && selected < usize::MAX,
        old(menu).items@[old(menu).selected as int].kind matches ItemKind::List { values, selected }
            ==> values@.len() > 0 && selected < usize::MAX,
    ensures
        value_stepped(*old(menu), *final(menu), up, action),
        final(menu).name == old(menu).name,
{
    let i = menu.selected;
    match &menu.items[i].kind {
        ItemKind::Scroll { .. } | ItemKind::List { .. } => {},
        ItemKind::Numeric => {
            return MenuAction::StepNumeric(up);
        },
        _ => {
            return MenuAction::Nothing;
        },
    }
    let ghost before = items_view(menu.items@);
    let item = menu.items.remove(i);
    let MenuItem { name, colour, kind } = item;
    let new_kind = match kind {
        ItemKind::Scroll { values, selected } => {
            let s = step_index(selected, values.len(), up);
            ItemKind::Scroll { values, selected: s }
        },
        ItemKind::List { values, selected } => {
            let s = step_index(selected, values.len(), up);
            ItemKind::List { values, selected: s }
        },
        other => other,
    };
    let new_item = MenuItem { name, colour, kind: new_kind };
    let ghost nv = new_item@;
    menu.items.insert(i, new_item);
    assert(items_view(menu.items@) =~= before.update(i as int, nv));
    MenuAction::Redraw
}

fn step_index(selected: usize, len: usize, up: bool) -> (r: usize)
    requires
        len > 0,
        selected < usize::MAX,
    ensures
        r as int == stepped(selected as int, len as int, up),
{
    if up {
        if selected + 1 == len {
            0
        } else {
            selected + 1
        }
    } else {
        if selected == 0 {
            len - 1
        } else {
            selected - 1
        }
    }
}

/// What enter does on the selected item: a button closes the menu with the
/// menu's name; a back button closes it; a text item takes `line`, trimmed,
/// unless it is empty and the item does not allow that; a scroll or list
/// opens its values, a submenu runs, a numeric item reads a number; a label
/// does nothing.
pub fn enter_step(menu: &mut Menu, line: &str) -> (action: MenuAction)
    requires
        old(menu).selected < old(menu).items@.len(),
    ensures
        final(menu).selected == old(menu).selected,
        final(menu).name == old(menu).name,
        final(menu).canceled == old(menu).canceled,
        final(menu).exited == old(menu).exited,
        final(menu).longest_name == old(menu).longest_name,
        final(menu).printed == old(menu).printed,
        match items_view(old(menu).items@)[old(menu).selected as int].kind {
            KindView::Button => action == MenuAction::Exit && !final(menu).active && opt_view(final(menu).exit)
                == opt_view(old(menu).name) && final(menu).items == old(menu).items,
            KindView::BackButton => action == MenuAction::Exit && !final(menu).active && final(menu).exit
                == old(menu).exit && final(menu).items == old(menu).items,
            KindView::Text { value, allow_empty } => action == MenuAction::Redraw && final(menu).active
                == old(menu).active && final(menu).exit == old(menu).exit && items_view(final(menu).items@)
                == items_view(old(menu).items@).update(
                old(menu).selected as int,
                ItemView {
                    kind: KindView::Text {
                        value: if allow_empty || trim(line@).len() > 0 {
                            trim(line@)
                        } else {
                            value
                        },
                        allow_empty,
                    },
                    ..items_view(old(menu).items@)[old(menu).selected as int]
                },
            ),
            kind => final(menu).active == old(menu).active && final(menu).exit == old(menu).exit
                && final(menu).items == old(menu).items && action == match kind {
                KindView::Scroll { .. } => MenuAction::OpenChoice,
                KindView::List { .. } => MenuAction::OpenChoice,
                KindView::Submenu => MenuAction::OpenSubmenu,
                KindView::Numeric => MenuAction::NumericInput,
                _ => MenuAction::Nothing,
            },
        },
{
    let i = menu.selected;
    match &menu.items[i].kind {
        ItemKind::Button => {
            menu.exit = copy_name(&menu.name);
            menu.active = false;
            MenuAction::Exit
        },
        ItemKind::BackButton => {
            menu.active = false;
            MenuAction::Exit
        },
        ItemKind::Scroll { .. } | ItemKind::List { .. } => MenuAction::OpenChoice,
        ItemKind::Submenu => MenuAction::OpenSubmenu,
        ItemKind::Numeric => MenuAction::NumericInput,
        ItemKind::Label => MenuAction::Nothing,
        ItemKind::Text { .. } => {
            let ghost before = items_view(menu.items@);
            let item = menu.items.remove(i);
            let MenuItem { name, colour, kind } = item;
            let new_kind = match kind {
                ItemKind::Text { value, allow_empty } => {
                    let input = trim_str(line);
                    if allow_empty || !input.as_str().is_empty() {
                        ItemKind::Text { value: input, allow_empty }
                    } else {
                        ItemKind::Text { value, allow_empty }
                    }
                },
                other => other,
            };
            let new_item = MenuItem { name, colour, kind: new_kind };
            let ghost nv = new_item@;
            menu.items.insert(i, new_item);
            assert(items_view(menu.items@) =~= before.update(i as int, nv));
            MenuAction::Redraw
        },
    }
}

/// The menu of a scroll's or list's values that enter opens: a back button
/// for each value, the current one selected and drawn in green.
pub fn choice_menu(values: &Vec<String>, selected: usize) -> (m: Menu)
    ensures
        items_view(m.items@).len() == values@.len(),
        forall|i: int| 0 <= i < values@.len() ==> (#[trigger] items_view(m.items@)[i]).name == values@[i]@
            && items_view(m.items@)[i].kind == KindView::BackButton && items_view(m.items@)[i].colour == (
            if i == selected {
                Colour::Green
            } else {
                Colour::Reset
            }),
        m.selected == selected,
        opt_view(m.name) is None,
        !m.active && !m.exited && !m.canceled,
        opt_view(m.exit) is None,
{
    let mut items: Vec<MenuItem> = Vec::new();
    let mut i: usize = 0;
    while i < values.len()
        invariant
            i <= values@.len(),
            items@.len() == i,
            forall|k: int| 0 <= k < i ==> (#[trigger] items_view(items@)[k]).name == values@[k]@
                && items_view(items@)[k].kind == KindView::BackButton && items_view(items@)[k].colour == (
                if k == selected {
                    Colour::Green
                } else {
                    Colour::Reset
                }),
        decreases values@.len() - i,
    {
        let ghost before = items_view(items@);
        let colour = if i == selected {
            Colour::Green
        } else {
            Colour::Reset
        };
        let item = MenuItem { name: string_from_str(values[i].as_str()), colour, kind: ItemKind::BackButton };
        let ghost v = item@;
        items.push(item);
        assert(items_view(items@) =~= before.push(v));
        i = i + 1;
    }
    Menu {
        name: None,
        items,
        selected,
        active: false,
        exited: false,
        canceled: false,
        exit: None,
        longest_name: 0,
        printed: PrintState::Unprinted,
    }
}

/// Takes the value chosen in the menu of a scroll's or list's values.
pub fn set_choice(menu: &mut Menu, chosen: usize)
    requires
        old(menu).selected < old(menu).items@.len(),
    ensures
        final(menu).selected == old(menu).selected,
        final(menu).active == old(menu).active,
        final(menu).exit == old(menu).exit,
        final(menu).name == old(menu).name,
        final(menu).canceled == old(menu).canceled,
        final(menu).exited == old(menu).exited,
        final(menu).longest_name == old(menu).longest_name,
        final(menu).printed == old(menu).printed,
        match items_view(old(menu).items@)[old(menu).selected as int].kind {
            KindView::Scroll { values, .. } => items_view(final(menu).items@) == items_view(old(menu).items@).update(
                old(menu).selected as int,
                ItemView { kind: KindView::Scroll { values, selected: chosen }, ..items_view(old(menu).items@)[old(menu).selected as int] },
            ),
            KindView::List { values, .. } => items_view(final(menu).items@) == items_view(old(menu).items@).update(
                old(menu).selected as int,
                ItemView { kind: KindView::List { values, selected: chosen }, ..items_view(old(menu).items@)[old(menu).selected as int] },
            ),
            _ => final(menu).items == old(menu).items,
        },
{
    let i = menu.selected;
    let is_choice = match &menu.items[i].kind {
        ItemKind::Scroll { .. } | ItemKind::List { .. } => true,
        _ => false,
    };
    if !is_choice {
        return;
    }
    let ghost before = items_view(menu.items@);
    let item = menu.items.remove(i);
    let MenuItem { name, colour, kind } = item;
    let new_kind = match kind {
        ItemKind::Scroll { values, .. } => ItemKind::Scroll { values, selected: chosen },
        ItemKind::List { values, .. } => ItemKind::List { values, selected: chosen },
        other => other,
    };
    let new_item = MenuItem { name, colour, kind: new_kind };
    let ghost nv = new_item@;
    menu.items.insert(i, new_item);
    assert(items_view(menu.items@) =~= before.update(i as int, nv));
}

/// Takes how a submenu ended: when it exited with a name, this menu closes
/// with that name and the submenu's cancelation, and `true` is returned;
/// otherwise this menu goes on (`false`: draw it again).
pub fn submenu_done(menu: &mut Menu, exit: Option<String>, canceled: bool) -> (closed: bool)
    ensures
        closed == (exit is Some),
        closed ==> !final(menu).active && opt_view(final(menu).exit) == opt_view(exit) && final(menu).canceled
            == canceled,
        !closed ==> final(menu).active == old(menu).active && final(menu).exit == old(menu).exit
            && final(menu).canceled == old(menu).canceled,
        final(menu).items == old(menu).items,
        final(menu).selected == old(menu).selected,
        final(menu).name == old(menu).name,
        final(menu).exited == old(menu).exited,
        final(menu).longest_name == old(menu).longest_name,
        final(menu).printed == old(menu).printed,
{
    match exit {
        Some(e) => {
            menu.exit = Some(e);
            menu.canceled = canceled;
            menu.active = false;
            true
        },
        None => false,
    }
}

} // verus!
