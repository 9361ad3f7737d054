//! Moving through the scrollback and selecting text with the keyboard.
use vstd::prelude::*;

use crate::input::{KeyEvent, KeyName};
use crate::mouse_handler::{MouseHandler, MouseView};
use crate::panes::{LiveTab, LiveTabView, PaneId};
use crate::renderer::TextSelection;
use crate::screen::Screen;
use crate::text::str_eq;

verus! {

// ── Scrollback ───────────────────────────────────────────────────────────────

/// A move through the scrollback.
#[derive(Debug, Clone, Copy, PartialEq, Eq, Structural)]
pub enum ScrollbackNavigation {
    LineUp,
    LineDown,
    PageUp,
    PageDown,
    Top,
    Bottom,
}

/// The move that an action stands for.
pub open spec fn navigation_of(name: Seq<char>) -> Option<ScrollbackNavigation> {
    if name == "scrollback-line-up"@ {
        Some(ScrollbackNavigation::LineUp)
    } else if name == "scrollback-line-down"@ {
        Some(ScrollbackNavigation::LineDown)
    } else if name == "scrollback-page-up"@ {
        Some(ScrollbackNavigation::PageUp)
    } else if name == "scrollback-page-down"@ {
        Some(ScrollbackNavigation::PageDown)
    } else if name == "scrollback-top"@ {
        Some(ScrollbackNavigation::Top)
    } else if name == "scrollback-bottom"@ {
        Some(ScrollbackNavigation::Bottom)
    } else {
        None
    }
}

/// The move that an action stands for.
pub fn scrollback_navigation_for_action(name: &str) -> (r: Option<ScrollbackNavigation>)
    ensures
        r == navigation_of(name@),
{
    if str_eq(name, "scrollback-line-up") {
        Some(ScrollbackNavigation::LineUp)
    } else if str_eq(name, "scrollback-line-down") {
        Some(ScrollbackNavigation::LineDown)
    } else if str_eq(name, "scrollback-page-up") {
        Some(ScrollbackNavigation::PageUp)
    } else if str_eq(name, "scrollback-page-down") {
        Some(ScrollbackNavigation::PageDown)
    } else if str_eq(name, "scrollback-top") {
        Some(ScrollbackNavigation::Top)
    } else if str_eq(name, "scrollback-bottom") {
        Some(ScrollbackNavigation::Bottom)
    } else {
        None
    }
}

/// The lines of a page: one less than the screen has rows, at least one.
pub open spec fn page_lines(screen: Screen) -> int {
    if screen.rows <= 2 {
        1
    } else {
        screen.rows - 1
    }
}

/// The offset that a move leads to, from the given offset.
pub open spec fn navigated(screen: Screen, offset: int, navigation: ScrollbackNavigation) -> int {
    let max = screen.scrollback();
    match navigation {
        ScrollbackNavigation::LineUp => crate::mouse_handler::clamped(offset + 1, max),
        ScrollbackNavigation::LineDown => crate::mouse_handler::clamped(offset - 1, max),
        ScrollbackNavigation::PageUp => crate::mouse_handler::clamped(
            offset + page_lines(screen),
            max,
        ),
        ScrollbackNavigation::PageDown => crate::mouse_handler::clamped(
            offset - page_lines(screen),
            max,
        ),
        ScrollbackNavigation::Top => max,
        ScrollbackNavigation::Bottom => 0,
    }
}

/// The handler after a move in the focused pane. A pane on the alternate screen has no
/// scrollback to move through.
pub open spec fn after_navigation(
    m: MouseView,
    tab: LiveTabView,
    navigation: ScrollbackNavigation,
) -> MouseView {
    match tab.screen(tab.focus) {
        Some(screen) if !screen.alternate => {
            let p = tab.focus;
            if navigation == ScrollbackNavigation::Bottom && !m.panes.dom().contains(p.0) {
                m
            } else {
                crate::mouse_handler::with_offset(
                    m,
                    p,
                    navigated(screen, m.pane(p).scroll_offset as int, navigation),
                )
            }
        },
        _ => m,
    }
}

/// Move through the scrollback of the focused pane.
pub fn navigate_focused_scrollback(
    tab: &LiveTab,
    mouse_handler: &mut MouseHandler,
    navigation: ScrollbackNavigation,
) -> (r: bool)
    requires
        tab@.screens_ok(),
    ensures
        r,
        final(mouse_handler)@ == after_navigation(old(mouse_handler)@, tab@, navigation),
        old(mouse_handler)@.sound() ==> final(mouse_handler)@.sound(),
{
    let focused = tab.focus;
    let screen = match tab.screen(focused) {
        Some(screen) => screen,
        None => {
            return true;
        },
    };
    if screen.alternate {
        return true;
    }
    let max: i32 = screen.scrollback_len() as i32;
    let page: i32 = if screen.rows <= 2 {
        1
    } else {
        (screen.rows - 1) as i32
    };
    match navigation {
        ScrollbackNavigation::LineUp => mouse_handler.scroll_by(&focused, 1, max),
        ScrollbackNavigation::LineDown => mouse_handler.scroll_by(&focused, -1, max),
        ScrollbackNavigation::PageUp => mouse_handler.scroll_by(&focused, page, max),
        ScrollbackNavigation::PageDown => mouse_handler.scroll_by(&focused, -page, max),
        ScrollbackNavigation::Top => mouse_handler.scroll_to_top(&focused, max),
        ScrollbackNavigation::Bottom => mouse_handler.reset_scroll(&focused),
    }
    true
}

// ── Keyboard selection ───────────────────────────────────────────────────────

/// Whether the keyboard moves a selection, in which pane, and which end of it.
#[derive(Debug, Clone, Copy, PartialEq, Eq, Structural)]
pub struct KeyboardSelectionState {
    pub active: bool,
    pub pane_id: Option<PaneId>,
    pub move_start: bool,
}

/// The keyboard moves no selection.
pub open spec fn inactive() -> KeyboardSelectionState {
    KeyboardSelectionState { active: false, pane_id: None, move_start: false }
}

/// The keyboard moves the end of the selection in a pane.
pub open spec fn active_in(p: PaneId) -> KeyboardSelectionState {
    KeyboardSelectionState { active: true, pane_id: Some(p), move_start: false }
}

/// The keyboard moves the other end.
pub open spec fn switched(k: KeyboardSelectionState) -> KeyboardSelectionState {
    if k.active {
        KeyboardSelectionState { move_start: !k.move_start, ..k }
    } else {
        k
    }
}

impl KeyboardSelectionState {
    /// The keyboard moves no selection.
    pub fn new() -> (r: KeyboardSelectionState)
        ensures
            r == inactive(),
    {
        KeyboardSelectionState { active: false, pane_id: None, move_start: false }
    }

    /// Start moving the end of the selection in a pane.
    pub fn activate(&mut self, pane_id: PaneId)
        ensures
            *final(self) == active_in(pane_id),
    {
        self.active = true;
        self.pane_id = Some(pane_id);
        self.move_start = false;
    }

    /// Stop moving a selection.
    pub fn deactivate(&mut self)
        ensures
            *final(self) == inactive(),
    {
        self.active = false;
        self.pane_id = None;
        self.move_start = false;
    }

    /// Move the other end from now on.
    pub fn switch_endpoint(&mut self)
        ensures
            *final(self) == switched(*old(self)),
    {
        if self.active {
            self.move_start = !self.move_start;
        }
    }
}

impl Default for KeyboardSelectionState {
    fn default() -> (r: KeyboardSelectionState)
        ensures
            r == inactive(),
    {
        KeyboardSelectionState::new()
    }
}

/// The last row and column of a screen.
pub open spec fn last_cell(screen: Screen) -> (usize, usize) {
    (
        if screen.rows > 0 {
            (screen.rows - 1) as usize
        } else {
            0
        },
        if screen.cols > 0 {
            (screen.cols - 1) as usize
        } else {
            0
        },
    )
}

/// The last row and column of a screen.
pub fn selection_screen_bounds(screen: &Screen) -> (r: (usize, usize))
    ensures
        r == last_cell(*screen),
{
    (
        if screen.rows > 0 {
            screen.rows - 1
        } else {
            0
        },
        if screen.cols > 0 {
            screen.cols - 1
        } else {
            0
        },
    )
}

/// The smaller of two numbers.
pub open spec fn least(a: usize, b: usize) -> usize {
    if a <= b {
        a
    } else {
        b
    }
}

fn min_of(a: usize, b: usize) -> (r: usize)
    ensures
        r == least(a, b),
{
    if a <= b {
        a
    } else {
        b
    }
}

/// The cell of the screen that is nearest to a position.
pub fn clamp_selection_position(row: usize, col: usize, screen: &Screen) -> (r: (usize, usize))
    ensures
        r == (least(row, last_cell(*screen).0), least(col, last_cell(*screen).1)),
{
    let (max_row, max_col) = selection_screen_bounds(screen);
    (min_of(row, max_row), min_of(col, max_col))
}

/// A selection of the cell that the cursor is on.
pub open spec fn cursor_selection(screen: Screen) -> TextSelection {
    crate::mouse_handler::point_selection(
        least(screen.cursor_row, last_cell(screen).0),
        least(screen.cursor_col, last_cell(screen).1),
    )
}

fn select_cursor(screen: &Screen) -> (r: TextSelection)
    ensures
        r == cursor_selection(*screen),
{
    let (row, col) = clamp_selection_position(screen.cursor_row, screen.cursor_col, screen);
    TextSelection { start_row: row, start_col: col, end_row: row, end_col: col }
}

/// Selecting with the keyboard: a selection that is there is kept, else the cell under the cursor
/// gets selected.
pub open spec fn marked(m: MouseView, k: KeyboardSelectionState, tab: LiveTabView) -> (
    MouseView,
    KeyboardSelectionState,
) {
    match tab.screen(tab.focus) {
        Some(screen) => (
            if m.pane(tab.focus).selection is None {
                crate::mouse_handler::with_selection(
                    m,
                    tab.focus,
                    Some(cursor_selection(screen)),
                )
            } else {
                m
            },
            active_in(tab.focus),
        ),
        None => (m, k),
    }
}

/// Start selecting with the keyboard in the focused pane.
pub fn activate_keyboard_mark_mode(
    tab: &LiveTab,
    mouse_handler: &mut MouseHandler,
    keyboard_selection: &mut KeyboardSelectionState,
) -> (r: bool)
    ensures
        r,
        (final(mouse_handler)@, *final(keyboard_selection)) == marked(
            old(mouse_handler)@,
            *old(keyboard_selection),
            tab@,
        ),
        old(mouse_handler)@.sound() ==> final(mouse_handler)@.sound(),
{
    let focused = tab.focus;
    if let Some(screen) = tab.screen(focused) {
        if mouse_handler.selection(&focused).is_none() {
            mouse_handler.set_selection(&focused, Some(select_cursor(screen)));
        }
        keyboard_selection.activate(focused);
    }
    true
}

/// A selection of the whole screen.
pub open spec fn whole_screen(screen: Screen) -> TextSelection {
    TextSelection {
        start_row: 0,
        start_col: 0,
        end_row: last_cell(screen).0,
        end_col: last_cell(screen).1,
    }
}

/// Selecting everything on the screen of the focused pane.
pub open spec fn all_selected(m: MouseView, k: KeyboardSelectionState, tab: LiveTabView) -> (
    MouseView,
    KeyboardSelectionState,
) {
    match tab.screen(tab.focus) {
        Some(screen) => (
            crate::mouse_handler::with_selection(m, tab.focus, Some(whole_screen(screen))),
            active_in(tab.focus),
        ),
        None => (m, k),
    }
}

/// Select everything on the screen of the focused pane.
pub fn select_all_focused_pane(
    tab: &LiveTab,
    mouse_handler: &mut MouseHandler,
    keyboard_selection: &mut KeyboardSelectionState,
) -> (r: bool)
    ensures
        r,
        (final(mouse_handler)@, *final(keyboard_selection)) == all_selected(
            old(mouse_handler)@,
            *old(keyboard_selection),
            tab@,
        ),
        old(mouse_handler)@.sound() ==> final(mouse_handler)@.sound(),
{
    let focused = tab.focus;
    if let Some(screen) = tab.screen(focused) {
        let (max_row, max_col) = selection_screen_bounds(screen);
        mouse_handler.set_selection(
            &focused,
            Some(
                TextSelection { start_row: 0, start_col: 0, end_row: max_row, end_col: max_col },
            ),
        );
        keyboard_selection.activate(focused);
    }
    true
}

/// Whether a key moves an end of a selection.
pub open spec fn is_move(key: KeyName) -> bool {
    key == KeyName::Left || key == KeyName::Right || key == KeyName::Up || key == KeyName::Down
        || key == KeyName::Home || key == KeyName::End || key == KeyName::PageUp || key
        == KeyName::PageDown
}

/// Where a key moves a position on a screen to.
pub open spec fn moved_to(screen: Screen, row: usize, col: usize, key: KeyName) -> (usize, usize) {
    let (max_row, max_col) = last_cell(screen);
    match key {
        KeyName::Left => (
            row,
            if col > 0 {
                (col - 1) as usize
            } else {
                0
            },
        ),
        KeyName::Right => (
            row,
            if col < max_col {
                (col + 1) as usize
            } else {
                max_col
            },
        ),
        KeyName::Up => (
            if row > 0 {
                (row - 1) as usize
            } else {
                0
            },
            col,
        ),
        KeyName::Down => (
            if row < max_row {
                (row + 1) as usize
            } else {
                max_row
            },
            col,
        ),
        KeyName::Home => (row, 0),
        KeyName::End => (row, max_col),
        KeyName::PageUp => (0, col),
        KeyName::PageDown => (max_row, col),
        _ => (row, col),
    }
}

/// The handler after a key moved an end of the selection of a pane.
pub open spec fn after_move(
    m: MouseView,
    p: PaneId,
    screen: Screen,
    move_start: bool,
    key: KeyName,
) -> MouseView {
    let sel = match m.pane(p).selection {
        Some(sel) => sel,
        None => cursor_selection(screen),
    };
    let (row, col) = if move_start {
        moved_to(screen, sel.start_row, sel.start_col, key)
    } else {
        moved_to(screen, sel.end_row, sel.end_col, key)
    };
    crate::mouse_handler::with_endpoint(
        crate::mouse_handler::with_selection(m, p, Some(sel)),
        p,
        move_start,
        row,
        col,
    )
}

/// What a key does while a selection is moved: whether it is used up, the handler, and whether
/// the keyboard goes on moving the selection.
pub open spec fn selection_key(
    m: MouseView,
    k: KeyboardSelectionState,
    tab: LiveTabView,
    event: KeyEvent,
) -> (bool, MouseView, KeyboardSelectionState) {
    if !k.active {
        (false, m, k)
    } else if k.pane_id != Some(tab.focus) {
        (false, m, inactive())
    } else {
        match tab.screen(tab.focus) {
            None => (false, m, inactive()),
            Some(screen) => if event.modifiers.has_ctrl || event.modifiers.has_alt {
                (false, m, k)
            } else if event.key == KeyName::Escape || event.key == KeyName::Enter {
                (true, m, inactive())
            } else if is_move(event.key) {
                (true, after_move(m, tab.focus, screen, k.move_start, event.key), k)
            } else {
                (false, m, k)
            },
        }
    }
}

fn move_position(screen: &Screen, row: usize, col: usize, key: KeyName) -> (r: (usize, usize))
    ensures
        r == moved_to(*screen, row, col, key),
{
    let (max_row, max_col) = selection_screen_bounds(screen);
    match key {
        KeyName::Left => (
            row,
            if col > 0 {
                col - 1
            } else {
                0
            },
        ),
        KeyName::Right => (
            row,
            if col < max_col {
                col + 1
            } else {
                max_col
            },
        ),
        KeyName::Up => (
            if row > 0 {
                row - 1
            } else {
                0
            },
            col,
        ),
        KeyName::Down => (
            if row < max_row {
                row + 1
            } else {
                max_row
            },
            col,
        ),
        KeyName::Home => (row, 0),
        KeyName::End => (row, max_col),
        KeyName::PageUp => (0, col),
        KeyName::PageDown => (max_row, col),
        _ => (row, col),
    }
}

/// Process a key while a selection is moved with the keyboard. Returns whether the key was used
/// up.
pub fn move_keyboard_selection(
    tab: &LiveTab,
    mouse_handler: &mut MouseHandler,
    keyboard_selection: &mut KeyboardSelectionState,
    event: &KeyEvent,
) -> (r: bool)
    ensures
        (r, final(mouse_handler)@, *final(keyboard_selection)) == selection_key(
            old(mouse_handler)@,
            *old(keyboard_selection),
            tab@,
            *event,
        ),
        old(mouse_handler)@.sound() ==> final(mouse_handler)@.sound(),
{
    if !keyboard_selection.active {
        return false;
    }
    let focused = tab.focus;
    if keyboard_selection.pane_id != Some(focused) {
        keyboard_selection.deactivate();
        return false;
    }
    let screen = match tab.screen(focused) {
        Some(screen) => screen,
        None => {
            keyboard_selection.deactivate();
            return false;
        },
    };
    if event.modifiers.ctrl() || event.modifiers.alt() {
        return false;
    }
    match event.key {
        KeyName::Escape | KeyName::Enter => {
            keyboard_selection.deactivate();
            true
        },
        KeyName::Left
        | KeyName::Right
        | KeyName::Up
        | KeyName::Down
        | KeyName::Home
        | KeyName::End
        | KeyName::PageUp
        | KeyName::PageDown => {
            let selection = match mouse_handler.selection(&focused) {
                Some(sel) => sel,
                None => select_cursor(screen),
            };
            let (row, col) = if keyboard_selection.move_start {
                move_position(screen, selection.start_row, selection.start_col, event.key)
            } else {
                move_position(screen, selection.end_row, selection.end_col, event.key)
            };
            mouse_handler.set_selection(&focused, Some(selection));
            mouse_handler.set_selection_endpoint(&focused, keyboard_selection.move_start, row, col);
            true
        },
        _ => false,
    }
}

// ── Laws ─────────────────────────────────────────────────────────────────────

/// Moving through the scrollback never leads out of it, and leaves every selection as it was.
pub proof fn law_navigation_stays_in_scrollback(
    m: MouseView,
    tab: LiveTabView,
    navigation: ScrollbackNavigation,
    p: PaneId,
)
    requires
        tab.screen(tab.focus) matches Some(screen) && !screen.alternate && crate::panes::screen_ok(
            screen,
        ),
    ensures
        m.panes.dom().contains(tab.focus.0) || navigation != ScrollbackNavigation::Bottom ==> 0
            <= after_navigation(m, tab, navigation).pane(tab.focus).scroll_offset
            <= tab.screen(tab.focus)->0.scrollback(),
        after_navigation(m, tab, navigation).pane(p).selection == m.pane(p).selection,
{
}

/// A page up and then a page down lead back, unless the top was reached.
pub proof fn law_page_up_down(screen: Screen, offset: int)
    requires
        0 <= offset,
        offset + page_lines(screen) <= screen.scrollback(),
    ensures
        navigated(
            screen,
            navigated(screen, offset, ScrollbackNavigation::PageUp),
            ScrollbackNavigation::PageDown,
        ) == offset,
{
}

/// Escape ends the selecting and keeps the selection.
pub proof fn law_escape_keeps_selection(
    m: MouseView,
    k: KeyboardSelectionState,
    tab: LiveTabView,
    event: KeyEvent,
)
    requires
        event.key == KeyName::Escape,
    ensures
        selection_key(m, k, tab, event).1 == m,
{
}

/// Moving one end of a selection leaves the other where it is.
pub proof fn law_other_end_stays(
    m: MouseView,
    p: PaneId,
    screen: Screen,
    move_start: bool,
    key: KeyName,
)
    requires
        m.pane(p).selection is Some,
    ensures
        after_move(m, p, screen, move_start, key).pane(p).selection matches Some(sel) && if move_start {
            sel.end_row == m.pane(p).selection->0.end_row && sel.end_col
                == m.pane(p).selection->0.end_col
        } else {
            sel.start_row == m.pane(p).selection->0.start_row && sel.start_col
                == m.pane(p).selection->0.start_col
        },
{
}

/// Moving stays on the screen, for a position that is on it.
pub proof fn law_moves_stay_on_screen(screen: Screen, row: usize, col: usize, key: KeyName)
    requires
        row <= last_cell(screen).0,
        col <= last_cell(screen).1,
    ensures
        moved_to(screen, row, col, key).0 <= last_cell(screen).0,
        moved_to(screen, row, col, key).1 <= last_cell(screen).1,
{
}

/// How far each move scrolls: a line by one row, a page by one row less than the screen has, but at
/// least by one, and the top and the bottom to the ends of the scrollback. Nothing scrolls beyond
/// these ends.
pub proof fn law_navigation_distances(screen: Screen, offset: int)
    requires
        screen.wf(),
        0 <= offset <= screen.scrollback(),
    ensures
        ({
            let max = screen.lines@.len() - screen.rows;
            let page = if screen.rows > 2 { screen.rows - 1 } else { 1int };
            let to = |n: ScrollbackNavigation| navigated(screen, offset, n);
            &&& offset < max ==> to(ScrollbackNavigation::LineUp) == offset + 1
            &&& offset == max ==> to(ScrollbackNavigation::LineUp) == max
            &&& offset > 0 ==> to(ScrollbackNavigation::LineDown) == offset - 1
            &&& offset == 0 ==> to(ScrollbackNavigation::LineDown) == 0
            &&& offset + page <= max ==> to(ScrollbackNavigation::PageUp) == offset + page
            &&& offset + page > max ==> to(ScrollbackNavigation::PageUp) == max
            &&& offset >= page ==> to(ScrollbackNavigation::PageDown) == offset - page
            &&& offset < page ==> to(ScrollbackNavigation::PageDown) == 0
            &&& to(ScrollbackNavigation::Top) == max
            &&& to(ScrollbackNavigation::Bottom) == 0
        }),
{
}

/// Navigation scrolls the focused pane and no other, and an alternate screen not at all.
pub proof fn law_navigation_scrolls_the_focused_pane(
    m: MouseView,
    tab: LiveTabView,
    navigation: ScrollbackNavigation,
    screen: Screen,
    p: PaneId,
)
    requires
        m.sound(),
        tab.screen(tab.focus) == Some(screen),
        crate::panes::screen_ok(screen),
        p != tab.focus,
    ensures
        after_navigation(m, tab, navigation).pane(p) == m.pane(p),
        screen.alternate ==> after_navigation(m, tab, navigation) == m,
        !screen.alternate ==> after_navigation(m, tab, navigation).pane(tab.focus).scroll_offset
            == navigated(screen, m.pane(tab.focus).scroll_offset as int, navigation),
{
}

/// Selecting all selects every cell of the screen, and those only.
pub proof fn law_all_is_every_cell(
    m: MouseView,
    k: KeyboardSelectionState,
    tab: LiveTabView,
    screen: Screen,
    row: int,
    col: int,
)
    requires
        tab.screen(tab.focus) == Some(screen),
        0 <= row,
        0 <= col < screen.cols,
        screen.rows > 0,
    ensures
        ({
            let (after, state) = all_selected(m, k, tab);
            &&& after.pane(tab.focus).selection is Some
            &&& after.pane(tab.focus).selection->0.covers(row, col) <==> row < screen.rows
            &&& state.active && state.pane_id == Some(tab.focus) && !state.move_start
        }),
{
}

/// Starting to select by keys keeps a selection that is there, and else selects the cell of the
/// cursor.
pub proof fn law_selecting_starts_at_the_cursor(
    m: MouseView,
    k: KeyboardSelectionState,
    tab: LiveTabView,
    screen: Screen,
    row: int,
    col: int,
)
    requires
        tab.screen(tab.focus) == Some(screen),
        screen.cursor_row < screen.rows,
        screen.cursor_col < screen.cols,
    ensures
        ({
            let (after, state) = marked(m, k, tab);
            &&& m.pane(tab.focus).selection is Some ==> after == m
            &&& m.pane(tab.focus).selection is None ==> after.pane(tab.focus).selection is Some && (
            after.pane(tab.focus).selection->0.covers(row, col) <==> row == screen.cursor_row && col
                == screen.cursor_col)
            &&& state.active && state.pane_id == Some(tab.focus) && !state.move_start
        }),
{
}

/// Where each key moves the end of a selection: an arrow by one cell, Home and End to the first and
/// the last column, PageUp and PageDown to the first and the last row. At an edge it stays.
pub proof fn law_keys_move_an_end(screen: Screen, row: usize, col: usize)
    requires
        row < screen.rows,
        col < screen.cols,
    ensures
        ({
            let to = |key: KeyName| moved_to(screen, row, col, key);
            let last_row = (screen.rows - 1) as usize;
            let last_col = (screen.cols - 1) as usize;
            &&& col > 0 ==> to(KeyName::Left) == (row, (col - 1) as usize)
            &&& col == 0 ==> to(KeyName::Left) == (row, col)
            &&& col < last_col ==> to(KeyName::Right) == (row, (col + 1) as usize)
            &&& col == last_col ==> to(KeyName::Right) == (row, col)
            &&& row > 0 ==> to(KeyName::Up) == ((row - 1) as usize, col)
            &&& row == 0 ==> to(KeyName::Up) == (row, col)
            &&& row < last_row ==> to(KeyName::Down) == ((row + 1) as usize, col)
            &&& row == last_row ==> to(KeyName::Down) == (row, col)
            &&& to(KeyName::Home) == (row, 0usize)
            &&& to(KeyName::End) == (row, last_col)
            &&& to(KeyName::PageUp) == (0usize, col)
            &&& to(KeyName::PageDown) == (last_row, col)
        }),
{
}

/// While a selection is made by keys in the focused pane, a move key moves the end that is held,
/// Escape and Enter end the selecting, and all else, with Ctrl or Alt anything, is left to others.
pub proof fn law_selecting_by_keys(
    m: MouseView,
    k: KeyboardSelectionState,
    tab: LiveTabView,
    event: KeyEvent,
    screen: Screen,
    sel: TextSelection,
)
    requires
        k.active,
        k.pane_id == Some(tab.focus),
        tab.screen(tab.focus) == Some(screen),
        m.pane(tab.focus).selection == Some(sel),
    ensures
        ({
            let (used, after, state) = selection_key(m, k, tab, event);
            let plain = !event.modifiers.has_ctrl && !event.modifiers.has_alt;
            let now = after.pane(tab.focus).selection->0;
            let moves = event.key is Left || event.key is Right || event.key is Up
                || event.key is Down || event.key is Home || event.key is End
                || event.key is PageUp || event.key is PageDown;
            &&& !plain ==> !used && after == m && state == k
            &&& plain && (event.key is Escape || event.key is Enter) ==> used && after == m
                && !state.active
            &&& plain && moves ==> used && state == k && after.pane(tab.focus).selection is Some
            &&& plain && moves && k.move_start ==> (now.start_row, now.start_col) == moved_to(
                screen,
                sel.start_row,
                sel.start_col,
                event.key,
            ) && (now.end_row, now.end_col) == (sel.end_row, sel.end_col)
            &&& plain && moves && !k.move_start ==> (now.end_row, now.end_col) == moved_to(
                screen,
                sel.end_row,
                sel.end_col,
                event.key,
            ) && (now.start_row, now.start_col) == (sel.start_row, sel.start_col)
            &&& plain && !moves && !(event.key is Escape) && !(event.key is Enter) ==> !used && after
                == m && state == k
        }),
{
}

/// No key is used while nothing is selected by keys, or where the focus has gone to another pane,
/// which ends the selecting.
pub proof fn law_not_selecting_uses_no_key(
    m: MouseView,
    k: KeyboardSelectionState,
    tab: LiveTabView,
    event: KeyEvent,
)
    ensures
        !k.active ==> selection_key(m, k, tab, event) == (false, m, k),
        k.active && k.pane_id != Some(tab.focus) ==> !selection_key(m, k, tab, event).0
            && selection_key(m, k, tab, event).1 == m && !selection_key(m, k, tab, event).2.active,
        k.active ==> switched(k).move_start == !k.move_start && switched(switched(k)) == k,
        !k.active ==> switched(k) == k,
{
}

} // verus!
