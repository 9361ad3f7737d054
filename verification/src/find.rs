//! Finding text in a pane and its scrollback.
use vstd::prelude::*;
use vstd::utf8::*;

use crate::mouse_handler::{MouseHandler, MouseView};
use crate::panes::{LiveTab, LiveTabView, PaneId};
use crate::renderer::TextSelection;
use crate::screen::Screen;
use crate::status_bar::{BarView, StatusBar};
use crate::text::{chars_of, push_decimal, trim};

verus! {

broadcast use vstd::string::group_string_axioms;

// ── Matches ──────────────────────────────────────────────────────────────────

/// A place where the query was found: its row, counted from the oldest, its first column, and
/// its length.
#[derive(Debug, Clone, Copy, PartialEq, Eq, Structural)]
pub struct FindMatch {
    pub row: usize,
    pub col: usize,
    pub len: usize,
}

/// The text of the first `n` cells of a row.
pub open spec fn row_cells(screen: Screen, row: int, n: int) -> Seq<char>
    decreases n,
{
    if n <= 0 {
        Seq::empty()
    } else {
        row_cells(screen, row, n - 1) + if screen.has_cell(row, n - 1) {
            screen.cell(row, n - 1).text@
        } else {
            Seq::empty()
        }
    }
}

/// The text of a row, counted from the oldest.
pub fn virtual_row_text(screen: &Screen, row: usize) -> (r: String)
    ensures
        r@ == row_cells(*screen, row as int, screen.cols as int),
{
    let mut text = String::new();
    let mut col: usize = 0;
    while col < screen.cols
        invariant
            col <= screen.cols,
            text@ == row_cells(*screen, row as int, col as int),
        decreases screen.cols - col,
    {
        if let Some(cell) = screen.cell_at_virtual(row, col) {
            text.append(cell.text.as_str());
        }
        col += 1;
        assert(text@ =~= row_cells(*screen, row as int, col as int));
    }
    text
}

/// Whether `needle` stands in `hay` at `i`.
pub open spec fn found_at(hay: Seq<u8>, needle: Seq<u8>, i: int) -> bool {
    i + needle.len() <= hay.len() && hay.subrange(i, i + needle.len()) == needle
}

/// The places from `start` on where `needle` stands in `hay`, from left to right, each behind the
/// end of the one before.
pub open spec fn places_from(hay: Seq<u8>, needle: Seq<u8>, start: int) -> Seq<int>
    decreases hay.len() - start,
{
    if needle.len() == 0 || start + needle.len() > hay.len() {
        Seq::empty()
    } else if found_at(hay, needle, start) {
        seq![start] + places_from(hay, needle, start + needle.len())
    } else {
        places_from(hay, needle, start + 1)
    }
}

/// The models of indices.
pub open spec fn index_views(v: Seq<usize>) -> Seq<int> {
    v.map_values(|i: usize| i as int)
}

fn stands(hay: &[u8], needle: &[u8], i: usize) -> (r: bool)
    requires
        i + needle@.len() <= hay@.len(),
    ensures
        r == found_at(hay@, needle@, i as int),
{
    let n: usize = hay.len();
    let m: usize = needle.len();
    let mut k: usize = 0;
    while k < m
        invariant
            n == hay@.len(),
            m == needle@.len(),
            k <= m,
            i + m <= n,
            forall|j: int| 0 <= j < k ==> hay@[i + j] == needle@[j],
        decreases m - k,
    {
        if hay[i + k] != needle[k] {
            assert(hay@.subrange(i as int, i + needle@.len())[k as int] != needle@[k as int]);
            return false;
        }
        k += 1;
    }
    assert(hay@.subrange(i as int, i + needle@.len()) =~= needle@);
    true
}

/// The places where `needle` stands in `hay`, from left to right, each behind the end of the one
/// before.
pub fn occurrences(hay: &[u8], needle: &[u8]) -> (r: Vec<usize>)
    requires
        needle@.len() > 0,
    ensures
        index_views(r@) == places_from(hay@, needle@, 0),
{
    let mut out: Vec<usize> = Vec::new();
    let n: usize = hay.len();
    let m: usize = needle.len();
    let mut i: usize = 0;
    assert(index_views(out@) + places_from(hay@, needle@, 0) =~= places_from(hay@, needle@, 0));
    while i <= n && m <= n - i
        invariant
            n == hay@.len(),
            m == needle@.len(),
            m > 0,
            i <= n,
            index_views(out@) + places_from(hay@, needle@, i as int) == places_from(
                hay@,
                needle@,
                0,
            ),
        decreases n - i,
    {
        let ghost before = index_views(out@);
        if stands(hay, needle, i) {
            out.push(i);
            assert(index_views(out@) =~= before.push(i as int));
            assert(before + (seq![i as int] + places_from(hay@, needle@, i + m)) =~= before.push(
                i as int,
            ) + places_from(hay@, needle@, i + m));
            i += m;
        } else {
            i += 1;
        }
    }
    assert(index_views(out@) + Seq::<int>::empty() =~= index_views(out@));
    out
}

/// The places where a query is found in a row. They are counted in bytes of the row's text in
/// small letters.
pub open spec fn row_places(screen: Screen, row: int, query: Seq<char>) -> Seq<int> {
    places_from(
        encode_utf8(
            crate::text::lowercase(row_cells(screen, row, screen.cols as int)),
        ),
        encode_utf8(crate::text::lowercase(query)),
        0,
    )
}

/// Places in a row as matches.
pub open spec fn as_matches(places: Seq<int>, row: int, len: int) -> Seq<FindMatch> {
    places.map_values(
        |col: int| FindMatch { row: row as usize, col: col as usize, len: len as usize },
    )
}

/// The matches of a query in the first `n` rows.
pub open spec fn matches_in(screen: Screen, query: Seq<char>, n: int) -> Seq<FindMatch>
    decreases n,
{
    if n <= 0 {
        Seq::empty()
    } else {
        matches_in(screen, query, n - 1) + as_matches(
            row_places(screen, n - 1, query),
            n - 1,
            query.len() as int,
        )
    }
}

/// The matches of a query on a screen and in its scrollback. White space around the query does
/// not count, and a blank query is found nowhere.
pub open spec fn all_matches(screen: Screen, query: Seq<char>) -> Seq<FindMatch> {
    if crate::text::trimmed(query).len() == 0 {
        Seq::empty()
    } else {
        matches_in(screen, crate::text::trimmed(query), screen.lines@.len() as int)
    }
}

proof fn lemma_encode_nonempty(s: Seq<char>)
    requires
        s.len() > 0,
    ensures
        encode_utf8(s).len() > 0,
{
    encode_utf8_decode_utf8(s);
    if encode_utf8(s).len() == 0 {
        assert(encode_utf8(s) =~= Seq::<u8>::empty());
        assert(encode_utf8(Seq::<char>::empty()) =~= Seq::<u8>::empty());
        encode_utf8_decode_utf8(Seq::<char>::empty());
    }
}

/// Finds a query on a screen and in its scrollback, whatever the case of the letters.
pub fn find_matches(screen: &Screen, query: &str) -> (r: Vec<FindMatch>)
    ensures
        r@ == all_matches(*screen, query@),
{
    let query = trim(query);
    let len: usize = chars_of(query.as_str()).len();
    let mut out: Vec<FindMatch> = Vec::new();
    if len == 0 {
        return out;
    }
    let needle = query.to_lowercase();
    proof {
        lemma_encode_nonempty(needle@);
    }
    let total: usize = screen.total_rows();
    let mut row: usize = 0;
    while row < total
        invariant
            row <= total,
            len == query@.len(),
            needle@ == crate::text::lowercase(query@),
            encode_utf8(needle@).len() > 0,
            out@ == matches_in(*screen, query@, row as int),
        decreases total - row,
    {
        let haystack = virtual_row_text(screen, row).to_lowercase();
        let places = occurrences(haystack.as_str().as_bytes(), needle.as_str().as_bytes());
        let ghost before = out@;
        let ghost added = as_matches(index_views(places@), row as int, len as int);
        let mut k: usize = 0;
        assert(before + added.take(0) =~= before);
        while k < places.len()
            invariant
                k <= places@.len(),
                added == as_matches(index_views(places@), row as int, len as int),
                out@ == before + added.take(k as int),
            decreases places.len() - k,
        {
            out.push(FindMatch { row, col: places[k], len });
            assert(added[k as int] == (FindMatch { row, col: places@[k as int], len }));
            assert(before + added.take(k + 1) =~= (before + added.take(k as int)).push(
                added[k as int],
            ));
            k += 1;
        }
        assert(added.take(k as int) =~= added);
        row += 1;
    }
    out
}

// ── State ────────────────────────────────────────────────────────────────────

/// What was found last, and the match that is shown.
#[derive(Debug)]
pub struct FindState {
    pub pane_id: Option<PaneId>,
    pub query: String,
    pub matches: Vec<FindMatch>,
    pub current: usize,
}

/// The model of a [`FindState`].
#[verifier::ext_equal]
pub struct FindView {
    pub pane_id: Option<PaneId>,
    pub query: Seq<char>,
    pub matches: Seq<FindMatch>,
    pub current: int,
}

impl View for FindState {
    type V = FindView;

    open spec fn view(&self) -> FindView {
        FindView {
            pane_id: self.pane_id,
            query: self.query@,
            matches: self.matches@,
            current: self.current as int,
        }
    }
}

impl FindView {
    /// The match that is shown is one of the matches, if there are any.
    pub open spec fn wf(self) -> bool {
        self.current == 0 || 0 <= self.current < self.matches.len()
    }
}

/// Nothing was found.
pub open spec fn nothing_found() -> FindView {
    FindView { pane_id: None, query: Seq::empty(), matches: Seq::empty(), current: 0 }
}

impl FindState {
    /// Nothing was found.
    pub fn new() -> (r: FindState)
        ensures
            r@ == nothing_found(),
            r@.wf(),
    {
        FindState { pane_id: None, query: String::new(), matches: Vec::new(), current: 0 }
    }

    /// Forget what was found.
    pub fn clear(&mut self)
        ensures
            final(self)@ == nothing_found(),
    {
        self.pane_id = None;
        self.query = String::new();
        self.matches = Vec::new();
        self.current = 0;
    }

    /// The match that is shown.
    pub fn current_match(&self) -> (r: Option<FindMatch>)
        ensures
            r == if self.current < self.matches@.len() {
                Some(self.matches@[self.current as int])
            } else {
                None
            },
    {
        if self.current < self.matches.len() {
            Some(self.matches[self.current])
        } else {
            None
        }
    }
}

impl Default for FindState {
    fn default() -> (r: FindState)
        ensures
            r@ == nothing_found(),
    {
        FindState::new()
    }
}

/// The next match after the one with the given index, or the one before it, going round.
pub open spec fn next_index(current: int, len: int, forward: bool) -> int {
    if len == 0 {
        0
    } else if forward {
        (current + 1) % len
    } else if current == 0 {
        len - 1
    } else {
        current - 1
    }
}

/// The next match after the one with the given index, or the one before it, going round.
pub fn next_find_index(current: usize, len: usize, forward: bool) -> (r: usize)
    requires
        current < usize::MAX,
    ensures
        r == next_index(current as int, len as int, forward),
{
    if len == 0 {
        return 0;
    }
    if forward {
        (current + 1) % len
    } else if current == 0 {
        len - 1
    } else {
        current - 1
    }
}

/// The handler with a match in view and selected: a row of the scrollback becomes the first row
/// of the view.
pub open spec fn shown_match(m: MouseView, screen: Screen, p: PaneId, f: FindMatch) -> MouseView {
    let max = screen.scrollback();
    let base = if f.row < max {
        f.row as int
    } else {
        max
    };
    let row = (f.row - base) as usize;
    let end = if f.len == 0 {
        f.col as int
    } else {
        f.col + f.len - 1
    };
    crate::mouse_handler::with_selection(
        crate::mouse_handler::with_offset(m, p, max - base),
        p,
        Some(
            TextSelection {
                start_row: row,
                start_col: f.col,
                end_row: row,
                end_col: if end <= usize::MAX {
                    end as usize
                } else {
                    usize::MAX
                },
            },
        ),
    )
}

/// Bring a match into view and select it.
pub fn apply_find_match(
    screen: &Screen,
    pane_id: PaneId,
    mouse_handler: &mut MouseHandler,
    find_match: &FindMatch,
)
    requires
        crate::panes::screen_ok(*screen),
    ensures
        final(mouse_handler)@ == shown_match(
            old(mouse_handler)@,
            *screen,
            pane_id,
            *find_match,
        ),
        old(mouse_handler)@.sound() ==> final(mouse_handler)@.sound(),
{
    let max: usize = screen.scrollback_len();
    let base: usize = if find_match.row < max {
        find_match.row
    } else {
        max
    };
    let offset: i32 = (max - base) as i32;
    mouse_handler.set_scroll_offset(&pane_id, offset, max as i32);
    let row: usize = find_match.row - base;
    let end: usize = if find_match.len == 0 {
        find_match.col
    } else if find_match.col <= usize::MAX - (find_match.len - 1) {
        find_match.col + (find_match.len - 1)
    } else {
        usize::MAX
    };
    mouse_handler.set_selection(
        &pane_id,
        Some(
            TextSelection {
                start_row: row,
                start_col: find_match.col,
                end_row: row,
                end_col: end,
            },
        ),
    );
}

/// What the status bar says of the match that is shown.
pub open spec fn position_text(query: Seq<char>, current: int, count: int) -> Seq<char> {
    "find: "@ + query + " ("@ + crate::text::decimal((current + 1) as nat) + "/"@
        + crate::text::decimal(count as nat) + ")"@
}

fn position_label(query: &str, current: usize, count: usize) -> (r: String)
    requires
        current < count,
    ensures
        r@ == position_text(query@, current as int, count as int),
{
    let mut s = "find: ".to_owned();
    s.append(query);
    s.append(" (");
    push_decimal(&mut s, (current + 1) as u64);
    s.append("/");
    push_decimal(&mut s, count as u64);
    s.append(")");
    s
}

/// What starting to find results in.
pub open spec fn find_started(
    m: MouseView,
    f: FindView,
    bar: BarView,
    tab: LiveTabView,
    query: Seq<char>,
) -> (MouseView, FindView, BarView) {
    match tab.screen(tab.focus) {
        None => (m, nothing_found(), bar),
        Some(screen) => {
            let matches = all_matches(screen, query);
            let text = crate::text::trimmed(query);
            let found = FindView { pane_id: Some(tab.focus), query: text, matches, current: 0 };
            if matches.len() > 0 {
                (
                    shown_match(m, screen, tab.focus, matches[0]),
                    found,
                    crate::status_bar::with_path(
                        bar,
                        position_text(text, 0, matches.len() as int),
                    ),
                )
            } else {
                (
                    crate::mouse_handler::without_selection(m, tab.focus),
                    found,
                    crate::status_bar::with_path(bar, "find: no matches for "@ + text),
                )
            }
        },
    }
}

/// Start to find a query in the focused pane.
pub fn start_find(
    tab: &LiveTab,
    mouse_handler: &mut MouseHandler,
    find_state: &mut FindState,
    query: &str,
    status_bar: &mut StatusBar,
) -> (r: bool)
    requires
        tab@.screens_ok(),
    ensures
        r,
        (final(mouse_handler)@, final(find_state)@, final(status_bar)@) == find_started(
            old(mouse_handler)@,
            old(find_state)@,
            old(status_bar)@,
            tab@,
            query@,
        ),
        final(find_state)@.wf(),
        old(mouse_handler)@.sound() ==> final(mouse_handler)@.sound(),
{
    let focused = tab.focus;
    let screen = match tab.screen(focused) {
        Some(screen) => screen,
        None => {
            find_state.clear();
            return true;
        },
    };
    find_state.pane_id = Some(focused);
    find_state.query = trim(query);
    find_state.matches = find_matches(screen, query);
    find_state.current = 0;
    match find_state.current_match() {
        Some(found) => {
            apply_find_match(screen, focused, mouse_handler, &found);
            status_bar.set_pane_path(
                position_label(find_state.query.as_str(), 0, find_state.matches.len()),
            );
        },
        None => {
            mouse_handler.clear_selection(&focused);
            let mut s = "find: no matches for ".to_owned();
            s.append(find_state.query.as_str());
            status_bar.set_pane_path(s);
        },
    }
    true
}

/// What going to the next match results in.
pub open spec fn find_moved(
    m: MouseView,
    f: FindView,
    bar: BarView,
    tab: LiveTabView,
    forward: bool,
) -> (MouseView, FindView, BarView) {
    if f.pane_id != Some(tab.focus) || f.matches.len() == 0 {
        (m, f, bar)
    } else {
        match tab.screen(tab.focus) {
            None => (m, nothing_found(), bar),
            Some(screen) => {
                let n = f.matches.len() as int;
                let current = next_index(f.current, n, forward);
                (
                    shown_match(m, screen, tab.focus, f.matches[current]),
                    FindView { current, ..f },
                    crate::status_bar::with_path(bar, position_text(f.query, current, n)),
                )
            },
        }
    }
}

/// Go to the next match, or to the one before.
pub fn navigate_find(
    tab: &LiveTab,
    mouse_handler: &mut MouseHandler,
    find_state: &mut FindState,
    status_bar: &mut StatusBar,
    forward: bool,
) -> (r: bool)
    requires
        tab@.screens_ok(),
        old(find_state)@.wf(),
    ensures
        r,
        (final(mouse_handler)@, final(find_state)@, final(status_bar)@) == find_moved(
            old(mouse_handler)@,
            old(find_state)@,
            old(status_bar)@,
            tab@,
            forward,
        ),
        final(find_state)@.wf(),
        old(mouse_handler)@.sound() ==> final(mouse_handler)@.sound(),
{
    let focused = tab.focus;
    if find_state.pane_id != Some(focused) || find_state.matches.len() == 0 {
        return true;
    }
    let screen = match tab.screen(focused) {
        Some(screen) => screen,
        None => {
            find_state.clear();
            return true;
        },
    };
    let n: usize = find_state.matches.len();
    find_state.current = next_find_index(find_state.current, n, forward);
    proof {
        law_next_is_in_range(old(find_state)@.current, n as int, forward);
    }
    if let Some(found) = find_state.current_match() {
        apply_find_match(screen, focused, mouse_handler, &found);
        status_bar.set_pane_path(
            position_label(find_state.query.as_str(), find_state.current, n),
        );
    }
    true
}

// ── Laws ─────────────────────────────────────────────────────────────────────

/// The next match is one of the matches.
pub proof fn law_next_is_in_range(current: int, len: int, forward: bool)
    requires
        0 <= current < len,
    ensures
        0 <= next_index(current, len, forward) < len,
{
}

/// Forward and then back leads to where one was, and so does back and then forward.
pub proof fn law_forward_and_back(current: int, len: int)
    requires
        0 <= current < len,
    ensures
        next_index(next_index(current, len, true), len, false) == current,
        next_index(next_index(current, len, false), len, true) == current,
{
    if current + 1 < len {
        assert((current + 1) % len == current + 1) by (nonlinear_arith)
            requires
                0 <= current,
                current + 1 < len,
        ;
    } else {
        assert((current + 1) % len == 0) by (nonlinear_arith)
            requires
                0 <= current,
                current + 1 == len,
        ;
    }
    if current > 0 {
        assert((current - 1 + 1) % len == current) by (nonlinear_arith)
            requires
                0 <= current < len,
        ;
    } else {
        assert((len - 1 + 1) % len == 0) by (nonlinear_arith)
            requires
                len > 0,
        ;
    }
}

/// At every place where a text is said to be found it stands, the places ascend and do not
/// overlap.
pub proof fn law_places_are_found(hay: Seq<u8>, needle: Seq<u8>, start: int, i: int)
    requires
        0 <= start,
        needle.len() > 0,
        0 <= i < places_from(hay, needle, start).len(),
    ensures
        start <= places_from(hay, needle, start)[i],
        found_at(hay, needle, places_from(hay, needle, start)[i]),
        i + 1 < places_from(hay, needle, start).len() ==> places_from(hay, needle, start)[i]
            + needle.len() <= places_from(hay, needle, start)[i + 1],
    decreases hay.len() - start,
{
    let all = places_from(hay, needle, start);
    if found_at(hay, needle, start) {
        let rest = places_from(hay, needle, start + needle.len());
        if i > 0 {
            law_places_are_found(hay, needle, start + needle.len(), i - 1);
            assert(all[i] == rest[i - 1]);
            if i + 1 < all.len() {
                assert(all[i + 1] == rest[i]);
            }
        } else if all.len() > 1 {
            law_places_are_found(hay, needle, start + needle.len(), 0);
            assert(all[1] == rest[0]);
        }
    } else {
        law_places_are_found(hay, needle, start + 1, i);
    }
}

/// A text that stands anywhere from the start on is found.
pub proof fn law_nothing_is_missed(hay: Seq<u8>, needle: Seq<u8>, start: int, at: int)
    requires
        needle.len() > 0,
        0 <= start <= at,
        found_at(hay, needle, at),
    ensures
        places_from(hay, needle, start).len() > 0,
        places_from(hay, needle, start)[0] <= at,
    decreases hay.len() - start,
{
    if !found_at(hay, needle, start) {
        law_nothing_is_missed(hay, needle, start + 1, at);
    }
}

/// The match that is shown is in view: its row in the view is a row of the screen, and it is the
/// row of the match.
pub proof fn law_match_is_in_view(m: MouseView, screen: Screen, p: PaneId, f: FindMatch)
    requires
        crate::panes::screen_ok(screen),
        f.row < screen.lines@.len(),
    ensures
        ({
            let after = shown_match(m, screen, p, f).pane(p);
            &&& after.selection is Some
            &&& screen.rows > 0 ==> after.selection->0.start_row < screen.rows
            &&& screen.scrollback() - after.scroll_offset + after.selection->0.start_row == f.row
        }),
{
}

/// What is selected of a match is the match: in one row, from its first column on, as many columns
/// as it is long. Other panes stay as they are.
pub proof fn law_match_is_selected(m: MouseView, screen: Screen, p: PaneId, f: FindMatch, q: PaneId)
    requires
        f.len > 0,
        f.col + f.len <= usize::MAX,
        q != p,
    ensures
        ({
            let after = shown_match(m, screen, p, f);
            let sel = after.pane(p).selection->0;
            &&& after.pane(p).selection is Some
            &&& sel.start_row == sel.end_row
            &&& sel.start_col == f.col
            &&& sel.end_col + 1 == f.col + f.len
            &&& after.pane(q) == m.pane(q)
            &&& after.selecting == m.selecting
        }),
{
}

/// Nothing is missed: wherever the query stands in the text of a row, both in small letters, some
/// match in that row starts at or before that place and ends behind it. Places are counted in bytes.
pub proof fn law_every_occurrence_is_matched(screen: Screen, query: Seq<char>, row: int, at: int)
    requires
        crate::text::trimmed(query).len() > 0,
        crate::text::lowercase(crate::text::trimmed(query)).len() > 0,
        0 <= row < screen.lines@.len(),
        0 <= at,
        found_at(
            encode_utf8(crate::text::lowercase(row_cells(screen, row, screen.cols as int))),
            encode_utf8(crate::text::lowercase(crate::text::trimmed(query))),
            at,
        ),
        encode_utf8(crate::text::lowercase(row_cells(screen, row, screen.cols as int))).len()
            <= usize::MAX,
    ensures
        exists|k: int|
            0 <= k < all_matches(screen, query).len() && (#[trigger] all_matches(
                screen,
                query,
            )[k]).row == row && all_matches(screen, query)[k].col <= at < all_matches(
                screen,
                query,
            )[k].col + encode_utf8(crate::text::lowercase(crate::text::trimmed(query))).len(),
{
    let text = crate::text::trimmed(query);
    let hay = encode_utf8(crate::text::lowercase(row_cells(screen, row, screen.cols as int)));
    let needle = encode_utf8(crate::text::lowercase(text));
    lemma_encode_nonempty(crate::text::lowercase(text));
    let i = lemma_covered_place(hay, needle, 0, at);
    law_places_are_found(hay, needle, 0, i);
    let n = screen.lines.len();
    assert(n == screen.lines@.len());
    let k = lemma_match_at(screen, text, n as int, row, i);
    assert(all_matches(screen, query)[k].row == row);
}

/// The place that covers an occurrence.
proof fn lemma_covered_place(hay: Seq<u8>, needle: Seq<u8>, start: int, at: int) -> (i: int)
    requires
        needle.len() > 0,
        0 <= start <= at,
        found_at(hay, needle, at),
    ensures
        0 <= i < places_from(hay, needle, start).len(),
        places_from(hay, needle, start)[i] <= at < places_from(hay, needle, start)[i]
            + needle.len(),
    decreases hay.len() - start,
{
    let all = places_from(hay, needle, start);
    if found_at(hay, needle, start) {
        if at < start + needle.len() {
            0
        } else {
            let rest = places_from(hay, needle, start + needle.len());
            let i = lemma_covered_place(hay, needle, start + needle.len(), at);
            assert(all[i + 1] == rest[i]);
            i + 1
        }
    } else {
        lemma_covered_place(hay, needle, start + 1, at)
    }
}

/// The match for a place in a row.
proof fn lemma_match_at(screen: Screen, query: Seq<char>, n: int, row: int, i: int) -> (k: int)
    requires
        0 <= row < n,
        0 <= i < row_places(screen, row, query).len(),
    ensures
        0 <= k < matches_in(screen, query, n).len(),
        matches_in(screen, query, n)[k] == (FindMatch {
            row: row as usize,
            col: row_places(screen, row, query)[i] as usize,
            len: query.len() as usize,
        }),
    decreases n,
{
    let before = matches_in(screen, query, n - 1);
    if row == n - 1 {
        before.len() + i
    } else {
        lemma_match_at(screen, query, n - 1, row, i)
    }
}

/// The row and the place that a match stands for.
proof fn lemma_match_source(screen: Screen, query: Seq<char>, n: int, k: int) -> (source: (int, int))
    requires
        0 <= k < matches_in(screen, query, n).len(),
    ensures
        0 <= source.0 < n,
        0 <= source.1 < row_places(screen, source.0, query).len(),
        matches_in(screen, query, n)[k] == (FindMatch {
            row: source.0 as usize,
            col: row_places(screen, source.0, query)[source.1] as usize,
            len: query.len() as usize,
        }),
    decreases n,
{
    let before = matches_in(screen, query, n - 1);
    if n <= 0 {
        (0, 0)
    } else if k < before.len() {
        lemma_match_source(screen, query, n - 1, k)
    } else {
        (n - 1, k - before.len())
    }
}

/// Nothing else is found: at every match the query stands in the text of the row, both in small
/// letters, and the match is as long as the query without the white space around it.
pub proof fn law_every_match_is_an_occurrence(screen: Screen, query: Seq<char>, k: int)
    requires
        0 <= k < all_matches(screen, query).len(),
        crate::text::lowercase(crate::text::trimmed(query)).len() > 0,
        crate::text::trimmed(query).len() <= usize::MAX,
        forall|row: int|
            #![trigger row_cells(screen, row, screen.cols as int)]
            encode_utf8(crate::text::lowercase(row_cells(screen, row, screen.cols as int))).len()
                <= usize::MAX,
    ensures
        ({
            let m = all_matches(screen, query)[k];
            &&& m.row < screen.lines@.len()
            &&& m.len == crate::text::trimmed(query).len()
            &&& found_at(
                encode_utf8(
                    crate::text::lowercase(row_cells(screen, m.row as int, screen.cols as int)),
                ),
                encode_utf8(crate::text::lowercase(crate::text::trimmed(query))),
                m.col as int,
            )
        }),
{
    let text = crate::text::trimmed(query);
    let n = screen.lines.len();
    let (row, i) = lemma_match_source(screen, text, n as int, k);
    let hay = encode_utf8(crate::text::lowercase(row_cells(screen, row, screen.cols as int)));
    let needle = encode_utf8(crate::text::lowercase(text));
    lemma_encode_nonempty(crate::text::lowercase(text));
    law_places_are_found(hay, needle, 0, i);
}

proof fn lemma_places_ascend(hay: Seq<u8>, needle: Seq<u8>, i: int, j: int)
    requires
        needle.len() > 0,
        0 <= i < j < places_from(hay, needle, 0).len(),
    ensures
        places_from(hay, needle, 0)[i] + needle.len() <= places_from(hay, needle, 0)[j],
    decreases j - i,
{
    law_places_are_found(hay, needle, 0, i);
    if i + 1 < j {
        lemma_places_ascend(hay, needle, i + 1, j);
    }
}

/// The matches stand in the order of the text, from the oldest row to the newest and from left to
/// right, and do not overlap.
pub proof fn law_matches_are_in_order(screen: Screen, query: Seq<char>, k: int, l: int)
    requires
        0 <= k < l < all_matches(screen, query).len(),
        crate::text::lowercase(crate::text::trimmed(query)).len() > 0,
        forall|row: int|
            #![trigger row_cells(screen, row, screen.cols as int)]
            encode_utf8(crate::text::lowercase(row_cells(screen, row, screen.cols as int))).len()
                <= usize::MAX,
    ensures
        ({
            let a = all_matches(screen, query)[k];
            let b = all_matches(screen, query)[l];
            a.row < b.row || (a.row == b.row && a.col + encode_utf8(
                crate::text::lowercase(crate::text::trimmed(query)),
            ).len() <= b.col)
        }),
{
    let n = screen.lines.len();
    lemma_encode_nonempty(crate::text::lowercase(crate::text::trimmed(query)));
    lemma_matches_ordered(screen, crate::text::trimmed(query), n as int, k, l);
}

proof fn lemma_matches_ordered(screen: Screen, query: Seq<char>, n: int, k: int, l: int)
    requires
        0 <= k < l < matches_in(screen, query, n).len(),
        n <= usize::MAX,
        encode_utf8(crate::text::lowercase(query)).len() > 0,
        forall|row: int|
            #![trigger row_cells(screen, row, screen.cols as int)]
            encode_utf8(crate::text::lowercase(row_cells(screen, row, screen.cols as int))).len()
                <= usize::MAX,
    ensures
        ({
            let a = matches_in(screen, query, n)[k];
            let b = matches_in(screen, query, n)[l];
            a.row < b.row || (a.row == b.row && a.col + encode_utf8(
                crate::text::lowercase(query),
            ).len() <= b.col)
        }),
    decreases n,
{
    if n > 0 {
        let before = matches_in(screen, query, n - 1);
        let c = before.len();
        let hay = encode_utf8(crate::text::lowercase(row_cells(screen, n - 1, screen.cols as int)));
        let needle = encode_utf8(crate::text::lowercase(query));
        if l < c {
            lemma_matches_ordered(screen, query, n - 1, k, l);
        } else {
            law_places_are_found(hay, needle, 0, l - c);
            if k < c {
                let source = lemma_match_source(screen, query, n - 1, k);
            } else {
                law_places_are_found(hay, needle, 0, k - c);
                lemma_places_ascend(hay, needle, k - c, l - c);
            }
        }
    }
}

/// The text of a row is that of its cells one after the other: the text of the first columns and
/// then that of the next cell.
pub proof fn law_rows_are_read_cell_by_cell(screen: Screen, row: int, col: int)
    requires
        0 <= row < screen.lines@.len(),
        0 <= col,
    ensures
        row_cells(screen, row, 0).len() == 0,
        col < screen.lines@[row]@.len() ==> row_cells(screen, row, col + 1) == row_cells(
            screen,
            row,
            col,
        ) + screen.lines@[row]@[col].text@,
        col >= screen.lines@[row]@.len() ==> row_cells(screen, row, col + 1) == row_cells(
            screen,
            row,
            col,
        ),
{
    assert(row_cells(screen, row, col) + Seq::<char>::empty() =~= row_cells(screen, row, col));
}

/// Starting to find shows the first match, if there is one, and going forward from it shows the
/// second.
pub proof fn law_finding_goes_through_the_matches(
    m: MouseView,
    f: FindView,
    bar: BarView,
    tab: LiveTabView,
    query: Seq<char>,
    screen: Screen,
)
    requires
        tab.screen(tab.focus) == Some(screen),
    ensures
        ({
            let matches = all_matches(screen, query);
            let (m1, f1, bar1) = find_started(m, f, bar, tab, query);
            let (m2, f2, bar2) = find_moved(m1, f1, bar1, tab, true);
            let (m3, f3, bar3) = find_moved(m1, f1, bar1, tab, false);
            &&& f1.matches == matches && f2.matches == matches && f3.matches == matches
            &&& matches.len() > 0 ==> f1.current == 0 && m1 == shown_match(
                m,
                screen,
                tab.focus,
                matches[0],
            )
            &&& matches.len() > 1 ==> f2.current == 1 && m2 == shown_match(
                m1,
                screen,
                tab.focus,
                matches[1],
            )
            &&& matches.len() == 1 ==> f2.current == 0
            &&& matches.len() > 0 ==> f3.current == matches.len() - 1 && m3 == shown_match(
                m1,
                screen,
                tab.focus,
                matches[matches.len() - 1],
            )
            &&& matches.len() == 0 ==> m1.pane(tab.focus).selection is None && m2 == m1 && f2 == f1
        }),
{
    let n = all_matches(screen, query).len() as int;
    if n > 1 {
        assert(1int % n == 1) by (nonlinear_arith)
            requires
                n > 1,
        ;
    }
}

/// The next match is the one behind, or the first behind the last; the one before is the one in
/// front, or the last before the first.
pub proof fn law_matches_are_gone_through_one_by_one(current: int, len: int)
    requires
        0 <= current < len,
    ensures
        current + 1 < len ==> next_index(current, len, true) == current + 1,
        current + 1 == len ==> next_index(current, len, true) == 0,
        current > 0 ==> next_index(current, len, false) == current - 1,
        current == 0 ==> next_index(current, len, false) == len - 1,
{
    if current + 1 < len {
        assert((current + 1) % len == current + 1) by (nonlinear_arith)
            requires
                0 <= current,
                current + 1 < len,
        ;
    } else {
        assert((current + 1) % len == 0) by (nonlinear_arith)
            requires
                0 <= current,
                current + 1 == len,
        ;
    }
}

/// The status bar says what is looked for, and which of how many matches is shown, or that there are
/// none.
pub proof fn law_status_says_what_was_found(
    m: MouseView,
    f: FindView,
    bar: BarView,
    tab: LiveTabView,
    query: Seq<char>,
    screen: Screen,
)
    requires
        tab.screen(tab.focus) == Some(screen),
    ensures
        ({
            let n = all_matches(screen, query).len();
            let text = crate::text::trimmed(query);
            let shown = find_started(m, f, bar, tab, query).2.pane_path;
            &&& n > 0 ==> shown == "find: "@ + text + " ("@ + crate::text::decimal(1) + "/"@
                + crate::text::decimal(n) + ")"@
            &&& n == 0 ==> shown == "find: no matches for "@ + text
        }),
{
}

} // verus!
