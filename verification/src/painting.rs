//! What is painted: the colors of buttons, splitters and borders, and what is shown of each pane.
use vstd::prelude::*;

use crate::mouse_routing::ScrollbarInteractionState;
use crate::pane_layout::{PaneLayout, Rect};
use crate::panes::{LiveTabView, PaneId};
use crate::renderer::TextSelection;
use crate::tab_strip::{StripView, TabStrip, WindowButtonKind};
use crate::tabs::pane_overlay_label;
use crate::workbench::{BenchView, Workbench};

verus! {

broadcast use vstd::string::group_string_axioms;

// ── Colors ───────────────────────────────────────────────────────────────────

pub const ADD_TEXT_COLOR: (u8, u8, u8) = (150, 150, 150);

pub const ADD_HOVER_COLOR: (u8, u8, u8) = (230, 230, 230);

pub const WINDOW_BUTTON_HOVER_BG: (u8, u8, u8) = (55, 55, 70);

pub const WINDOW_CLOSE_HOVER_BG: (u8, u8, u8) = (196, 70, 70);

pub const SPLITTER_COLOR: (u8, u8, u8) = (60, 60, 75);

pub const SPLITTER_HOVER_COLOR: (u8, u8, u8) = (90, 90, 110);

pub const FOCUS_BORDER_COLOR: (u8, u8, u8) = (78, 201, 176);

pub const PANE_BORDER_COLOR: (u8, u8, u8) = (45, 45, 58);

// ── Buttons and borders ──────────────────────────────────────────────────────

/// The background of a button of the window, if it has one.
pub open spec fn button_background(s: StripView, kind: WindowButtonKind) -> Option<(u8, u8, u8)> {
    if s.hover.window_button != Some(kind) {
        None
    } else if kind == WindowButtonKind::Close {
        Some(WINDOW_CLOSE_HOVER_BG)
    } else {
        Some(WINDOW_BUTTON_HOVER_BG)
    }
}

impl TabStrip {
    /// The color of the button that adds a tab.
    pub fn add_button_color(&self) -> (r: (u8, u8, u8))
        ensures
            r == if self@.hover.add {
                ADD_HOVER_COLOR
            } else {
                ADD_TEXT_COLOR
            },
    {
        if self.hover.add {
            ADD_HOVER_COLOR
        } else {
            ADD_TEXT_COLOR
        }
    }

    /// The background of a button of the window, if it has one.
    pub fn window_button_background(&self, kind: WindowButtonKind) -> (r: Option<(u8, u8, u8)>)
        ensures
            r == button_background(self@, kind),
    {
        if self.hover.window_button != Some(kind) {
            None
        } else if kind == WindowButtonKind::Close {
            Some(WINDOW_CLOSE_HOVER_BG)
        } else {
            Some(WINDOW_BUTTON_HOVER_BG)
        }
    }
}

impl PaneLayout {
    /// The color of a splitter.
    pub fn splitter_color(&self, index: usize) -> (r: (u8, u8, u8))
        ensures
            r == if self.hover == Some(index) || self.drag == Some(index) {
                SPLITTER_HOVER_COLOR
            } else {
                SPLITTER_COLOR
            },
    {
        if self.is_hot(index) {
            SPLITTER_HOVER_COLOR
        } else {
            SPLITTER_COLOR
        }
    }
}

/// The color of the border of a pane.
pub fn border_color(focused: bool) -> (r: (u8, u8, u8))
    ensures
        r == if focused {
            FOCUS_BORDER_COLOR
        } else {
            PANE_BORDER_COLOR
        },
{
    if focused {
        FOCUS_BORDER_COLOR
    } else {
        PANE_BORDER_COLOR
    }
}

// ── Panes ────────────────────────────────────────────────────────────────────

/// What is painted of a pane.
#[derive(Debug, PartialEq, Eq)]
pub struct PanePicture {
    pub pane: PaneId,
    pub selection: Option<TextSelection>,
    /// How many rows the pane is scrolled back.
    pub scrolled: usize,
    /// Whether its scrollbar is drawn wide.
    pub wide_scrollbar: bool,
    /// The label that is drawn over it.
    pub label: Option<String>,
    pub focused: bool,
}

/// The model of a [`PanePicture`].
pub struct PictureView {
    pub pane: PaneId,
    pub selection: Option<TextSelection>,
    pub scrolled: int,
    pub wide_scrollbar: bool,
    pub label: Option<Seq<char>>,
    pub focused: bool,
}

impl View for PanePicture {
    type V = PictureView;

    open spec fn view(&self) -> PictureView {
        PictureView {
            pane: self.pane,
            selection: self.selection,
            scrolled: self.scrolled as int,
            wide_scrollbar: self.wide_scrollbar,
            label: crate::text::opt_text(self.label),
            focused: self.focused,
        }
    }
}

/// The models of pictures.
pub open spec fn picture_views(v: Seq<PanePicture>) -> Seq<PictureView> {
    v.map_values(|p: PanePicture| p@)
}

/// Whether a pane has a place on the screen.
pub open spec fn is_placed(rects: Seq<(PaneId, Rect)>, p: PaneId) -> bool {
    exists|i: int| 0 <= i < rects.len() && (#[trigger] rects[i]).0 == p
}

/// Whether the scrollbar of a pane is drawn wide.
pub open spec fn has_wide_scrollbar(bars: ScrollbarInteractionState, p: PaneId) -> bool {
    bars.hovered_pane == Some(p) || (bars.drag matches Some(d) && d.pane == p)
}

/// What is painted of a pane.
pub open spec fn picture_of(
    w: BenchView,
    tab: LiveTabView,
    bars: ScrollbarInteractionState,
    p: PaneId,
) -> PictureView {
    let offset = w.mouse.pane(p).scroll_offset as int;
    PictureView {
        pane: p,
        selection: w.mouse.pane(p).selection,
        scrolled: if offset > 0 {
            offset
        } else {
            0
        },
        wide_scrollbar: has_wide_scrollbar(bars, p),
        label: match tab.session(p) {
            Some(s) => Some(crate::attention::short_name(s.pane_path)),
            None => None,
        },
        focused: tab.focus == p,
    }
}

/// What is painted of the first `n` panes of a tab: of those that have a place and a screen.
pub open spec fn pictures(
    w: BenchView,
    tab: LiveTabView,
    rects: Seq<(PaneId, Rect)>,
    bars: ScrollbarInteractionState,
    n: int,
) -> Seq<PictureView>
    decreases n,
{
    if n <= 0 {
        Seq::empty()
    } else {
        let p = tab.panes[n - 1];
        let before = pictures(w, tab, rects, bars, n - 1);
        if is_placed(rects, p) && tab.screen(p) is Some {
            before.push(picture_of(w, tab, bars, p))
        } else {
            before
        }
    }
}

/// Finds out whether a pane has a place on the screen.
fn has_place(rects: &Vec<(PaneId, Rect)>, p: PaneId) -> (r: bool)
    ensures
        r == is_placed(rects@, p),
{
    let mut i: usize = 0;
    while i < rects.len()
        invariant
            i <= rects@.len(),
            forall|j: int| 0 <= j < i ==> (#[trigger] rects@[j]).0 != p,
        decreases rects.len() - i,
    {
        if rects[i].0 == p {
            return true;
        }
        i += 1;
    }
    false
}

impl Workbench {
    /// What is painted of the panes of the active tab, in the order of its layout.
    pub fn panes_to_paint(&self, layout: &PaneLayout, bars: &ScrollbarInteractionState) -> (r: Vec<
        PanePicture,
    >)
        ensures
            picture_views(r@) == match self@.active_tab() {
                Some(tab) => pictures(
                    self@,
                    tab,
                    layout.rects@,
                    *bars,
                    tab.panes.len() as int,
                ),
                None => Seq::empty(),
            },
    {
        let mut out: Vec<PanePicture> = Vec::new();
        assert(picture_views(out@) =~= Seq::empty());
        if self.active_tab_index >= self.tabs.len() {
            return out;
        }
        let tab = &self.tabs[self.active_tab_index];
        assert(tab@ == self@.tabs[self.active_tab_index as int]);
        let n: usize = tab.panes.len();
        let mut i: usize = 0;
        while i < n
            invariant
                i <= n,
                n == tab@.panes.len(),
                n == tab.panes@.len(),
                picture_views(out@) == pictures(self@, tab@, layout.rects@, *bars, i as int),
            decreases n - i,
        {
            let p = tab.panes[i];
            let ghost before = picture_views(out@);
            if has_place(&layout.rects, p) && tab.screen(p).is_some() {
                let offset: i32 = self.mouse.scroll_offset(&p);
                let scrolled: usize = if offset > 0 {
                    offset as usize
                } else {
                    0
                };
                let label = match tab.session(p) {
                    Some(s) => Some(pane_overlay_label(s)),
                    None => None,
                };
                let picture = PanePicture {
                    pane: p,
                    selection: self.mouse.selection(&p),
                    scrolled,
                    wide_scrollbar: bars.is_expanded(p),
                    label,
                    focused: tab.focus == p,
                };
                assert(picture@ == picture_of(self@, tab@, *bars, p));
                out.push(picture);
                assert(picture_views(out@) =~= before.push(picture@));
            }
            i += 1;
        }
        out
    }
}

// ── Demo ─────────────────────────────────────────────────────────────────────

/// What a pane shows while there is no host, as terminal output.
pub open spec fn demo_of(p: PaneId) -> Seq<char> {
    "\x1b[1;44;37m Pane "@ + crate::text::decimal(p.0 as nat) + " \x1b[0m\r\n\r\n"@ + if p.0 == 1 {
        "  \x1b[32muser@host\x1b[0m:\x1b[34m~/projects\x1b[0m$ ls -la\r\n  drwxr-xr-x  2 user user 4096 Mar 28 \x1b[1;34msrc\x1b[0m\r\n  -rw-r--r--  1 user user  256 Mar 28 \x1b[0mCargo.toml\x1b[0m\r\n"@
    } else if p.0 == 2 {
        "  \x1b[33mcargo build\x1b[0m\r\n  \x1b[32m   Compiling\x1b[0m wtd-core v0.1.0\r\n  \x1b[32m   Compiling\x1b[0m wtd-ui v0.1.0\r\n  \x1b[32m    Finished\x1b[0m dev target(s)\r\n"@
    } else {
        "  \x1b[36mReady.\x1b[0m\r\n"@
    }
}

/// What a pane shows while there is no host, as terminal output.
pub fn demo_content(p: PaneId) -> (r: String)
    ensures
        r@ == demo_of(p),
{
    let mut s = "\x1b[1;44;37m Pane ".to_owned();
    crate::text::push_decimal(&mut s, p.0);
    s.append(" \x1b[0m\r\n\r\n");
    if p.0 == 1 {
        s.append("  \x1b[32muser@host\x1b[0m:\x1b[34m~/projects\x1b[0m$ ls -la\r\n  drwxr-xr-x  2 user user 4096 Mar 28 \x1b[1;34msrc\x1b[0m\r\n  -rw-r--r--  1 user user  256 Mar 28 \x1b[0mCargo.toml\x1b[0m\r\n");
    } else if p.0 == 2 {
        s.append("  \x1b[33mcargo build\x1b[0m\r\n  \x1b[32m   Compiling\x1b[0m wtd-core v0.1.0\r\n  \x1b[32m   Compiling\x1b[0m wtd-ui v0.1.0\r\n  \x1b[32m    Finished\x1b[0m dev target(s)\r\n");
    } else {
        s.append("  \x1b[36mReady.\x1b[0m\r\n");
    }
    s
}

// ── Laws ─────────────────────────────────────────────────────────────────────

/// Every pane of the tab that has a place and a screen is painted, as it is scrolled and selected, and
/// no other is.
pub proof fn law_placed_panes_are_painted(
    w: BenchView,
    tab: LiveTabView,
    rects: Seq<(PaneId, Rect)>,
    bars: ScrollbarInteractionState,
    n: int,
    i: int,
)
    requires
        0 <= i < n <= tab.panes.len(),
    ensures
        (exists|k: int| 0 <= k < rects.len() && (#[trigger] rects[k]).0 == tab.panes[i])
            && tab.screen(tab.panes[i]) is Some ==> pictures(w, tab, rects, bars, n).contains(
            picture_of(w, tab, bars, tab.panes[i]),
        ),
    decreases n,
{
    let all = pictures(w, tab, rects, bars, n);
    if is_placed(rects, tab.panes[i]) && tab.screen(tab.panes[i]) is Some {
        let want = picture_of(w, tab, bars, tab.panes[i]);
        if i == n - 1 {
            assert(all.last() == want);
        } else {
            law_placed_panes_are_painted(w, tab, rects, bars, n - 1, i);
            let before = pictures(w, tab, rects, bars, n - 1);
            let k = choose|k: int| 0 <= k < before.len() && before[k] == want;
            assert(all[k] == want);
        }
    }
}

/// Only panes of the tab with a place and a screen are painted, each as it is.
pub proof fn law_only_placed_panes_are_painted(
    w: BenchView,
    tab: LiveTabView,
    rects: Seq<(PaneId, Rect)>,
    bars: ScrollbarInteractionState,
    n: int,
    k: int,
)
    requires
        0 <= n <= tab.panes.len(),
        0 <= k < pictures(w, tab, rects, bars, n).len(),
    ensures
        ({
            let p = pictures(w, tab, rects, bars, n)[k].pane;
            &&& tab.panes.contains(p)
            &&& tab.screen(p) is Some
            &&& is_placed(rects, p)
            &&& pictures(w, tab, rects, bars, n)[k] == picture_of(w, tab, bars, p)
        }),
    decreases n,
{
    if n > 0 {
        let before = pictures(w, tab, rects, bars, n - 1);
        if k < before.len() {
            law_only_placed_panes_are_painted(w, tab, rects, bars, n - 1, k);
            assert(pictures(w, tab, rects, bars, n)[k] == before[k]);
        } else {
            assert(tab.panes[n - 1] == pictures(w, tab, rects, bars, n)[k].pane);
        }
    }
}

/// A pane is painted with its selection, as far back as it is scrolled, under the name of its session,
/// framed if it has the focus, and with a wide scrollbar if that is pointed at or held.
pub proof fn law_panes_are_painted_as_they_are(
    w: BenchView,
    tab: LiveTabView,
    bars: ScrollbarInteractionState,
    p: PaneId,
)
    requires
        w.mouse.pane(p).scroll_offset >= 0,
    ensures
        ({
            let picture = picture_of(w, tab, bars, p);
            &&& picture.pane == p
            &&& picture.selection == w.mouse.pane(p).selection
            &&& picture.scrolled == w.mouse.pane(p).scroll_offset
            &&& picture.focused <==> tab.focus == p
            &&& tab.session(p) is None ==> picture.label is None
            &&& tab.session(p) is Some ==> picture.label == Some(
                crate::attention::short_name(tab.session(p)->0.pane_path),
            )
            &&& picture.wide_scrollbar <==> bars.hovered_pane == Some(p) || (bars.drag is Some
                && bars.drag->0.pane == p)
        }),
{
}

/// Only the button under the pointer has a background, and that for closing the window has one of its
/// own.
pub proof fn law_only_the_pointed_button_is_lit(s: StripView, kind: WindowButtonKind)
    ensures
        button_background(s, kind) is Some <==> s.hover.window_button == Some(kind),
        s.hover.window_button == Some(kind) && kind is Close ==> button_background(s, kind) == Some(
            WINDOW_CLOSE_HOVER_BG,
        ),
        s.hover.window_button == Some(kind) && !(kind is Close) ==> button_background(s, kind)
            == Some(WINDOW_BUTTON_HOVER_BG),
{
}

} // verus!
