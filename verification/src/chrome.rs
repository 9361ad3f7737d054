//! Making the tab strip, the status bar and the palette anew, along with the target that
//! they are painted on.
use vstd::prelude::*;

use crate::bindings::BindingsDefinition;
use crate::command_palette::{clone_entries, CommandPalette, PaletteModeView, PaletteView};
use crate::panes::AttentionState;
use crate::status_bar::{BarView, StatusBar};
use crate::tab_strip::{StripView, TabStrip, TabView};
use crate::workbench::{BenchView, Workbench};

verus! {

broadcast use vstd::string::group_string_axioms;

/// The tabs of a strip that was made anew: names and progress are kept, IDs are given out again.
pub open spec fn rebuilt_tabs(tabs: Seq<TabView>) -> Seq<TabView> {
    Seq::new(
        tabs.len(),
        |i: int| TabView { id: (i + 1) as u64, name: tabs[i].name, progress: tabs[i].progress },
    )
}

/// A strip that was made anew.
pub open spec fn rebuilt_strip(s: StripView, maximized: bool) -> StripView {
    StripView {
        tabs: rebuilt_tabs(s.tabs),
        active: if s.active < s.tabs.len() {
            s.active
        } else if s.tabs.len() > 0 {
            s.tabs.len() - 1
        } else {
            0
        },
        next_id: s.tabs.len() as int + 1,
        workspace_name: Seq::empty(),
        window_maximized: maximized,
        hover: crate::tab_strip::no_hover(),
        drag: None,
        scroll: None,
    }
}

/// A status bar that was made anew.
pub open spec fn rebuilt_bar(b: BarView) -> BarView {
    BarView {
        workspace_name: Seq::empty(),
        pane_path: b.pane_path,
        session_status: b.session_status,
        prefix_active: false,
        prefix_label: "PREFIX"@,
        attention: b.attention,
        attention_message: None,
        attention_count: 0,
    }
}

/// A palette that was made anew.
pub open spec fn rebuilt_palette(p: PaletteView, bindings: BindingsDefinition) -> PaletteView {
    let made = PaletteView {
        visible: false,
        mode: PaletteModeView::Search,
        query: Seq::empty(),
        entries: crate::command_palette::catalog_entries(bindings),
        profile_entries: p.profile_entries,
        filtered: crate::command_palette::unranked(crate::command_palette::catalog().len()),
        selected: 0,
        scroll_offset: 0,
    };
    if p.visible {
        crate::command_palette::shown(made)
    } else {
        made
    }
}

/// The workbench with its tab strip, status bar and palette made anew.
pub open spec fn chrome_rebuilt(
    w: BenchView,
    bindings: BindingsDefinition,
    maximized: bool,
) -> BenchView {
    BenchView {
        strip: rebuilt_strip(w.strip, maximized),
        bar: rebuilt_bar(w.bar),
        palette: rebuilt_palette(w.palette, bindings),
        ..w
    }
}

/// Makes a strip anew.
fn rebuild_strip(old_strip: &TabStrip, maximized: bool) -> (r: TabStrip)
    requires
        old_strip@.tabs.len() < usize::MAX,
    ensures
        r@ == rebuilt_strip(old_strip@, maximized),
        crate::tab_strip::sound(r@),
{
    let mut strip = TabStrip::new();
    let n: usize = old_strip.entries.len();
    let ghost tabs = old_strip@.tabs;
    let mut i: usize = 0;
    while i < n
        invariant
            i <= n,
            n == old_strip.entries@.len(),
            n == tabs.len(),
            n < usize::MAX,
            tabs == old_strip@.tabs,
            strip@ == (StripView {
                tabs: rebuilt_tabs(tabs.take(i as int)),
                next_id: i + 1,
                ..rebuilt_strip(StripView { tabs: Seq::empty(), ..old_strip@ }, false)
            }),
        decreases n - i,
    {
        assert(tabs[i as int] == old_strip.entries@[i as int]@);
        let _ = strip.add_tab(old_strip.entries[i].name.clone());
        strip.set_progress(i, old_strip.entries[i].progress);
        assert(strip@.tabs =~= rebuilt_tabs(tabs.take(i + 1)));
        i += 1;
    }
    assert(tabs.take(n as int) =~= tabs);
    if n > 0 {
        let active: usize = if old_strip.active < n {
            old_strip.active
        } else {
            n - 1
        };
        strip.set_active(active);
    }
    strip.set_window_maximized(maximized);
    strip
}

impl Workbench {
    /// Make the tab strip, the status bar and the palette anew. Tabs keep their names, their
    /// progress and their order; the status bar keeps the pane that it shows.
    pub fn rebuild_chrome(&mut self, bindings: &BindingsDefinition, maximized: bool)
        requires
            old(self)@.wf(),
            old(self)@.strip.tabs.len() < usize::MAX,
        ensures
            final(self)@ == chrome_rebuilt(old(self)@, *bindings, maximized),
            final(self)@.wf(),
    {
        let strip = rebuild_strip(&self.tab_strip, maximized);
        self.tab_strip = strip;
        let mut bar = StatusBar::new();
        bar.set_pane_path(self.status_bar.pane_path.clone());
        bar.set_session_status(self.status_bar.session_status.clone());
        let state: AttentionState = self.status_bar.attention_state();
        bar.set_attention(state, None);
        self.status_bar = bar;
        let visible = self.palette.is_visible();
        let profiles = clone_entries(self.palette.profile_entries());
        self.palette = CommandPalette::new(bindings, profiles);
        if visible {
            self.palette.show();
        }
    }
}

/// Making the chrome anew shows the same tabs, in the same order, with the same one active.
pub proof fn law_rebuilding_keeps_tabs(w: BenchView, bindings: BindingsDefinition, maximized: bool)
    requires
        w.wf(),
    ensures
        chrome_rebuilt(w, bindings, maximized).strip.active == w.strip.active,
        chrome_rebuilt(w, bindings, maximized).strip.tabs.len() == w.strip.tabs.len(),
        forall|i: int|
            0 <= i < w.strip.tabs.len() ==> (#[trigger] chrome_rebuilt(
                w,
                bindings,
                maximized,
            ).strip.tabs[i]).name == w.strip.tabs[i].name && chrome_rebuilt(
                w,
                bindings,
                maximized,
            ).strip.tabs[i].progress == w.strip.tabs[i].progress,
{
}

/// The bar made anew shows the same pane, state and attention, and a palette that was shown is shown
/// again, afresh; the tabs themselves, what is selected and what was found stay as they are.
pub proof fn law_rebuilding_keeps_the_rest(
    w: BenchView,
    bindings: BindingsDefinition,
    maximized: bool,
)
    ensures
        ({
            let after = chrome_rebuilt(w, bindings, maximized);
            &&& after.bar.pane_path == w.bar.pane_path
            &&& after.bar.session_status == w.bar.session_status
            &&& after.bar.attention == w.bar.attention
            &&& after.palette.visible == w.palette.visible
            &&& after.palette.profile_entries == w.palette.profile_entries
            &&& after.palette.query.len() == 0
            &&& after.tabs == w.tabs && after.active == w.active
            &&& after.mouse == w.mouse && after.find == w.find
            &&& after.connected == w.connected
            &&& after.strip.window_maximized == maximized
        }),
{
}

} // verus!
