//! Panes side by side: where the splitter bars between them are, and what dragging one does.
//!
//! Positions are in character cells. Where cells lie on the screen is known to the caller, who
//! reports what the pointer hits.
use vstd::prelude::*;

use crate::panes::PaneId;

verus! {

// ── Types ────────────────────────────────────────────────────────────────────

/// Which way a split divides an area: into a left and a right part, or an upper and a lower.
#[derive(Debug, Clone, Copy, PartialEq, Eq, Structural)]
pub enum Orientation {
    Horizontal,
    Vertical,
}

/// How a pane is resized.
#[derive(Debug, Clone, Copy, PartialEq, Eq, Structural)]
pub enum ResizeDirection {
    GrowRight,
    ShrinkRight,
    GrowDown,
    ShrinkDown,
}

/// An area in cells.
#[derive(Debug, Clone, Copy, PartialEq, Eq, Structural)]
pub struct Rect {
    pub x: u16,
    pub y: u16,
    pub width: u16,
    pub height: u16,
}

/// Action produced by mouse interaction with the pane layout.
#[derive(Debug, Clone, Copy, PartialEq, Eq, Structural)]
pub enum PaneLayoutAction {
    /// User clicked inside a pane: focus it.
    FocusPane(PaneId),
    /// Splitter drag produced a resize.
    Resize { pane_id: PaneId, direction: ResizeDirection, cells: u16 },
}

/// What cursor shape the window should show at a given position.
#[derive(Debug, Clone, Copy, PartialEq, Eq, Structural)]
pub enum CursorHint {
    /// Normal arrow cursor.
    Arrow,
    /// Horizontal resize cursor (left-right).
    ResizeHorizontal,
    /// Vertical resize cursor (up-down).
    ResizeVertical,
}

/// A splitter bar between adjacent panes.
#[derive(Debug, Clone, Copy, PartialEq, Eq, Structural)]
pub struct Splitter {
    /// Orientation of the split that the splitter divides. The bar itself runs across it: the
    /// bar of a horizontal split is a vertical line.
    pub orientation: Orientation,
    /// The column (of a vertical line) or row at which the bar lies.
    pub position: u16,
    /// Where the bar starts.
    pub start: u16,
    /// Where the bar ends.
    pub end: u16,
    /// A pane on the left or upper side.
    pub pane_before: PaneId,
    /// A pane on the right or lower side.
    pub pane_after: PaneId,
}

/// Where the pointer is, in the terms of the layout.
#[derive(Debug, Clone, Copy, PartialEq, Eq, Structural)]
pub struct LayoutHit {
    /// The splitter under the pointer.
    pub splitter: Option<usize>,
    /// The pane under the pointer.
    pub pane: Option<PaneId>,
    /// The whole cells by which the pointer has dragged the splitter since the last resize.
    pub dragged_cells: u16,
    /// Whether it was dragged to the right or down.
    pub dragged_forward: bool,
}

// ── Splitter detection ───────────────────────────────────────────────────────

/// The extent of an area along a split (near and far edge) and across it (from and to).
pub open spec fn extent(o: Orientation, r: Rect) -> (int, int, int, int) {
    match o {
        Orientation::Horizontal => (
            r.x as int,
            r.x + r.width,
            r.y as int,
            r.y + r.height,
        ),
        Orientation::Vertical => (r.y as int, r.y + r.height, r.x as int, r.x + r.width),
    }
}

/// Whether the far edge of one area is the near edge of another.
pub open spec fn adjoins(o: Orientation, a: Rect, b: Rect) -> bool {
    extent(o, a).1 == extent(o, b).0
}

/// The greater of two numbers.
pub open spec fn greater(a: int, b: int) -> int {
    if a > b {
        a
    } else {
        b
    }
}

/// The lesser of two numbers.
pub open spec fn lesser(a: int, b: int) -> int {
    if a < b {
        a
    } else {
        b
    }
}

/// Where two areas begin to lie side by side.
pub open spec fn common_from(o: Orientation, a: Rect, b: Rect) -> int {
    greater(extent(o, a).2, extent(o, b).2)
}

/// Where two areas cease to lie side by side.
pub open spec fn common_to(o: Orientation, a: Rect, b: Rect) -> int {
    lesser(extent(o, a).3, extent(o, b).3)
}

/// Whether pane `i` and pane `j` share an edge at `pos` from `from` to `to`, with `i` before.
pub open spec fn edge_between(
    rects: Seq<(PaneId, Rect)>,
    o: Orientation,
    i: int,
    j: int,
    pos: int,
    from: int,
    to: int,
) -> bool {
    &&& 0 <= i < rects.len()
    &&& 0 <= j < rects.len()
    &&& i != j
    &&& adjoins(o, rects[i].1, rects[j].1)
    &&& pos == extent(o, rects[i].1).1
    &&& from == common_from(o, rects[i].1, rects[j].1)
    &&& to == common_to(o, rects[i].1, rects[j].1)
    &&& from < to
}

/// Whether two panes share the stretch of an edge from `at` to `at + 1`.
pub open spec fn edge_at(rects: Seq<(PaneId, Rect)>, o: Orientation, pos: int, at: int) -> bool {
    exists|i: int, j: int, from: int, to: int|
        #[trigger] edge_between(rects, o, i, j, pos, from, to) && from <= at < to
}

/// Whether one of the splitters covers the stretch from `at` to `at + 1`.
pub open spec fn splitter_at(s: Seq<Splitter>, o: Orientation, pos: int, at: int) -> bool {
    exists|k: int|
        0 <= k < s.len() && (#[trigger] s[k]).orientation == o && s[k].position == pos
            && s[k].start <= at < s[k].end
}

/// Whether two splitters neither overlap nor touch.
pub open spec fn apart(a: Splitter, b: Splitter) -> bool {
    a.orientation != b.orientation || a.position != b.position || a.end < b.start || b.end < a.start
}

/// Whether a splitter starts where the two panes that it names begin to share an edge.
pub open spec fn names_its_panes(rects: Seq<(PaneId, Rect)>, s: Splitter) -> bool {
    exists|i: int, j: int, to: int|
        #[trigger] edge_between(
            rects,
            s.orientation,
            i,
            j,
            s.position as int,
            s.start as int,
            to,
        ) && rects[i].0 == s.pane_before && rects[j].0 == s.pane_after
}

/// Whether every area ends within the range of cells.
pub open spec fn in_range(rects: Seq<(PaneId, Rect)>) -> bool {
    forall|i: int|
        0 <= i < rects.len() ==> (#[trigger] rects[i]).1.x + rects[i].1.width <= u16::MAX
            && rects[i].1.y + rects[i].1.height <= u16::MAX
}

/// Whether splitters are those of a layout: they cover exactly the edges that panes share, each
/// as one bar as long as possible.
pub open spec fn splitters_of(
    rects: Seq<(PaneId, Rect)>,
    o: Orientation,
    s: Seq<Splitter>,
) -> bool {
    &&& forall|k: int| 0 <= k < s.len() ==> (#[trigger] s[k]).orientation == o
    &&& forall|pos: int, at: int|
        #[trigger] splitter_at(s, o, pos, at) <==> edge_at(rects, o, pos, at)
    &&& forall|k: int| 0 <= k < s.len() ==> (#[trigger] s[k]).start < s[k].end
    &&& forall|k: int| 0 <= k < s.len() ==> names_its_panes(rects, #[trigger] s[k])
    &&& forall|k: int, l: int| 0 <= k < l < s.len() ==> apart(#[trigger] s[k], #[trigger] s[l])
}

/// The extent of an area along a split and across it.
fn extent_of(o: Orientation, r: Rect) -> (e: (u16, u16, u16, u16))
    requires
        r.x + r.width <= u16::MAX,
        r.y + r.height <= u16::MAX,
    ensures
        e.0 == extent(o, r).0,
        e.1 == extent(o, r).1,
        e.2 == extent(o, r).2,
        e.3 == extent(o, r).3,
{
    match o {
        Orientation::Horizontal => (r.x, r.x + r.width, r.y, r.y + r.height),
        Orientation::Vertical => (r.y, r.y + r.height, r.x, r.x + r.width),
    }
}

/// The edge that pane `i` shares with pane `j` behind it, if they share one.
fn shared_edge(rects: &Vec<(PaneId, Rect)>, o: Orientation, i: usize, j: usize) -> (r: Option<
    Splitter,
>)
    requires
        in_range(rects@),
        i < rects@.len(),
        j < rects@.len(),
        i != j,
    ensures
        match r {
            Some(s) => s.orientation == o && s.pane_before == rects@[i as int].0 && s.pane_after
                == rects@[j as int].0 && edge_between(
                rects@,
                o,
                i as int,
                j as int,
                s.position as int,
                s.start as int,
                s.end as int,
            ),
            None => forall|pos: int, from: int, to: int|
                !#[trigger] edge_between(rects@, o, i as int, j as int, pos, from, to),
        },
{
    let a = extent_of(o, rects[i].1);
    let b = extent_of(o, rects[j].1);
    if a.1 != b.0 {
        return None;
    }
    let start: u16 = if a.2 > b.2 {
        a.2
    } else {
        b.2
    };
    let end: u16 = if a.3 < b.3 {
        a.3
    } else {
        b.3
    };
    if start < end {
        Some(
            Splitter {
                orientation: o,
                position: a.1,
                start,
                end,
                pane_before: rects[i].0,
                pane_after: rects[j].0,
            },
        )
    } else {
        None
    }
}

/// Whether a piece of bar stands for an edge of two panes.
pub open spec fn is_edge(rects: Seq<(PaneId, Rect)>, o: Orientation, s: Splitter) -> bool {
    s.orientation == o && exists|i: int, j: int|
        #[trigger] edge_between(
            rects,
            o,
            i,
            j,
            s.position as int,
            s.start as int,
            s.end as int,
        ) && rects[i].0 == s.pane_before && rects[j].0 == s.pane_after
}

/// Whether some piece of bar lies at `pos` from `from` to `to`.
pub open spec fn has_piece(s: Seq<Splitter>, pos: int, from: int, to: int) -> bool {
    exists|k: int|
        0 <= k < s.len() && (#[trigger] s[k]).position == pos && s[k].start == from && s[k].end
            == to
}

/// Whether a piece belongs to every edge between two panes.
pub open spec fn pair_done(
    rects: Seq<(PaneId, Rect)>,
    o: Orientation,
    s: Seq<Splitter>,
    i: int,
    j: int,
) -> bool {
    forall|pos: int, from: int, to: int|
        #[trigger] edge_between(rects, o, i, j, pos, from, to) ==> has_piece(s, pos, from, to)
}

/// Pieces stay when others are added.
proof fn lemma_pair_done_push(
    rects: Seq<(PaneId, Rect)>,
    o: Orientation,
    s: Seq<Splitter>,
    x: Splitter,
    i: int,
    j: int,
)
    requires
        pair_done(rects, o, s, i, j),
    ensures
        pair_done(rects, o, s.push(x), i, j),
{
    assert forall|pos: int, from: int, to: int|
        #[trigger] edge_between(rects, o, i, j, pos, from, to) implies has_piece(
        s.push(x),
        pos,
        from,
        to,
    ) by {
        assert(has_piece(s, pos, from, to));
        let k = choose|k: int|
            0 <= k < s.len() && (#[trigger] s[k]).position == pos && s[k].start == from && s[k].end
                == to;
        assert(s.push(x)[k] == s[k]);
    }
}

/// The edges that panes share, one piece of bar for each pair of panes.
fn shared_edges(rects: &Vec<(PaneId, Rect)>, o: Orientation) -> (r: Vec<Splitter>)
    requires
        in_range(rects@),
    ensures
        forall|k: int| 0 <= k < r@.len() ==> is_edge(rects@, o, #[trigger] r@[k]),
        forall|i: int, j: int| #[trigger] pair_done(rects@, o, r@, i, j),
{
    let mut out: Vec<Splitter> = Vec::new();
    let mut i: usize = 0;
    while i < rects.len()
        invariant
            i <= rects@.len(),
            in_range(rects@),
            forall|k: int| 0 <= k < out@.len() ==> is_edge(rects@, o, #[trigger] out@[k]),
            forall|a: int, b: int| a < i || b < i ==> #[trigger] pair_done(rects@, o, out@, a, b),
        decreases rects.len() - i,
    {
        let mut j: usize = i + 1;
        assert(pair_done(rects@, o, out@, i as int, i as int));
        while j < rects.len()
            invariant
                i < j <= rects@.len(),
                i < rects@.len(),
                in_range(rects@),
                forall|k: int| 0 <= k < out@.len() ==> is_edge(rects@, o, #[trigger] out@[k]),
                forall|a: int, b: int|
                    a < i || b < i ==> #[trigger] pair_done(rects@, o, out@, a, b),
                forall|b: int| i <= b < j ==> #[trigger] pair_done(rects@, o, out@, i as int, b),
                forall|a: int| i <= a < j ==> #[trigger] pair_done(rects@, o, out@, a, i as int),
            decreases rects.len() - j,
        {
            let ghost before = out@;
            let forward = shared_edge(rects, o, i, j);
            let backward = shared_edge(rects, o, j, i);
            let piece = if forward.is_some() {
                forward
            } else {
                backward
            };
            if let Some(s) = piece {
                out.push(s);
                proof {
                    assert(out@ =~= before.push(s));
                    assert forall|a: int, b: int| pair_done(rects@, o, before, a, b) implies
                        #[trigger] pair_done(rects@, o, out@, a, b) by {
                        lemma_pair_done_push(rects@, o, before, s, a, b);
                    }
                    assert(out@[before.len() as int] == s);
                    assert(is_edge(rects@, o, s));
                    assert forall|k: int| 0 <= k < out@.len() implies is_edge(
                        rects@,
                        o,
                        #[trigger] out@[k],
                    ) by {
                        if k < before.len() {
                            assert(out@[k] == before[k]);
                        }
                    }
                    assert(has_piece(out@, s.position as int, s.start as int, s.end as int));
                }
            }
            assert(pair_done(rects@, o, out@, i as int, j as int));
            assert(pair_done(rects@, o, out@, j as int, i as int));
            j += 1;
        }
        assert forall|a: int, b: int| a < i + 1 || b < i + 1 implies #[trigger] pair_done(
            rects@,
            o,
            out@,
            a,
            b,
        ) by {
            if a < i || b < i {
            } else if a == i {
                if b >= rects@.len() {
                }
            } else {
            }
        }
        i += 1;
    }
    assert forall|a: int, b: int| #[trigger] pair_done(rects@, o, out@, a, b) by {
    }
    out
}

/// Whether one piece of bar comes before another: by position, then by start.
pub open spec fn piece_le(a: Splitter, b: Splitter) -> bool {
    a.position < b.position || (a.position == b.position && a.start <= b.start)
}

/// Whether pieces of bar are in order.
pub open spec fn pieces_sorted(s: Seq<Splitter>) -> bool {
    forall|k: int, l: int| 0 <= k < l < s.len() ==> piece_le(#[trigger] s[k], #[trigger] s[l])
}

/// Whether two sequences hold the same things.
pub open spec fn same_elements(a: Seq<Splitter>, b: Seq<Splitter>) -> bool {
    &&& forall|k: int| 0 <= k < a.len() ==> b.contains(#[trigger] a[k])
    &&& forall|k: int| 0 <= k < b.len() ==> a.contains(#[trigger] b[k])
}

/// Puts a piece of bar in its place among pieces that are in order.
fn insert_piece(sorted: &mut Vec<Splitter>, s: Splitter)
    requires
        pieces_sorted(old(sorted)@),
    ensures
        pieces_sorted(final(sorted)@),
        same_elements(final(sorted)@, old(sorted)@.push(s)),
{
    let mut k: usize = sorted.len();
    while k > 0 && (sorted[k - 1].position > s.position || (sorted[k - 1].position == s.position
        && sorted[k - 1].start > s.start))
        invariant
            k <= sorted@.len(),
            sorted@ == old(sorted)@,
            pieces_sorted(sorted@),
            forall|l: int| k <= l < sorted@.len() ==> !piece_le(#[trigger] sorted@[l], s),
        decreases k,
    {
        k -= 1;
    }
    let ghost before = sorted@;
    sorted.insert(k, s);
    proof {
        let after = sorted@;
        assert(after =~= before.insert(k as int, s));
        assert forall|l: int| 0 <= l < after.len() implies before.push(s).contains(
            #[trigger] after[l],
        ) by {
            if l < k {
                assert(before.push(s)[l] == after[l]);
            } else if l == k {
                assert(before.push(s)[before.len() as int] == s);
            } else {
                assert(before.push(s)[l - 1] == after[l]);
            }
        }
        assert forall|l: int| 0 <= l < before.push(s).len() implies after.contains(
            #[trigger] before.push(s)[l],
        ) by {
            if l < k {
                assert(after[l] == before[l]);
            } else if l < before.len() {
                assert(after[l + 1] == before[l]);
            } else {
                assert(after[k as int] == s);
            }
        }
        assert forall|a: int, b: int| 0 <= a < b < after.len() implies piece_le(
            #[trigger] after[a],
            #[trigger] after[b],
        ) by {
            if b < k {
                assert(after[a] == before[a] && after[b] == before[b]);
            } else if b == k {
                if a < k {
                    assert(after[a] == before[a]);
                    assert(piece_le(before[a], before[k - 1]) || a == k - 1);
                }
            } else if a > k {
                assert(after[a] == before[a - 1] && after[b] == before[b - 1]);
            } else if a == k {
                assert(after[b] == before[b - 1]);
            } else {
                assert(after[a] == before[a] && after[b] == before[b - 1]);
            }
        }
    }
}

/// Puts pieces of bar in order.
fn sort_pieces(pieces: &Vec<Splitter>) -> (r: Vec<Splitter>)
    ensures
        pieces_sorted(r@),
        same_elements(r@, pieces@),
{
    let mut out: Vec<Splitter> = Vec::new();
    let mut i: usize = 0;
    while i < pieces.len()
        invariant
            i <= pieces@.len(),
            pieces_sorted(out@),
            same_elements(out@, pieces@.take(i as int)),
        decreases pieces.len() - i,
    {
        let ghost before = out@;
        insert_piece(&mut out, pieces[i]);
        proof {
            let x = pieces@[i as int];
            let t = pieces@.take(i as int);
            let u = pieces@.take(i + 1);
            assert(u =~= t.push(x));
            assert forall|k: int| 0 <= k < out@.len() implies u.contains(#[trigger] out@[k]) by {
                assert(before.push(x).contains(out@[k]));
                let m = choose|m: int| 0 <= m < before.push(x).len() && before.push(x)[m] == out@[k];
                if m < before.len() {
                    assert(t.contains(before[m]));
                    let n = choose|n: int| 0 <= n < t.len() && t[n] == before[m];
                    assert(u[n] == before[m]);
                } else {
                    assert(u[i as int] == x);
                }
            }
            assert forall|k: int| 0 <= k < u.len() implies out@.contains(#[trigger] u[k]) by {
                if k < i {
                    assert(u[k] == t[k]);
                    assert(before.contains(t[k]));
                    let m = choose|m: int| 0 <= m < before.len() && before[m] == t[k];
                    assert(before.push(x)[m] == u[k]);
                } else {
                    assert(before.push(x)[before.len() as int] == x);
                }
            }
        }
        i += 1;
    }
    assert(pieces@.take(i as int) =~= pieces@);
    out
}

/// What merging pieces of bar keeps: the bars made so far and the bar in the making cover what
/// the pieces merged so far cover.
pub open spec fn merged_upto(
    rects: Seq<(PaneId, Rect)>,
    o: Orientation,
    pieces: Seq<Splitter>,
    n: int,
    bars: Seq<Splitter>,
) -> bool {
    &&& forall|k: int| 0 <= k < bars.len() ==> (#[trigger] bars[k]).orientation == o
    &&& forall|pos: int, at: int|
        #[trigger] splitter_at(bars, o, pos, at) <==> splitter_at(pieces.take(n), o, pos, at)
    &&& forall|k: int| 0 <= k < bars.len() ==> (#[trigger] bars[k]).start < bars[k].end
    &&& forall|k: int| 0 <= k < bars.len() ==> names_its_panes(rects, #[trigger] bars[k])
    &&& forall|k: int, l: int|
        0 <= k < l < bars.len() ==> apart(#[trigger] bars[k], #[trigger] bars[l])
    // Bars are made in the order of the pieces.
    &&& forall|k: int, l: int|
        0 <= k < l < bars.len() ==> piece_le(#[trigger] bars[k], #[trigger] bars[l])
    &&& forall|k: int|
        0 <= k < bars.len() && n > 0 ==> piece_le(#[trigger] bars[k], pieces[n - 1])
}

/// Merges one more piece into the last bar, or starts a new bar with it.
proof fn lemma_merge_step(
    rects: Seq<(PaneId, Rect)>,
    o: Orientation,
    pieces: Seq<Splitter>,
    n: int,
    bars: Seq<Splitter>,
    after: Seq<Splitter>,
)
    requires
        0 <= n < pieces.len(),
        pieces_sorted(pieces),
        forall|k: int| 0 <= k < pieces.len() ==> is_edge(rects, o, #[trigger] pieces[k]),
        merged_upto(rects, o, pieces, n, bars),
        ({
            let p = pieces[n];
            let joins = bars.len() > 0 && bars.last().position == p.position && p.start
                <= bars.last().end;
            if joins {
                after == bars.update(
                    bars.len() - 1,
                    Splitter {
                        end: if p.end > bars.last().end {
                            p.end
                        } else {
                            bars.last().end
                        },
                        ..bars.last()
                    },
                )
            } else {
                after == bars.push(p)
            }
        }),
    ensures
        merged_upto(rects, o, pieces, n + 1, after),
{
    let p = pieces[n];
    let take = pieces.take(n);
    let next = pieces.take(n + 1);
    assert(next =~= take.push(p));
    assert(is_edge(rects, o, p));
    let joins = bars.len() > 0 && bars.last().position == p.position && p.start <= bars.last().end;
    let m = bars.len() - 1;
    assert forall|k: int| 0 <= k < bars.len() implies piece_le(#[trigger] bars[k], p) by {
        assert(n > 0) by {
            if n == 0 {
                assert(splitter_at(bars, o, bars[k].position as int, bars[k].start as int));
                assert(splitter_at(take, o, bars[k].position as int, bars[k].start as int));
            }
        }
        assert(piece_le(bars[k], pieces[n - 1]));
        assert(piece_le(pieces[n - 1], p));
    }
    assert(names_its_panes(rects, p)) by {
        let (i, j) = choose|i: int, j: int|
            #[trigger] edge_between(
                rects,
                o,
                i,
                j,
                p.position as int,
                p.start as int,
                p.end as int,
            ) && rects[i].0 == p.pane_before && rects[j].0 == p.pane_after;
        assert(edge_between(
            rects,
            p.orientation,
            i,
            j,
            p.position as int,
            p.start as int,
            p.end as int,
        ));
    }
    if joins {
        let q = after[m];
        assert forall|k: int| 0 <= k < after.len() implies names_its_panes(
            rects,
            #[trigger] after[k],
        ) by {
            assert(names_its_panes(rects, bars[k]));
            let (i, j, to) = choose|i: int, j: int, to: int|
                #[trigger] edge_between(
                    rects,
                    bars[k].orientation,
                    i,
                    j,
                    bars[k].position as int,
                    bars[k].start as int,
                    to,
                ) && rects[i].0 == bars[k].pane_before && rects[j].0 == bars[k].pane_after;
            assert(edge_between(
                rects,
                after[k].orientation,
                i,
                j,
                after[k].position as int,
                after[k].start as int,
                to,
            ));
        }
        assert forall|k: int, l: int| 0 <= k < l < after.len() implies apart(
            #[trigger] after[k],
            #[trigger] after[l],
        ) by {
            assert(apart(bars[k], bars[l]));
            assert(piece_le(bars[k], bars[l]));
            assert(bars[k].start < bars[k].end);
        }
        assert forall|k: int, l: int| 0 <= k < l < after.len() implies piece_le(
            #[trigger] after[k],
            #[trigger] after[l],
        ) by {
            assert(piece_le(bars[k], bars[l]));
        }
        assert forall|k: int| 0 <= k < after.len() implies piece_le(#[trigger] after[k], p) by {
            assert(piece_le(bars[k], p));
        }
    } else {
        assert forall|k: int, l: int| 0 <= k < l < after.len() implies apart(
            #[trigger] after[k],
            #[trigger] after[l],
        ) by {
            if l < bars.len() {
                assert(apart(bars[k], bars[l]));
            } else {
                assert(piece_le(bars[k], p));
                if k < m {
                    assert(apart(bars[k], bars[m]));
                    assert(piece_le(bars[k], bars[m]));
                    assert(piece_le(bars[m], p));
                    assert(bars[m].start < bars[m].end);
                    assert(bars[k].start < bars[k].end);
                }
            }
        }
        assert forall|k: int, l: int| 0 <= k < l < after.len() implies piece_le(
            #[trigger] after[k],
            #[trigger] after[l],
        ) by {
            if l < bars.len() {
                assert(piece_le(bars[k], bars[l]));
            } else {
                assert(piece_le(bars[k], p));
            }
        }
        assert forall|k: int| 0 <= k < after.len() implies names_its_panes(
            rects,
            #[trigger] after[k],
        ) by {
            if k < bars.len() {
                assert(names_its_panes(rects, bars[k]));
            }
        }
    }
    lemma_merge_covers(o, pieces, n, bars, after);
}

/// Merging a piece covers what the piece covers, and nothing else that is new.
proof fn lemma_merge_covers(
    o: Orientation,
    pieces: Seq<Splitter>,
    n: int,
    bars: Seq<Splitter>,
    after: Seq<Splitter>,
)
    requires
        0 <= n < pieces.len(),
        pieces[n].orientation == o,
        pieces[n].start < pieces[n].end,
        forall|k: int| 0 <= k < bars.len() ==> (#[trigger] bars[k]).orientation == o,
        forall|k: int| 0 <= k < bars.len() ==> piece_le(#[trigger] bars[k], pieces[n]),
        forall|pos: int, at: int|
            #[trigger] splitter_at(bars, o, pos, at) <==> splitter_at(pieces.take(n), o, pos, at),
        ({
            let p = pieces[n];
            let joins = bars.len() > 0 && bars.last().position == p.position && p.start
                <= bars.last().end;
            if joins {
                after == bars.update(
                    bars.len() - 1,
                    Splitter {
                        end: if p.end > bars.last().end {
                            p.end
                        } else {
                            bars.last().end
                        },
                        ..bars.last()
                    },
                )
            } else {
                after == bars.push(p)
            }
        }),
    ensures
        forall|pos: int, at: int|
            #[trigger] splitter_at(after, o, pos, at) <==> splitter_at(
                pieces.take(n + 1),
                o,
                pos,
                at,
            ),
{
    let p = pieces[n];
    let take = pieces.take(n);
    let next = pieces.take(n + 1);
    let m = bars.len() - 1;
    let joins = bars.len() > 0 && bars.last().position == p.position && p.start <= bars.last().end;
    assert(next =~= take.push(p));
    assert forall|pos: int, at: int|
        #[trigger] splitter_at(after, o, pos, at) <==> splitter_at(next, o, pos, at) by {
        if splitter_at(next, o, pos, at) {
            let k = choose|k: int|
                0 <= k < next.len() && (#[trigger] next[k]).orientation == o && next[k].position
                    == pos && next[k].start <= at < next[k].end;
            if k < n {
                assert(take[k] == next[k]);
                assert(splitter_at(take, o, pos, at));
                assert(splitter_at(bars, o, pos, at));
                let l = choose|l: int|
                    0 <= l < bars.len() && (#[trigger] bars[l]).orientation == o && bars[l].position
                        == pos && bars[l].start <= at < bars[l].end;
                assert(after[l].start <= at < after[l].end);
            } else if joins {
                if at < bars.last().end && at >= bars.last().start {
                    assert(after[m].start <= at < after[m].end);
                } else {
                    assert(piece_le(bars[m], p));
                    assert(after[m].start <= at < after[m].end);
                }
            } else {
                assert(after[bars.len() as int] == p);
            }
        }
        if splitter_at(after, o, pos, at) {
            let k = choose|k: int|
                0 <= k < after.len() && (#[trigger] after[k]).orientation == o && after[k].position
                    == pos && after[k].start <= at < after[k].end;
            if joins && k == m && at >= bars.last().end {
                assert(next[n] == p);
                assert(p.start <= at < p.end);
            } else if !joins && k == bars.len() {
                assert(next[n] == p);
            } else {
                assert(bars[k].start <= at < bars[k].end);
                assert(splitter_at(bars, o, pos, at));
                assert(splitter_at(take, o, pos, at));
                let l = choose|l: int|
                    0 <= l < take.len() && (#[trigger] take[l]).orientation == o && take[l].position
                        == pos && take[l].start <= at < take[l].end;
                assert(next[l] == take[l]);
            }
        }
    }
}

/// Merges pieces of bar that overlap or touch.
fn merge_segments_into_splitters(
    rects: &Vec<(PaneId, Rect)>,
    o: Orientation,
    pieces: &Vec<Splitter>,
) -> (r: Vec<Splitter>)
    requires
        pieces_sorted(pieces@),
        forall|k: int| 0 <= k < pieces@.len() ==> is_edge(rects@, o, #[trigger] pieces@[k]),
    ensures
        merged_upto(rects@, o, pieces@, pieces@.len() as int, r@),
{
    let mut bars: Vec<Splitter> = Vec::new();
    let mut n: usize = 0;
    assert(pieces@.take(0) =~= Seq::empty());
    while n < pieces.len()
        invariant
            n <= pieces@.len(),
            pieces_sorted(pieces@),
            forall|k: int| 0 <= k < pieces@.len() ==> is_edge(rects@, o, #[trigger] pieces@[k]),
            merged_upto(rects@, o, pieces@, n as int, bars@),
        decreases pieces.len() - n,
    {
        let p = pieces[n];
        let ghost before = bars@;
        let count: usize = bars.len();
        if count > 0 && bars[count - 1].position == p.position && p.start <= bars[count - 1].end {
            let last = bars[count - 1];
            if p.end > last.end {
                bars.set(
                    count - 1,
                    Splitter {
                        orientation: last.orientation,
                        position: last.position,
                        start: last.start,
                        end: p.end,
                        pane_before: last.pane_before,
                        pane_after: last.pane_after,
                    },
                );
            } else {
                assert(before =~= before.update(
                    before.len() - 1,
                    Splitter { end: last.end, ..before.last() },
                ));
            }
        } else {
            bars.push(p);
        }
        proof {
            lemma_merge_step(rects@, o, pieces@, n as int, before, bars@);
        }
        n += 1;
    }
    bars
}

/// The splitters of one orientation.
fn splitters_along(rects: &Vec<(PaneId, Rect)>, o: Orientation) -> (r: Vec<Splitter>)
    requires
        in_range(rects@),
    ensures
        splitters_of(rects@, o, r@),
{
    let edges = shared_edges(rects, o);
    let pieces = sort_pieces(&edges);
    assert forall|k: int| 0 <= k < pieces@.len() implies is_edge(rects@, o, #[trigger] pieces@[k]) by {
        assert(edges@.contains(pieces@[k]));
    }
    let bars = merge_segments_into_splitters(rects, o, &pieces);
    proof {
        assert(pieces@.take(pieces@.len() as int) =~= pieces@);
        assert forall|pos: int, at: int|
            #[trigger] splitter_at(bars@, o, pos, at) <==> edge_at(rects@, o, pos, at) by {
            assert(splitter_at(bars@, o, pos, at) <==> splitter_at(pieces@, o, pos, at));
            if splitter_at(pieces@, o, pos, at) {
                let k = choose|k: int|
                    0 <= k < pieces@.len() && (#[trigger] pieces@[k]).orientation == o
                        && pieces@[k].position == pos && pieces@[k].start <= at < pieces@[k].end;
                assert(is_edge(rects@, o, pieces@[k]));
                let p = pieces@[k];
                let (i, j) = choose|i: int, j: int|
                    #[trigger] edge_between(
                        rects@,
                        o,
                        i,
                        j,
                        p.position as int,
                        p.start as int,
                        p.end as int,
                    ) && rects@[i].0 == p.pane_before && rects@[j].0 == p.pane_after;
                assert(edge_between(rects@, o, i, j, pos, p.start as int, p.end as int));
            }
            if edge_at(rects@, o, pos, at) {
                let (i, j, from, to) = choose|i: int, j: int, from: int, to: int|
                    #[trigger] edge_between(rects@, o, i, j, pos, from, to) && from <= at < to;
                assert(pair_done(rects@, o, edges@, i, j));
                assert(has_piece(edges@, pos, from, to));
                let k = choose|k: int|
                    0 <= k < edges@.len() && (#[trigger] edges@[k]).position == pos
                        && edges@[k].start == from && edges@[k].end == to;
                assert(pieces@.contains(edges@[k]));
                let m = choose|m: int| 0 <= m < pieces@.len() && pieces@[m] == edges@[k];
                assert(is_edge(rects@, o, pieces@[m]));
                assert(pieces@[m].start <= at < pieces@[m].end);
            }
        }
    }
    bars
}

/// Whether splitters are all those of a layout: first those of horizontal splits, then those of
/// vertical splits.
pub open spec fn all_splitters_of(rects: Seq<(PaneId, Rect)>, s: Seq<Splitter>) -> bool {
    exists|n: int|
        0 <= n <= s.len() && splitters_of(rects, Orientation::Horizontal, #[trigger] s.take(n))
            && splitters_of(rects, Orientation::Vertical, s.skip(n))
}

/// Detect the splitter bars between panes from the areas that the panes take.
pub fn detect_splitters(rects: &Vec<(PaneId, Rect)>) -> (r: Vec<Splitter>)
    requires
        in_range(rects@),
    ensures
        all_splitters_of(rects@, r@),
{
    let mut all = splitters_along(rects, Orientation::Horizontal);
    let mut down = splitters_along(rects, Orientation::Vertical);
    let ghost first = all@;
    let ghost second = down@;
    all.append(&mut down);
    assert(all@.take(first.len() as int) =~= first);
    assert(all@.skip(first.len() as int) =~= second);
    all
}

// ── PaneLayout ───────────────────────────────────────────────────────────────

/// The panes of a tab as they lie side by side, and the splitter that is dragged or hovered.
#[derive(Debug)]
pub struct PaneLayout {
    /// The area of each pane, in cells.
    pub rects: Vec<(PaneId, Rect)>,
    /// Detected splitter bars.
    pub splitters: Vec<Splitter>,
    /// The splitter that is dragged.
    pub drag: Option<usize>,
    /// The splitter that the pointer is over.
    pub hover: Option<usize>,
}

/// The cursor shape over a splitter.
pub open spec fn resize_cursor(o: Orientation) -> CursorHint {
    match o {
        Orientation::Horizontal => CursorHint::ResizeHorizontal,
        Orientation::Vertical => CursorHint::ResizeVertical,
    }
}

/// How the pane before a splitter is resized when the splitter is dragged.
pub open spec fn drag_direction(o: Orientation, forward: bool) -> ResizeDirection {
    match o {
        Orientation::Horizontal => if forward {
            ResizeDirection::GrowRight
        } else {
            ResizeDirection::ShrinkRight
        },
        Orientation::Vertical => if forward {
            ResizeDirection::GrowDown
        } else {
            ResizeDirection::ShrinkDown
        },
    }
}

impl PaneLayout {
    /// Whether the dragged splitter is there.
    pub open spec fn drag_in_range(&self) -> bool {
        self.drag matches Some(i) ==> i < self.splitters@.len()
    }

    /// Whether a reported splitter is there.
    pub open spec fn hit_in_range(&self, hit: LayoutHit) -> bool {
        hit.splitter matches Some(i) ==> i < self.splitters@.len()
    }

    /// Create a pane layout without panes.
    pub fn new() -> (r: PaneLayout)
        ensures
            r.rects@.len() == 0,
            r.splitters@.len() == 0,
            r.drag is None,
            r.hover is None,
    {
        PaneLayout { rects: Vec::new(), splitters: Vec::new(), drag: None, hover: None }
    }

    /// Take over the areas of the panes and find the splitters between them. A drag goes on.
    pub fn update(&mut self, rects: Vec<(PaneId, Rect)>)
        requires
            in_range(rects@),
        ensures
            final(self).rects == rects,
            final(self).drag == old(self).drag,
            final(self).hover == old(self).hover,
            all_splitters_of(rects@, final(self).splitters@),
    {
        self.splitters = detect_splitters(&rects);
        self.rects = rects;
    }

    /// Whether a splitter drag is in progress.
    pub fn is_dragging(&self) -> (r: bool)
        ensures
            r == (self.drag is Some),
    {
        self.drag.is_some()
    }

    /// Number of detected splitters.
    pub fn splitter_count(&self) -> (r: usize)
        ensures
            r == self.splitters@.len(),
    {
        self.splitters.len()
    }

    /// What cursor shape should be shown: that of the dragged splitter, or else of the splitter
    /// under the pointer.
    pub fn cursor_hint(&self, hit: &LayoutHit) -> (r: CursorHint)
        requires
            self.drag_in_range(),
            self.hit_in_range(*hit),
        ensures
            r == match self.drag {
                Some(i) => resize_cursor(self.splitters@[i as int].orientation),
                None => match hit.splitter {
                    Some(i) => resize_cursor(self.splitters@[i as int].orientation),
                    None => CursorHint::Arrow,
                },
            },
    {
        let over = if self.drag.is_some() {
            self.drag
        } else {
            hit.splitter
        };
        match over {
            Some(i) => match self.splitters[i].orientation {
                Orientation::Horizontal => CursorHint::ResizeHorizontal,
                Orientation::Vertical => CursorHint::ResizeVertical,
            },
            None => CursorHint::Arrow,
        }
    }

    /// Handle mouse button down. A splitter starts to be dragged; a pane is to be focused.
    pub fn on_mouse_down(&mut self, hit: &LayoutHit) -> (r: Option<PaneLayoutAction>)
        ensures
            final(self).rects == old(self).rects,
            final(self).splitters == old(self).splitters,
            final(self).hover == old(self).hover,
            final(self).drag == (if hit.splitter is Some {
                hit.splitter
            } else {
                old(self).drag
            }),
            r == (if hit.splitter is Some {
                None
            } else {
                match hit.pane {
                    Some(p) => Some(PaneLayoutAction::FocusPane(p)),
                    None => None,
                }
            }),
    {
        if hit.splitter.is_some() {
            self.drag = hit.splitter;
            return None;
        }
        match hit.pane {
            Some(p) => Some(PaneLayoutAction::FocusPane(p)),
            None => None,
        }
    }

    /// Handle mouse move. Returns a resize action if the dragged splitter has moved by at least
    /// one whole cell.
    pub fn on_mouse_move(&mut self, hit: &LayoutHit) -> (r: Option<PaneLayoutAction>)
        requires
            old(self).drag_in_range(),
        ensures
            final(self).rects == old(self).rects,
            final(self).splitters == old(self).splitters,
            final(self).drag == old(self).drag,
            final(self).hover == hit.splitter,
            r == move_action(*old(self), *hit),
    {
        self.hover = hit.splitter;
        match self.drag {
            None => None,
            Some(i) => {
                if hit.dragged_cells < 1 {
                    return None;
                }
                let splitter = self.splitters[i];
                let direction = match splitter.orientation {
                    Orientation::Horizontal => {
                        if hit.dragged_forward {
                            ResizeDirection::GrowRight
                        } else {
                            ResizeDirection::ShrinkRight
                        }
                    },
                    Orientation::Vertical => {
                        if hit.dragged_forward {
                            ResizeDirection::GrowDown
                        } else {
                            ResizeDirection::ShrinkDown
                        }
                    },
                };
                Some(
                    PaneLayoutAction::Resize {
                        pane_id: splitter.pane_before,
                        direction,
                        cells: hit.dragged_cells,
                    },
                )
            },
        }
    }

    /// Handle mouse button up. Ends any active drag.
    pub fn on_mouse_up(&mut self)
        ensures
            final(self).rects == old(self).rects,
            final(self).splitters == old(self).splitters,
            final(self).hover == old(self).hover,
            final(self).drag is None,
    {
        self.drag = None;
    }

    /// Clear hover and drag state (e.g. on mouse leave).
    pub fn on_mouse_leave(&mut self)
        ensures
            final(self).rects == old(self).rects,
            final(self).splitters == old(self).splitters,
            final(self).drag is None,
            final(self).hover is None,
    {
        self.hover = None;
        self.drag = None;
    }

    /// Whether a splitter is painted highlighted: it is hovered or dragged.
    pub fn is_hot(&self, index: usize) -> (r: bool)
        ensures
            r == (self.hover == Some(index) || self.drag == Some(index)),
    {
        self.hover == Some(index) || self.drag == Some(index)
    }
}

/// What a move of the pointer resizes.
pub open spec fn move_action(layout: PaneLayout, hit: LayoutHit) -> Option<PaneLayoutAction> {
    match layout.drag {
        Some(i) if hit.dragged_cells >= 1 => Some(
            PaneLayoutAction::Resize {
                pane_id: layout.splitters@[i as int].pane_before,
                direction: drag_direction(
                    layout.splitters@[i as int].orientation,
                    hit.dragged_forward,
                ),
                cells: hit.dragged_cells,
            },
        ),
        _ => None,
    }
}

// ── Dragging by less than a cell ─────────────────────────────────────────────

/// A splitter that is being dragged, measured in fractions of a pixel: where the pointer was last,
/// and by how much it has moved beyond the cells that were reported.
#[derive(Debug, Clone, Copy, PartialEq, Eq, Structural)]
pub struct SplitterGrab {
    pub last: i64,
    pub remainder: i64,
}

impl SplitterGrab {
    /// The movement that is not reported yet when the pointer is at a position.
    pub open spec fn pending(self, position: int) -> int {
        self.remainder + position - self.last
    }

    /// The cells that a movement to a position reports: the whole cells in it, at most as many as
    /// can be counted.
    pub open spec fn cells_to(self, position: int, cell: int) -> int {
        let pending = self.pending(position);
        let whole = (if pending >= 0 {
            pending
        } else {
            -pending
        }) / cell;
        if whole <= u16::MAX {
            whole
        } else {
            u16::MAX as int
        }
    }

    /// The cells with their direction: positive to the right or down.
    pub open spec fn signed_cells(self, position: int, cell: int) -> int {
        if self.pending(position) > 0 {
            self.cells_to(position, cell)
        } else {
            -self.cells_to(position, cell)
        }
    }

    /// The grab after a movement to a position.
    pub open spec fn moved(self, position: int, cell: int) -> SplitterGrab {
        SplitterGrab {
            last: position as i64,
            remainder: (self.pending(position) - self.signed_cells(position, cell) * cell) as i64,
        }
    }

    /// Whether the movement to a position can be measured.
    pub open spec fn can_reach(self, position: int) -> bool {
        i64::MIN < self.pending(position) <= i64::MAX
    }

    /// Start a drag at a position.
    pub fn new(position: i64) -> (r: SplitterGrab)
        ensures
            r == (SplitterGrab { last: position, remainder: 0 }),
    {
        SplitterGrab { last: position, remainder: 0 }
    }

    /// Follow the pointer. Returns the whole cells by which the splitter has moved since the last
    /// cells were reported, and whether to the right or down. What is left over is kept.
    pub fn advance(&mut self, position: i64, cell: i64) -> (r: (u16, bool))
        requires
            cell > 0,
            old(self).can_reach(position as int),
        ensures
            r.0 == old(self).cells_to(position as int, cell as int),
            r.1 == (old(self).pending(position as int) > 0),
            *final(self) == old(self).moved(position as int, cell as int),
            old(self).pending(position as int) == old(self).signed_cells(
                position as int,
                cell as int,
            ) * cell + final(self).remainder,
            r.0 < u16::MAX ==> -cell < final(self).remainder < cell,
    {
        let pending: i128 = self.remainder as i128 + position as i128 - self.last as i128;
        let size: i128 = if pending >= 0 {
            pending
        } else {
            -pending
        };
        let whole: i128 = size / cell as i128;
        let cells: u16 = if whole <= u16::MAX as i128 {
            whole as u16
        } else {
            u16::MAX
        };
        proof {
            lemma_whole_cells(size as int, cell as int, cells as int);
            assert((-(cells as int)) * cell == -(cells * cell)) by (nonlinear_arith);
        }
        let used: i128 = cells as i128 * cell as i128;
        let left: i128 = if pending > 0 {
            pending - used
        } else {
            pending + used
        };
        self.last = position;
        self.remainder = left as i64;
        (cells, pending > 0)
    }
}

proof fn lemma_whole_cells(size: int, cell: int, cells: int)
    requires
        size >= 0,
        cell > 0,
        cells == (if size / cell <= u16::MAX {
            size / cell
        } else {
            u16::MAX as int
        }),
    ensures
        0 <= cells * cell <= size,
        cells < u16::MAX ==> size - cells * cell < cell,
{
    assert(0 <= cells * cell <= size && (cells == size / cell ==> size - cells * cell < cell))
        by (nonlinear_arith)
        requires
            size >= 0,
            cell > 0,
            0 <= cells <= size / cell,
    {
        assert((size / cell) * cell <= size < (size / cell) * cell + cell);
        assert(cells * cell <= (size / cell) * cell);
    }
}

/// The grab after the pointer has been at the positions, one after the other.
pub open spec fn grab_after(grab: SplitterGrab, positions: Seq<i64>, cell: int) -> SplitterGrab
    decreases positions.len(),
{
    if positions.len() == 0 {
        grab
    } else {
        grab_after(grab, positions.drop_last(), cell).moved(positions.last() as int, cell)
    }
}

/// All the cells that are reported on the way, with their directions.
pub open spec fn cells_reported(grab: SplitterGrab, positions: Seq<i64>, cell: int) -> int
    decreases positions.len(),
{
    if positions.len() == 0 {
        0
    } else {
        cells_reported(grab, positions.drop_last(), cell) + grab_after(
            grab,
            positions.drop_last(),
            cell,
        ).signed_cells(positions.last() as int, cell)
    }
}

/// Whether the movement to each of the positions can be measured.
pub open spec fn can_follow(grab: SplitterGrab, positions: Seq<i64>, cell: int) -> bool {
    forall|n: int|
        0 <= n < positions.len() ==> grab_after(grab, #[trigger] positions.take(n), cell).can_reach(
            positions[n] as int,
        )
}

// ── Laws ─────────────────────────────────────────────────────────────────────

/// A single pane has no splitters.
pub proof fn law_single_pane_has_no_splitters(
    rects: Seq<(PaneId, Rect)>,
    o: Orientation,
    s: Seq<Splitter>,
)
    requires
        rects.len() <= 1,
        splitters_of(rects, o, s),
    ensures
        s.len() == 0,
{
    if s.len() > 0 {
        assert(splitter_at(s, o, s[0].position as int, s[0].start as int));
        assert(edge_at(rects, o, s[0].position as int, s[0].start as int));
    }
}

/// No stretch of an edge is covered by two splitters.
pub proof fn law_splitters_do_not_overlap(
    rects: Seq<(PaneId, Rect)>,
    o: Orientation,
    s: Seq<Splitter>,
    k: int,
    l: int,
    at: int,
)
    requires
        splitters_of(rects, o, s),
        0 <= k < s.len(),
        0 <= l < s.len(),
        s[k].position == s[l].position,
        s[k].start <= at < s[k].end,
        s[l].start <= at < s[l].end,
    ensures
        k == l,
{
    if k < l {
        assert(apart(s[k], s[l]));
    } else if l < k {
        assert(apart(s[l], s[k]));
    }
}

/// Movement by less than a cell is not lost: however the pointer came to a place, the cells that
/// were reported on the way and what is left over make the whole movement.
pub proof fn law_sub_cell_movement_is_carried(start: i64, positions: Seq<i64>, cell: int)
    requires
        cell > 0,
        positions.len() > 0,
        can_follow(SplitterGrab { last: start, remainder: 0 }, positions, cell),
    ensures
        ({
            let grab = SplitterGrab { last: start, remainder: 0 };
            cells_reported(grab, positions, cell) * cell + grab_after(
                grab,
                positions,
                cell,
            ).remainder == positions.last() - start
        }),
{
    lemma_carried(start, positions, cell);
}

proof fn lemma_carried(start: i64, positions: Seq<i64>, cell: int)
    requires
        cell > 0,
        can_follow(SplitterGrab { last: start, remainder: 0 }, positions, cell),
    ensures
        ({
            let grab = SplitterGrab { last: start, remainder: 0 };
            let after = grab_after(grab, positions, cell);
            &&& cells_reported(grab, positions, cell) * cell + after.remainder == after.last - start
            &&& after.last == (if positions.len() == 0 {
                start
            } else {
                positions.last()
            })
        }),
    decreases positions.len(),
{
    let grab = SplitterGrab { last: start, remainder: 0 };
    if positions.len() > 0 {
        let n = positions.len() - 1;
        let before = positions.drop_last();
        assert(positions.take(n) =~= before);
        assert forall|k: int| 0 <= k < before.len() implies grab_after(
            grab,
            #[trigger] before.take(k),
            cell,
        ).can_reach(before[k] as int) by {
            assert(positions.take(k) =~= before.take(k));
            assert(grab_after(grab, positions.take(k), cell).can_reach(positions[k] as int));
        }
        lemma_carried(start, before, cell);
        let mid = grab_after(grab, before, cell);
        let to = positions.last() as int;
        assert(grab_after(grab, positions.take(n), cell).can_reach(positions[n] as int));
        let pending = mid.pending(to);
        let size = if pending >= 0 {
            pending
        } else {
            -pending
        };
        let cells = mid.cells_to(to, cell);
        lemma_whole_cells(size, cell, cells);
        assert((-cells) * cell == -(cells * cell)) by (nonlinear_arith);
        let so_far = cells_reported(grab, before, cell);
        let more = mid.signed_cells(to, cell);
        assert((so_far + more) * cell == so_far * cell + more * cell) by (nonlinear_arith);
    } else {
        assert(0 * cell == 0);
    }
}

/// By how many cells the right edge and the lower edge of a pane move when it is resized: to the
/// right and down count as positive.
pub open spec fn edge_shift(direction: ResizeDirection, cells: int) -> (int, int) {
    match direction {
        ResizeDirection::GrowRight => (cells, 0),
        ResizeDirection::ShrinkRight => (-cells, 0),
        ResizeDirection::GrowDown => (0, cells),
        ResizeDirection::ShrinkDown => (0, -cells),
    }
}

/// A dragged edge goes with the pointer: the pane before the splitter is resized so that its edge
/// moves by as many cells as the pointer, along the split and in the same direction. It grows when
/// the pointer goes right or down, and shrinks when it goes left or up.
pub proof fn law_edge_follows_the_pointer(layout: PaneLayout, hit: LayoutHit, i: usize)
    requires
        layout.drag == Some(i),
        i < layout.splitters@.len(),
        hit.dragged_cells >= 1,
    ensures
        move_action(layout, hit) is Some,
        move_action(layout, hit)->0 is Resize,
        ({
            let action = move_action(layout, hit)->0;
            let splitter = layout.splitters@[i as int];
            let moved: int = if hit.dragged_forward {
                hit.dragged_cells as int
            } else {
                -(hit.dragged_cells as int)
            };
            &&& action->pane_id == splitter.pane_before
            &&& edge_shift(action->direction, action->cells as int) == match splitter.orientation {
                Orientation::Horizontal => (moved, 0int),
                Orientation::Vertical => (0int, moved),
            }
        }),
{
}

/// A move resizes nothing unless a splitter is dragged by at least one cell.
pub proof fn law_no_drag_no_resize(layout: PaneLayout, hit: LayoutHit)
    requires
        layout.drag is None || hit.dragged_cells == 0,
    ensures
        move_action(layout, hit) is None,
{
}

/// The cells that a movement reports go the way of the pointer, and as far: less than a cell is
/// left over, unless there are more cells than can be counted.
pub proof fn law_reported_cells_follow_the_pointer(start: i64, position: int, cell: int)
    requires
        cell > 0,
    ensures
        ({
            let grab = SplitterGrab { last: start, remainder: 0 };
            let cells = grab.signed_cells(position, cell);
            let moved = position - start;
            &&& moved >= cell ==> cells >= 1
            &&& moved <= -cell ==> cells <= -1
            &&& -cell < moved < cell ==> cells == 0
            &&& -u16::MAX * cell < moved < u16::MAX * cell ==> -cell < moved - cells * cell < cell
        }),
{
    let grab = SplitterGrab { last: start, remainder: 0 };
    let moved = position - start;
    let size = if moved >= 0 {
        moved
    } else {
        -moved
    };
    let cells = grab.cells_to(position, cell);
    lemma_whole_cells(size, cell, cells);
    assert((-cells) * cell == -(cells * cell)) by (nonlinear_arith);
    let whole = size / cell;
    assert(size < u16::MAX * cell ==> whole < u16::MAX) by (nonlinear_arith)
        requires
            whole == size / cell,
            cell > 0,
            size >= 0,
    {
        assert(whole * cell <= size);
        if whole >= u16::MAX {
            assert(whole * cell >= u16::MAX * cell);
        }
    }
    assert(size >= cell ==> whole >= 1) by (nonlinear_arith)
        requires
            whole == size / cell,
            cell > 0,
            size >= 0,
    ;
    assert(size < cell ==> whole == 0) by (nonlinear_arith)
        requires
            whole == size / cell,
            cell > 0,
            size >= 0,
    ;
}

proof fn lemma_within_all(rects: Seq<(PaneId, Rect)>, s: Seq<Splitter>, o: Orientation) -> (part: (
    int,
    int,
))
    requires
        all_splitters_of(rects, s),
    ensures
        0 <= part.0 <= part.1 <= s.len(),
        splitters_of(rects, o, s.subrange(part.0, part.1)),
        forall|k: int|
            0 <= k < s.len() && (#[trigger] s[k]).orientation == o ==> part.0 <= k < part.1,
{
    let n = choose|n: int|
        0 <= n <= s.len() && splitters_of(rects, Orientation::Horizontal, #[trigger] s.take(n))
            && splitters_of(rects, Orientation::Vertical, s.skip(n));
    assert(s.take(n) =~= s.subrange(0, n));
    assert(s.skip(n) =~= s.subrange(n, s.len() as int));
    assert forall|k: int| 0 <= k < s.len() implies (#[trigger] s[k]).orientation == (if k < n {
        Orientation::Horizontal
    } else {
        Orientation::Vertical
    }) by {
        if k < n {
            assert(s.take(n)[k] == s[k]);
        } else {
            assert(s.skip(n)[k - n] == s[k]);
        }
    }
    match o {
        Orientation::Horizontal => (0, n),
        Orientation::Vertical => (n, s.len() as int),
    }
}

/// Where the right edge of one pane is the left edge of another, a splitter lies along every row
/// that both have: it moves the two panes to the left and right.
pub proof fn law_panes_side_by_side_have_a_splitter(
    rects: Seq<(PaneId, Rect)>,
    s: Seq<Splitter>,
    i: int,
    j: int,
    row: int,
)
    requires
        all_splitters_of(rects, s),
        0 <= i < rects.len(),
        0 <= j < rects.len(),
        i != j,
        rects[i].1.x + rects[i].1.width == rects[j].1.x,
        rects[i].1.y <= row < rects[i].1.y + rects[i].1.height,
        rects[j].1.y <= row < rects[j].1.y + rects[j].1.height,
    ensures
        exists|k: int|
            0 <= k < s.len() && (#[trigger] s[k]).orientation == Orientation::Horizontal
                && s[k].position == rects[j].1.x && s[k].start <= row < s[k].end,
{
    let o = Orientation::Horizontal;
    let (lo, hi) = lemma_within_all(rects, s, o);
    let part = s.subrange(lo, hi);
    let pos = rects[j].1.x as int;
    let from = common_from(o, rects[i].1, rects[j].1);
    let to = common_to(o, rects[i].1, rects[j].1);
    assert(edge_between(rects, o, i, j, pos, from, to));
    assert(edge_at(rects, o, pos, row));
    assert(splitter_at(part, o, pos, row));
    let k = choose|k: int|
        0 <= k < part.len() && (#[trigger] part[k]).orientation == o && part[k].position == pos
            && part[k].start <= row < part[k].end;
    assert(s[lo + k] == part[k]);
}

/// Where the lower edge of one pane is the upper edge of another, a splitter lies along every
/// column that both have: it moves the two panes up and down.
pub proof fn law_panes_one_above_the_other_have_a_splitter(
    rects: Seq<(PaneId, Rect)>,
    s: Seq<Splitter>,
    i: int,
    j: int,
    col: int,
)
    requires
        all_splitters_of(rects, s),
        0 <= i < rects.len(),
        0 <= j < rects.len(),
        i != j,
        rects[i].1.y + rects[i].1.height == rects[j].1.y,
        rects[i].1.x <= col < rects[i].1.x + rects[i].1.width,
        rects[j].1.x <= col < rects[j].1.x + rects[j].1.width,
    ensures
        exists|k: int|
            0 <= k < s.len() && (#[trigger] s[k]).orientation == Orientation::Vertical
                && s[k].position == rects[j].1.y && s[k].start <= col < s[k].end,
{
    let o = Orientation::Vertical;
    let (lo, hi) = lemma_within_all(rects, s, o);
    let part = s.subrange(lo, hi);
    let pos = rects[j].1.y as int;
    let from = common_from(o, rects[i].1, rects[j].1);
    let to = common_to(o, rects[i].1, rects[j].1);
    assert(edge_between(rects, o, i, j, pos, from, to));
    assert(edge_at(rects, o, pos, col));
    assert(splitter_at(part, o, pos, col));
    let k = choose|k: int|
        0 <= k < part.len() && (#[trigger] part[k]).orientation == o && part[k].position == pos
            && part[k].start <= col < part[k].end;
    assert(s[lo + k] == part[k]);
}

/// Whether a column of panes ends where another begins, in a given row.
pub open spec fn meet_in_row(a: Rect, b: Rect, x: int, row: int) -> bool {
    a.x + a.width == x && b.x == x && a.y <= row < a.y + a.height && b.y <= row < b.y + b.height
}

/// Whether a row of panes ends where another begins, in a given column.
pub open spec fn meet_in_column(a: Rect, b: Rect, y: int, col: int) -> bool {
    a.y + a.height == y && b.y == y && a.x <= col < a.x + a.width && b.x <= col < b.x + b.width
}

/// There is no splitter but between panes: all along it some pane ends and another begins, and it
/// starts where the panes that it names do so.
pub proof fn law_splitters_lie_between_panes(
    rects: Seq<(PaneId, Rect)>,
    s: Seq<Splitter>,
    k: int,
    at: int,
)
    requires
        all_splitters_of(rects, s),
        0 <= k < s.len(),
        s[k].start <= at < s[k].end,
    ensures
        s[k].orientation == Orientation::Horizontal ==> exists|i: int, j: int|
            0 <= i < rects.len() && 0 <= j < rects.len() && i != j && meet_in_row(
                (#[trigger] rects[i]).1,
                (#[trigger] rects[j]).1,
                s[k].position as int,
                at,
            ),
        s[k].orientation == Orientation::Vertical ==> exists|i: int, j: int|
            0 <= i < rects.len() && 0 <= j < rects.len() && i != j && meet_in_column(
                (#[trigger] rects[i]).1,
                (#[trigger] rects[j]).1,
                s[k].position as int,
                at,
            ),
        s[k].orientation == Orientation::Horizontal ==> exists|i: int, j: int|
            0 <= i < rects.len() && 0 <= j < rects.len() && meet_in_row(
                (#[trigger] rects[i]).1,
                (#[trigger] rects[j]).1,
                s[k].position as int,
                s[k].start as int,
            ) && rects[i].0 == s[k].pane_before && rects[j].0 == s[k].pane_after,
        s[k].orientation == Orientation::Vertical ==> exists|i: int, j: int|
            0 <= i < rects.len() && 0 <= j < rects.len() && meet_in_column(
                (#[trigger] rects[i]).1,
                (#[trigger] rects[j]).1,
                s[k].position as int,
                s[k].start as int,
            ) && rects[i].0 == s[k].pane_before && rects[j].0 == s[k].pane_after,
{
    let o = s[k].orientation;
    let (lo, hi) = lemma_within_all(rects, s, o);
    let part = s.subrange(lo, hi);
    let pos = s[k].position as int;
    assert(part[k - lo] == s[k]);
    assert(splitter_at(part, o, pos, at));
    assert(edge_at(rects, o, pos, at));
    let (i, j, from, to) = choose|i: int, j: int, from: int, to: int|
        #[trigger] edge_between(rects, o, i, j, pos, from, to) && from <= at < to;
    assert(rects[i].1.x >= 0 && rects[j].1.x >= 0);
    assert(names_its_panes(rects, part[k - lo]));
    let (a, b, end) = choose|i: int, j: int, to: int|
        #[trigger] edge_between(
            rects,
            s[k].orientation,
            i,
            j,
            s[k].position as int,
            s[k].start as int,
            to,
        ) && rects[i].0 == s[k].pane_before && rects[j].0 == s[k].pane_after;
    assert(rects[a].1.x >= 0 && rects[b].1.x >= 0);
    match o {
        Orientation::Horizontal => {
            assert(meet_in_row(rects[i].1, rects[j].1, pos, at));
            assert(meet_in_row(rects[a].1, rects[b].1, pos, s[k].start as int));
        },
        Orientation::Vertical => {
            assert(meet_in_column(rects[i].1, rects[j].1, pos, at));
            assert(meet_in_column(rects[a].1, rects[b].1, pos, s[k].start as int));
        },
    }
}

/// A splitter is as long as it can be: no two of one orientation in one place touch.
pub proof fn law_splitters_do_not_touch(
    rects: Seq<(PaneId, Rect)>,
    s: Seq<Splitter>,
    k: int,
    l: int,
)
    requires
        all_splitters_of(rects, s),
        0 <= k < s.len(),
        0 <= l < s.len(),
        k != l,
        s[k].orientation == s[l].orientation,
        s[k].position == s[l].position,
    ensures
        s[k].end < s[l].start || s[l].end < s[k].start,
{
    let o = s[k].orientation;
    let (lo, hi) = lemma_within_all(rects, s, o);
    let part = s.subrange(lo, hi);
    assert(part[k - lo] == s[k] && part[l - lo] == s[l]);
    if k < l {
        assert(apart(part[k - lo], part[l - lo]));
    } else {
        assert(apart(part[l - lo], part[k - lo]));
    }
}

} // verus!
