//! The geometry of the fixed-layout match dashboard: where each panel sits
//! on the screen, which rows of a long action menu are shown, and which
//! lines of the log.
//!
//! Plain rect arithmetic, not a constraint solver: the viewport takes the
//! left 70%, stats and the action menu stack in the remaining top-right 30%,
//! a log strip runs across the bottom, and (in the interactive dashboard) a
//! one-row status bar takes the very bottom edge. Adjacent panels are kept
//! one blank cell apart so their text never runs together.
use vstd::prelude::*;

verus! {

/// Blank cells left between adjacent panels.
pub const GUTTER: u16 = 1;

/// A rectangle of terminal cells.
#[derive(Clone, Copy, PartialEq, Eq, Debug)]
pub struct Panel {
    /// Leftmost column.
    pub x: u16,
    /// Top row.
    pub y: u16,
    /// Width in columns.
    pub width: u16,
    /// Height in rows.
    pub height: u16,
}

/// The panels of the dashboard.
#[derive(Clone, Copy, PartialEq, Eq, Debug)]
pub struct Layout {
    /// The game's own board, top left.
    pub viewport: Panel,
    /// Key/value statistics, top right.
    pub stats: Panel,
    /// The action menu, below the stats.
    pub actions: Panel,
    /// The log strip across the bottom.
    pub log: Panel,
    /// The one-row status bar on the very bottom edge (empty where the
    /// dashboard has none).
    pub status: Panel,
}

/// A panel with no cells.
pub open spec fn is_empty(p: Panel) -> bool {
    p.width == 0 || p.height == 0
}

/// A panel that lies on a `width` by `height` screen (an empty one always
/// does).
pub open spec fn inside(p: Panel, width: u16, height: u16) -> bool {
    is_empty(p) || (p.x + p.width <= width && p.y + p.height <= height)
}

/// Two panels that share no cell.
pub open spec fn apart(a: Panel, b: Panel) -> bool {
    ||| is_empty(a)
    ||| is_empty(b)
    ||| a.x + a.width <= b.x
    ||| b.x + b.width <= a.x
    ||| a.y + a.height <= b.y
    ||| b.y + b.height <= a.y
}

/// The panels laid out in `width` by `body` cells, with `status` as the
/// status bar and the log strip `log_height` rows tall, ending `log_end`.
pub open spec fn panels(width: u16, body: u16, log_height: u16, log_end: u16, status: Panel) -> Layout {
    let left_width = (width * 7 / 10) as u16;
    let right_x = left_width.saturating_add(GUTTER);
    let right_width = width.saturating_sub(right_x);
    let top_height = body.saturating_sub(log_height).saturating_sub(GUTTER);
    let log_y = top_height.saturating_add(GUTTER);
    let stats_height = top_height / 2;
    let actions_y = stats_height.saturating_add(GUTTER);
    let actions_height = top_height.saturating_sub(actions_y);
    Layout {
        viewport: Panel { x: 0, y: 0, width: left_width, height: top_height },
        stats: Panel { x: right_x, y: 0, width: right_width, height: stats_height },
        actions: Panel { x: right_x, y: actions_y, width: right_width, height: actions_height },
        log: Panel { x: 0, y: log_y, width, height: log_end.saturating_sub(log_y) },
        status,
    }
}

/// The interactive dashboard on a `width` by `height` screen: the bottom row
/// is the status bar, and the log takes a quarter of the rows above it.
pub open spec fn dashboard_layout(width: u16, height: u16) -> Layout {
    let body = height.saturating_sub(1);
    panels(width, body, body / 4, body, Panel { x: 0, y: body, width, height: 1 })
}

/// The plain dashboard on a `width` by `height` screen: no status bar, and
/// the log takes the bottom quarter of the rows.
pub open spec fn plain_layout(width: u16, height: u16) -> Layout {
    let log_height = height / 4;
    let top_height = height.saturating_sub(log_height).saturating_sub(GUTTER);
    let log_y = top_height.saturating_add(GUTTER);
    panels(width, height, log_height, (log_y + log_height) as u16, Panel { x: 0, y: height, width, height: 0 })
}

/// Every nonempty panel lies on the screen, no two panels share a cell, and
/// the viewport is kept a gutter away from the right column and the log, and
/// the stats a gutter away from the actions.
pub open spec fn well_spaced(l: Layout, width: u16, height: u16) -> bool {
    &&& inside(l.viewport, width, height)
    &&& inside(l.stats, width, height)
    &&& inside(l.actions, width, height)
    &&& inside(l.log, width, height)
    &&& inside(l.status, width, height)
    &&& apart(l.viewport, l.stats)
    &&& apart(l.viewport, l.actions)
    &&& apart(l.viewport, l.log)
    &&& apart(l.viewport, l.status)
    &&& apart(l.stats, l.actions)
    &&& apart(l.stats, l.log)
    &&& apart(l.stats, l.status)
    &&& apart(l.actions, l.log)
    &&& apart(l.actions, l.status)
    &&& apart(l.log, l.status)
    &&& l.viewport.x + l.viewport.width < l.stats.x
    &&& l.viewport.y + l.viewport.height < l.log.y
    &&& l.stats.y + l.stats.height < l.actions.y
}

/// The interactive dashboard's panels never overlap and stay on any screen
/// at least one row tall.
pub proof fn lemma_dashboard_well_spaced(width: u16, height: u16)
    requires
        width * 7 <= u16::MAX,
        height >= 1,
    ensures
        well_spaced(dashboard_layout(width, height), width, height),
{
}

/// The plain dashboard's panels never overlap and stay on any screen.
pub proof fn lemma_plain_well_spaced(width: u16, height: u16)
    requires
        width * 7 <= u16::MAX,
    ensures
        well_spaced(plain_layout(width, height), width, height),
{
}

impl Layout {
    /// The interactive dashboard's panels on a `width` by `height` screen.
    pub fn new(width: u16, height: u16) -> (l: Layout)
        requires
            width * 7 <= u16::MAX,
        ensures
            l == dashboard_layout(width, height),
    {
        let body = height.saturating_sub(1);
        let status = Panel { x: 0, y: body, width, height: 1 };
        Self::split(width, body, body / 4, body, status)
    }

    /// The plain dashboard's panels, with no status bar, on a `width` by
    /// `height` screen.
    pub fn plain(width: u16, height: u16) -> (l: Layout)
        requires
            width * 7 <= u16::MAX,
        ensures
            l == plain_layout(width, height),
    {
        let log_height = height / 4;
        let top_height = height.saturating_sub(log_height).saturating_sub(GUTTER);
        let log_y = top_height.saturating_add(GUTTER);
        let status = Panel { x: 0, y: height, width, height: 0 };
        Self::split(width, height, log_height, log_y + log_height, status)
    }

    /// Splits `width` by `body` cells into the panels.
    fn split(width: u16, body: u16, log_height: u16, log_end: u16, status: Panel) -> (l: Layout)
        requires
            width * 7 <= u16::MAX,
        ensures
            l == panels(width, body, log_height, log_end, status),
    {
        let left_width = width * 7 / 10;
        let right_x = left_width.saturating_add(GUTTER);
        let right_width = width.saturating_sub(right_x);
        let top_height = body.saturating_sub(log_height).saturating_sub(GUTTER);
        let log_y = top_height.saturating_add(GUTTER);
        let stats_height = top_height / 2;
        let actions_y = stats_height.saturating_add(GUTTER);
        let actions_height = top_height.saturating_sub(actions_y);
        Layout {
            viewport: Panel { x: 0, y: 0, width: left_width, height: top_height },
            stats: Panel { x: right_x, y: 0, width: right_width, height: stats_height },
            actions: Panel { x: right_x, y: actions_y, width: right_width, height: actions_height },
            log: Panel { x: 0, y: log_y, width, height: log_end.saturating_sub(log_y) },
            status,
        }
    }
}

/// The first item a `len`-item menu shows in a panel `capacity` rows tall
/// with item `sel` highlighted (see [`menu_window`]).
pub open spec fn window_start(len: usize, capacity: usize, sel: usize) -> int {
    if sel + 1 <= capacity {
        0
    } else if sel + 1 - capacity <= len - capacity {
        sel + 1 - capacity
    } else {
        len - capacity
    }
}

/// A panel without its top row, which holds the panel's header.
pub open spec fn below_header_spec(p: Panel) -> Panel {
    Panel {
        x: p.x,
        y: if p.y < u16::MAX { (p.y + 1) as u16 } else { u16::MAX },
        width: p.width,
        height: if p.height >= 1 { (p.height - 1) as u16 } else { 0 },
    }
}

/// A panel without its top row, which holds the panel's header.
pub fn below_header(p: Panel) -> (q: Panel)
    ensures
        q == below_header_spec(p),
{
    Panel { x: p.x, y: p.y.saturating_add(1), width: p.width, height: p.height.saturating_sub(1) }
}

/// The row of a `rows`-tall scrollbar that shows a log scrolled back
/// `offset` of at most `max` lines: the bottom row at the newest line, the
/// top row at the oldest, in proportion between.
pub open spec fn thumb_spec(offset: usize, max: usize, rows: u16) -> u16 {
    if rows == 0 {
        0
    } else if max == 0 || offset >= max {
        if max == 0 { (rows - 1) as u16 } else { 0 }
    } else {
        ((rows - 1) - ((offset * (rows - 1)) / (max as int))) as u16
    }
}

/// The row of the log's scrollbar thumb (see [`thumb_spec`]).
pub fn scrollbar_thumb(offset: usize, max: usize, rows: u16) -> (r: u16)
    ensures
        r == thumb_spec(offset, max, rows),
        rows > 0 ==> r < rows,
{
    if rows == 0 {
        return 0;
    }
    if max == 0 {
        return rows - 1;
    }
    if offset >= max {
        return 0;
    }
    let span = (rows - 1) as u128;
    let wide = offset as u128;
    assert(wide * span <= 0xFFFF_FFFF_FFFF_FFFFu128 * 0xFFFFu128) by (nonlinear_arith)
        requires
            wide <= 0xFFFF_FFFF_FFFF_FFFFu128,
            span <= 0xFFFFu128,
    ;
    let part = wide * span / (max as u128);
    proof {
        assert((offset as int) * (span as int) / (max as int) <= span) by (nonlinear_arith)
            requires
                offset < max,
                0 < max,
                0 <= span,
        {
            assert((offset as int) * (span as int) <= (max as int) * (span as int));
            vstd::arithmetic::div_mod::lemma_div_is_ordered((offset as int) * (span as int), (max as int) * (span as int), max as int);
            vstd::arithmetic::div_mod::lemma_div_by_multiple(span as int, max as int);
        }
    }
    ((rows - 1) as u128 - part) as u16
}

/// The rows of a `len`-item menu shown in a panel `capacity` rows tall with
/// item `selected` highlighted: `None` when nothing can be shown, otherwise
/// the first and one-past-last item shown and the highlighted item (kept on
/// the list). The window scrolls only once the highlight would fall below
/// the last visible row, and never so far that the panel has a blank tail.
pub fn menu_window(len: usize, capacity: usize, selected: usize) -> (r: Option<(usize, usize, usize)>)
    ensures
        (capacity == 0 || len == 0) ==> r is None,
        (capacity > 0 && len > 0) ==> (r matches Some((start, end, sel)) && {
            &&& sel == if selected < len { selected } else { (len - 1) as usize }
            &&& start <= sel < end <= len
            &&& end - start == if capacity < len { capacity } else { len }
            &&& start == window_start(len, capacity, sel)
        }),
{
    if capacity == 0 || len == 0 {
        return None;
    }
    let sel = if selected < len { selected } else { len - 1 };
    let follow = sel.saturating_sub(capacity - 1);
    let last_start = len.saturating_sub(capacity);
    let start = if follow <= last_start { follow } else { last_start };
    let end = if capacity <= len - start { start + capacity } else { len };
    Some((start, end, sel))
}

/// The lines of a `len`-line log shown in a panel `capacity` rows tall when
/// scrolled `scroll` lines back from the newest: the first and one-past-last
/// line. Unscrolled, the newest line is at the bottom.
pub fn log_window(len: usize, capacity: usize, scroll: usize) -> (r: (usize, usize))
    ensures
        r.1 == len.saturating_sub(scroll),
        r.0 == r.1.saturating_sub(capacity),
        r.0 <= r.1 <= len,
        r.1 - r.0 <= capacity,
{
    let end = len.saturating_sub(scroll);
    (end.saturating_sub(capacity), end)
}

} // verus!
