use turnbase::{below_header, log_window, menu_window, scrollbar_thumb, Layout, Panel};

fn panel(x: u16, y: u16, width: u16, height: u16) -> Panel {
    Panel { x, y, width, height }
}

#[test]
fn dashboard_layout_on_a_standard_terminal() {
    let layout = Layout::new(80, 24);
    assert_eq!(layout.viewport, panel(0, 0, 56, 17));
    assert_eq!(layout.stats, panel(57, 0, 23, 8));
    assert_eq!(layout.actions, panel(57, 9, 23, 8));
    assert_eq!(layout.log, panel(0, 18, 80, 5));
    assert_eq!(layout.status, panel(0, 23, 80, 1));
}

#[test]
fn plain_layout_on_a_standard_terminal() {
    let layout = Layout::plain(80, 24);
    assert_eq!(layout.viewport, panel(0, 0, 56, 17));
    assert_eq!(layout.stats, panel(57, 0, 23, 8));
    assert_eq!(layout.actions, panel(57, 9, 23, 8));
    assert_eq!(layout.log, panel(0, 18, 80, 6));
    assert_eq!(layout.status.height, 0);
}

#[test]
fn tiny_screens_give_empty_panels_not_overlaps() {
    let layout = Layout::new(1, 1);
    assert_eq!(layout.viewport, panel(0, 0, 0, 0));
    assert_eq!(layout.status, panel(0, 0, 1, 1));
    assert_eq!(layout.stats.width, 0);
}

#[test]
fn menu_window_keeps_the_selection_visible() {
    assert_eq!(menu_window(10, 4, 0), Some((0, 4, 0)));
    assert_eq!(menu_window(10, 4, 5), Some((2, 6, 5)));
    assert_eq!(menu_window(10, 4, 9), Some((6, 10, 9)));
    assert_eq!(menu_window(10, 4, 20), Some((6, 10, 9)));
    assert_eq!(menu_window(3, 5, 1), Some((0, 3, 1)));
    assert_eq!(menu_window(0, 4, 0), None);
    assert_eq!(menu_window(5, 0, 0), None);
}

#[test]
fn log_window_shows_the_newest_lines() {
    assert_eq!(log_window(10, 4, 0), (6, 10));
    assert_eq!(log_window(10, 4, 3), (3, 7));
    assert_eq!(log_window(10, 4, 20), (0, 0));
    assert_eq!(log_window(2, 4, 0), (0, 2));
}

#[test]
fn scrollbar_thumb_tracks_the_offset() {
    assert_eq!(scrollbar_thumb(0, 20, 5), 4);
    assert_eq!(scrollbar_thumb(20, 20, 5), 0);
    assert_eq!(scrollbar_thumb(10, 20, 5), 2);
    assert_eq!(scrollbar_thumb(0, 0, 5), 4);
    assert_eq!(scrollbar_thumb(3, 20, 0), 0);
}

#[test]
fn below_header_drops_the_top_row() {
    assert_eq!(below_header(panel(57, 9, 23, 8)), panel(57, 10, 23, 7));
    assert_eq!(below_header(panel(0, 0, 5, 0)), panel(0, 1, 5, 0));
}
