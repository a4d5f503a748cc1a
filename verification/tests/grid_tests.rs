use stilch::ascii::{AsciiWindow, TabInfo};
use stilch::ascii_grid::{render_order, window_style, AsciiGrid};
use stilch::geometry::{Point, Rectangle, Size};
use stilch::window::WindowId;

fn window(id: u32, focused: bool, floating: bool, fullscreen: bool) -> AsciiWindow {
    AsciiWindow {
        id: WindowId::new(id),
        bounds: Rectangle { loc: Point { x: 0, y: 0 }, size: Size { w: 10, h: 10 } },
        focused,
        floating,
        fullscreen,
        urgent: false,
        tab_info: None,
    }
}

fn text(g: &AsciiGrid) -> String {
    g.to_text().into_iter().collect()
}

#[test]
fn a_focused_window_has_a_double_box_and_its_marker() {
    let mut g = AsciiGrid::new(12, 5);
    g.draw_window(0, 0, 11, 4, &window(7, true, false, false));
    let expected = "╔══════════╗\n║ 7 [F]    ║\n║          ║\n║          ║\n╚══════════╝\n";
    assert_eq!(text(&g), expected);
}

#[test]
fn box_styles_follow_the_window_state() {
    assert_eq!(window_style(&window(1, false, false, false)).tl, '┌');
    assert_eq!(window_style(&window(1, true, false, false)).tl, '╔');
    assert_eq!(window_style(&window(1, true, true, false)).tl, '╭');
    assert_eq!(window_style(&window(1, true, true, true)).tl, '┏');
}

#[test]
fn tabbed_windows_get_markers_above() {
    let mut g = AsciiGrid::new(12, 5);
    let mut w = window(3, false, false, false);
    w.tab_info = Some(TabInfo { total_tabs: 3, tab_index: 1, is_active: true });
    g.draw_window(0, 1, 11, 4, &w);
    let rows: Vec<String> = text(&g).lines().map(|l| l.to_string()).collect();
    assert_eq!(rows[0], " [1][2*]    ");
    assert_eq!(rows[1], "┌──────────┐");
    assert_eq!(rows[2], "│ 3        │");
}

#[test]
fn fullscreen_marker_and_empty_boxes() {
    let mut g = AsciiGrid::new(20, 4);
    g.draw_window(0, 0, 19, 3, &window(12, false, false, true));
    let rows: Vec<String> = text(&g).lines().map(|l| l.to_string()).collect();
    assert_eq!(rows[1], "┃ 12     [FS]      ┃");
    // an empty box draws nothing
    let mut h = AsciiGrid::new(5, 5);
    h.draw_box(3, 1, 3, 4, window_style(&window(1, false, false, false)));
    assert_eq!(text(&h), "     \n     \n     \n     \n     \n");
    h.put(2, 2, 'x');
    h.clear();
    assert_eq!(text(&h), "     \n     \n     \n     \n     \n");
}

#[test]
fn floating_windows_are_drawn_last() {
    let ws = vec![window(1, false, true, false), window(2, false, false, false), window(3, false, true, false), window(4, false, false, false)];
    let ids: Vec<u32> = render_order(&ws).iter().map(|w| w.id.get()).collect();
    assert_eq!(ids, vec![2, 4, 1, 3]);
}
