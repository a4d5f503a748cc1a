use stilch::ascii::AsciiCommand;
use stilch::config::Keysym;
use stilch::cursor::{create_fallback_cursor, frame, frame_index, load_cursor_data, nearest_images, CursorData, CursorError, CursorImage};
use stilch::error::{log_error, log_error_default, OptionExt, StilchError};
use stilch::geometry::{Point, Rectangle, Size};
use stilch::redraw::RedrawScheduler;
use stilch::resize_state::{
    NotResizing, ResizeData, ResizeEdge, ResizeState, Serial,
};
use stilch::shell::{effective_area, FullscreenSurface, PanelZone};
use stilch::tab_bar::{calculate_client_area, TAB_BAR_HEIGHT};
use stilch::window::{ContainerId, WindowId};
use std::time::Instant;

fn rect(x: i32, y: i32, w: i32, h: i32) -> Rectangle {
    Rectangle { loc: Point { x, y }, size: Size { w, h } }
}

#[test]
fn resize_edges() {
    let all = [
        ResizeEdge::Top,
        ResizeEdge::Bottom,
        ResizeEdge::Left,
        ResizeEdge::Right,
        ResizeEdge::TopLeft,
        ResizeEdge::TopRight,
        ResizeEdge::BottomLeft,
        ResizeEdge::BottomRight,
    ];
    let expect = [
        (true, false, false, false),
        (false, true, false, false),
        (false, false, true, false),
        (false, false, false, true),
        (true, false, true, false),
        (true, false, false, true),
        (false, true, true, false),
        (false, true, false, true),
    ];
    for (e, x) in all.iter().zip(expect.iter()) {
        assert_eq!((e.has_top(), e.has_bottom(), e.has_left(), e.has_right()), *x);
    }
}

#[test]
fn resize_state_machine() {
    let data = ResizeData {
        edges: ResizeEdge::BottomRight,
        initial_size: Size { w: 100, h: 100 },
        initial_location: Point { x: 5, y: 6 },
        current_size: Size { w: 100, h: 100 },
    };
    let mut r = NotResizing.start_resize(data);
    r.update_size(Size { w: 150, h: 120 });
    let waiting = r.finish(Serial { value: 7 });
    assert_eq!(waiting.serial, Serial { value: 7 });
    assert_eq!(waiting.data.current_size, Size { w: 150, h: 120 });
    assert_eq!(waiting.data.initial_location, Point { x: 5, y: 6 });
    let committing = waiting.ack_received();
    assert_eq!(committing.data.edges, ResizeEdge::BottomRight);
    let _idle: NotResizing = committing.commit_received();
    let s = ResizeState::new();
    assert!(!s.is_resizing());
    assert!(s.get_data().is_none());
    let active = ResizeState::Active(stilch::resize_state::ActiveResize::Resizing(NotResizing.start_resize(data)));
    assert!(active.is_resizing());
    assert_eq!(active.get_data(), Some(&data));
}

#[test]
fn redraw_scheduler() {
    let mut r = RedrawScheduler::new();
    r.add_output(1);
    r.add_output(2);
    r.add_output(1);
    assert_eq!(r.output_state.len(), 2);
    assert!(!r.needs_redraw(1));
    r.queue_redraw(2);
    assert!(r.needs_redraw(2));
    assert_eq!(r.outputs_needing_redraw(), vec![2]);
    r.queue_redraw_all();
    assert_eq!(r.outputs_needing_redraw(), vec![1, 2]);
    let now = Instant::now();
    r.clear_redraw(1, now);
    assert!(!r.needs_redraw(1));
    assert_eq!(r.output_state[0].1.last_render_time, Some(now));
    r.remove_output(2);
    assert!(!r.needs_redraw(2));
    assert!(r.outputs_needing_redraw().is_empty());
    // an untracked output is never queued
    r.queue_redraw(9);
    assert!(!r.needs_redraw(9));
}

#[test]
fn error_texts_and_helpers() {
    assert_eq!(StilchError::WindowNotFound(WindowId::new(3)).to_string(), "Window WindowId { id: 3 } not found");
    assert_eq!(StilchError::SurfaceNotMapped.to_string(), "Surface has no associated window");
    assert_eq!(StilchError::ClientStateMissing.to_string(), "Client is missing compositor state");
    assert_eq!(StilchError::InvalidOperation("no".to_string()).to_string(), "Invalid window operation: no");
    assert_eq!(StilchError::WorkspaceNotFound(4).to_string(), "Workspace 4 not found");
    assert_eq!(StilchError::VirtualOutputNotFound(2).to_string(), "Virtual output 2 not found");
    assert_eq!(StilchError::ContainerNotFound(ContainerId { id: 8 }).to_string(), "Container ContainerId { id: 8 } not found");
    assert_eq!(StilchError::Config("c".to_string()).to_string(), "Configuration error: c");
    assert_eq!(StilchError::Render("r".to_string()).to_string(), "Rendering error: r");
    assert_eq!(StilchError::Io("i".to_string()).to_string(), "IO error: i");
    assert_eq!(StilchError::Wayland("w".to_string()).to_string(), "Wayland error: w");
    assert_eq!(StilchError::Backend("b".to_string()).to_string(), "Backend error: b");
    assert_eq!(log_error::<u8, String>(Ok(5)), Some(5));
    assert_eq!(log_error::<u8, String>(Err("bad".to_string())), None);
    assert_eq!(log_error_default::<u32, String>(Err("bad".to_string())), 0);
    assert_eq!(log_error_default::<u32, String>(Ok(9)), 9);
    assert!(matches!(Some(3).ok_or_log(|| StilchError::SurfaceNotMapped), Ok(3)));
    assert!(matches!(None::<u8>.ok_or_log(|| StilchError::ClientStateMissing), Err(StilchError::ClientStateMissing)));
}

fn image(size: u32, w: u32, delay: u32) -> CursorImage {
    CursorImage { size, width: w, height: w, xhot: 0, yhot: 0, delay }
}

#[test]
fn cursor_images_and_frames() {
    let images = vec![image(24, 24, 10), image(32, 32, 5), image(24, 24, 20), image(48, 48, 0)];
    // 30 is nearest to 32: only the 32-pixel image suits
    assert_eq!(nearest_images(30, &images), vec![1]);
    // 26 is nearest to 24: both 24-pixel images suit
    assert_eq!(nearest_images(26, &images), vec![0, 2]);
    // ties go to the first image that is nearest
    assert_eq!(nearest_images(28, &images), vec![0, 2]);
    assert!(nearest_images(24, &vec![]).is_empty());
    let cursor = CursorData { images: images.clone(), pixels: vec![vec![]; 4] };
    assert!(cursor.is_animated());
    assert_eq!(cursor.get_frame_index(24, 5), 0);
    assert_eq!(cursor.get_frame_index(24, 15), 1);
    assert_eq!(cursor.get_frame_index(24, 30), 0);
    assert_eq!(frame(12, 24, &images), images[2]);
    assert_eq!(frame(3, 48, &images), images[3]);
    assert_eq!(frame(3, 48, &vec![]), image(24, 24, 0));
    let still = CursorData { images: vec![image(24, 24, 0)], pixels: vec![vec![1, 2, 3, 4]] };
    assert!(!still.is_animated());
    assert_eq!(still.get_frame_index(24, 99), 0);
}

#[test]
fn ascii_commands() {
    assert!(matches!(AsciiCommand::parse("CREATE_WINDOW id=4 size=800x600"), Some(AsciiCommand::CreateWindow { id, size }) if id == WindowId::new(4) && size == Size { w: 800, h: 600 }));
    assert!(matches!(AsciiCommand::parse("  CREATE_WINDOW   size=10x20 id=2 "), Some(AsciiCommand::CreateWindow { id, .. }) if id == WindowId::new(2)));
    assert!(AsciiCommand::parse("CREATE_WINDOW id=4").is_none());
    assert!(AsciiCommand::parse("CREATE_WINDOW id=x size=1x1").is_none());
    assert!(AsciiCommand::parse("CREATE_WINDOW id=3 size=1x1 id=y").is_none());
    assert!(matches!(AsciiCommand::parse("DESTROY_WINDOW id=9"), Some(AsciiCommand::DestroyWindow { id }) if id == WindowId::new(9)));
    assert!(matches!(AsciiCommand::parse("FOCUS_WINDOW id=1"), Some(AsciiCommand::FocusWindow { .. })));
    assert!(AsciiCommand::parse("FOCUS_WINDOW 1").is_none());
    assert!(matches!(AsciiCommand::parse("SET_LAYOUT tabbed"), Some(AsciiCommand::SetLayout { layout }) if layout == "tabbed"));
    assert!(matches!(AsciiCommand::parse("GET_STATE"), Some(AsciiCommand::GetState)));
    assert!(matches!(AsciiCommand::parse("GET_WINDOWS extra"), Some(AsciiCommand::GetWindows)));
    assert!(AsciiCommand::parse("").is_none());
    assert!(AsciiCommand::parse("MOVE_WINDOW id=1").is_none());
}

#[test]
fn tab_bar_client_area() {
    assert_eq!(TAB_BAR_HEIGHT, 30);
    assert_eq!(calculate_client_area(rect(10, 20, 300, 400)), rect(10, 50, 300, 370));
}

#[test]
fn panel_zones_shrink_the_usable_area() {
    let vo = rect(0, 0, 1920, 1080);
    // a 30-pixel bar at the top of the physical output
    let top = || PanelZone { physical: rect(0, 0, 1920, 1080), non_exclusive: rect(0, 30, 1920, 1050) };
    assert_eq!(effective_area(vo, &vec![top()]), rect(0, 30, 1920, 1050));
    // a bar at the bottom and one on the right
    let other = PanelZone { physical: rect(0, 0, 1920, 1080), non_exclusive: rect(0, 0, 1880, 1040) };
    assert_eq!(effective_area(vo, &vec![other]), rect(0, 0, 1880, 1040));
    // a virtual output away from the edges keeps its area
    let inner = rect(100, 100, 500, 500);
    assert_eq!(effective_area(inner, &vec![top()]), inner);
    assert_eq!(effective_area(vo, &vec![]), vo);
}

#[test]
fn fullscreen_surface() {
    let mut f = FullscreenSurface::default();
    assert_eq!(f.get(true), None);
    f.set(WindowId::new(4));
    assert_eq!(f.get(true), Some(WindowId::new(4)));
    assert_eq!(f.get(false), None);
    f.set(WindowId::new(5));
    assert_eq!(f.clear(), Some(WindowId::new(5)));
    assert_eq!(f.clear(), None);
}

#[test]
fn keysym_value() {
    assert_eq!(Keysym::new(0xff0d).raw(), 0xff0d);
}

/// An Xcursor file with one image per entry of `images` (size, width,
/// height, delay), each pixel filled with its index.
fn xcursor_file(images: &[(u32, u32, u32, u32)]) -> Vec<u8> {
    let mut out = Vec::new();
    out.extend_from_slice(b"Xcur");
    out.extend_from_slice(&16u32.to_le_bytes());
    out.extend_from_slice(&1u32.to_le_bytes());
    out.extend_from_slice(&(images.len() as u32).to_le_bytes());
    let mut pos = 16 + 12 * images.len() as u32;
    for (size, w, h, _) in images {
        out.extend_from_slice(&0xfffd_0002u32.to_le_bytes());
        out.extend_from_slice(&size.to_le_bytes());
        out.extend_from_slice(&pos.to_le_bytes());
        pos += 36 + 4 * w * h;
    }
    for (k, (size, w, h, delay)) in images.iter().enumerate() {
        out.extend_from_slice(&[0x24, 0, 0, 0, 0x02, 0x00, 0xfd, 0xff]);
        out.extend_from_slice(&size.to_le_bytes());
        out.extend_from_slice(&1u32.to_le_bytes());
        for v in [*w, *h, 0, 0, *delay] {
            out.extend_from_slice(&v.to_le_bytes());
        }
        out.extend(std::iter::repeat(k as u8).take((4 * w * h) as usize));
    }
    out
}

#[test]
fn cursor_files_load_with_their_pixels() {
    let bytes = xcursor_file(&[(24, 2, 2, 50), (32, 3, 3, 0), (24, 2, 2, 70)]);
    let cursor = load_cursor_data(&bytes).unwrap();
    assert_eq!(cursor.images.len(), 3);
    assert_eq!(cursor.images[1], CursorImage { size: 32, width: 3, height: 3, xhot: 0, yhot: 0, delay: 0 });
    assert_eq!(cursor.pixels[2], vec![2u8; 16]);
    // 60 ms into the 24-pixel animation the second 24-pixel image shows
    assert_eq!(frame_index(60, 24, &cursor.images), Some(2));
    let (img, px) = cursor.get_image(24, 60);
    assert_eq!(img.delay, 70);
    assert_eq!(px, vec![2u8; 16]);
    let (img, px) = cursor.get_image(40, 0);
    assert_eq!(img.size, 32);
    assert_eq!(px.len(), 36);
    // no images: the fallback, without pixels
    let empty = CursorData { images: vec![], pixels: vec![] };
    let (img, px) = empty.get_image(24, 0);
    assert_eq!((img.width, img.height), (24, 24));
    assert!(px.is_empty());
    assert_eq!(load_cursor_data(b"not a cursor").unwrap_err(), CursorError::ParseError);
    let mut truncated = bytes.clone();
    truncated.truncate(bytes.len() - 1);
    assert_eq!(load_cursor_data(&truncated).unwrap_err(), CursorError::ParseError);
}

#[test]
fn test_fallback_cursor() {
    let fallback = create_fallback_cursor(vec![0u8; 64 * 64 * 4]);
    assert_eq!(fallback.images.len(), 1);
    assert_eq!(fallback.images[0].width, 64);
    assert_eq!(fallback.images[0].height, 64);
}
