use stilch::geometry::{Point, Size};
use stilch::grabs::{
    resized_location, resized_size, ResizeData, ResizeEdge, ResizeState, BOTTOM, BOTTOM_RIGHT, LEFT, RIGHT, TOP,
    TOP_LEFT,
};
use stilch::resize_state::Serial;

fn size(w: i32, h: i32) -> Size {
    Size { w, h }
}

#[test]
fn edges_from_protocol_values() {
    assert_eq!(ResizeEdge::from_protocol(5), ResizeEdge { bits: TOP_LEFT });
    assert_eq!(ResizeEdge::from_protocol(10), ResizeEdge { bits: BOTTOM_RIGHT });
    // an unknown bit gives no edges
    assert_eq!(ResizeEdge::from_protocol(16), ResizeEdge { bits: 0 });
    assert!(ResizeEdge::from_bits(17).is_none());
    assert!(ResizeEdge { bits: TOP_LEFT }.intersects(LEFT | RIGHT));
    assert!(!ResizeEdge { bits: BOTTOM }.intersects(TOP_LEFT));
}

#[test]
fn drag_sizes_respect_the_client_limits() {
    let right = ResizeEdge { bits: RIGHT };
    // only the width follows a right-edge drag
    assert_eq!(resized_size(right, size(400, 300), size(520, 999), size(0, 0), size(0, 0)), size(520, 300));
    // at least the minimum, and never below 1
    assert_eq!(resized_size(right, size(400, 300), size(50, 300), size(100, 0), size(0, 0)), size(100, 300));
    assert_eq!(resized_size(right, size(400, 300), size(-20, 300), size(0, 0), size(0, 0)), size(1, 300));
    // at most the maximum, where there is one
    assert_eq!(resized_size(right, size(400, 300), size(900, 300), size(0, 0), size(600, 0)), size(600, 300));
    let corner = ResizeEdge { bits: BOTTOM_RIGHT };
    assert_eq!(resized_size(corner, size(400, 300), size(410, 310), size(0, 0), size(0, 0)), size(410, 310));
    let none = ResizeEdge { bits: 0 };
    assert_eq!(resized_size(none, size(400, 300), size(10, 10), size(0, 0), size(0, 0)), size(400, 300));
}

#[test]
fn dragging_top_left_keeps_the_far_edges() {
    let tl = ResizeEdge { bits: TOP_LEFT };
    let p = resized_location(tl, Point { x: 100, y: 100 }, size(400, 300), size(450, 280), Point { x: 0, y: 0 });
    assert_eq!(p, Point { x: 50, y: 120 });
    assert_eq!(p.x + 450, 100 + 400);
    assert_eq!(p.y + 280, 100 + 300);
    let bottom = ResizeEdge { bits: BOTTOM };
    assert_eq!(
        resized_location(bottom, Point { x: 100, y: 100 }, size(400, 300), size(450, 280), Point { x: 7, y: 9 }),
        Point { x: 7, y: 9 }
    );
}

#[test]
fn a_released_resize_waits_for_ack_and_commit() {
    let d = ResizeData { edges: ResizeEdge { bits: TOP }, initial_window_location: Point { x: 0, y: 50 }, initial_window_size: size(200, 200) };
    let s = ResizeState::Resizing(d);
    // while resizing, a commit at a new height moves the window up or down
    assert_eq!(s.commit_location(size(200, 150), Point { x: 3, y: 50 }), Some(Point { x: 3, y: 100 }));
    let waiting = s.released(Serial { value: 7 }, false);
    assert_eq!(waiting, ResizeState::WaitingForFinalAck(d, Serial { value: 7 }));
    assert_eq!(waiting.pending_ack(), Some(Serial { value: 7 }));
    // a commit before the acknowledgement changes nothing
    assert_eq!(waiting.committed(), waiting);
    assert_eq!(waiting.commit_location(size(1, 1), Point { x: 0, y: 0 }), None);
    let acked = waiting.acknowledged();
    assert_eq!(acked, ResizeState::WaitingForCommit(d));
    assert_eq!(acked.committed(), ResizeState::NotResizing);
    // an X11 window waits for its commit only
    assert_eq!(s.released(Serial { value: 1 }, true), ResizeState::WaitingForCommit(d));
    // a release in any other state ends the resize
    assert_eq!(acked.released(Serial { value: 2 }, false), ResizeState::NotResizing);
    assert_eq!(ResizeState::default(), ResizeState::NotResizing);
}
