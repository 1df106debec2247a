use shape_canvas::shapes::{Color, Geometry, Shape, Style, XYPoint};
use shape_canvas::shapes_doc::Document;
use shape_canvas::trackers::{NewRectTracker, ShapeDragTracker, TrackerNext, to_min_span};

#[test]
fn to_min_span_orders_and_measures() {
    assert_eq!(to_min_span(10, 60), (10, 50));
    assert_eq!(to_min_span(60, 10), (10, 50));
    assert_eq!(to_min_span(10, 10), (10, 0));
}

#[test]
fn zero_drag_leaves_no_shape_behind() {
    let mut doc = Document::new_empty();
    let tracker = NewRectTracker::new(XYPoint::new(10, 10), 1, Style::new(Color::Red));
    tracker.track_mouse_move(&mut doc, XYPoint::new(10, 10));
    assert!(doc.get_shape_by_id(1).is_none());
    tracker.track_mouse_up(&mut doc, XYPoint::new(10, 10));
    assert!(doc.get_shape_by_id(1).is_none());
    assert!(doc.shape_ids().is_empty());
}

#[test]
fn dragging_out_a_rectangle_upserts_it() {
    let mut doc = Document::new_empty();
    let style = Style::new(Color::Green);
    let tracker = NewRectTracker::new(XYPoint::new(10, 10), 1, style);
    tracker.track_mouse_up(&mut doc, XYPoint::new(60, 40));
    let shape = doc.get_shape_by_id(1).unwrap();
    assert_eq!(shape.geometry, Geometry::rectangle(10, 10, 50, 30));
    assert_eq!(shape.style, style);
}

#[test]
fn dragging_up_and_left_still_gives_positive_size() {
    let mut doc = Document::new_empty();
    let tracker = NewRectTracker::new(XYPoint::new(60, 40), 1, Style::new(Color::Red));
    tracker.track_mouse_up(&mut doc, XYPoint::new(10, 10));
    let shape = doc.get_shape_by_id(1).unwrap();
    assert_eq!(shape.geometry, Geometry::rectangle(10, 10, 50, 30));
}

#[test]
fn shrinking_a_candidate_to_zero_deletes_it() {
    let mut doc = Document::new_empty();
    let tracker = NewRectTracker::new(XYPoint::new(10, 10), 1, Style::new(Color::Red));
    tracker.track_mouse_move(&mut doc, XYPoint::new(60, 40));
    assert!(doc.get_shape_by_id(1).is_some());
    tracker.track_mouse_move(&mut doc, XYPoint::new(60, 10));
    assert!(doc.get_shape_by_id(1).is_none());
}

#[test]
fn create_tracker_always_continues() {
    let mut doc = Document::new_empty();
    let tracker = NewRectTracker::new(XYPoint::new(0, 0), 1, Style::new(Color::Red));
    let next = tracker.track_mouse_move(&mut doc, XYPoint::new(5, 5));
    assert_eq!(next, TrackerNext::Continue);
}

#[test]
fn drag_translates_from_initial_geometry() {
    let mut doc = Document::new_empty();
    let initial = Geometry::rectangle(0, 0, 10, 10);
    doc.upsert_shape_with_id(3, Shape::new(initial, Style::new(Color::Blue)));
    let tracker = ShapeDragTracker::new(XYPoint::new(5, 5), 3, &initial);
    // Intermediate positions do not matter: the final geometry depends on
    // the last pointer position alone.
    tracker.track_mouse_move(&mut doc, XYPoint::new(100, 200));
    tracker.track_mouse_move(&mut doc, XYPoint::new(-40, 7));
    tracker.track_mouse_up(&mut doc, XYPoint::new(15, 5));
    let shape = doc.get_shape_by_id(3).unwrap();
    assert_eq!(shape.geometry, Geometry::rectangle(10, 0, 10, 10));
    assert_eq!(shape.style.fill, Color::Blue);
}

#[test]
fn drag_of_circle_moves_its_center() {
    let mut doc = Document::new_empty();
    let initial = Geometry::circle(5, 5, 4);
    doc.upsert_shape_with_id(1, Shape::new(initial, Style::new(Color::Red)));
    let tracker = ShapeDragTracker::new(XYPoint::new(0, 0), 1, &initial);
    tracker.track_mouse_up(&mut doc, XYPoint::new(-3, 8));
    assert_eq!(doc.get_shape_by_id(1).unwrap().geometry, Geometry::circle(2, 13, 4));
}

#[test]
fn drag_of_absent_id_is_a_noop() {
    let mut doc = Document::new_empty();
    let before = doc.clone();
    let tracker = ShapeDragTracker::new(XYPoint::new(0, 0), 9, &Geometry::circle(0, 0, 1));
    tracker.track_mouse_up(&mut doc, XYPoint::new(10, 10));
    assert_eq!(doc, before);
}
