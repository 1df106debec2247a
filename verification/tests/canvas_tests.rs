use shape_canvas::canvas::{rendered_shapes, svg_color, CanvasController};
use shape_canvas::shapes::{Color, Geometry, Shape, Style, XYPoint};
use shape_canvas::shapes_doc::Document;

#[test]
fn svg_color_names_every_palette_color() {
    assert_eq!(svg_color(&Color::Red), "red");
    assert_eq!(svg_color(&Color::Orange), "orange");
    assert_eq!(svg_color(&Color::Yellow), "yellow");
    assert_eq!(svg_color(&Color::Green), "green");
    assert_eq!(svg_color(&Color::Blue), "blue");
    assert_eq!(svg_color(&Color::Indigo), "indigo");
    assert_eq!(svg_color(&Color::Violet), "violet");
    assert_eq!(svg_color(&Color::White), "white");
    assert_eq!(svg_color(&Color::Black), "black");
}

#[test]
fn rendered_shapes_follow_document_order_and_colors() {
    let doc = Document::new_demo();
    let rendered = rendered_shapes(&doc);
    assert_eq!(rendered.len(), 6);
    let fills: Vec<&str> = rendered.iter().map(|r| r.fill.as_str()).collect();
    assert_eq!(fills, vec!["blue", "red", "indigo", "violet", "black", "green"]);
    assert_eq!(rendered[0].shape_id, 1);
    assert_eq!(rendered[0].geometry, Geometry::circle(100, 150, 80));
    assert_eq!(rendered[5].shape_id, 6);
    assert_eq!(rendered[5].geometry, Geometry::rectangle(40, 80, 40, 40));
}

#[test]
fn background_gesture_creates_a_rectangle() {
    let mut canvas = CanvasController::new(Document::new_empty());
    canvas.mouse_down_on_background(XYPoint::new(10, 10));
    assert!(canvas.tracker.is_some());
    canvas.mouse_move(XYPoint::new(30, 20));
    canvas.mouse_up(XYPoint::new(60, 40));
    assert!(canvas.tracker.is_none());
    let shape = canvas.doc.get_shape_by_id(1).unwrap();
    assert_eq!(shape.geometry, Geometry::rectangle(10, 10, 50, 30));
    // The first automatically assigned fill color is red.
    assert_eq!(shape.style.fill, Color::Red);
}

#[test]
fn click_without_drag_creates_nothing() {
    let mut canvas = CanvasController::new(Document::new_empty());
    canvas.mouse_down_on_background(XYPoint::new(10, 10));
    canvas.mouse_up(XYPoint::new(10, 10));
    assert!(canvas.doc.shape_ids().is_empty());
    assert!(canvas.tracker.is_none());
}

#[test]
fn consecutive_created_shapes_get_fresh_ids_and_new_colors() {
    let mut canvas = CanvasController::new(Document::new_empty());
    canvas.mouse_down_on_background(XYPoint::new(0, 0));
    canvas.mouse_up(XYPoint::new(10, 10));
    canvas.mouse_down_on_background(XYPoint::new(20, 20));
    canvas.mouse_up(XYPoint::new(40, 40));
    assert_eq!(canvas.doc.shape_ids(), vec![1, 2]);
    assert_eq!(canvas.doc.get_shape_by_id(1).unwrap().style.fill, Color::Red);
    assert_eq!(canvas.doc.get_shape_by_id(2).unwrap().style.fill, Color::Orange);
}

#[test]
fn shape_gesture_drags_the_shape() {
    let mut doc = Document::new_empty();
    doc.upsert_shape_with_id(4, Shape::new(Geometry::rectangle(0, 0, 10, 10), Style::new(Color::Indigo)));
    let mut canvas = CanvasController::new(doc);
    canvas.mouse_down_on_shape(4, XYPoint::new(5, 5));
    canvas.mouse_move(XYPoint::new(50, 50));
    canvas.mouse_up(XYPoint::new(15, 5));
    let shape = canvas.doc.get_shape_by_id(4).unwrap();
    assert_eq!(shape.geometry, Geometry::rectangle(10, 0, 10, 10));
    assert_eq!(shape.style.fill, Color::Indigo);
}

#[test]
fn pointer_down_on_absent_shape_installs_no_tracker() {
    let mut canvas = CanvasController::new(Document::new_empty());
    canvas.mouse_down_on_shape(9, XYPoint::new(5, 5));
    assert!(canvas.tracker.is_none());
}

#[test]
fn pointer_events_without_tracker_are_noops() {
    let mut canvas = CanvasController::new(Document::new_demo());
    let before = canvas.doc.clone();
    canvas.mouse_move(XYPoint::new(5, 5));
    canvas.mouse_up(XYPoint::new(5, 5));
    assert_eq!(canvas.doc, before);
}
