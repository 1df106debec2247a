use shape_canvas::shapes::{Color, Geometry, Shape, Style, XYPoint};
use shape_canvas::shapes_doc::{DocError, Document};

fn red_rect(left: i64, top: i64, width: i64, height: i64) -> Shape {
    Shape::new(Geometry::rectangle(left, top, width, height), Style::new(Color::Red))
}

#[test]
fn new_empty_has_no_shapes() {
    let doc = Document::new_empty();
    assert!(doc.shape_ids().is_empty());
    assert!(doc.get_shape_by_id(1).is_none());
}

#[test]
fn generated_ids_strictly_increase() {
    let mut doc = Document::new_empty();
    let mut ids = Vec::new();
    for _ in 0..5 {
        ids.push(doc.generate_shape_id());
    }
    assert_eq!(ids, vec![1, 2, 3, 4, 5]);
    for i in 0..ids.len() {
        for j in (i + 1)..ids.len() {
            assert!(ids[i] < ids[j]);
        }
    }
}

#[test]
fn upsert_then_get_round_trips() {
    let mut doc = Document::new_empty();
    let shape = red_rect(1, 2, 3, 4);
    doc.upsert_shape_with_id(7, shape);
    assert_eq!(doc.get_shape_by_id(7), Some(&shape));
}

#[test]
fn upsert_twice_is_idempotent() {
    let shape = red_rect(1, 2, 3, 4);
    let mut once = Document::new_empty();
    once.upsert_shape_with_id(7, shape);
    let mut twice = Document::new_empty();
    twice.upsert_shape_with_id(7, shape);
    twice.upsert_shape_with_id(7, shape);
    assert_eq!(once, twice);
}

#[test]
fn upsert_new_id_goes_on_top() {
    let mut doc = Document::new_empty();
    doc.upsert_shape_with_id(1, red_rect(0, 0, 1, 1));
    doc.upsert_shape_with_id(2, red_rect(0, 0, 2, 2));
    doc.upsert_shape_with_id(1, red_rect(5, 5, 5, 5));
    assert_eq!(doc.shape_ids(), vec![1, 2]);
}

#[test]
fn upsert_keeps_next_id_above_external_ids() {
    let mut doc = Document::new_empty();
    doc.upsert_shape_with_id(10, red_rect(0, 0, 1, 1));
    assert_eq!(doc.generate_shape_id(), 11);
}

#[test]
fn delete_of_absent_id_changes_nothing() {
    let mut doc = Document::new_empty();
    doc.upsert_shape_with_id(1, red_rect(0, 0, 1, 1));
    let before = doc.clone();
    doc.delete_shape_with_id(999);
    assert_eq!(doc, before);
}

#[test]
fn delete_removes_shape_and_order_entry() {
    let mut doc = Document::new_empty();
    doc.upsert_shape_with_id(1, red_rect(0, 0, 1, 1));
    doc.upsert_shape_with_id(2, red_rect(0, 0, 2, 2));
    doc.delete_shape_with_id(1);
    assert!(doc.get_shape_by_id(1).is_none());
    assert_eq!(doc.shape_ids(), vec![2]);
}

#[test]
fn deleted_id_is_never_reused() {
    let mut doc = Document::new_empty();
    let id = doc.generate_shape_id();
    doc.upsert_shape_with_id(id, red_rect(0, 0, 1, 1));
    doc.delete_shape_with_id(id);
    let next = doc.generate_shape_id();
    assert!(next > id);
}

#[test]
fn update_geometry_replaces_geometry_and_keeps_style() {
    let mut doc = Document::new_empty();
    doc.upsert_shape_with_id(3, Shape::new(Geometry::circle(5, 5, 2), Style::new(Color::Blue)));
    let new_geometry = Geometry::rectangle(1, 1, 2, 2);
    doc.update_geometry_for_shape_id(&3, new_geometry);
    let shape = doc.get_shape_by_id(3).unwrap();
    assert_eq!(shape.geometry, new_geometry);
    assert_eq!(shape.style, Style::new(Color::Blue));
}

#[test]
fn update_geometry_of_absent_id_is_a_noop() {
    let mut doc = Document::new_empty();
    doc.upsert_shape_with_id(1, red_rect(0, 0, 1, 1));
    let before = doc.clone();
    doc.update_geometry_for_shape_id(&5, Geometry::circle(0, 0, 1));
    assert_eq!(doc, before);
}

#[test]
fn move_to_top_pulls_shape_to_last_position() {
    let mut doc = Document::new_empty();
    doc.upsert_shape_with_id(1, red_rect(0, 0, 1, 1));
    doc.upsert_shape_with_id(2, red_rect(0, 0, 2, 2));
    doc.upsert_shape_with_id(3, red_rect(0, 0, 3, 3));
    doc.move_shape_with_id_to_top(1);
    assert_eq!(doc.shape_ids(), vec![2, 3, 1]);
}

#[test]
fn move_to_top_of_topmost_id_keeps_sequence_value() {
    let mut doc = Document::new_empty();
    doc.upsert_shape_with_id(1, red_rect(0, 0, 1, 1));
    doc.upsert_shape_with_id(2, red_rect(0, 0, 2, 2));
    let before = doc.shape_ids();
    doc.move_shape_with_id_to_top(2);
    assert_eq!(doc.shape_ids(), before);
}

#[test]
fn move_to_top_of_absent_id_is_a_noop() {
    let mut doc = Document::new_empty();
    doc.upsert_shape_with_id(1, red_rect(0, 0, 1, 1));
    let before = doc.clone();
    doc.move_shape_with_id_to_top(9);
    assert_eq!(doc, before);
}

#[test]
fn new_from_pairs_builds_document_in_order() {
    let pairs = vec![(4, red_rect(0, 0, 1, 1)), (2, red_rect(0, 0, 2, 2))];
    let doc = Document::new_from_pairs(pairs).unwrap_or_else(|_| panic!("unexpected duplicate"));
    assert_eq!(doc.shape_ids(), vec![4, 2]);
    let mut doc = doc;
    assert_eq!(doc.generate_shape_id(), 5);
}

#[test]
fn new_from_pairs_rejects_duplicate_ids() {
    let pairs = vec![(1, red_rect(0, 0, 1, 1)), (1, red_rect(0, 0, 2, 2))];
    match Document::new_from_pairs(pairs) {
        Err(DocError::DuplicateShapeId(id)) => assert_eq!(id, 1),
        Ok(_) => panic!("duplicate id was accepted"),
    }
}

#[test]
fn new_from_shapes_assigns_increasing_ids_bottom_to_top() {
    let shapes = vec![red_rect(0, 0, 1, 1), red_rect(0, 0, 2, 2), red_rect(0, 0, 3, 3)];
    let doc = Document::new_from_shapes(&shapes);
    assert_eq!(doc.shape_ids(), vec![1, 2, 3]);
    for (i, shape) in shapes.iter().enumerate() {
        assert_eq!(doc.get_shape_by_id(i + 1), Some(shape));
    }
}

#[test]
fn new_demo_holds_six_shapes() {
    let doc = Document::new_demo();
    assert_eq!(doc.shape_ids(), vec![1, 2, 3, 4, 5, 6]);
    let bottom = doc.get_shape_by_id(1).unwrap();
    assert_eq!(bottom.geometry, Geometry::circle(100, 150, 80));
    assert_eq!(bottom.style.fill, Color::Blue);
    let top = doc.get_shape_by_id(6).unwrap();
    assert_eq!(top.geometry, Geometry::rectangle(40, 80, 40, 40));
    assert_eq!(top.style.fill, Color::Green);
}

#[test]
fn shape_id_shapes_lists_pairs_bottom_to_top() {
    let mut doc = Document::new_empty();
    let a = red_rect(0, 0, 1, 1);
    let b = Shape::new(Geometry::circle(9, 9, 3), Style::new(Color::Green));
    doc.upsert_shape_with_id(5, a);
    doc.upsert_shape_with_id(2, b);
    let pairs = doc.shape_id_shapes();
    assert_eq!(pairs, vec![(5, a), (2, b)]);
}

/// The render order and the stored shapes list exactly the same ids.
fn assert_consistent(doc: &Document) {
    let ids = doc.shape_ids();
    for id in &ids {
        assert!(doc.get_shape_by_id(*id).is_some());
        assert_eq!(ids.iter().filter(|other| *other == id).count(), 1);
    }
    for probe in 0..20 {
        if doc.get_shape_by_id(probe).is_some() {
            assert!(ids.contains(&probe));
        }
    }
}

#[test]
fn invariant_holds_after_every_call_of_a_mixed_sequence() {
    let mut doc = Document::new_empty();
    doc.upsert_shape_with_id(3, red_rect(0, 0, 1, 1));
    assert_consistent(&doc);
    doc.upsert_shape_with_id(1, red_rect(1, 1, 1, 1));
    assert_consistent(&doc);
    doc.delete_shape_with_id(2);
    assert_consistent(&doc);
    doc.move_shape_with_id_to_top(3);
    assert_consistent(&doc);
    doc.update_geometry_for_shape_id(&1, Geometry::circle(4, 4, 2));
    assert_consistent(&doc);
    doc.delete_shape_with_id(3);
    assert_consistent(&doc);
    doc.upsert_shape_with_id(3, red_rect(2, 2, 2, 2));
    assert_consistent(&doc);
    doc.move_shape_with_id_to_top(9);
    assert_consistent(&doc);
    doc.delete_shape_with_id(1);
    assert_consistent(&doc);
    doc.delete_shape_with_id(3);
    assert_consistent(&doc);
    assert!(doc.shape_ids().is_empty());
}

#[test]
fn geometry_offset_by_translates_reference_point() {
    let rect = Geometry::rectangle(1, 2, 3, 4);
    let moved = rect.offset_by(&XYPoint::new(10, 20));
    assert_eq!(moved, Geometry::rectangle(11, 22, 3, 4));
    let circle = Geometry::circle(5, 5, 2);
    let moved = circle.offset_by(&XYPoint::new(-1, -2));
    assert_eq!(moved, Geometry::circle(4, 3, 2));
}

#[test]
fn point_add_and_subtract_are_componentwise() {
    let a = XYPoint::new(3, 4);
    let b = XYPoint::new(10, 20);
    assert_eq!(a.add(&b), XYPoint::new(13, 24));
    assert_eq!(b.subtract(&a), XYPoint::new(7, 16));
}
