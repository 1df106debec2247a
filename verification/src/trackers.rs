//! Pointer-gesture state machines. A tracker owns one gesture from
//! pointer-down to pointer-up: either tracking out a new rectangle, or
//! dragging an existing shape.
//!
//! Both trackers capture an anchor point (the pointer position at gesture
//! start) at construction time and recompute their effect from the anchor
//! and the current pointer position alone, so missed events cannot cause
//! drift. A pointer position so far away that the computed coordinates
//! would leave `i64` leaves the document unchanged.

use vstd::prelude::*;
use crate::shapes::{Geometry, Shape, Style, XYPoint, in_i64, offset_fits, spec_offset_by};
use crate::shapes_doc::{DocView, Document, ShapeId};

verus! {

/// What a tracker answers to a mouse move: keep tracking, or stop early.
#[derive(Clone, Copy, Debug, PartialEq, Eq, Structural)]
pub enum TrackerNext {
    Continue,
    Done,
}

/// The smaller of two coordinates.
pub open spec fn spec_min(a: i64, b: i64) -> i64 {
    if a < b {
        a
    } else {
        b
    }
}

/// The non-negative span between two coordinates.
pub open spec fn spec_span(a: i64, b: i64) -> int {
    if a < b {
        b - a
    } else {
        a - b
    }
}

/// The minimum of two coordinates together with the non-negative span from
/// it to the other coordinate.
pub fn to_min_span(x1: i64, x2: i64) -> (r: (i64, i64))
    requires
        in_i64(spec_span(x1, x2)),
    ensures
        r.0 == spec_min(x1, x2),
        r.1 == spec_span(x1, x2),
{
    if x1 < x2 {
        (x1, x2 - x1)
    } else {
        (x2, x1 - x2)
    }
}

/// The span between two coordinates, or `None` if it exceeds `i64`.
fn checked_span(a: i64, b: i64) -> (r: Option<i64>)
    ensures
        match r {
            Some(s) => s == spec_span(a, b),
            None => !in_i64(spec_span(a, b)),
        },
{
    if a < b {
        b.checked_sub(a)
    } else {
        a.checked_sub(b)
    }
}

/// Whether both spans of the rectangle tracked out between `anchor` and
/// `current` fit in `i64` coordinates.
pub open spec fn rect_fits(anchor: XYPoint, current: XYPoint) -> bool {
    in_i64(spec_span(anchor.x, current.x)) && in_i64(spec_span(anchor.y, current.y))
}

/// Whether the rectangle tracked out between `anchor` and `current` is
/// degenerate: zero width or zero height.
pub open spec fn drag_is_empty(anchor: XYPoint, current: XYPoint) -> bool {
    spec_span(anchor.x, current.x) == 0 || spec_span(anchor.y, current.y) == 0
}

/// The candidate rectangle between `anchor` and `current`: its origin is
/// the componentwise minimum, its size the componentwise span.
pub open spec fn rect_from_drag(anchor: XYPoint, current: XYPoint) -> Geometry {
    Geometry::Rectangle {
        top_left: XYPoint { x: spec_min(anchor.x, current.x), y: spec_min(anchor.y, current.y) },
        size: XYPoint {
            x: spec_span(anchor.x, current.x) as i64,
            y: spec_span(anchor.y, current.y) as i64,
        },
    }
}

/// Tracks out a new rectangle with a fixed shape id and style.
pub struct NewRectTracker {
    /// The anchor: the pointer position at gesture start.
    pub mouse_down: XYPoint,
    /// The id under which the candidate rectangle is upserted.
    pub shape_id: ShapeId,
    /// The style of the candidate rectangle.
    pub style: Style,
}

/// The document after a new-rectangle tracker `t` posts the candidate for
/// pointer position `current`: a non-degenerate candidate is upserted at
/// the captured id, a degenerate one deletes the id, and a candidate whose
/// coordinates do not fit leaves the document unchanged.
pub open spec fn new_rect_doc(t: NewRectTracker, v: DocView, current: XYPoint) -> DocView {
    if !rect_fits(t.mouse_down, current) {
        v
    } else if drag_is_empty(t.mouse_down, current) {
        v.deleted(t.shape_id)
    } else {
        v.upserted(
            t.shape_id,
            Shape { geometry: rect_from_drag(t.mouse_down, current), style: t.style },
        )
    }
}

impl NewRectTracker {
    pub fn new(mouse_down: XYPoint, shape_id: ShapeId, style: Style) -> (t: NewRectTracker)
        ensures
            t == (NewRectTracker { mouse_down, shape_id, style }),
    {
        NewRectTracker { mouse_down, shape_id, style }
    }

    /// Recomputes the candidate rectangle from the anchor and `mouse` and
    /// posts it to the document: upsert if it has positive area, delete
    /// otherwise, so a pure click leaves no shape behind.
    pub fn post_shape_for_event(&self, doc: &mut Document, mouse: XYPoint)
        requires
            old(doc)@.wf(),
            self.shape_id < usize::MAX,
        ensures
            final(doc)@ == new_rect_doc(*self, old(doc)@, mouse),
            final(doc)@.wf(),
    {
        let span_x = checked_span(self.mouse_down.x, mouse.x);
        let span_y = checked_span(self.mouse_down.y, mouse.y);
        if span_x.is_some() && span_y.is_some() {
            let (min_x, span_x) = to_min_span(self.mouse_down.x, mouse.x);
            let (min_y, span_y) = to_min_span(self.mouse_down.y, mouse.y);
            // If the result is non-empty, upsert the shape.
            if 0 < span_x && 0 < span_y {
                let geometry = Geometry::Rectangle {
                    top_left: XYPoint::new(min_x, min_y),
                    size: XYPoint::new(span_x, span_y),
                };
                doc.upsert_shape_with_id(self.shape_id, Shape { geometry, style: self.style });
            } else {
                // If empty, delete the shape.
                doc.delete_shape_with_id(self.shape_id);
            }
        }
    }

    pub fn track_mouse_move(&self, doc: &mut Document, mouse: XYPoint) -> (r: TrackerNext)
        requires
            old(doc)@.wf(),
            self.shape_id < usize::MAX,
        ensures
            final(doc)@ == new_rect_doc(*self, old(doc)@, mouse),
            final(doc)@.wf(),
            r == TrackerNext::Continue,
    {
        self.post_shape_for_event(doc, mouse);
        TrackerNext::Continue
    }

    pub fn track_mouse_up(&self, doc: &mut Document, mouse: XYPoint)
        requires
            old(doc)@.wf(),
            self.shape_id < usize::MAX,
        ensures
            final(doc)@ == new_rect_doc(*self, old(doc)@, mouse),
            final(doc)@.wf(),
    {
        self.post_shape_for_event(doc, mouse);
    }
}

/// Drags an existing shape by translating a snapshot of its geometry.
pub struct ShapeDragTracker {
    /// The anchor: the pointer position at gesture start.
    pub mouse_down: XYPoint,
    /// The id of the shape being dragged.
    pub shape_id: ShapeId,
    /// The dragged shape's geometry at gesture start; the translation is
    /// always applied to this snapshot, never accumulated incrementally.
    pub initial_geometry: Geometry,
}

/// Whether the pointer delta between `anchor` and `current` fits in `i64`.
pub open spec fn delta_fits(anchor: XYPoint, current: XYPoint) -> bool {
    in_i64(current.x - anchor.x) && in_i64(current.y - anchor.y)
}

/// The document after a drag tracker `t` handles pointer position
/// `current`: the dragged shape's geometry becomes the captured snapshot
/// translated by the total delta since gesture start. A delta or a
/// translated geometry that does not fit in `i64` leaves the document
/// unchanged.
pub open spec fn drag_doc(t: ShapeDragTracker, v: DocView, current: XYPoint) -> DocView {
    let dx = current.x - t.mouse_down.x;
    let dy = current.y - t.mouse_down.y;
    if delta_fits(t.mouse_down, current) && offset_fits(t.initial_geometry, dx, dy) {
        v.geometry_updated(t.shape_id, spec_offset_by(t.initial_geometry, dx, dy))
    } else {
        v
    }
}

impl ShapeDragTracker {
    pub fn new(mouse_down: XYPoint, shape_id: ShapeId, initial_geometry: &Geometry) -> (t:
        ShapeDragTracker)
        ensures
            t == (ShapeDragTracker { mouse_down, shape_id, initial_geometry: *initial_geometry }),
    {
        ShapeDragTracker { mouse_down, shape_id, initial_geometry: *initial_geometry }
    }

    /// Translates the captured geometry by the total delta from the anchor
    /// to `mouse` and writes it to the document.
    pub fn update_shape_for_drag(&self, doc: &mut Document, mouse: XYPoint)
        requires
            old(doc)@.wf(),
        ensures
            final(doc)@ == drag_doc(*self, old(doc)@, mouse),
            final(doc)@.wf(),
    {
        let dx = mouse.x.checked_sub(self.mouse_down.x);
        let dy = mouse.y.checked_sub(self.mouse_down.y);
        match (dx, dy) {
            (Some(dx), Some(dy)) => {
                match self.initial_geometry.checked_offset_by(&XYPoint::new(dx, dy)) {
                    Some(new_geometry) => {
                        doc.update_geometry_for_shape_id(&self.shape_id, new_geometry);
                    },
                    None => {},
                }
            },
            _ => {},
        }
    }

    pub fn track_mouse_move(&self, doc: &mut Document, mouse: XYPoint) -> (r: TrackerNext)
        requires
            old(doc)@.wf(),
        ensures
            final(doc)@ == drag_doc(*self, old(doc)@, mouse),
            final(doc)@.wf(),
            r == TrackerNext::Continue,
    {
        self.update_shape_for_drag(doc, mouse);
        TrackerNext::Continue
    }

    pub fn track_mouse_up(&self, doc: &mut Document, mouse: XYPoint)
        requires
            old(doc)@.wf(),
        ensures
            final(doc)@ == drag_doc(*self, old(doc)@, mouse),
            final(doc)@.wf(),
    {
        self.update_shape_for_drag(doc, mouse);
    }
}

/// The one tracker a canvas can have active: either gesture kind, with its
/// captured construction-time data.
pub enum CanvasTracker {
    NewRect(NewRectTracker),
    ShapeDrag(ShapeDragTracker),
}

/// The document after tracker `t` handles pointer position `current`.
pub open spec fn tracked_doc(t: CanvasTracker, v: DocView, current: XYPoint) -> DocView {
    match t {
        CanvasTracker::NewRect(tracker) => new_rect_doc(tracker, v, current),
        CanvasTracker::ShapeDrag(tracker) => drag_doc(tracker, v, current),
    }
}

impl CanvasTracker {
    /// A tracker is well formed when the id it would upsert under leaves
    /// room for the allocator to stay above it.
    pub open spec fn wf(self) -> bool {
        match self {
            CanvasTracker::NewRect(tracker) => tracker.shape_id < usize::MAX,
            CanvasTracker::ShapeDrag(_) => true,
        }
    }

    pub fn track_mouse_move(&self, doc: &mut Document, mouse: XYPoint) -> (r: TrackerNext)
        requires
            old(doc)@.wf(),
            self.wf(),
        ensures
            final(doc)@ == tracked_doc(*self, old(doc)@, mouse),
            final(doc)@.wf(),
            r == TrackerNext::Continue,
    {
        match self {
            CanvasTracker::NewRect(tracker) => tracker.track_mouse_move(doc, mouse),
            CanvasTracker::ShapeDrag(tracker) => tracker.track_mouse_move(doc, mouse),
        }
    }

    pub fn track_mouse_up(&self, doc: &mut Document, mouse: XYPoint)
        requires
            old(doc)@.wf(),
            self.wf(),
        ensures
            final(doc)@ == tracked_doc(*self, old(doc)@, mouse),
            final(doc)@.wf(),
    {
        match self {
            CanvasTracker::NewRect(tracker) => tracker.track_mouse_up(doc, mouse),
            CanvasTracker::ShapeDrag(tracker) => tracker.track_mouse_up(doc, mouse),
        }
    }
}

} // verus!
