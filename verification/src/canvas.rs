//! The canvas controller: owns the shape document, the fill-color state
//! and the single optional active tracker, routes pointer events to the
//! tracker, and renders the document to drawable primitives.
//!
//! Pointer-down on the background starts a create-rectangle gesture;
//! pointer-down on a shape starts a drag gesture. While a gesture is
//! active, pointer moves go to its tracker, and pointer-up finishes the
//! gesture and clears the tracker, so the controller is back in its idle
//! state and ready for the next gesture.

use vstd::prelude::*;
use crate::app_state::{AppState, skip_white_result, state_after_skip};
use crate::shapes::{Color, Geometry, Shape, Style, XYPoint};
use crate::shapes_doc::{DocView, Document, ShapeId, ordered_pairs};
use crate::trackers::{CanvasTracker, NewRectTracker, ShapeDragTracker, TrackerNext, tracked_doc};

verus! {

broadcast use vstd::string::group_string_axioms;

/// The name under which a palette color is rendered.
pub open spec fn spec_svg_color(c: Color) -> Seq<char> {
    match c {
        Color::Red => "red"@,
        Color::Orange => "orange"@,
        Color::Yellow => "yellow"@,
        Color::Green => "green"@,
        Color::Blue => "blue"@,
        Color::Indigo => "indigo"@,
        Color::Violet => "violet"@,
        Color::White => "white"@,
        Color::Black => "black"@,
    }
}

/// The name under which a palette color is rendered.
pub fn svg_color(color: &Color) -> (r: String)
    ensures
        r@ == spec_svg_color(*color),
{
    match color {
        Color::Red => "red".to_string(),
        Color::Orange => "orange".to_string(),
        Color::Yellow => "yellow".to_string(),
        Color::Green => "green".to_string(),
        Color::Blue => "blue".to_string(),
        Color::Indigo => "indigo".to_string(),
        Color::Violet => "violet".to_string(),
        Color::White => "white".to_string(),
        Color::Black => "black".to_string(),
    }
}

/// One drawable primitive: a shape's id, its geometry, and its resolved
/// fill color name.
pub struct RenderedShape {
    pub shape_id: ShapeId,
    pub geometry: Geometry,
    pub fill: String,
}

/// Renders one shape to a drawable primitive.
pub fn render_shape(shape_id: ShapeId, shape: &Shape) -> (r: RenderedShape)
    ensures
        r.shape_id == shape_id,
        r.geometry == shape.geometry,
        r.fill@ == spec_svg_color(shape.style.fill),
{
    RenderedShape { shape_id, geometry: shape.geometry, fill: svg_color(&shape.style.fill) }
}

/// Renders every shape of the document, bottom to top. Rendering is a pure
/// function of the document's ordered shapes.
pub fn rendered_shapes(doc: &Document) -> (r: Vec<RenderedShape>)
    ensures
        r@.len() == ordered_pairs(doc@).len(),
        forall|i: int|
            0 <= i < r@.len() ==> {
                &&& (#[trigger] r@[i]).shape_id == ordered_pairs(doc@)[i].0
                &&& r@[i].geometry == ordered_pairs(doc@)[i].1.geometry
                &&& r@[i].fill@ == spec_svg_color(ordered_pairs(doc@)[i].1.style.fill)
            },
{
    let pairs = doc.shape_id_shapes();
    let mut r: Vec<RenderedShape> = Vec::new();
    let mut i: usize = 0;
    while i < pairs.len()
        invariant
            i <= pairs@.len(),
            pairs@ == ordered_pairs(doc@),
            r@.len() == i,
            forall|j: int|
                0 <= j < i ==> {
                    &&& (#[trigger] r@[j]).shape_id == ordered_pairs(doc@)[j].0
                    &&& r@[j].geometry == ordered_pairs(doc@)[j].1.geometry
                    &&& r@[j].fill@ == spec_svg_color(ordered_pairs(doc@)[j].1.style.fill)
                },
        decreases pairs@.len() - i,
    {
        let (shape_id, shape) = pairs[i];
        r.push(render_shape(shape_id, &shape));
        i = i + 1;
    }
    r
}

/// The canvas controller: the document being edited, the fill-color state
/// for new shapes, and at most one active tracker.
pub struct CanvasController {
    pub doc: Document,
    pub app_state: AppState,
    pub tracker: Option<CanvasTracker>,
}

impl CanvasController {
    /// The controller invariant: the document is well formed and an active
    /// tracker, if any, is well formed too.
    pub open spec fn wf(self) -> bool {
        &&& self.doc@.wf()
        &&& match self.tracker {
            Some(t) => t.wf(),
            None => true,
        }
    }

    /// A controller for `doc`, idle and with the fill-color cycle at its
    /// start.
    pub fn new(doc: Document) -> (c: CanvasController)
        requires
            doc@.wf(),
        ensures
            c.doc == doc,
            c.app_state@ == Color::Red,
            c.tracker is None,
            c.wf(),
    {
        CanvasController { doc, app_state: AppState::default(), tracker: None }
    }

    /// Pointer-down on the background: generates a fresh shape id, draws
    /// the next non-white fill color, and installs a create-rectangle
    /// tracker anchored at `mouse`.
    pub fn mouse_down_on_background(&mut self, mouse: XYPoint)
        requires
            old(self).wf(),
            old(self).doc@.next_shape_id < usize::MAX,
        ensures
            final(self).wf(),
            final(self).doc@ == (DocView {
                next_shape_id: old(self).doc@.next_shape_id + 1,
                ..old(self).doc@
            }),
            final(self).app_state@ == state_after_skip(old(self).app_state@),
            final(self).tracker matches Some(t) && t == CanvasTracker::NewRect(
                NewRectTracker {
                    mouse_down: mouse,
                    shape_id: old(self).doc@.next_shape_id as ShapeId,
                    style: Style { fill: skip_white_result(old(self).app_state@) },
                },
            ),
    {
        let shape_id = self.doc.generate_shape_id();
        let fill_color = self.app_state.get_fill_color_and_advance_skipping_white();
        let style = Style::new(fill_color);
        self.tracker = Some(CanvasTracker::NewRect(NewRectTracker::new(mouse, shape_id, style)));
    }

    /// Pointer-down on the shape with the given id: snapshots its current
    /// geometry and installs a drag tracker anchored at `mouse`. If no such
    /// shape exists, nothing changes.
    pub fn mouse_down_on_shape(&mut self, shape_id: ShapeId, mouse: XYPoint)
        requires
            old(self).wf(),
        ensures
            final(self).wf(),
            final(self).doc == old(self).doc,
            final(self).app_state == old(self).app_state,
            old(self).doc@.shapes.contains_key(shape_id) ==> (final(self).tracker matches Some(t)
                && t == CanvasTracker::ShapeDrag(
                ShapeDragTracker {
                    mouse_down: mouse,
                    shape_id,
                    initial_geometry: old(self).doc@.shapes[shape_id].geometry,
                },
            )),
            !old(self).doc@.shapes.contains_key(shape_id) ==> *final(self) == *old(self),
    {
        let initial_geometry = match self.doc.get_shape_by_id(shape_id) {
            Some(shape) => Some(shape.geometry),
            None => None,
        };
        match initial_geometry {
            Some(geometry) => {
                self.tracker = Some(
                    CanvasTracker::ShapeDrag(ShapeDragTracker::new(mouse, shape_id, &geometry)),
                );
            },
            None => {},
        }
    }

    /// Pointer move on the canvas: routed to the active tracker, if any; a
    /// tracker that reports it is done is cleared. Without an active
    /// tracker this is a no-op.
    pub fn mouse_move(&mut self, mouse: XYPoint)
        requires
            old(self).wf(),
        ensures
            final(self).wf(),
            final(self).app_state == old(self).app_state,
            match old(self).tracker {
                Some(t) => final(self).doc@ == tracked_doc(t, old(self).doc@, mouse)
                    && final(self).tracker == old(self).tracker,
                None => *final(self) == *old(self),
            },
    {
        match &self.tracker {
            Some(tracker) => {
                match tracker.track_mouse_move(&mut self.doc, mouse) {
                    TrackerNext::Continue => {},
                    TrackerNext::Done => {
                        self.tracker = None;
                    },
                }
            },
            None => {},
        }
    }

    /// Pointer up on the canvas: the active tracker, if any, finishes the
    /// gesture, and the canvas returns to its idle state. Without an
    /// active tracker this is a no-op.
    pub fn mouse_up(&mut self, mouse: XYPoint)
        requires
            old(self).wf(),
        ensures
            final(self).wf(),
            final(self).app_state == old(self).app_state,
            final(self).tracker is None,
            match old(self).tracker {
                Some(t) => final(self).doc@ == tracked_doc(t, old(self).doc@, mouse),
                None => final(self).doc == old(self).doc,
            },
    {
        match &self.tracker {
            Some(tracker) => {
                tracker.track_mouse_up(&mut self.doc, mouse);
                self.tracker = None;
            },
            None => {},
        }
    }
}

} // verus!
