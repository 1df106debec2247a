//! The shape document: a mapping from shape ids to shapes, a bottom-to-top
//! render order over those ids, and monotonic id allocation.
//!
//! The abstract state of a document is a [`DocView`]; every mutating
//! operation is specified as a pure function on views, and the document
//! invariant [`DocView::wf`] is preserved by all of them.

use vstd::prelude::*;
use std::collections::HashMap;
use crate::shapes::{Color, Geometry, Shape, Style, XYPoint};

verus! {

broadcast use vstd::std_specs::hash::group_hash_axioms;

/// A reference to a shape that stays stable across changes to the document.
/// Ids are handed out in increasing order and never reused within one
/// document, even after a deletion.
pub type ShapeId = usize;

/// The abstract state of a shape document.
#[verifier::ext_equal]
pub ghost struct DocView {
    /// The shapes, keyed by shape id.
    pub shapes: Map<ShapeId, Shape>,
    /// The ids of the shapes to render, from bottom to top.
    pub sequence: Seq<ShapeId>,
    /// The next id to hand out; larger than every id in the document.
    pub next_shape_id: int,
}

impl DocView {
    /// The state of a freshly created empty document.
    pub open spec fn initial() -> DocView {
        DocView { shapes: Map::empty(), sequence: Seq::empty(), next_shape_id: 1 }
    }

    /// The document invariant: the render order lists each shape id exactly
    /// once, and every id in the document is below `next_shape_id`.
    pub open spec fn wf(self) -> bool {
        &&& self.sequence.no_duplicates()
        &&& self.shapes.dom() == self.sequence.to_set()
        &&& forall|id: ShapeId| #[trigger]
            self.shapes.dom().contains(id) ==> id < self.next_shape_id
    }

    /// The document after upserting `shape` at `shape_id`: the shape is
    /// (re)written, the id is appended on top if it was not listed yet, and
    /// `next_shape_id` is bumped past `shape_id` if necessary.
    pub open spec fn upserted(self, shape_id: ShapeId, shape: Shape) -> DocView {
        DocView {
            shapes: self.shapes.insert(shape_id, shape),
            sequence: if self.sequence.contains(shape_id) {
                self.sequence
            } else {
                self.sequence.push(shape_id)
            },
            next_shape_id: if self.next_shape_id <= shape_id {
                shape_id + 1
            } else {
                self.next_shape_id
            },
        }
    }

    /// The document after deleting `shape_id`: the id leaves both the shape
    /// mapping and the render order; absent ids change nothing.
    pub open spec fn deleted(self, shape_id: ShapeId) -> DocView {
        DocView {
            shapes: self.shapes.remove(shape_id),
            sequence: if self.sequence.contains(shape_id) {
                self.sequence.remove_value(shape_id)
            } else {
                self.sequence
            },
            next_shape_id: self.next_shape_id,
        }
    }

    /// The document after replacing the geometry of the shape at `shape_id`,
    /// keeping its style; absent ids change nothing.
    pub open spec fn geometry_updated(self, shape_id: ShapeId, geometry: Geometry) -> DocView {
        if self.shapes.contains_key(shape_id) {
            DocView {
                shapes: self.shapes.insert(
                    shape_id,
                    Shape { geometry, style: self.shapes[shape_id].style },
                ),
                sequence: self.sequence,
                next_shape_id: self.next_shape_id,
            }
        } else {
            self
        }
    }

    /// The document after moving `shape_id` to the top of the render order;
    /// ids that are absent or already topmost change nothing.
    pub open spec fn moved_to_top(self, shape_id: ShapeId) -> DocView {
        if self.sequence.contains(shape_id) && self.sequence.last() != shape_id {
            DocView {
                shapes: self.shapes,
                sequence: self.sequence.remove_value(shape_id).push(shape_id),
                next_shape_id: self.next_shape_id,
            }
        } else {
            self
        }
    }
}

/// The document built by upserting each of `pairs` in turn onto `v`, or the
/// first reused shape id.
pub open spec fn added_pairs(v: DocView, pairs: Seq<(ShapeId, Shape)>) -> Result<DocView, DocError>
    decreases pairs.len(),
{
    if pairs.len() == 0 {
        Ok(v)
    } else if v.shapes.contains_key(pairs[0].0) {
        Err(DocError::DuplicateShapeId(pairs[0].0))
    } else {
        added_pairs(v.upserted(pairs[0].0, pairs[0].1), pairs.skip(1))
    }
}

/// The document holding `shapes` bottom to top under the ids `1..=len`.
pub open spec fn from_shapes_view(shapes: Seq<Shape>) -> DocView {
    DocView {
        shapes: Map::new(
            |id: ShapeId| 1 <= id <= shapes.len(),
            |id: ShapeId| shapes[id - 1],
        ),
        sequence: Seq::new(shapes.len(), |i: int| (i + 1) as ShapeId),
        next_shape_id: shapes.len() as int + 1,
    }
}

/// The shapes of the fixed demo document, bottom to top.
pub open spec fn demo_shapes() -> Seq<Shape> {
    seq![
        Shape {
            geometry: Geometry::Circle { center: XYPoint { x: 100, y: 150 }, radius: 80 },
            style: Style { fill: Color::Blue },
        },
        Shape {
            geometry: Geometry::Circle { center: XYPoint { x: 120, y: 120 }, radius: 100 },
            style: Style { fill: Color::Red },
        },
        Shape {
            geometry: Geometry::Circle { center: XYPoint { x: 200, y: 90 }, radius: 70 },
            style: Style { fill: Color::Indigo },
        },
        Shape {
            geometry: Geometry::Rectangle {
                top_left: XYPoint { x: 250, y: 80 },
                size: XYPoint { x: 200, y: 20 },
            },
            style: Style { fill: Color::Violet },
        },
        Shape {
            geometry: Geometry::Rectangle {
                top_left: XYPoint { x: 0, y: 0 },
                size: XYPoint { x: 40, y: 40 },
            },
            style: Style { fill: Color::Black },
        },
        Shape {
            geometry: Geometry::Rectangle {
                top_left: XYPoint { x: 40, y: 80 },
                size: XYPoint { x: 40, y: 40 },
            },
            style: Style { fill: Color::Green },
        },
    ]
}

/// The id/shape pairs listed by `sequence` from bottom to top, skipping ids
/// that `shapes` does not map.
pub open spec fn ordered_pairs_of(
    shapes: Map<ShapeId, Shape>,
    sequence: Seq<ShapeId>,
) -> Seq<(ShapeId, Shape)>
    decreases sequence.len(),
{
    if sequence.len() == 0 {
        Seq::empty()
    } else {
        let rest = ordered_pairs_of(shapes, sequence.drop_last());
        let shape_id = sequence.last();
        if shapes.contains_key(shape_id) {
            rest.push((shape_id, shapes[shape_id]))
        } else {
            rest
        }
    }
}

/// The id/shape pairs of a document to render, from bottom to top.
pub open spec fn ordered_pairs(v: DocView) -> Seq<(ShapeId, Shape)> {
    ordered_pairs_of(v.shapes, v.sequence)
}

/// The error returned when a document is built from pairs that reuse an id.
#[derive(Clone, Copy, Debug, PartialEq, Eq, Structural)]
pub enum DocError {
    DuplicateShapeId(ShapeId),
}

/// A shape document: shapes keyed by id, a bottom-to-top render order, and
/// the next shape id to generate.
#[derive(Clone, Debug, PartialEq)]
pub struct Document {
    shapes: HashMap<ShapeId, Shape>,
    sequence: Vec<ShapeId>,
    next_shape_id: usize,
}

impl View for Document {
    type V = DocView;

    closed spec fn view(&self) -> DocView {
        DocView {
            shapes: self.shapes@,
            sequence: self.sequence@,
            next_shape_id: self.next_shape_id as int,
        }
    }
}

impl Document {
    /// Creates a new empty document.
    pub fn new_empty() -> (doc: Document)
        ensures
            doc@ == DocView::initial(),
            doc@.wf(),
    {
        let doc = Document { sequence: Vec::new(), shapes: HashMap::new(), next_shape_id: 1 };
        proof {
            assert(doc@ =~= DocView::initial());
            assert(Seq::<ShapeId>::empty().to_set() =~= Set::<ShapeId>::empty());
        }
        doc
    }

    /// Builds a document from id/shape pairs listing the shapes from bottom
    /// to top. Reusing a shape id is an error.
    pub fn new_from_pairs(pairs: Vec<(ShapeId, Shape)>) -> (r: Result<Document, DocError>)
        requires
            forall|k: int| 0 <= k < pairs@.len() ==> (#[trigger] pairs@[k]).0 < usize::MAX,
        ensures
            match r {
                Ok(doc) => added_pairs(DocView::initial(), pairs@) == Ok::<DocView, DocError>(doc@)
                    && doc@.wf(),
                Err(e) => added_pairs(DocView::initial(), pairs@) == Err::<DocView, DocError>(e),
            },
    {
        let mut doc = Document::new_empty();
        let mut i: usize = 0;
        proof {
            assert(pairs@.skip(0) =~= pairs@);
        }
        while i < pairs.len()
            invariant
                i <= pairs@.len(),
                doc@.wf(),
                forall|k: int| 0 <= k < pairs@.len() ==> (#[trigger] pairs@[k]).0 < usize::MAX,
                added_pairs(DocView::initial(), pairs@) == added_pairs(doc@, pairs@.skip(i as int)),
            decreases pairs@.len() - i,
        {
            let (shape_id, shape) = pairs[i];
            proof {
                assert(pairs@.skip(i as int)[0] == pairs@[i as int]);
                assert(pairs@.skip(i as int).skip(1) =~= pairs@.skip(i + 1));
            }
            // Prevent multiple uses of the same shape id.
            if doc.shapes.contains_key(&shape_id) {
                return Err(DocError::DuplicateShapeId(shape_id));
            }
            doc.upsert_shape_with_id(shape_id, shape);
            i = i + 1;
        }
        proof {
            assert(pairs@.skip(i as int) =~= Seq::<(ShapeId, Shape)>::empty());
        }
        Ok(doc)
    }

    /// Builds a document from shapes listed bottom to top, generating a
    /// fresh id for each.
    pub fn new_from_shapes(shapes: &Vec<Shape>) -> (doc: Document)
        requires
            shapes@.len() < usize::MAX,
        ensures
            doc@ == from_shapes_view(shapes@),
            doc@.wf(),
    {
        let mut doc = Document::new_empty();
        let mut i: usize = 0;
        while i < shapes.len()
            invariant
                i <= shapes@.len(),
                shapes@.len() < usize::MAX,
                doc@.wf(),
                doc@ == from_shapes_view(shapes@.take(i as int)),
            decreases shapes@.len() - i,
        {
            let shape_id = doc.generate_shape_id();
            doc.upsert_shape_with_id(shape_id, shapes[i]);
            proof {
                let prev = from_shapes_view(shapes@.take(i as int));
                assert(forall|j: int|
                    0 <= j < prev.sequence.len() ==> #[trigger] prev.sequence[j] == j + 1);
                assert(!prev.sequence.contains(shape_id));
                assert(doc@ =~= from_shapes_view(shapes@.take(i + 1)));
            }
            i = i + 1;
        }
        proof {
            assert(shapes@.take(i as int) =~= shapes@);
        }
        doc
    }

    /// Builds the fixed demo document: a handful of circles and rectangles
    /// in assorted colors.
    pub fn new_demo() -> (doc: Document)
        ensures
            doc@ == from_shapes_view(demo_shapes()),
            doc@.wf(),
    {
        let mut shapes: Vec<Shape> = Vec::new();
        shapes.push(Shape::new(Geometry::circle(100, 150, 80), Style::new(Color::Blue)));
        shapes.push(Shape::new(Geometry::circle(120, 120, 100), Style::new(Color::Red)));
        shapes.push(Shape::new(Geometry::circle(200, 90, 70), Style::new(Color::Indigo)));
        shapes.push(Shape::new(Geometry::rectangle(250, 80, 200, 20), Style::new(Color::Violet)));
        shapes.push(Shape::new(Geometry::rectangle(0, 0, 40, 40), Style::new(Color::Black)));
        shapes.push(Shape::new(Geometry::rectangle(40, 80, 40, 40), Style::new(Color::Green)));
        proof {
            assert(shapes@ =~= demo_shapes());
        }
        Document::new_from_shapes(&shapes)
    }

    /// The render order of shape ids, from bottom to top.
    pub fn shape_ids(&self) -> (r: Vec<ShapeId>)
        ensures
            r@ == self@.sequence,
    {
        let mut r: Vec<ShapeId> = Vec::new();
        let mut i: usize = 0;
        while i < self.sequence.len()
            invariant
                i <= self@.sequence.len(),
                r@ == self@.sequence.take(i as int),
            decreases self@.sequence.len() - i,
        {
            r.push(self.sequence[i]);
            proof {
                assert(r@ =~= self@.sequence.take(i + 1));
            }
            i = i + 1;
        }
        proof {
            assert(self@.sequence.take(i as int) =~= self@.sequence);
        }
        r
    }

    /// The id/shape pairs to render, from bottom to top, skipping any id in
    /// the render order whose shape is (defensively) missing.
    pub fn shape_id_shapes(&self) -> (r: Vec<(ShapeId, Shape)>)
        ensures
            r@ == ordered_pairs(self@),
    {
        let mut r: Vec<(ShapeId, Shape)> = Vec::new();
        let mut i: usize = 0;
        while i < self.sequence.len()
            invariant
                i <= self@.sequence.len(),
                r@ == ordered_pairs_of(self@.shapes, self@.sequence.take(i as int)),
            decreases self@.sequence.len() - i,
        {
            let shape_id = self.sequence[i];
            proof {
                let taken = self@.sequence.take(i + 1);
                assert(taken.drop_last() =~= self@.sequence.take(i as int));
                assert(taken.last() == shape_id);
            }
            match self.shapes.get(&shape_id) {
                Some(shape) => {
                    r.push((shape_id, *shape));
                },
                None => {},
            }
            i = i + 1;
        }
        proof {
            assert(self@.sequence.take(i as int) =~= self@.sequence);
        }
        r
    }

    /// Looks up the shape with the given id, if any.
    pub fn get_shape_by_id(&self, shape_id: ShapeId) -> (r: Option<&Shape>)
        ensures
            match r {
                Some(shape) => self@.shapes.contains_key(shape_id) && *shape == self@.shapes[shape_id],
                None => !self@.shapes.contains_key(shape_id),
            },
    {
        self.shapes.get(&shape_id)
    }

    /// Returns the next unused shape id and advances the allocator, so that
    /// successive calls return strictly increasing ids.
    pub fn generate_shape_id(&mut self) -> (shape_id: ShapeId)
        requires
            old(self)@.next_shape_id < usize::MAX,
        ensures
            shape_id == old(self)@.next_shape_id,
            final(self)@ == (DocView { next_shape_id: old(self)@.next_shape_id + 1, ..old(self)@ }),
    {
        let shape_id = self.next_shape_id;
        self.next_shape_id = shape_id + 1;
        shape_id
    }

    /// The next id the allocator will hand out. Callers that must not run
    /// the allocator past the end of `usize` can check it here.
    pub fn next_shape_id(&self) -> (r: ShapeId)
        ensures
            r == self@.next_shape_id,
    {
        self.next_shape_id
    }

    /// The index of `shape_id` in the render order, if it is listed.
    fn position_in_sequence(&self, shape_id: ShapeId) -> (r: Option<usize>)
        ensures
            match r {
                Some(i) => i < self@.sequence.len() && self@.sequence[i as int] == shape_id
                    && forall|j: int| 0 <= j < i ==> self@.sequence[j] != shape_id,
                None => !self@.sequence.contains(shape_id),
            },
    {
        let mut i: usize = 0;
        while i < self.sequence.len()
            invariant
                i <= self@.sequence.len(),
                forall|j: int| 0 <= j < i ==> self@.sequence[j] != shape_id,
            decreases self@.sequence.len() - i,
        {
            if self.sequence[i] == shape_id {
                return Some(i);
            }
            i = i + 1;
        }
        None
    }

    /// Writes `shape` at `shape_id`, inserting it as the new topmost shape
    /// if the id was not present, and keeps `next_shape_id` above every id
    /// ever inserted.
    pub fn upsert_shape_with_id(&mut self, shape_id: ShapeId, shape: Shape)
        requires
            old(self)@.wf(),
            shape_id < usize::MAX,
        ensures
            final(self)@ == old(self)@.upserted(shape_id, shape),
            final(self)@.wf(),
    {
        // If the shape id is not listed in the sequence, add it at the top.
        if self.position_in_sequence(shape_id).is_none() {
            self.sequence.push(shape_id);
        }
        // Upsert into the shapes map.
        self.shapes.insert(shape_id, shape);
        // Keep next_shape_id greater than every shape id in the document.
        if self.next_shape_id <= shape_id {
            self.next_shape_id = shape_id + 1;
        }
        proof {
            assert(self@ =~= old(self)@.upserted(shape_id, shape));
            lemma_upserted_wf(old(self)@, shape_id, shape);
        }
    }

    /// Removes the shape with the given id from both the shape mapping and
    /// the render order. Deleting an absent id leaves the document
    /// untouched, not merely equivalent.
    pub fn delete_shape_with_id(&mut self, shape_id: ShapeId)
        requires
            old(self)@.wf(),
        ensures
            final(self)@ == old(self)@.deleted(shape_id),
            final(self)@.wf(),
            !old(self)@.shapes.contains_key(shape_id) ==> *final(self) == *old(self),
    {
        proof {
            lemma_deleted_wf(self@, shape_id);
        }
        match self.position_in_sequence(shape_id) {
            Some(idx) => {
                self.sequence.remove(idx);
                self.shapes.remove(&shape_id);
                proof {
                    old(self)@.sequence.index_of_first_ensures(shape_id);
                    assert(old(self)@.sequence.index_of_first(shape_id) == Some(idx as int));
                    assert(self@ =~= old(self)@.deleted(shape_id));
                }
            },
            None => {
                proof {
                    // Absent from the render order means absent from the
                    // shape mapping, so there is nothing to remove.
                    assert(!old(self)@.shapes.dom().contains(shape_id));
                    assert(self@ =~= old(self)@.deleted(shape_id));
                }
            },
        }
    }

    /// Replaces the geometry of the shape at `shape_id`, leaving its style
    /// untouched; does nothing if there is no such shape.
    pub fn update_geometry_for_shape_id(&mut self, shape_id: &ShapeId, new_geometry: Geometry)
        requires
            old(self)@.wf(),
        ensures
            final(self)@ == old(self)@.geometry_updated(*shape_id, new_geometry),
            final(self)@.wf(),
    {
        proof {
            lemma_geometry_updated_wf(self@, *shape_id, new_geometry);
        }
        let style = match self.shapes.get(shape_id) {
            Some(shape) => Some(shape.style),
            None => None,
        };
        match style {
            Some(style) => {
                self.shapes.insert(*shape_id, Shape { geometry: new_geometry, style });
                proof {
                    assert(self@ =~= old(self)@.geometry_updated(*shape_id, new_geometry));
                }
            },
            None => {
                proof {
                    assert(self@ =~= old(self)@.geometry_updated(*shape_id, new_geometry));
                }
            },
        }
    }

    /// Pulls the shape with the given id to the top of the render order,
    /// i.e. to the last position in the sequence; does nothing if the id is
    /// absent or already topmost.
    pub fn move_shape_with_id_to_top(&mut self, shape_id: ShapeId)
        requires
            old(self)@.wf(),
        ensures
            final(self)@ == old(self)@.moved_to_top(shape_id),
            final(self)@.wf(),
    {
        proof {
            lemma_moved_to_top_wf(self@, shape_id);
        }
        match self.position_in_sequence(shape_id) {
            Some(idx) => {
                if idx != self.sequence.len() - 1 {
                    self.sequence.remove(idx);
                    self.sequence.push(shape_id);
                    proof {
                        old(self)@.sequence.index_of_first_ensures(shape_id);
                        assert(old(self)@.sequence.index_of_first(shape_id) == Some(idx as int));
                        assert(old(self)@.sequence.last() != shape_id);
                        assert(self@ =~= old(self)@.moved_to_top(shape_id));
                    }
                } else {
                    proof {
                        assert(old(self)@.sequence.last() == shape_id);
                        assert(self@ =~= old(self)@.moved_to_top(shape_id));
                    }
                }
            },
            None => {
                proof {
                    assert(self@ =~= old(self)@.moved_to_top(shape_id));
                }
            },
        }
    }
}

/// Removing a value from a duplicate-free sequence removes exactly that
/// value from the set of its elements.
proof fn lemma_remove_value_set(s: Seq<ShapeId>, v: ShapeId)
    requires
        s.no_duplicates(),
        s.contains(v),
    ensures
        s.remove_value(v).no_duplicates(),
        s.remove_value(v).to_set() == s.to_set().remove(v),
        s.remove_value(v).len() == s.len() - 1,
{
    s.index_of_first_ensures(v);
    let i = s.index_of_first(v).unwrap();
    let t = s.remove_value(v);
    s.remove_ensures(i);
    assert(t.no_duplicates()) by {
        assert forall|p: int, q: int|
            0 <= p < t.len() && 0 <= q < t.len() && p != q implies t[p] != t[q] by {
            let p0: int = if p < i { p } else { p + 1 };
            let q0: int = if q < i { q } else { q + 1 };
            assert(t[p] == s[p0] && t[q] == s[q0]);
        }
    }
    assert(t.to_set() =~= s.to_set().remove(v)) by {
        assert forall|x: ShapeId| #[trigger] t.to_set().contains(x) implies s.to_set().contains(x)
            && x != v by {
            let p = choose|p: int| 0 <= p < t.len() && t[p] == x;
            let p0: int = if p < i { p } else { p + 1 };
            assert(s[p0] == x);
            if x == v {
                assert(s[i] == v && s[p0] == v && p0 != i);
            }
        }
        assert forall|x: ShapeId| s.to_set().contains(x) && x != v implies t.to_set().contains(
            x,
        ) by {
            let p0 = choose|p0: int| 0 <= p0 < s.len() && s[p0] == x;
            let p: int = if p0 < i { p0 } else { p0 - 1 };
            assert(p0 != i);
            assert(t[p] == s[p0]);
            assert(t.contains(x));
        }
    }
}

/// Deleting preserves the document invariant and never changes the id
/// allocator.
pub proof fn lemma_deleted_wf(v: DocView, shape_id: ShapeId)
    requires
        v.wf(),
    ensures
        v.deleted(shape_id).wf(),
        v.deleted(shape_id).next_shape_id == v.next_shape_id,
{
    let w = v.deleted(shape_id);
    if v.sequence.contains(shape_id) {
        lemma_remove_value_set(v.sequence, shape_id);
        assert(w.shapes.dom() =~= w.sequence.to_set());
    } else {
        assert(!v.shapes.dom().contains(shape_id));
        assert(w.shapes.dom() =~= v.shapes.dom());
    }
}

/// Updating a geometry preserves the document invariant and changes neither
/// the render order nor the id allocator.
pub proof fn lemma_geometry_updated_wf(v: DocView, shape_id: ShapeId, geometry: Geometry)
    requires
        v.wf(),
    ensures
        v.geometry_updated(shape_id, geometry).wf(),
        v.geometry_updated(shape_id, geometry).sequence == v.sequence,
        v.geometry_updated(shape_id, geometry).next_shape_id == v.next_shape_id,
{
    let w = v.geometry_updated(shape_id, geometry);
    if v.shapes.contains_key(shape_id) {
        assert(w.shapes.dom() =~= v.shapes.dom());
    }
}

/// Moving a shape to the top preserves the document invariant and changes
/// neither the shape mapping nor the id allocator.
pub proof fn lemma_moved_to_top_wf(v: DocView, shape_id: ShapeId)
    requires
        v.wf(),
    ensures
        v.moved_to_top(shape_id).wf(),
        v.moved_to_top(shape_id).shapes == v.shapes,
        v.moved_to_top(shape_id).next_shape_id == v.next_shape_id,
{
    let w = v.moved_to_top(shape_id);
    if v.sequence.contains(shape_id) && v.sequence.last() != shape_id {
        lemma_remove_value_set(v.sequence, shape_id);
        let t = v.sequence.remove_value(shape_id);
        assert(!t.to_set().contains(shape_id));
        assert(!t.contains(shape_id));
        t.lemma_push_to_set_commute(shape_id);
        assert(w.sequence.to_set() =~= v.sequence.to_set());
        assert forall|i: int, j: int|
            0 <= i < w.sequence.len() && 0 <= j < w.sequence.len() && i != j implies w.sequence[i]
            != w.sequence[j] by {
            if i < t.len() && j < t.len() {
                assert(t.no_duplicates());
            } else if i == t.len() {
                assert(t.contains(t[j]));
            } else if j == t.len() {
                assert(t.contains(t[i]));
            }
        }
        assert(w.sequence.no_duplicates());
    }
}

/// Upserting preserves the document invariant, and afterwards
/// `next_shape_id` strictly exceeds the upserted id and has not decreased.
pub proof fn lemma_upserted_wf(v: DocView, shape_id: ShapeId, shape: Shape)
    requires
        v.wf(),
    ensures
        v.upserted(shape_id, shape).wf(),
        v.upserted(shape_id, shape).next_shape_id > shape_id,
        v.upserted(shape_id, shape).next_shape_id >= v.next_shape_id,
{
    let w = v.upserted(shape_id, shape);
    if v.sequence.contains(shape_id) {
        assert(v.sequence.to_set().contains(shape_id));
        assert(w.shapes.dom() =~= v.sequence.to_set());
    } else {
        v.sequence.lemma_push_to_set_commute(shape_id);
        assert(w.shapes.dom() =~= w.sequence.to_set());
        assert(!v.shapes.dom().contains(shape_id));
        assert forall|i: int, j: int|
            0 <= i < w.sequence.len() && 0 <= j < w.sequence.len() && i != j implies w.sequence[i]
            != w.sequence[j] by {
            if i < v.sequence.len() && j < v.sequence.len() {
                assert(v.sequence.no_duplicates());
            } else if i == v.sequence.len() {
                assert(v.sequence.contains(v.sequence[j]));
            } else if j == v.sequence.len() {
                assert(v.sequence.contains(v.sequence[i]));
            }
        }
        assert(w.sequence.no_duplicates());
    }
}

/// When every listed id maps to a shape, the ordered pairs list the whole
/// render order: position `i` holds `sequence[i]` and its shape.
proof fn lemma_ordered_pairs_of_complete(shapes: Map<ShapeId, Shape>, sequence: Seq<ShapeId>)
    requires
        forall|i: int| 0 <= i < sequence.len() ==> shapes.contains_key(#[trigger] sequence[i]),
    ensures
        ordered_pairs_of(shapes, sequence).len() == sequence.len(),
        forall|i: int|
            0 <= i < sequence.len() ==> ordered_pairs_of(shapes, sequence)[i] == (
            sequence[i],
            shapes[sequence[i]],
            ),
    decreases sequence.len(),
{
    if sequence.len() > 0 {
        lemma_ordered_pairs_of_complete(shapes, sequence.drop_last());
    }
}

/// In a well-formed document nothing is defensively skipped: the rendered
/// pairs are exactly the render order, each id with its shape.
pub proof fn lemma_ordered_pairs_complete(v: DocView)
    requires
        v.wf(),
    ensures
        ordered_pairs(v).len() == v.sequence.len(),
        forall|i: int|
            0 <= i < v.sequence.len() ==> ordered_pairs(v)[i] == (
            v.sequence[i],
            v.shapes[v.sequence[i]],
            ),
{
    assert forall|i: int| 0 <= i < v.sequence.len() implies v.shapes.contains_key(
        #[trigger] v.sequence[i],
    ) by {
        assert(v.sequence.to_set().contains(v.sequence[i]));
    }
    lemma_ordered_pairs_of_complete(v.shapes, v.sequence);
}

/// The ids handed out by `n` successive calls of `generate_shape_id` on a
/// document whose allocator starts at `next0`: `next0, next0 + 1, ...`.
pub open spec fn generated_ids(next0: int, n: nat) -> Seq<int> {
    Seq::new(n, |k: int| next0 + k)
}

/// Successive generated ids are strictly increasing and pairwise distinct.
pub proof fn lemma_generated_ids_strictly_increasing(next0: int, n: nat)
    ensures
        forall|i: int, j: int|
            0 <= i < j < n ==> #[trigger] generated_ids(next0, n)[i] < #[trigger] generated_ids(
                next0,
                n,
            )[j],
{
}

/// Round trip: after upserting `shape` at `shape_id`, looking up `shape_id`
/// finds exactly `shape`.
pub proof fn lemma_upserted_get(v: DocView, shape_id: ShapeId, shape: Shape)
    ensures
        v.upserted(shape_id, shape).shapes.contains_key(shape_id),
        v.upserted(shape_id, shape).shapes[shape_id] == shape,
{
}

/// Idempotence: upserting the same shape at the same id twice in a row
/// yields the same document as upserting it once.
pub proof fn lemma_upserted_idempotent(v: DocView, shape_id: ShapeId, shape: Shape)
    ensures
        v.upserted(shape_id, shape).upserted(shape_id, shape) == v.upserted(shape_id, shape),
{
    let w = v.upserted(shape_id, shape);
    if !v.sequence.contains(shape_id) {
        assert(w.sequence[v.sequence.len() as int] == shape_id);
    }
    assert(w.sequence.contains(shape_id));
    assert(w.shapes.insert(shape_id, shape) =~= w.shapes);
    assert(w.upserted(shape_id, shape) =~= w);
}

/// Moving an already-topmost shape to the top leaves the document
/// unchanged, by value.
pub proof fn lemma_moved_to_top_topmost(v: DocView, shape_id: ShapeId)
    requires
        v.sequence.len() > 0,
        v.sequence.last() == shape_id,
    ensures
        v.moved_to_top(shape_id) == v,
{
}

/// Deleting an id that is not in the document leaves it unchanged, by
/// value.
pub proof fn lemma_deleted_absent(v: DocView, shape_id: ShapeId)
    requires
        v.wf(),
        !v.shapes.contains_key(shape_id),
    ensures
        v.deleted(shape_id) == v,
{
    assert(v.shapes.remove(shape_id) =~= v.shapes);
    assert(!v.sequence.to_set().contains(shape_id));
    assert(v.deleted(shape_id) =~= v);
}

} // verus!
