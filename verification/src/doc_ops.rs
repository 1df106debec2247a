//! Trace-level laws about the shape document: what holds after an
//! arbitrary sequence of mutating operations.
//!
//! Each mutating method of [`Document`](crate::shapes_doc::Document) is
//! specified against one transition function on views; a [`DocOp`] names
//! such a transition, so a `Seq<DocOp>` describes any sequence of calls,
//! and the laws below quantify over those sequences.

use vstd::prelude::*;
use crate::shapes::{Geometry, Shape};
use crate::shapes_doc::{
    DocView, ShapeId, lemma_deleted_wf, lemma_geometry_updated_wf, lemma_moved_to_top_wf,
    lemma_upserted_wf,
};

verus! {

/// One mutating call on a shape document.
pub enum DocOp {
    Upsert(ShapeId, Shape),
    Delete(ShapeId),
    UpdateGeometry(ShapeId, Geometry),
    MoveToTop(ShapeId),
}

/// The document after one mutating call.
pub open spec fn apply_op(v: DocView, op: DocOp) -> DocView {
    match op {
        DocOp::Upsert(shape_id, shape) => v.upserted(shape_id, shape),
        DocOp::Delete(shape_id) => v.deleted(shape_id),
        DocOp::UpdateGeometry(shape_id, geometry) => v.geometry_updated(shape_id, geometry),
        DocOp::MoveToTop(shape_id) => v.moved_to_top(shape_id),
    }
}

/// The document after a sequence of mutating calls, first call first.
pub open spec fn apply_ops(v: DocView, ops: Seq<DocOp>) -> DocView
    decreases ops.len(),
{
    if ops.len() == 0 {
        v
    } else {
        apply_ops(apply_op(v, ops[0]), ops.skip(1))
    }
}

/// One mutating call preserves the document invariant and never lowers
/// `next_shape_id`.
proof fn lemma_apply_op_wf(v: DocView, op: DocOp)
    requires
        v.wf(),
    ensures
        apply_op(v, op).wf(),
        apply_op(v, op).next_shape_id >= v.next_shape_id,
{
    match op {
        DocOp::Upsert(shape_id, shape) => lemma_upserted_wf(v, shape_id, shape),
        DocOp::Delete(shape_id) => lemma_deleted_wf(v, shape_id),
        DocOp::UpdateGeometry(shape_id, geometry) => lemma_geometry_updated_wf(
            v,
            shape_id,
            geometry,
        ),
        DocOp::MoveToTop(shape_id) => lemma_moved_to_top_wf(v, shape_id),
    }
}

/// Any sequence of mutating calls preserves the document invariant and
/// never lowers `next_shape_id`.
proof fn lemma_apply_ops_wf(v: DocView, ops: Seq<DocOp>)
    requires
        v.wf(),
    ensures
        apply_ops(v, ops).wf(),
        apply_ops(v, ops).next_shape_id >= v.next_shape_id,
    decreases ops.len(),
{
    if ops.len() > 0 {
        lemma_apply_op_wf(v, ops[0]);
        lemma_apply_ops_wf(apply_op(v, ops[0]), ops.skip(1));
    }
}

/// Applying a concatenation of call sequences applies the first, then the
/// second.
proof fn lemma_apply_ops_append(v: DocView, a: Seq<DocOp>, b: Seq<DocOp>)
    ensures
        apply_ops(v, a + b) == apply_ops(apply_ops(v, a), b),
    decreases a.len(),
{
    if a.len() == 0 {
        assert(a + b =~= b);
    } else {
        assert((a + b)[0] == a[0]);
        assert((a + b).skip(1) =~= a.skip(1) + b);
        lemma_apply_ops_append(apply_op(v, a[0]), a.skip(1), b);
    }
}

/// For every sequence of upsert, delete, update-geometry and move-to-top
/// calls on a well-formed document, the invariant holds after every call:
/// the render order and the shape-id set stay equal, with no duplicates,
/// and below the id allocator.
pub proof fn lemma_every_prefix_wf(v: DocView, ops: Seq<DocOp>)
    requires
        v.wf(),
    ensures
        forall|k: int| 0 <= k <= ops.len() ==> #[trigger] apply_ops(v, ops.take(k)).wf(),
{
    assert forall|k: int| 0 <= k <= ops.len() implies #[trigger] apply_ops(
        v,
        ops.take(k),
    ).wf() by {
        lemma_apply_ops_wf(v, ops.take(k));
    }
}

/// For every id ever passed to an upsert, `next_shape_id` strictly exceeds
/// that id from that call on, whatever calls follow.
pub proof fn lemma_next_id_exceeds_every_upserted_id(
    v: DocView,
    ops: Seq<DocOp>,
    k: int,
    shape_id: ShapeId,
    shape: Shape,
)
    requires
        v.wf(),
        0 <= k < ops.len(),
        ops[k] == DocOp::Upsert(shape_id, shape),
    ensures
        forall|m: int|
            k < m <= ops.len() ==> #[trigger] apply_ops(v, ops.take(m)).next_shape_id > shape_id,
{
    assert forall|m: int| k < m <= ops.len() implies #[trigger] apply_ops(
        v,
        ops.take(m),
    ).next_shape_id > shape_id by {
        let before = apply_ops(v, ops.take(k));
        lemma_apply_ops_wf(v, ops.take(k));
        assert(ops.take(k + 1) =~= ops.take(k).push(ops[k]));
        assert(ops.take(k).push(ops[k]) =~= ops.take(k) + seq![ops[k]]);
        lemma_apply_ops_append(v, ops.take(k), seq![ops[k]]);
        let s = seq![ops[k]];
        assert(s.skip(1) =~= Seq::<DocOp>::empty());
        assert(apply_ops(apply_op(before, ops[k]), s.skip(1)) == apply_op(before, ops[k]));
        assert(apply_ops(before, s) == apply_ops(apply_op(before, s[0]), s.skip(1)));
        lemma_upserted_wf(before, shape_id, shape);
        assert(apply_ops(v, ops.take(k + 1)).next_shape_id > shape_id);
        assert(ops.take(m) =~= ops.take(k + 1) + ops.subrange(k + 1, m));
        lemma_apply_ops_append(v, ops.take(k + 1), ops.subrange(k + 1, m));
        lemma_apply_ops_wf(apply_ops(v, ops.take(k + 1)), ops.subrange(k + 1, m));
    }
}

} // verus!
