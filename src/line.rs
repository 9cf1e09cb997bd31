use vstd::prelude::*;
use std::sync::Arc;
use crate::geometry::{Bounds, Pixels, Point, Size};
use crate::layout::{DecorationRun, LineLayout, WrapBoundary, WrappedLineLayout};
use crate::paint::{line_scene, paint_line, planned_ops, planned_outcome, LinePlan};
use smallvec::SmallVec;

verus! {

/// The decoration runs of a line, most often few enough to be held inline.
#[verifier::external_body]
pub struct DecorationRuns {
    runs: SmallVec<[DecorationRun; 32]>,
}

/// The runs that `v` holds, in order.
pub uninterp spec fn decoration_items(v: DecorationRuns) -> Seq<DecorationRun>;

/// Relies on `SmallVec::from_vec`: the vector holds the items of `runs`, in
/// order.
#[verifier::external_body]
fn decoration_runs_from(runs: Vec<DecorationRun>) -> (r: DecorationRuns)
    ensures
        decoration_items(r) == runs@,
{
    DecorationRuns { runs: SmallVec::from_vec(runs) }
}

/// Relies on `SmallVec::as_slice`: the slice of all items of the vector, in
/// order.
#[verifier::external_body]
fn decoration_slice(v: &DecorationRuns) -> (r: &[DecorationRun])
    ensures
        r@ == decoration_items(*v),
{
    v.runs.as_slice()
}

/// A shaped line of text on one row, with its decoration runs.
pub struct ShapedLine {
    pub layout: Arc<LineLayout>,
    pub text: String,
    pub decoration_runs: DecorationRuns,
}

impl ShapedLine {
    pub fn new(layout: Arc<LineLayout>, text: String, decoration_runs: Vec<DecorationRun>) -> (r: Self)
        ensures
            *r.layout == *layout,
            r.text@ == text@,
            decoration_items(r.decoration_runs) == decoration_runs@,
    {
        ShapedLine { layout, text, decoration_runs: decoration_runs_from(decoration_runs) }
    }

    /// Number of characters of the line.
    pub fn len(&self) -> (r: usize)
        ensures
            r == self.layout.len,
    {
        self.layout.len
    }

    /// The calls that paint the line at `origin` in rows of `line_height`;
    /// `metrics` and `content_mask` as for [`paint_line`].
    pub fn paint(
        &self,
        origin: Point,
        line_height: Pixels,
        metrics: &[Option<Size>],
        content_mask: Bounds,
    ) -> (r: LinePlan)
        ensures
            r.ops@ == planned_ops(
                line_scene(
                    origin,
                    *self.layout,
                    line_height,
                    decoration_items(self.decoration_runs),
                    None,
                    Seq::empty(),
                    metrics@,
                    content_mask,
                ),
            ),
            r.outcome == planned_outcome(
                line_scene(
                    origin,
                    *self.layout,
                    line_height,
                    decoration_items(self.decoration_runs),
                    None,
                    Seq::empty(),
                    metrics@,
                    content_mask,
                ),
            ),
    {
        let no_wraps: [WrapBoundary; 0] = [];
        let wraps = no_wraps.as_slice();
        assert(wraps@ == Seq::<WrapBoundary>::empty());
        paint_line(
            origin,
            &self.layout,
            line_height,
            decoration_slice(&self.decoration_runs),
            None,
            wraps,
            metrics,
            content_mask,
        )
    }
}

/// A shaped line broken into rows, with its decoration runs.
pub struct WrappedLine {
    pub layout: Arc<WrappedLineLayout>,
    pub text: String,
    pub decoration_runs: DecorationRuns,
}

impl WrappedLine {
    pub fn new(layout: Arc<WrappedLineLayout>, text: String, decoration_runs: Vec<DecorationRun>) -> (r: Self)
        ensures
            *r.layout == *layout,
            r.text@ == text@,
            decoration_items(r.decoration_runs) == decoration_runs@,
    {
        WrappedLine { layout, text, decoration_runs: decoration_runs_from(decoration_runs) }
    }

    /// Number of characters of the line.
    pub fn len(&self) -> (r: usize)
        ensures
            r == self.layout.unwrapped_layout.len,
    {
        self.layout.len()
    }

    /// The calls that paint the line at `origin`, one row of `line_height`
    /// per wrap boundary more; `metrics` and `content_mask` as for
    /// [`paint_line`].
    pub fn paint(
        &self,
        origin: Point,
        line_height: Pixels,
        metrics: &[Option<Size>],
        content_mask: Bounds,
    ) -> (r: LinePlan)
        requires
            self.layout.wrap_boundaries@.len() <= i32::MAX,
        ensures
            r.ops@ == planned_ops(
                line_scene(
                    origin,
                    self.layout.unwrapped_layout,
                    line_height,
                    decoration_items(self.decoration_runs),
                    self.layout.wrap_width,
                    self.layout.wrap_boundaries@,
                    metrics@,
                    content_mask,
                ),
            ),
            r.outcome == planned_outcome(
                line_scene(
                    origin,
                    self.layout.unwrapped_layout,
                    line_height,
                    decoration_items(self.decoration_runs),
                    self.layout.wrap_width,
                    self.layout.wrap_boundaries@,
                    metrics@,
                    content_mask,
                ),
            ),
    {
        paint_line(
            origin,
            &self.layout.unwrapped_layout,
            line_height,
            decoration_slice(&self.decoration_runs),
            self.layout.wrap_width,
            self.layout.wrap_boundaries.as_slice(),
            metrics,
            content_mask,
        )
    }
}

} // verus!
