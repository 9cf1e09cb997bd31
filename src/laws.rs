use vstd::prelude::*;
use crate::geometry::{box_intersects, PaintPoint};
use crate::layout::{resolved_underline, DecorationRun, WrapBoundary};
use crate::paint::{
    advance, apply_run, baseline_offset, close_open, draw, first_unmeasured, glyph_call,
    glyph_count, glyph_of, glyph_step, initial_pen, line_end_x, measured, pen_at, pen_ok,
    planned_ops, planned_outcome, run_box, scene_ok, underline_drop, underline_op, LineScene,
    PaintOp, Pen,
};

verus! {

/// `op` paints glyph `g` of run `r`: with the glyph's id, its run's font and
/// the layout's font size, as an emoji exactly when the glyph is one, at a
/// place where the bounding box of the run's font, its top on the glyph's
/// row, meets the clip region.
pub open spec fn paints_glyph(s: LineScene, r: int, g: int, op: PaintOp) -> bool {
    let glyph = glyph_of(s, r, g);
    let seen = |origin: PaintPoint, font_id: u32, glyph_id: u32, font_size: i32|
        {
            &&& 0 <= r < s.layout.runs@.len()
            &&& 0 <= g < glyph_count(s, r)
            &&& measured(s, r)
            &&& font_id == s.layout.runs@[r].font_id
            &&& glyph_id == glyph.id
            &&& font_size == s.layout.font_size
            &&& box_intersects(
                origin.x as int,
                origin.y - baseline_offset(s),
                run_box(s, r),
                s.mask,
            )
        };
    match op {
        PaintOp::Glyph { origin, font_id, glyph_id, font_size, .. } => !glyph.is_emoji && seen(
            origin,
            font_id,
            glyph_id,
            font_size,
        ),
        PaintOp::Emoji { origin, font_id, glyph_id, font_size } => glyph.is_emoji && seen(
            origin,
            font_id,
            glyph_id,
            font_size,
        ),
        PaintOp::Underline { .. } => false,
    }
}

/// An underline drawn with `style` was opened by a decoration run `k` that
/// has an underline.
pub open spec fn style_of_run(s: LineScene, k: int, style: crate::layout::UnderlineStyle) -> bool {
    &&& 0 <= k < s.runs.len()
    &&& s.runs[k].underline is Some
    &&& style == resolved_underline(s.runs[k], s.runs[k].underline->Some_0)
}

/// Shaped x at which visual row `k` starts: zero for the first row, else
/// the shaped x of the glyph at wrap boundary `k - 1`.
pub open spec fn row_start(s: LineScene, k: int) -> int {
    if k == 0 {
        0
    } else {
        glyph_of(s, s.wraps[k - 1].run_ix as int, s.wraps[k - 1].glyph_ix as int).position.x as int
    }
}

/// Shaping order: glyph `g` of run `r` comes at or before glyph `h` of run
/// `q`.
pub open spec fn lex_le(r: int, g: int, q: int, h: int) -> bool {
    r < q || (r == q && g <= h)
}

/// Shaping order, strict.
pub open spec fn lex_lt(r: int, g: int, q: int, h: int) -> bool {
    r < q || (r == q && g < h)
}

/// Wrap boundaries as a pass expects them: each names a glyph of the line,
/// and they ascend in shaping order without repeats.
pub open spec fn wraps_ok(s: LineScene) -> bool {
    &&& forall|k: int|
        0 <= k < s.wraps.len() ==> (#[trigger] s.wraps[k]).run_ix < s.layout.runs@.len()
            && s.wraps[k].glyph_ix < glyph_count(s, s.wraps[k].run_ix as int)
    &&& forall|i: int, j: int|
        0 <= i < j < s.wraps.len() ==> lex_lt(
            (#[trigger] s.wraps[i]).run_ix as int,
            s.wraps[i].glyph_ix as int,
            (#[trigger] s.wraps[j]).run_ix as int,
            s.wraps[j].glyph_ix as int,
        )
}

/// Glyph `g` of run `r` lies on visual row `k`, or is the glyph that starts
/// row `k + 1`: it comes at or after the boundary that starts row `k`, and at
/// or before the one that starts the next row.
pub open spec fn glyph_on_row(s: LineScene, k: int, r: int, g: int) -> bool {
    &&& (k == 0 || lex_le(
        s.wraps[k - 1].run_ix as int,
        s.wraps[k - 1].glyph_ix as int,
        r,
        g,
    ))
    &&& (k >= s.wraps.len() || lex_le(r, g, s.wraps[k].run_ix as int, s.wraps[k].glyph_ix as int))
}

/// `x` is a point of row `k`: the row's start, or the place of a glyph of
/// that row (or of the glyph that starts the next), measured from the row's
/// start.
pub open spec fn row_point(s: LineScene, k: int, x: int) -> bool {
    ||| x == s.origin.x
    ||| exists|r: int, g: int|
        #![trigger glyph_of(s, r, g)]
        0 <= r < s.layout.runs@.len() && 0 <= g < glyph_count(s, r) && glyph_on_row(s, k, r, g)
            && x == s.origin.x + glyph_of(s, r, g).position.x - row_start(s, k)
}

/// Before glyph `g` of run `r`: the wraps passed lie before it, and the next
/// one not before it.
spec fn at_pos(s: LineScene, p: Pen, r: int, g: int) -> bool {
    &&& (p.next_wrap == 0 || lex_lt(
        s.wraps[p.next_wrap - 1].run_ix as int,
        s.wraps[p.next_wrap - 1].glyph_ix as int,
        r,
        g,
    ))
    &&& (p.next_wrap < s.wraps.len() ==> lex_le(
        r,
        g,
        s.wraps[p.next_wrap as int].run_ix as int,
        s.wraps[p.next_wrap as int].glyph_ix as int,
    ))
}

/// An underline from `origin` of `width` lies on row `k`: it is drawn at that
/// row's height, and both its ends are points of that row; the end may also
/// be the line's end when `k` is the last row.
pub open spec fn on_row(s: LineScene, k: int, origin: PaintPoint, width: i64) -> bool {
    &&& 0 <= k <= s.wraps.len()
    &&& origin.y == s.origin.y + k * s.line_height + underline_drop(s)
    &&& row_point(s, k, origin.x as int)
    &&& (row_point(s, k, origin.x + width) || (origin.x + width == line_end_x(s) && k == s.wraps.len()))
}

/// An underline call drawn in the style of an underlined run, within one
/// visual row.
pub open spec fn underline_ok(s: LineScene, origin: PaintPoint, width: i64, style: crate::layout::UnderlineStyle) -> bool {
    &&& exists|k: int| #[trigger] style_of_run(s, k, style)
    &&& exists|k: int| #[trigger] on_row(s, k, origin, width)
}

/// What holds of each call of a pass: a glyph call only for a box that meets
/// the clip region; an underline call only in the style of an underlined run,
/// and within one visual row.
pub open spec fn call_ok(s: LineScene, op: PaintOp) -> bool {
    match op {
        PaintOp::Glyph { .. } | PaintOp::Emoji { .. } => exists|r: int, g: int|
            #[trigger] paints_glyph(s, r, g, op),
        PaintOp::Underline { origin, width, style } => underline_ok(s, origin, width, style),
    }
}

/// Counts that a machine holds: the number of runs and of glyphs of each run
/// fit in `usize`, as the lengths of any vector do.
pub open spec fn counts_fit(s: LineScene) -> bool {
    &&& s.layout.runs@.len() <= usize::MAX
    &&& forall|r: int| 0 <= r < s.layout.runs@.len() ==> glyph_count(s, r) <= usize::MAX
}

pub open spec fn calls_ok(s: LineScene, ops: Seq<PaintOp>) -> bool {
    forall|i: int| 0 <= i < ops.len() ==> call_ok(s, #[trigger] ops[i])
}

spec fn open_ok(s: LineScene, p: Pen) -> bool {
    &&& p.row_base == row_start(s, p.next_wrap as int)
    &&& match p.underline {
        Some((ux, _, st)) => (exists|k: int| #[trigger] style_of_run(s, k, st)) && row_point(
            s,
            p.next_wrap as int,
            ux,
        ),
        None => true,
    }
}

spec fn pen_good(s: LineScene, p: Pen) -> bool {
    pen_ok(s, p) && calls_ok(s, p.ops) && open_ok(s, p)
}

proof fn lemma_baseline_bound(s: LineScene)
    ensures
        -0x4_0000_0000 <= baseline_offset(s) <= 0x4_0000_0000,
{
    let n = s.line_height - s.layout.ascent - s.layout.descent;
    vstd::arithmetic::div_mod::lemma_fundamental_div_mod(n, 2);
}

proof fn lemma_drop_bound(s: LineScene)
    ensures
        -0x8_0000_0000 <= underline_drop(s) <= 0x8_0000_0000,
{
    lemma_baseline_bound(s);
    vstd::arithmetic::div_mod::lemma_fundamental_div_mod(s.layout.descent * 618, 1000);
}

proof fn lemma_row_bound(s: LineScene, p: Pen)
    requires
        scene_ok(s),
        counts_fit(s),
        wraps_ok(s),
        pen_ok(s, p),
    ensures
        -0x4000_0001_0000_0000 <= p.y <= 0x4000_0001_0000_0000,
{
    assert(-0x4000_0000_0000_0000 <= p.next_wrap * s.line_height <= 0x4000_0000_0000_0000)
        by (nonlinear_arith)
        requires
            0 <= p.next_wrap <= i32::MAX,
            i32::MIN <= s.line_height <= i32::MAX,
    ;
}

proof fn lemma_close(s: LineScene, p: Pen, end_x: int)
    requires
        scene_ok(s),
        counts_fit(s),
        wraps_ok(s),
        pen_good(s, p),
        row_point(s, p.next_wrap as int, end_x) || (end_x == line_end_x(s) && p.next_wrap
            == s.wraps.len()),
        s.origin.x - 0x1_0000_0000 <= end_x <= s.origin.x + 0x1_0000_0000,
    ensures
        calls_ok(s, close_open(s, p, end_x)),
{
    match p.underline {
        Some((ux, _, st)) => {
            let ops = close_open(s, p, end_x);
            lemma_baseline_bound(s);
            lemma_row_bound(s, p);
            lemma_drop_bound(s);
            let op = underline_op(s, p.y, ux, end_x, st);
            let origin = PaintPoint { x: ux as i64, y: (p.y + underline_drop(s)) as i64 };
            let width = (end_x - ux) as i64;
            assert(origin.x as int == ux);
            assert(origin.x + width == end_x);
            assert(origin.y == s.origin.y + p.next_wrap * s.line_height + underline_drop(s));
            assert(row_point(s, p.next_wrap as int, origin.x as int));
            assert(on_row(s, p.next_wrap as int, origin, width));
            assert(exists|k: int| #[trigger] style_of_run(s, k, st));
            assert(op == PaintOp::Underline { origin, width, style: st });
            assert(underline_ok(s, origin, width, st));
            assert(call_ok(s, op));
            assert forall|i: int| 0 <= i < ops.len() implies call_ok(s, #[trigger] ops[i]) by {
                if i < p.ops.len() {
                    assert(ops[i] == p.ops[i]);
                }
            }
        },
        None => {},
    }
}

proof fn lemma_advance(s: LineScene, p: Pen, r: int, g: int)
    requires
        scene_ok(s),
        counts_fit(s),
        wraps_ok(s),
        pen_good(s, p),
        0 <= r < s.layout.runs@.len(),
        0 <= g < glyph_count(s, r),
        at_pos(s, p, r, g),
    ensures
        pen_good(s, advance(s, p, r, g)),
        advance(s, p, r, g).prev_x == glyph_of(s, r, g).position.x,
        advance(s, p, r, g).next_wrap == p.next_wrap || advance(s, p, r, g).next_wrap == p.next_wrap + 1,
        glyph_on_row(s, advance(s, p, r, g).next_wrap as int, r, g),
        at_pos(s, advance(s, p, r, g), r, g + 1),
{
    let pos = glyph_of(s, r, g).position.x as int;
    let x = p.x + pos - p.prev_x;
    assert(r as usize as int == r && g as usize as int == g);
    if p.next_wrap < s.wraps.len() && s.wraps[p.next_wrap as int] == (WrapBoundary {
        run_ix: r as usize,
        glyph_ix: g as usize,
    }) {
        assert(glyph_on_row(s, p.next_wrap as int, r, g));
        assert(row_point(s, p.next_wrap as int, x));
        lemma_close(s, p, x);
        let w = s.wraps[p.next_wrap as int];
        assert(w.run_ix as int == r && w.glyph_ix as int == g);
        let k = (p.next_wrap + 1) as int;
        assert(s.wraps[k - 1] == w);
        assert(glyph_of(s, w.run_ix as int, w.glyph_ix as int) == glyph_of(s, r, g));
        assert(row_start(s, k) == pos);
        if k < s.wraps.len() {
            let nx = s.wraps[k];
            assert(lex_lt(w.run_ix as int, w.glyph_ix as int, nx.run_ix as int, nx.glyph_ix as int));
        }
        assert(glyph_on_row(s, k, r, g));
        assert((p.next_wrap + 1) * s.line_height == p.next_wrap * s.line_height + s.line_height)
            by (nonlinear_arith);
    }
}

proof fn lemma_apply_run(s: LineScene, p: Pen, r: int, g: int)
    requires
        scene_ok(s),
        counts_fit(s),
        wraps_ok(s),
        pen_good(s, p),
        0 <= r < s.layout.runs@.len(),
        0 <= g < glyph_count(s, r),
        p.prev_x == glyph_of(s, r, g).position.x,
        glyph_on_row(s, p.next_wrap as int, r, g),
    ensures
        pen_good(s, apply_run(s, p)),
{
    assert(row_point(s, p.next_wrap as int, p.x));
    lemma_close(s, p, p.x);
    if p.next_run < s.runs.len() {
        let k = p.next_run as int;
        let run = s.runs[k];
        if run.underline is Some {
            assert(style_of_run(s, k, resolved_underline(run, run.underline->Some_0)));
        }
        assert(usize::MAX + (p.next_run + 1) * u32::MAX == usize::MAX + p.next_run * u32::MAX
            + u32::MAX) by (nonlinear_arith);
    }
}

proof fn lemma_draw(s: LineScene, p: Pen, r: int, g: int)
    requires
        scene_ok(s),
        counts_fit(s),
        wraps_ok(s),
        pen_good(s, p),
        measured(s, r),
        0 <= r < s.layout.runs@.len(),
        0 <= g < glyph_count(s, r),
    ensures
        pen_good(s, draw(s, p, r, g)),
{
    if box_intersects(p.x, p.y, run_box(s, r), s.mask) {
        lemma_baseline_bound(s);
        lemma_row_bound(s, p);
        let op = glyph_call(s, p, r, g);
        let origin = PaintPoint { x: p.x as i64, y: (p.y + baseline_offset(s)) as i64 };
        assert(paints_glyph(s, r, g, op));
        assert(call_ok(s, op));
        let ops = p.ops.push(op);
        assert forall|i: int| 0 <= i < ops.len() implies call_ok(s, #[trigger] ops[i]) by {
            if i < p.ops.len() {
                assert(ops[i] == p.ops[i]);
            }
        }
    }
}

proof fn lemma_glyph_step(s: LineScene, p: Pen, r: int, g: int)
    requires
        scene_ok(s),
        counts_fit(s),
        wraps_ok(s),
        pen_good(s, p),
        measured(s, r),
        r < s.layout.runs@.len(),
        0 <= g < glyph_count(s, r),
        at_pos(s, p, r, g),
    ensures
        pen_good(s, glyph_step(s, p, r, g)),
        at_pos(s, glyph_step(s, p, r, g), r, g + 1),
{
    let moved = advance(s, p, r, g);
    lemma_advance(s, p, r, g);
    if glyph_of(s, r, g).index >= moved.run_end {
        lemma_apply_run(s, moved, r, g);
        lemma_draw(s, apply_run(s, moved), r, g);
    } else {
        lemma_draw(s, moved, r, g);
    }
}

proof fn lemma_pen_at(s: LineScene, r: nat, g: nat)
    requires
        scene_ok(s),
        counts_fit(s),
        wraps_ok(s),
        forall|i: int| 0 <= i < r ==> measured(s, i),
        g > 0 ==> measured(s, r as int),
        r <= s.layout.runs@.len(),
        r < s.layout.runs@.len() ==> g <= glyph_count(s, r as int),
        r == s.layout.runs@.len() ==> g == 0,
    ensures
        pen_good(s, pen_at(s, r, g)),
        at_pos(s, pen_at(s, r, g), r as int, g as int),
    decreases r, g,
{
    if g > 0 {
        lemma_pen_at(s, r, (g - 1) as nat);
        lemma_glyph_step(s, pen_at(s, r, (g - 1) as nat), r as int, g - 1);
    } else if r > 0 {
        let c = glyph_count(s, r - 1);
        lemma_pen_at(s, (r - 1) as nat, c);
        let p = pen_at(s, (r - 1) as nat, c);
        if p.next_wrap < s.wraps.len() {
            let w = s.wraps[p.next_wrap as int];
            assert(w.glyph_ix < glyph_count(s, w.run_ix as int));
        }
    } else {
        assert(pen_good(s, initial_pen(s)));
    }
}

proof fn lemma_first_unmeasured_prefix(s: LineScene, k: nat)
    ensures
        k <= first_unmeasured(s, k),
        k <= s.layout.runs@.len() ==> first_unmeasured(s, k) <= s.layout.runs@.len(),
        forall|i: int| k <= i < first_unmeasured(s, k) ==> measured(s, i),
        first_unmeasured(s, k) < s.layout.runs@.len() ==> !measured(s, first_unmeasured(s, k) as int),
    decreases s.layout.runs@.len() - k,
{
    if k < s.layout.runs@.len() && measured(s, k as int) {
        lemma_first_unmeasured_prefix(s, k + 1);
    }
}

proof fn lemma_calls_ok(s: LineScene)
    requires
        scene_ok(s),
        counts_fit(s),
        wraps_ok(s),
    ensures
        calls_ok(s, planned_ops(s)),
{
    let f = first_unmeasured(s, 0);
    lemma_first_unmeasured_prefix(s, 0);
    lemma_pen_at(s, f, 0);
    if f >= s.layout.runs@.len() {
        let p = pen_at(s, f, 0);
        if p.next_wrap < s.wraps.len() {
            let w = s.wraps[p.next_wrap as int];
            assert(w.run_ix < s.layout.runs@.len());
        }
        lemma_close(s, p, line_end_x(s));
    }
}

/// A glyph or emoji call paints one glyph of the line, whose box meets the
/// clip region; an emoji glyph only by an emoji call, any other glyph only by
/// a glyph call.
pub open spec fn in_mask(s: LineScene, op: PaintOp) -> bool {
    match op {
        PaintOp::Glyph { .. } | PaintOp::Emoji { .. } => exists|r: int, g: int|
            #[trigger] paints_glyph(s, r, g, op),
        PaintOp::Underline { .. } => true,
    }
}

/// An underline call lies within one visual row.
pub open spec fn within_row(s: LineScene, op: PaintOp) -> bool {
    match op {
        PaintOp::Underline { origin, width, .. } => exists|k: int| #[trigger] on_row(s, k, origin, width),
        _ => true,
    }
}

/// An underline call is drawn in the style of an underlined decoration run.
pub open spec fn styled_by_run(s: LineScene, op: PaintOp) -> bool {
    match op {
        PaintOp::Underline { style, .. } => exists|k: int| #[trigger] style_of_run(s, k, style),
        _ => true,
    }
}

/// Clipping and emoji: every glyph or emoji call of a pass paints one glyph
/// of the line, with that glyph's id and its run's font, at a place where the
/// bounding box of the run's font meets the clip region, so a glyph wholly
/// outside it is never painted; an emoji glyph is painted only by an emoji
/// call, whatever the text color, and any other glyph only by a glyph call.
pub proof fn lemma_clipped(s: LineScene)
    requires
        scene_ok(s),
        counts_fit(s),
        wraps_ok(s),
    ensures
        forall|i: int| 0 <= i < planned_ops(s).len() ==> in_mask(s, #[trigger] planned_ops(s)[i]),
{
    lemma_calls_ok(s);
    assert forall|i: int| 0 <= i < planned_ops(s).len() implies in_mask(s, #[trigger] planned_ops(s)[i]) by {
        assert(call_ok(s, planned_ops(s)[i]));
    }
}

/// Wrapping: no underline call crosses a change of visual row. With wrap
/// boundaries that name glyphs of the line in ascending order, each underline
/// is drawn at the height of one row `k`; its start is that row's start or
/// the place of a glyph of row `k`, and its end is the place of a glyph of
/// row `k` or of the glyph that starts row `k + 1`, both measured from the
/// start of row `k`, or, on the last row only, the line's end.
pub proof fn lemma_underlines_within_rows(s: LineScene)
    requires
        scene_ok(s),
        counts_fit(s),
        wraps_ok(s),
    ensures
        forall|i: int| 0 <= i < planned_ops(s).len() ==> within_row(s, #[trigger] planned_ops(s)[i]),
{
    lemma_calls_ok(s);
    assert forall|i: int| 0 <= i < planned_ops(s).len() implies within_row(s, #[trigger] planned_ops(s)[i]) by {
        assert(call_ok(s, planned_ops(s)[i]));
    }
}

/// Every underline call is drawn in the style of a decoration run that has an
/// underline; runs without one draw none.
pub proof fn lemma_underlines_from_runs(s: LineScene)
    requires
        scene_ok(s),
        counts_fit(s),
        wraps_ok(s),
    ensures
        forall|i: int| 0 <= i < planned_ops(s).len() ==> styled_by_run(s, #[trigger] planned_ops(s)[i]),
{
    lemma_calls_ok(s);
    assert forall|i: int| 0 <= i < planned_ops(s).len() implies styled_by_run(s, #[trigger] planned_ops(s)[i]) by {
        assert(call_ok(s, planned_ops(s)[i]));
    }
}

/// Painting is a function of its inputs: two passes over equal inputs make
/// the same calls in the same order and end the same way.
pub proof fn lemma_paint_deterministic(a: LineScene, b: LineScene)
    requires
        a == b,
    ensures
        planned_ops(a) == planned_ops(b),
        planned_outcome(a) == planned_outcome(b),
{
}


/// Character offset at which decoration run `i` starts.
pub open spec fn run_start(runs: Seq<DecorationRun>, i: int) -> int
    decreases i,
{
    if i <= 0 {
        0
    } else {
        run_start(runs, i - 1) + runs[i - 1].len
    }
}

/// Whether run `i` is the last of a maximal group of consecutive runs with
/// one and the same underline.
pub open spec fn ends_group(runs: Seq<DecorationRun>, i: int) -> bool {
    &&& runs[i].underline is Some
    &&& (i + 1 == runs.len() || runs[i + 1].underline != runs[i].underline)
}

/// Number of maximal underlined groups that end among the first `i` runs.
pub open spec fn group_ends(runs: Seq<DecorationRun>, i: int) -> nat
    decreases i,
{
    if i <= 0 {
        0
    } else {
        group_ends(runs, i - 1) + if ends_group(runs, i - 1) {
            1nat
        } else {
            0nat
        }
    }
}

/// Number of underline calls among `ops`.
pub open spec fn underline_calls(ops: Seq<PaintOp>) -> nat
    decreases ops.len(),
{
    if ops.len() == 0 {
        0
    } else {
        underline_calls(ops.drop_last()) + if ops.last() is Underline {
            1nat
        } else {
            0nat
        }
    }
}

/// Number of glyphs in the shaped runs before run `r`.
pub open spec fn glyphs_before(s: LineScene, r: int) -> int
    decreases r,
{
    if r <= 0 {
        0
    } else {
        glyphs_before(s, r - 1) + glyph_count(s, r - 1)
    }
}

/// A line without wraps, all fonts measured, one glyph per character in
/// text order, whose decoration runs are non-empty and cover it exactly.
pub open spec fn glyph_per_char(s: LineScene) -> bool {
    &&& forall|r: int| 0 <= r < s.layout.runs@.len() ==> measured(s, r)
    &&& s.wraps.len() == 0
    &&& glyphs_before(s, s.layout.runs@.len() as int) == s.layout.len
    &&& forall|r: int, g: int|
        0 <= r < s.layout.runs@.len() && 0 <= g < glyph_count(s, r) ==> (#[trigger] glyph_of(s, r, g)).index
            == glyphs_before(s, r) + g
    &&& forall|i: int| 0 <= i < s.runs.len() ==> (#[trigger] s.runs[i]).len >= 1
    &&& run_start(s.runs, s.runs.len() as int) == s.layout.len
}

proof fn lemma_glyphs_before_grows(s: LineScene, r: int, q: int)
    requires
        0 <= r <= q,
    ensures
        glyphs_before(s, r) <= glyphs_before(s, q),
    decreases q - r,
{
    if r < q {
        lemma_glyphs_before_grows(s, r, q - 1);
    }
}

proof fn lemma_underline_calls_push(ops: Seq<PaintOp>, op: PaintOp)
    ensures
        underline_calls(ops.push(op)) == underline_calls(ops) + if op is Underline {
            1nat
        } else {
            0nat
        },
{
    assert(ops.push(op).drop_last() =~= ops);
}

proof fn lemma_run_start_increasing(runs: Seq<DecorationRun>, i: int, j: int)
    requires
        0 <= i < j <= runs.len(),
        forall|k: int| 0 <= k < runs.len() ==> (#[trigger] runs[k]).len >= 1,
    ensures
        run_start(runs, i) < run_start(runs, j),
    decreases j - i,
{
    if i + 1 < j {
        lemma_run_start_increasing(runs, i, j - 1);
    }
}

spec fn count_inv(s: LineScene, p: Pen, g: int) -> bool {
    if g == 0 {
        &&& p.next_run == 0
        &&& p.run_end == 0
        &&& p.underline is None
        &&& underline_calls(p.ops) == 0
    } else {
        let m = p.next_run as int;
        &&& 1 <= m <= s.runs.len()
        &&& p.run_end == run_start(s.runs, m)
        &&& run_start(s.runs, m - 1) <= g - 1 < run_start(s.runs, m)
        &&& match s.runs[m - 1].underline {
            Some(u) => p.underline is Some && p.underline->Some_0.1 == u,
            None => p.underline is None,
        }
        &&& underline_calls(p.ops) == group_ends(s.runs, m - 1)
    }
}

proof fn lemma_count_step(s: LineScene, p: Pen, r: int, h: int, g: int)
    requires
        glyph_per_char(s),
        0 <= r < s.layout.runs@.len(),
        0 <= h < glyph_count(s, r),
        g == glyphs_before(s, r) + h,
        g < s.layout.len,
        count_inv(s, p, g),
    ensures
        count_inv(s, glyph_step(s, p, r, h), g + 1),
{
    let moved = advance(s, p, r, h);
    assert(moved.ops == p.ops && moved.underline == p.underline && moved.run_end == p.run_end
        && moved.next_run == p.next_run);
    assert(glyph_of(s, r, h).index == g);
    let styled = if g >= moved.run_end {
        apply_run(s, moved)
    } else {
        moved
    };
    let m = p.next_run as int;
    if g >= moved.run_end {
        assert(m < s.runs.len()) by {
            if m == s.runs.len() {
                assert(run_start(s.runs, m) == s.layout.len);
            }
        }
        assert(run_start(s.runs, 0) == 0);
        let run = s.runs[m];
        assert(run.len >= 1);
        assert(run_start(s.runs, m + 1) == run_start(s.runs, m) + run.len);
        if g > 0 {
            assert(g == run_start(s.runs, m));
            let prev = s.runs[m - 1];
            match prev.underline {
                Some(u) => {
                    let ends = run.underline != Some(u);
                    assert(ends_group(s.runs, m - 1) == ends);
                    if ends {
                        lemma_underline_calls_push(
                            moved.ops,
                            crate::paint::underline_op(s, moved.y, moved.underline->Some_0.0, moved.x, moved.underline->Some_0.2),
                        );
                    }
                },
                None => {
                    assert(!ends_group(s.runs, m - 1));
                },
            }
            assert(group_ends(s.runs, m) == group_ends(s.runs, m - 1) + if ends_group(s.runs, m - 1) {
                1nat
            } else {
                0nat
            });
        }
    }
    if box_intersects(styled.x, styled.y, run_box(s, r), s.mask) {
        lemma_underline_calls_push(styled.ops, glyph_call(s, styled, r, h));
    }
}

proof fn lemma_count_pen(s: LineScene, r: nat, h: nat)
    requires
        glyph_per_char(s),
        r <= s.layout.runs@.len(),
        r < s.layout.runs@.len() ==> h <= glyph_count(s, r as int),
        r == s.layout.runs@.len() ==> h == 0,
    ensures
        count_inv(s, pen_at(s, r, h), glyphs_before(s, r as int) + h),
    decreases r, h,
{
    if h > 0 {
        lemma_count_pen(s, r, (h - 1) as nat);
        lemma_glyphs_before_grows(s, (r + 1) as int, s.layout.runs@.len() as int);
        lemma_count_step(s, pen_at(s, r, (h - 1) as nat), r as int, h - 1, glyphs_before(s, r as int) + h - 1);
    } else if r > 0 {
        lemma_count_pen(s, (r - 1) as nat, glyph_count(s, r - 1));
    }
}

/// Underlines follow the decoration runs: on a line without wraps, with all
/// fonts measured and one glyph per character in text order, whose decoration
/// runs are non-empty and cover it exactly, a pass makes exactly one underline call per maximal group of consecutive
/// runs that share one underline, and none for runs without an underline.
pub proof fn lemma_one_underline_per_group(s: LineScene)
    requires
        glyph_per_char(s),
    ensures
        underline_calls(planned_ops(s)) == group_ends(s.runs, s.runs.len() as int),
{
    let n = s.layout.len;
    let nr = s.layout.runs@.len();
    lemma_count_pen(s, nr, 0);
    lemma_first_unmeasured_prefix(s, 0);
    assert(first_unmeasured(s, 0) == nr);
    let p = pen_at(s, nr, 0);
    let r = s.runs.len() as int;
    if n == 0 {
        if r > 0 {
            lemma_run_start_increasing(s.runs, 0, r);
        }
        assert(r == 0);
    } else {
        let m = p.next_run as int;
        if m < r {
            lemma_run_start_increasing(s.runs, m, r);
        }
        assert(m == r);
        match s.runs[r - 1].underline {
            Some(u) => {
                lemma_underline_calls_push(
                    p.ops,
                    crate::paint::underline_op(s, p.y, p.underline->Some_0.0, line_end_x(s), p.underline->Some_0.2),
                );
                assert(ends_group(s.runs, r - 1));
            },
            None => {
                assert(!ends_group(s.runs, r - 1));
            },
        }
        assert(group_ends(s.runs, r) == group_ends(s.runs, r - 1) + if ends_group(s.runs, r - 1) {
            1nat
        } else {
            0nat
        });
    }
}


/// The calls among `ops` that paint glyphs or emoji, in order.
pub open spec fn glyph_calls(ops: Seq<PaintOp>) -> Seq<PaintOp>
    decreases ops.len(),
{
    if ops.len() == 0 {
        Seq::empty()
    } else if ops.last() is Underline {
        glyph_calls(ops.drop_last())
    } else {
        glyph_calls(ops.drop_last()).push(ops.last())
    }
}

/// The pen as glyph `g` of run `r` is placed: moved to it, with its
/// decoration run applied.
pub open spec fn placed(s: LineScene, r: nat, g: nat) -> Pen {
    let moved = advance(s, pen_at(s, r, g), r as int, g as int);
    if glyph_of(s, r as int, g as int).index >= moved.run_end {
        apply_run(s, moved)
    } else {
        moved
    }
}

/// One call for each glyph before glyph `g` of run `r`, in shaping order,
/// whose box at its place meets the clip region.
pub open spec fn seen_glyph_calls(s: LineScene, r: nat, g: nat) -> Seq<PaintOp>
    decreases r, g,
{
    if g > 0 {
        let before = seen_glyph_calls(s, r, (g - 1) as nat);
        let p = placed(s, r, (g - 1) as nat);
        if box_intersects(p.x, p.y, run_box(s, r as int), s.mask) {
            before.push(glyph_call(s, p, r as int, g - 1))
        } else {
            before
        }
    } else if r > 0 {
        seen_glyph_calls(s, (r - 1) as nat, glyph_count(s, r - 1))
    } else {
        Seq::empty()
    }
}

proof fn lemma_glyph_calls_close(s: LineScene, p: Pen, end_x: int)
    ensures
        glyph_calls(close_open(s, p, end_x)) == glyph_calls(p.ops),
{
    match p.underline {
        Some((ux, _, st)) => {
            assert(p.ops.push(underline_op(s, p.y, ux, end_x, st)).drop_last() =~= p.ops);
        },
        None => {},
    }
}

proof fn lemma_glyph_calls_pen(s: LineScene, r: nat, g: nat)
    ensures
        glyph_calls(pen_at(s, r, g).ops) == seen_glyph_calls(s, r, g),
    decreases r, g,
{
    if g > 0 {
        lemma_glyph_calls_pen(s, r, (g - 1) as nat);
        let p = pen_at(s, r, (g - 1) as nat);
        let moved = advance(s, p, r as int, g - 1);
        if moved.next_wrap != p.next_wrap {
            lemma_glyph_calls_close(s, p, p.x + glyph_of(s, r as int, g - 1).position.x - p.prev_x);
        }
        assert(glyph_calls(moved.ops) == glyph_calls(p.ops));
        let styled = placed(s, r, (g - 1) as nat);
        if glyph_of(s, r as int, g - 1).index >= moved.run_end {
            lemma_glyph_calls_close(s, moved, moved.x);
        }
        assert(glyph_calls(styled.ops) == glyph_calls(p.ops));
        if box_intersects(styled.x, styled.y, run_box(s, r as int), s.mask) {
            let op = glyph_call(s, styled, r as int, g - 1);
            assert(styled.ops.push(op).drop_last() =~= styled.ops);
        }
    } else if r > 0 {
        lemma_glyph_calls_pen(s, (r - 1) as nat, glyph_count(s, r - 1));
    }
}

/// Glyph calls: leaving out the underline calls, a pass makes exactly one
/// call for each glyph, in shaping order, whose box at its place meets the
/// clip region, and none for any other glyph, up to the first run whose font
/// is not measured.
pub proof fn lemma_one_call_per_seen_glyph(s: LineScene)
    ensures
        glyph_calls(planned_ops(s)) == seen_glyph_calls(s, first_unmeasured(s, 0), 0),
{
    let f = first_unmeasured(s, 0);
    lemma_glyph_calls_pen(s, f, 0);
    lemma_glyph_calls_close(s, pen_at(s, f, 0), line_end_x(s));
}

} // verus!
