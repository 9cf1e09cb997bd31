use vstd::prelude::*;
use crate::geometry::{box_intersects, black, black_spec, intersects, Bounds, Hsla, PaintPoint, Pixels, Point, Size};
use crate::layout::{resolve_underline, resolved_underline, DecorationRun, Glyph, LineLayout, UnderlineStyle, WrapBoundary};

verus! {

/// One primitive call on the surface a line is painted into.
#[derive(Clone, Copy, Debug, PartialEq, Eq, Structural)]
pub enum PaintOp {
    Glyph { origin: PaintPoint, font_id: u32, glyph_id: u32, font_size: Pixels, color: Hsla },
    Emoji { origin: PaintPoint, font_id: u32, glyph_id: u32, font_size: Pixels },
    Underline { origin: PaintPoint, width: i64, style: UnderlineStyle },
}

/// Why painting a line stopped.
#[derive(Clone, Copy, Debug, PartialEq, Eq, Structural)]
pub enum PaintError {
    /// The glyph bounding box of a run's font is not known.
    FontMetricsUnavailable,
    /// The surface refused a primitive call.
    PrimitiveRejected,
}

/// What painting a line does: the primitive calls in order, and how the pass
/// ends once every one of them has succeeded.
#[derive(Debug)]
pub struct LinePlan {
    pub ops: Vec<PaintOp>,
    pub outcome: Result<(), PaintError>,
}

/// Everything a paint pass reads. `metrics[r]` is the glyph bounding box of
/// run `r`'s font at the layout's font size, `None` where it is unknown.
pub struct LineScene {
    pub origin: Point,
    pub line_height: Pixels,
    pub layout: LineLayout,
    pub runs: Seq<DecorationRun>,
    pub wrap_width: Option<Pixels>,
    pub wraps: Seq<WrapBoundary>,
    pub metrics: Seq<Option<Size>>,
    pub mask: Bounds,
}

/// The painter's position within a pass, after some glyphs.
pub struct Pen {
    /// Where the next glyph is placed.
    pub x: int,
    pub y: int,
    /// Shaped x offset of the last glyph placed.
    pub prev_x: int,
    /// Shaped x offset at which the current visual row starts.
    pub row_base: int,
    /// Wrap boundaries passed so far.
    pub next_wrap: nat,
    /// Decoration runs applied so far.
    pub next_run: nat,
    /// Character offset where the last applied decoration run ends.
    pub run_end: int,
    pub color: Hsla,
    /// The underline being drawn: its start x, the style its decoration run
    /// gave, and that style with the color filled in, which it is drawn with.
    pub underline: Option<(int, UnderlineStyle, UnderlineStyle)>,
    /// Calls emitted so far.
    pub ops: Seq<PaintOp>,
}

pub open spec fn glyph_of(s: LineScene, r: int, g: int) -> Glyph {
    s.layout.runs@[r].glyphs@[g]
}

pub open spec fn glyph_count(s: LineScene, r: int) -> nat {
    s.layout.runs@[r].glyphs@.len()
}

/// Whether the bounding box of run `r`'s font is known.
pub open spec fn measured(s: LineScene, r: int) -> bool {
    0 <= r < s.metrics.len() && s.metrics[r] is Some
}

pub open spec fn run_box(s: LineScene, r: int) -> Size {
    match s.metrics[r] {
        Some(z) => z,
        None => Size { width: 0, height: 0 },
    }
}

/// Offset from a row's top to the baseline: the font's ascent below half of
/// the space the line height leaves around the font.
pub open spec fn baseline_offset(s: LineScene) -> int {
    (s.line_height - s.layout.ascent - s.layout.descent) / 2 + s.layout.ascent
}

/// Offset from a row's top to its underlines: below the baseline by 0.618
/// of the descent.
pub open spec fn underline_drop(s: LineScene) -> int {
    baseline_offset(s) + s.layout.descent * 618 / 1000
}

/// The x where the line ends: the origin plus the layout's width, or the wrap
/// width where that is narrower.
pub open spec fn line_end_x(s: LineScene) -> int {
    s.origin.x + match s.wrap_width {
        Some(w) => if w < s.layout.width { w as int } else { s.layout.width as int },
        None => s.layout.width as int,
    }
}

/// An underline on the row whose top is at `row_y`, from `start_x` to
/// `end_x`.
pub open spec fn underline_op(s: LineScene, row_y: int, start_x: int, end_x: int, style: UnderlineStyle) -> PaintOp {
    PaintOp::Underline {
        origin: PaintPoint { x: start_x as i64, y: (row_y + underline_drop(s)) as i64 },
        width: (end_x - start_x) as i64,
        style,
    }
}

/// `ops` followed by the underline that is open, if any, closed at `end_x` on
/// the pen's row.
pub open spec fn close_open(s: LineScene, p: Pen, end_x: int) -> Seq<PaintOp> {
    match p.underline {
        Some((ux, _, st)) => p.ops.push(underline_op(s, p.y, ux, end_x, st)),
        None => p.ops,
    }
}

pub open spec fn initial_pen(s: LineScene) -> Pen {
    Pen {
        x: s.origin.x as int,
        y: s.origin.y as int,
        prev_x: 0,
        row_base: 0,
        next_wrap: 0,
        next_run: 0,
        run_end: 0,
        color: black_spec(),
        underline: None,
        ops: Seq::empty(),
    }
}

/// Moves the pen to glyph `g` of run `r`, starting a new row first where the
/// glyph is the next wrap boundary. An open underline ends at the wrap, and
/// goes on from the new row's start while the glyph is still within the same
/// decoration run.
pub open spec fn advance(s: LineScene, p: Pen, r: int, g: int) -> Pen {
    let pos = glyph_of(s, r, g).position.x as int;
    let x = p.x + pos - p.prev_x;
    if p.next_wrap < s.wraps.len() && s.wraps[p.next_wrap as int] == (WrapBoundary {
        run_ix: r as usize,
        glyph_ix: g as usize,
    }) {
        Pen {
            x: s.origin.x as int,
            y: p.y + s.line_height,
            prev_x: pos,
            row_base: pos,
            next_wrap: p.next_wrap + 1,
            underline: match p.underline {
                Some((_, raw, st)) => if glyph_of(s, r, g).index < p.run_end {
                    Some((s.origin.x as int, raw, st))
                } else {
                    None
                },
                None => None,
            },
            ops: close_open(s, p, x),
            ..p
        }
    } else {
        Pen { x, prev_x: pos, ..p }
    }
}

/// Applies the next decoration run: an open underline of another style ends
/// here, and the run's underline, if any and none is open, starts here. With
/// no run left the rest of the line is plain, in the default color.
pub open spec fn apply_run(s: LineScene, p: Pen) -> Pen {
    if p.next_run < s.runs.len() {
        let run = s.runs[p.next_run as int];
        let ends = match p.underline {
            Some((_, raw, _)) => run.underline != Some(raw),
            None => false,
        };
        let kept = if ends { None } else { p.underline };
        Pen {
            ops: if ends { close_open(s, p, p.x) } else { p.ops },
            underline: match (kept, run.underline) {
                (None, Some(u)) => Some((p.x, u, resolved_underline(run, u))),
                _ => kept,
            },
            run_end: p.run_end + run.len,
            color: run.color,
            next_run: p.next_run + 1,
            ..p
        }
    } else {
        Pen {
            run_end: s.layout.len as int,
            color: black_spec(),
            underline: None,
            ops: close_open(s, p, p.x),
            ..p
        }
    }
}

/// The call that paints glyph `g` of run `r` at the pen.
pub open spec fn glyph_call(s: LineScene, p: Pen, r: int, g: int) -> PaintOp {
    let glyph = glyph_of(s, r, g);
    let origin = PaintPoint { x: p.x as i64, y: (p.y + baseline_offset(s)) as i64 };
    if glyph.is_emoji {
        PaintOp::Emoji {
            origin,
            font_id: s.layout.runs@[r].font_id,
            glyph_id: glyph.id,
            font_size: s.layout.font_size,
        }
    } else {
        PaintOp::Glyph {
            origin,
            font_id: s.layout.runs@[r].font_id,
            glyph_id: glyph.id,
            font_size: s.layout.font_size,
            color: p.color,
        }
    }
}

/// Paints glyph `g` of run `r` where its bounding box meets the clip region.
pub open spec fn draw(s: LineScene, p: Pen, r: int, g: int) -> Pen {
    if box_intersects(p.x, p.y, run_box(s, r), s.mask) {
        Pen { ops: p.ops.push(glyph_call(s, p, r, g)), ..p }
    } else {
        p
    }
}

/// Everything the pass does for glyph `g` of run `r`.
pub open spec fn glyph_step(s: LineScene, p: Pen, r: int, g: int) -> Pen {
    let moved = advance(s, p, r, g);
    let styled = if glyph_of(s, r, g).index >= moved.run_end {
        apply_run(s, moved)
    } else {
        moved
    };
    draw(s, styled, r, g)
}

/// The pen after glyphs `0..g` of run `r`, all runs before `r` done.
pub open spec fn pen_at(s: LineScene, r: nat, g: nat) -> Pen
    decreases r, g,
{
    if g > 0 {
        glyph_step(s, pen_at(s, r, (g - 1) as nat), r as int, g - 1)
    } else if r > 0 {
        pen_at(s, (r - 1) as nat, glyph_count(s, r - 1))
    } else {
        initial_pen(s)
    }
}

/// The first run at or after `r` whose bounding box is unknown, or the number
/// of runs.
pub open spec fn first_unmeasured(s: LineScene, r: nat) -> nat
    decreases s.layout.runs@.len() - r,
{
    if r >= s.layout.runs@.len() || !measured(s, r as int) {
        r
    } else {
        first_unmeasured(s, r + 1)
    }
}

/// The calls a pass makes when the surface accepts all of them.
pub open spec fn planned_ops(s: LineScene) -> Seq<PaintOp> {
    let f = first_unmeasured(s, 0);
    if f < s.layout.runs@.len() {
        pen_at(s, f, 0).ops
    } else {
        let p = pen_at(s, f, 0);
        close_open(s, p, line_end_x(s))
    }
}

/// How the pass ends when the surface accepts every call.
pub open spec fn planned_outcome(s: LineScene) -> Result<(), PaintError> {
    if first_unmeasured(s, 0) < s.layout.runs@.len() {
        Err(PaintError::FontMetricsUnavailable)
    } else {
        Ok(())
    }
}


/// Bounds that keep every coordinate of a pass within `i64`.
pub open spec fn pen_ok(s: LineScene, p: Pen) -> bool {
    &&& i32::MIN <= p.prev_x <= i32::MAX
    &&& i32::MIN <= p.row_base <= i32::MAX
    &&& p.x == s.origin.x + p.prev_x - p.row_base
    &&& p.next_wrap <= s.wraps.len()
    &&& p.y == s.origin.y + p.next_wrap * s.line_height
    &&& p.next_run <= s.runs.len()
    &&& 0 <= p.run_end <= usize::MAX + p.next_run * u32::MAX
    &&& match p.underline {
        Some((ux, _, _)) => s.origin.x - 0x1_0000_0000 <= ux <= s.origin.x + 0x1_0000_0000,
        None => true,
    }
}

/// The inputs of a pass that keep its coordinates within `i64`.
pub open spec fn scene_ok(s: LineScene) -> bool {
    s.wraps.len() <= i32::MAX
}

proof fn lemma_row_offset(n: int, h: int)
    requires
        0 <= n <= i32::MAX,
        i32::MIN <= h <= i32::MAX,
    ensures
        -0x4000_0000_0000_0000 <= n * h <= 0x4000_0000_0000_0000,
{
    assert(-0x4000_0000_0000_0000 <= n * h <= 0x4000_0000_0000_0000) by (nonlinear_arith)
        requires
            0 <= n <= i32::MAX,
            i32::MIN <= h <= i32::MAX,
    ;
}

proof fn lemma_run_end_room(n: int)
    requires
        0 <= n < usize::MAX,
    ensures
        usize::MAX + (n + 1) * u32::MAX <= u128::MAX,
{
    assert(usize::MAX + (n + 1) * u32::MAX <= u128::MAX) by (nonlinear_arith)
        requires
            0 <= n < usize::MAX,
    ;
}

/// Floor of `a / b`.
fn floor_div(a: i64, b: i64) -> (r: i64)
    requires
        b > 0,
    ensures
        r == a / b,
{
    if a >= 0 {
        a / b
    } else {
        let q = (-(a + 1)) / b;
        proof {
            let n: int = -(a + 1);
            let bi: int = b as int;
            let qi: int = q as int;
            let m: int = n % bi;
            assert(n == bi * qi + m) by (nonlinear_arith)
                requires
                    n >= 0,
                    bi > 0,
                    qi == n / bi,
                    m == n % bi,
            ;
            assert(0 <= m < bi);
            assert(a == bi * (-qi - 1) + (bi - 1 - m)) by (nonlinear_arith)
                requires
                    n == -(a + 1),
                    n == bi * qi + m,
            ;
            vstd::arithmetic::div_mod::lemma_fundamental_div_mod_converse(a as int, bi, -qi - 1, bi - 1 - m);
        }
        -q - 1
    }
}

/// The inputs of a pass, with the line's fixed offsets computed once.
struct Scene<'a> {
    origin: Point,
    line_height: Pixels,
    layout: &'a LineLayout,
    runs: &'a [DecorationRun],
    wrap_width: Option<Pixels>,
    wraps: &'a [WrapBoundary],
    metrics: &'a [Option<Size>],
    mask: Bounds,
    baseline: i64,
    underline_drop: i64,
}

impl<'a> Scene<'a> {
    spec fn view(&self) -> LineScene {
        LineScene {
            origin: self.origin,
            line_height: self.line_height,
            layout: *self.layout,
            runs: self.runs@,
            wrap_width: self.wrap_width,
            wraps: self.wraps@,
            metrics: self.metrics@,
            mask: self.mask,
        }
    }

    spec fn inv(&self) -> bool {
        &&& scene_ok(self@)
        &&& self.baseline == baseline_offset(self@)
        &&& self.underline_drop == underline_drop(self@)
        &&& -0x4_0000_0000 <= self.baseline <= 0x4_0000_0000
    }
}

/// The pen of a pass in machine integers.
struct Cursor {
    x: i64,
    y: i64,
    prev_x: Pixels,
    row_base: Ghost<int>,
    next_wrap: usize,
    next_run: usize,
    run_end: u128,
    color: Hsla,
    underline: Option<(i64, UnderlineStyle, UnderlineStyle)>,
    ops: Vec<PaintOp>,
}

impl Cursor {
    spec fn view(&self) -> Pen {
        Pen {
            x: self.x as int,
            y: self.y as int,
            prev_x: self.prev_x as int,
            row_base: self.row_base@,
            next_wrap: self.next_wrap as nat,
            next_run: self.next_run as nat,
            run_end: self.run_end as int,
            color: self.color,
            underline: match self.underline {
                Some((ux, raw, st)) => Some((ux as int, raw, st)),
                None => None,
            },
            ops: self.ops@,
        }
    }
}

/// Emits the open underline, if any, ending at `end_x`, and clears it.
fn close_underline(sc: &Scene, cur: &mut Cursor, end_x: i64)
    requires
        sc.inv(),
        pen_ok(sc@, old(cur)@),
        sc@.origin.x - 0x1_0000_0000 <= end_x <= sc@.origin.x + 0x1_0000_0000,
    ensures
        final(cur)@ == (Pen { underline: None, ops: close_open(sc@, old(cur)@, end_x as int), ..old(cur)@ }),
{
    proof {
        lemma_row_offset(cur.next_wrap as int, sc.line_height as int);
    }
    match cur.underline {
        Some((ux, _, st)) => {
            let op = PaintOp::Underline {
                origin: PaintPoint { x: ux, y: cur.y + sc.underline_drop },
                width: end_x - ux,
                style: st,
            };
            cur.ops.push(op);
        },
        None => {},
    }
    cur.underline = None;
}


/// Whether `a` is the underline `b`.
fn is_underline(a: &Option<UnderlineStyle>, b: &UnderlineStyle) -> (r: bool)
    ensures
        r == (*a == Some(*b)),
{
    match a {
        Some(u) => *u == *b,
        None => false,
    }
}

fn advance_to(sc: &Scene, cur: &mut Cursor, r: usize, g: usize)
    requires
        sc.inv(),
        pen_ok(sc@, old(cur)@),
        r < sc@.layout.runs@.len(),
        g < glyph_count(sc@, r as int),
    ensures
        final(cur)@ == advance(sc@, old(cur)@, r as int, g as int),
        pen_ok(sc@, final(cur)@),
{
    let pos = sc.layout.runs[r].glyphs[g].position.x;
    let x = cur.x + pos as i64 - cur.prev_x as i64;
    let at_wrap = cur.next_wrap < sc.wraps.len() && sc.wraps[cur.next_wrap].run_ix == r
        && sc.wraps[cur.next_wrap].glyph_ix == g;
    proof {
        if cur.next_wrap < sc.wraps@.len() {
            let w = sc.wraps@[cur.next_wrap as int];
            assert(at_wrap == (w == (WrapBoundary { run_ix: r, glyph_ix: g })));
        }
    }
    if at_wrap {
        let resumed = match cur.underline {
            Some((_, raw, st)) => if (sc.layout.runs[r].glyphs[g].index as u128) < cur.run_end {
                Some((sc.origin.x as i64, raw, st))
            } else {
                None
            },
            None => None,
        };
        close_underline(sc, cur, x);
        cur.underline = resumed;
        proof {
            lemma_row_offset(cur.next_wrap + 1, sc.line_height as int);
            assert((cur.next_wrap + 1) * sc.line_height == cur.next_wrap * sc.line_height
                + sc.line_height) by (nonlinear_arith);
        }
        cur.x = sc.origin.x as i64;
        cur.y = cur.y + sc.line_height as i64;
        cur.prev_x = pos;
        cur.row_base = Ghost(pos as int);
        cur.next_wrap = cur.next_wrap + 1;
    } else {
        cur.x = x;
        cur.prev_x = pos;
    }
}

fn apply_next_run(sc: &Scene, cur: &mut Cursor)
    requires
        sc.inv(),
        pen_ok(sc@, old(cur)@),
    ensures
        final(cur)@ == apply_run(sc@, old(cur)@),
        pen_ok(sc@, final(cur)@),
{
    if cur.next_run < sc.runs.len() {
        let run = sc.runs[cur.next_run];
        let ends = match &cur.underline {
            Some((_, raw, _)) => !is_underline(&run.underline, raw),
            None => false,
        };
        if ends {
            let x = cur.x;
            close_underline(sc, cur, x);
        }
        if cur.underline.is_none() {
            match &run.underline {
                Some(u) => {
                    cur.underline = Some((cur.x, *u, resolve_underline(&run, u)));
                },
                None => {},
            }
        }
        proof {
            lemma_run_end_room(cur.next_run as int);
            assert(usize::MAX + (cur.next_run + 1) * u32::MAX == usize::MAX + cur.next_run * u32::MAX
                + u32::MAX) by (nonlinear_arith);
        }
        cur.run_end = cur.run_end + run.len as u128;
        cur.color = run.color;
        cur.next_run = cur.next_run + 1;
    } else {
        cur.run_end = sc.layout.len as u128;
        cur.color = black();
        let x = cur.x;
        close_underline(sc, cur, x);
    }
}

fn draw_glyph(sc: &Scene, cur: &mut Cursor, r: usize, g: usize, size: Size)
    requires
        sc.inv(),
        pen_ok(sc@, old(cur)@),
        r < sc@.layout.runs@.len(),
        g < glyph_count(sc@, r as int),
        size == run_box(sc@, r as int),
    ensures
        final(cur)@ == draw(sc@, old(cur)@, r as int, g as int),
        pen_ok(sc@, final(cur)@),
{
    proof {
        lemma_row_offset(cur.next_wrap as int, sc.line_height as int);
    }
    if intersects(PaintPoint { x: cur.x, y: cur.y }, size, sc.mask) {
        let font_id = sc.layout.runs[r].font_id;
        let glyph = sc.layout.runs[r].glyphs[g];
        let at = PaintPoint { x: cur.x, y: cur.y + sc.baseline };
        let op = if glyph.is_emoji {
            PaintOp::Emoji { origin: at, font_id, glyph_id: glyph.id, font_size: sc.layout.font_size }
        } else {
            PaintOp::Glyph {
                origin: at,
                font_id,
                glyph_id: glyph.id,
                font_size: sc.layout.font_size,
                color: cur.color,
            }
        };
        cur.ops.push(op);
    }
}

fn paint_glyph(sc: &Scene, cur: &mut Cursor, r: usize, g: usize, size: Size)
    requires
        sc.inv(),
        pen_ok(sc@, old(cur)@),
        r < sc@.layout.runs@.len(),
        g < glyph_count(sc@, r as int),
        size == run_box(sc@, r as int),
    ensures
        final(cur)@ == glyph_step(sc@, old(cur)@, r as int, g as int),
        pen_ok(sc@, final(cur)@),
{
    advance_to(sc, cur, r, g);
    let index = sc.layout.runs[r].glyphs[g].index;
    if index as u128 >= cur.run_end {
        apply_next_run(sc, cur);
    }
    draw_glyph(sc, cur, r, g, size);
}


/// The inputs of a pass as one value.
pub open spec fn line_scene(
    origin: Point,
    layout: LineLayout,
    line_height: Pixels,
    decoration_runs: Seq<DecorationRun>,
    wrap_width: Option<Pixels>,
    wrap_boundaries: Seq<WrapBoundary>,
    metrics: Seq<Option<Size>>,
    content_mask: Bounds,
) -> LineScene {
    LineScene {
        origin,
        line_height,
        layout,
        runs: decoration_runs,
        wrap_width,
        wraps: wrap_boundaries,
        metrics,
        mask: content_mask,
    }
}

proof fn lemma_first_unmeasured(s: LineScene, k: nat, r: nat)
    requires
        k <= r <= s.layout.runs@.len(),
        forall|i: int| k <= i < r ==> measured(s, i),
        r == s.layout.runs@.len() || !measured(s, r as int),
    ensures
        first_unmeasured(s, k) == r,
    decreases r - k,
{
    if k < r {
        lemma_first_unmeasured(s, k + 1, r);
    }
}

/// Paints one line: walks its glyphs in shaping order, starting a new row
/// at each wrap boundary, applying decoration runs as their characters are
/// reached, and returns the calls for every glyph whose box meets
/// `content_mask` and for every underline segment.
///
/// `metrics[r]` is the glyph bounding box of run `r`'s font at the layout's
/// font size, `None` where it is unknown: the pass then stops before that run
/// with `FontMetricsUnavailable`. A surface replays the calls in order and
/// stops at the first it refuses (see `PaintSession`).
pub fn paint_line(
    origin: Point,
    layout: &LineLayout,
    line_height: Pixels,
    decoration_runs: &[DecorationRun],
    wrap_width: Option<Pixels>,
    wrap_boundaries: &[WrapBoundary],
    metrics: &[Option<Size>],
    content_mask: Bounds,
) -> (r: LinePlan)
    requires
        wrap_boundaries@.len() <= i32::MAX,
    ensures
        r.ops@ == planned_ops(
            line_scene(
                origin,
                *layout,
                line_height,
                decoration_runs@,
                wrap_width,
                wrap_boundaries@,
                metrics@,
                content_mask,
            ),
        ),
        r.outcome == planned_outcome(
            line_scene(
                origin,
                *layout,
                line_height,
                decoration_runs@,
                wrap_width,
                wrap_boundaries@,
                metrics@,
                content_mask,
            ),
        ),
{
    let padding = floor_div(
        line_height as i64 - layout.ascent as i64 - layout.descent as i64,
        2,
    );
    let baseline = padding + layout.ascent as i64;
    let drop = floor_div(layout.descent as i64 * 618, 1000);
    let sc = Scene {
        origin,
        line_height,
        layout,
        runs: decoration_runs,
        wrap_width,
        wraps: wrap_boundaries,
        metrics,
        mask: content_mask,
        baseline,
        underline_drop: baseline + drop,
    };
    let ghost s = sc@;
    assert(s == line_scene(
        origin,
        *layout,
        line_height,
        decoration_runs@,
        wrap_width,
        wrap_boundaries@,
        metrics@,
        content_mask,
    ));
    let mut cur = Cursor {
        x: origin.x as i64,
        y: origin.y as i64,
        prev_x: 0,
        row_base: Ghost(0),
        next_wrap: 0,
        next_run: 0,
        run_end: 0,
        color: black(),
        underline: None,
        ops: Vec::new(),
    };
    assert(cur@ == pen_at(s, 0, 0));
    let mut r: usize = 0;
    while r < layout.runs.len()
        invariant
            sc.inv(),
            sc@ == s,
            s == line_scene(
                origin,
                *layout,
                line_height,
                decoration_runs@,
                wrap_width,
                wrap_boundaries@,
                metrics@,
                content_mask,
            ),
            r <= s.layout.runs@.len(),
            pen_ok(s, cur@),
            cur@ == pen_at(s, r as nat, 0),
            forall|i: int| 0 <= i < r ==> measured(s, i),
        decreases layout.runs@.len() - r,
    {
        let known = if r < metrics.len() {
            metrics[r]
        } else {
            None
        };
        let size = match known {
            Some(z) => z,
            None => {
                proof {
                    lemma_first_unmeasured(s, 0, r as nat);
                }
                return LinePlan { ops: cur.ops, outcome: Err(PaintError::FontMetricsUnavailable) };
            },
        };
        let mut g: usize = 0;
        while g < layout.runs[r].glyphs.len()
            invariant
                sc.inv(),
                sc@ == s,
                s.layout == *layout,
                r < s.layout.runs@.len(),
                g <= glyph_count(s, r as int),
                size == run_box(s, r as int),
                pen_ok(s, cur@),
                cur@ == pen_at(s, r as nat, g as nat),
            decreases glyph_count(s, r as int) - g,
        {
            paint_glyph(&sc, &mut cur, r, g, size);
            g = g + 1;
        }
        assert(pen_at(s, (r + 1) as nat, 0) == pen_at(s, r as nat, glyph_count(s, r as int)));
        r = r + 1;
    }
    proof {
        lemma_first_unmeasured(s, 0, r as nat);
    }
    let width = match wrap_width {
        Some(w) => if w < layout.width {
            w
        } else {
            layout.width
        },
        None => layout.width,
    };
    close_underline(&sc, &mut cur, origin.x as i64 + width as i64);
    LinePlan { ops: cur.ops, outcome: Ok(()) }
}

} // verus!
