use line_paint::geometry::{black, Bounds, Hsla, PaintPoint, Point, Size};
use line_paint::layout::{
    DecorationRun, Glyph, LineLayout, ShapedRun, UnderlineStyle, WrapBoundary, WrappedLineLayout,
};
use line_paint::line::{ShapedLine, WrappedLine};
use line_paint::paint::{paint_line, LinePlan, PaintError, PaintOp};
use line_paint::session::PaintSession;
use std::sync::Arc;

const ORIGIN: Point = Point { x: 5, y: 7 };
const LINE_HEIGHT: i32 = 20;
// baseline = (20 - 12 - 4) / 2 + 12; underline drop = 14 + 4 * 618 / 1000
const BASELINE: i64 = 14;
const DROP: i64 = 16;
const GLYPH_BOX: Size = Size { width: 10, height: 16 };
const RED: Hsla = Hsla { h: 0, s: 1000, l: 500, a: 1000 };
const BLUE: Hsla = Hsla { h: 240, s: 1000, l: 500, a: 1000 };

fn glyph(id: u32, index: usize, x: i32) -> Glyph {
    Glyph { id, index, position: Point { x, y: 0 }, is_emoji: false }
}

fn layout(runs: Vec<ShapedRun>, len: usize, width: i32) -> LineLayout {
    LineLayout { font_size: 16, width, ascent: 12, descent: 4, runs, len }
}

/// One font, one glyph per character, glyphs 10 units apart.
fn abc_layout() -> LineLayout {
    let glyphs = vec![glyph(65, 0, 0), glyph(66, 1, 10), glyph(67, 2, 20)];
    layout(vec![ShapedRun { font_id: 1, glyphs }], 3, 30)
}

fn wide_mask() -> Bounds {
    Bounds { origin: Point { x: -1000, y: -1000 }, size: Size { width: 4000, height: 4000 } }
}

fn underline(color: Option<Hsla>) -> UnderlineStyle {
    UnderlineStyle { color, thickness: 1, wavy: false }
}

fn plain(len: u32, color: Hsla) -> DecorationRun {
    DecorationRun { len, color, underline: None }
}

fn glyph_op(x: i64, row: i64, id: u32, color: Hsla) -> PaintOp {
    PaintOp::Glyph {
        origin: PaintPoint { x, y: 7 + row * 20 + BASELINE },
        font_id: 1,
        glyph_id: id,
        font_size: 16,
        color,
    }
}

fn underline_op(x: i64, row: i64, width: i64, style: UnderlineStyle) -> PaintOp {
    PaintOp::Underline { origin: PaintPoint { x, y: 7 + row * 20 + DROP }, width, style }
}

fn paint(layout: &LineLayout, runs: &[DecorationRun], wrap_width: Option<i32>, wraps: &[WrapBoundary]) -> LinePlan {
    let metrics = vec![Some(GLYPH_BOX); layout.runs.len()];
    paint_line(ORIGIN, layout, LINE_HEIGHT, runs, wrap_width, wraps, &metrics, wide_mask())
}

fn count_underlines(ops: &[PaintOp]) -> usize {
    ops.iter().filter(|op| matches!(op, PaintOp::Underline { .. })).count()
}

#[test]
fn three_plain_glyphs_paint_left_to_right() {
    let plan = paint(&abc_layout(), &[plain(3, RED)], None, &[]);
    assert_eq!(plan.outcome, Ok(()));
    assert_eq!(
        plan.ops,
        vec![glyph_op(5, 0, 65, RED), glyph_op(15, 0, 66, RED), glyph_op(25, 0, 67, RED)]
    );
    assert_eq!(count_underlines(&plan.ops), 0);
}

#[test]
fn whole_line_underline_spans_to_line_end() {
    let style = underline(Some(BLUE));
    let runs = [DecorationRun { len: 3, color: RED, underline: Some(style) }];
    let plan = paint(&abc_layout(), &runs, None, &[]);
    assert_eq!(plan.outcome, Ok(()));
    assert_eq!(
        plan.ops,
        vec![
            glyph_op(5, 0, 65, RED),
            glyph_op(15, 0, 66, RED),
            glyph_op(25, 0, 67, RED),
            underline_op(5, 0, 30, style),
        ]
    );
}

#[test]
fn underline_without_color_takes_text_color() {
    let runs = [DecorationRun { len: 3, color: RED, underline: Some(underline(None)) }];
    let plan = paint(&abc_layout(), &runs, None, &[]);
    assert_eq!(plan.ops[3], underline_op(5, 0, 30, underline(Some(RED))));
}

#[test]
fn underline_is_split_at_a_wrap() {
    let style = underline(Some(BLUE));
    let runs = [DecorationRun { len: 3, color: RED, underline: Some(style) }];
    let wraps = [WrapBoundary { run_ix: 0, glyph_ix: 2 }];
    let plan = paint(&abc_layout(), &runs, Some(20), &wraps);
    assert_eq!(
        plan.ops,
        vec![
            glyph_op(5, 0, 65, RED),
            glyph_op(15, 0, 66, RED),
            underline_op(5, 0, 20, style),
            glyph_op(5, 1, 67, RED),
            underline_op(5, 1, 20, style),
        ]
    );
    assert_eq!(count_underlines(&plan.ops), 2);
}

#[test]
fn emoji_glyph_is_painted_as_emoji() {
    let mut line = abc_layout();
    line.runs[0].glyphs[1].is_emoji = true;
    let plan = paint(&line, &[plain(3, BLUE)], None, &[]);
    assert_eq!(
        plan.ops[1],
        PaintOp::Emoji {
            origin: PaintPoint { x: 15, y: 7 + BASELINE },
            font_id: 1,
            glyph_id: 66,
            font_size: 16,
        }
    );
    let glyph_calls = plan.ops.iter().filter(|op| matches!(op, PaintOp::Glyph { .. })).count();
    assert_eq!(glyph_calls, 2);
}

#[test]
fn refused_glyph_ends_the_pass() {
    let plan = paint(&abc_layout(), &[plain(3, RED)], None, &[]);
    let mut session = PaintSession::new(plan);
    let mut made = Vec::new();
    while let Some(op) = session.next_call() {
        made.push(op);
        let answer = if made.len() == 2 { Err(PaintError::PrimitiveRejected) } else { Ok(()) };
        session.report(answer);
    }
    assert_eq!(made, vec![glyph_op(5, 0, 65, RED), glyph_op(15, 0, 66, RED)]);
    assert_eq!(session.outcome(), Some(Err(PaintError::PrimitiveRejected)));
}

#[test]
fn accepted_calls_end_with_the_plan_outcome() {
    let plan = paint(&abc_layout(), &[plain(3, RED)], None, &[]);
    let mut session = PaintSession::new(plan);
    assert_eq!(session.outcome(), None);
    let mut made = 0;
    while session.next_call().is_some() {
        session.report(Ok(()));
        made += 1;
    }
    assert_eq!(made, 3);
    assert_eq!(session.outcome(), Some(Ok(())));
    session.report(Err(PaintError::PrimitiveRejected));
    assert_eq!(session.outcome(), Some(Ok(())));
}

#[test]
fn glyph_outside_the_mask_is_not_painted() {
    let mask = Bounds { origin: Point { x: 0, y: 0 }, size: Size { width: 20, height: 100 } };
    let metrics = [Some(GLYPH_BOX)];
    let plan = paint_line(ORIGIN, &abc_layout(), LINE_HEIGHT, &[plain(3, RED)], None, &[], &metrics, mask);
    assert_eq!(plan.ops, vec![glyph_op(5, 0, 65, RED), glyph_op(15, 0, 66, RED)]);
}

#[test]
fn nothing_is_painted_outside_an_empty_mask() {
    let mask = Bounds { origin: Point { x: 500, y: 500 }, size: Size { width: 0, height: 0 } };
    let metrics = [Some(GLYPH_BOX)];
    let plan = paint_line(ORIGIN, &abc_layout(), LINE_HEIGHT, &[plain(3, RED)], None, &[], &metrics, mask);
    assert!(plan.ops.is_empty());
    assert_eq!(plan.outcome, Ok(()));
}

#[test]
fn unknown_font_metrics_stop_the_pass() {
    let first = ShapedRun { font_id: 1, glyphs: vec![glyph(65, 0, 0)] };
    let second = ShapedRun { font_id: 2, glyphs: vec![glyph(66, 1, 10)] };
    let line = layout(vec![first, second], 2, 20);
    let metrics = [Some(GLYPH_BOX), None];
    let plan = paint_line(ORIGIN, &line, LINE_HEIGHT, &[plain(2, RED)], None, &[], &metrics, wide_mask());
    assert_eq!(plan.ops, vec![glyph_op(5, 0, 65, RED)]);
    assert_eq!(plan.outcome, Err(PaintError::FontMetricsUnavailable));
}

#[test]
fn missing_metrics_entry_counts_as_unknown() {
    let plan = paint_line(ORIGIN, &abc_layout(), LINE_HEIGHT, &[plain(3, RED)], None, &[], &[], wide_mask());
    assert!(plan.ops.is_empty());
    assert_eq!(plan.outcome, Err(PaintError::FontMetricsUnavailable));
}

#[test]
fn style_change_closes_the_underline() {
    let a = underline(Some(RED));
    let b = underline(Some(BLUE));
    let runs = [
        DecorationRun { len: 1, color: RED, underline: Some(a) },
        DecorationRun { len: 1, color: RED, underline: Some(a) },
        DecorationRun { len: 1, color: BLUE, underline: Some(b) },
    ];
    let plan = paint(&abc_layout(), &runs, None, &[]);
    assert_eq!(
        plan.ops,
        vec![
            glyph_op(5, 0, 65, RED),
            glyph_op(15, 0, 66, RED),
            underline_op(5, 0, 20, a),
            glyph_op(25, 0, 67, BLUE),
            underline_op(25, 0, 10, b),
        ]
    );
}

#[test]
fn plain_run_ends_the_underline() {
    let a = underline(Some(RED));
    let runs = [DecorationRun { len: 1, color: RED, underline: Some(a) }, plain(2, BLUE)];
    let plan = paint(&abc_layout(), &runs, None, &[]);
    assert_eq!(count_underlines(&plan.ops), 1);
    assert_eq!(plan.ops[1], underline_op(5, 0, 10, a));
    assert_eq!(plan.ops[2], glyph_op(15, 0, 66, BLUE));
}

#[test]
fn short_decoration_runs_leave_the_rest_plain() {
    let a = underline(Some(RED));
    let runs = [DecorationRun { len: 1, color: BLUE, underline: Some(a) }];
    let plan = paint(&abc_layout(), &runs, None, &[]);
    assert_eq!(
        plan.ops,
        vec![
            glyph_op(5, 0, 65, BLUE),
            underline_op(5, 0, 10, a),
            glyph_op(15, 0, 66, black()),
            glyph_op(25, 0, 67, black()),
        ]
    );
}

#[test]
fn no_decoration_runs_paint_black() {
    let plan = paint(&abc_layout(), &[], None, &[]);
    assert_eq!(plan.ops[0], glyph_op(5, 0, 65, black()));
    assert_eq!(black(), Hsla { h: 0, s: 0, l: 0, a: 1000 });
}

#[test]
fn wrap_at_a_style_change_opens_the_new_style_on_the_new_row() {
    let a = underline(Some(RED));
    let b = underline(Some(BLUE));
    let runs = [
        DecorationRun { len: 2, color: RED, underline: Some(a) },
        DecorationRun { len: 1, color: RED, underline: Some(b) },
    ];
    let wraps = [WrapBoundary { run_ix: 0, glyph_ix: 2 }];
    let plan = paint(&abc_layout(), &runs, None, &wraps);
    assert_eq!(
        plan.ops,
        vec![
            glyph_op(5, 0, 65, RED),
            glyph_op(15, 0, 66, RED),
            underline_op(5, 0, 20, a),
            glyph_op(5, 1, 67, RED),
            underline_op(5, 1, 30, b),
        ]
    );
}

#[test]
fn painting_twice_gives_the_same_calls() {
    let style = underline(Some(BLUE));
    let runs = [DecorationRun { len: 3, color: RED, underline: Some(style) }];
    let wraps = [WrapBoundary { run_ix: 0, glyph_ix: 1 }];
    let first = paint(&abc_layout(), &runs, Some(25), &wraps);
    let second = paint(&abc_layout(), &runs, Some(25), &wraps);
    assert_eq!(first.ops, second.ops);
    assert_eq!(first.outcome, second.outcome);
}

#[test]
fn odd_line_height_rounds_the_baseline_down() {
    let metrics = [Some(GLYPH_BOX)];
    let plan = paint_line(ORIGIN, &abc_layout(), 3, &[plain(3, RED)], None, &[], &metrics, wide_mask());
    // (3 - 12 - 4) / 2 rounds down to -7; the baseline lies 5 below the top.
    match plan.ops[0] {
        PaintOp::Glyph { origin, .. } => assert_eq!(origin, PaintPoint { x: 5, y: 12 }),
        _ => panic!("expected a glyph call"),
    }
}

#[test]
fn shaped_line_paints_without_wraps() {
    let style = underline(Some(BLUE));
    let line = ShapedLine::new(
        Arc::new(abc_layout()),
        String::from("ABC"),
        vec![DecorationRun { len: 3, color: RED, underline: Some(style) }],
    );
    assert_eq!(line.len(), 3);
    let plan = line.paint(ORIGIN, LINE_HEIGHT, &[Some(GLYPH_BOX)], wide_mask());
    assert_eq!(plan.ops.len(), 4);
    assert_eq!(plan.ops[3], underline_op(5, 0, 30, style));
}

#[test]
fn wrapped_line_paints_its_rows() {
    let style = underline(Some(BLUE));
    let line = WrappedLine::new(
        Arc::new(WrappedLineLayout {
            unwrapped_layout: abc_layout(),
            wrap_boundaries: vec![WrapBoundary { run_ix: 0, glyph_ix: 2 }],
            wrap_width: Some(20),
        }),
        String::from("ABC"),
        vec![DecorationRun { len: 3, color: RED, underline: Some(style) }],
    );
    assert_eq!(line.len(), 3);
    let plan = line.paint(ORIGIN, LINE_HEIGHT, &[Some(GLYPH_BOX)], wide_mask());
    assert_eq!(plan.ops[3], glyph_op(5, 1, 67, RED));
    assert_eq!(plan.ops[4], underline_op(5, 1, 20, style));
}

#[test]
fn shaped_line_keeps_run_order() {
    let a = underline(Some(RED));
    let line = ShapedLine::new(
        Arc::new(abc_layout()),
        String::from("ABC"),
        vec![plain(1, BLUE), DecorationRun { len: 2, color: RED, underline: Some(a) }],
    );
    let plan = line.paint(ORIGIN, LINE_HEIGHT, &[Some(GLYPH_BOX)], wide_mask());
    assert_eq!(
        plan.ops,
        vec![
            glyph_op(5, 0, 65, BLUE),
            glyph_op(15, 0, 66, RED),
            glyph_op(25, 0, 67, RED),
            underline_op(15, 0, 20, a),
        ]
    );
}

#[test]
fn underline_taking_text_color_spans_runs_with_the_same_style() {
    let style = underline(None);
    let runs = [
        DecorationRun { len: 1, color: RED, underline: Some(style) },
        DecorationRun { len: 2, color: RED, underline: Some(style) },
    ];
    let plan = paint(&abc_layout(), &runs, None, &[]);
    let resolved = underline(Some(RED));
    assert_eq!(
        plan.ops,
        vec![
            glyph_op(5, 0, 65, RED),
            glyph_op(15, 0, 66, RED),
            glyph_op(25, 0, 67, RED),
            underline_op(5, 0, 30, resolved),
        ]
    );
}

#[test]
fn same_explicit_underline_across_runs_is_one_segment() {
    let style = underline(Some(BLUE));
    let runs = [
        DecorationRun { len: 1, color: RED, underline: Some(style) },
        DecorationRun { len: 2, color: BLUE, underline: Some(style) },
    ];
    let plan = paint(&abc_layout(), &runs, None, &[]);
    assert_eq!(count_underlines(&plan.ops), 1);
    assert_eq!(plan.ops[3], underline_op(5, 0, 30, style));
}
