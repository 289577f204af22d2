use linelayout::geom::{Align, Aligns, BoxLayout, Dir, Dirs, Size, SpacingKind};
use linelayout::line::{LayoutWarning, LineContext, LineLayouter};
use linelayout::stack::{LayoutSpace, StackContext, StackLayouter};

fn dirs_ltr() -> Dirs {
    Dirs { main: Dir::TopToBottom, cross: Dir::LeftToRight }
}

fn dirs_rtl() -> Dirs {
    Dirs { main: Dir::TopToBottom, cross: Dir::RightToLeft }
}

fn ctx(width: i64, height: i64, line_spacing: i64) -> LineContext {
    LineContext {
        dirs: dirs_ltr(),
        spaces: vec![LayoutSpace { size: Size { width, height } }],
        repeat: false,
        line_spacing,
    }
}

fn boxed(width: i64, height: i64) -> BoxLayout {
    BoxLayout::new(Size { width, height })
}

fn start_start() -> Aligns {
    Aligns { main: Align::Start, cross: Align::Start }
}

#[test]
fn same_alignment_boxes_share_line() {
    let mut l = LineLayouter::new(ctx(100, 100, 0));
    l.add(boxed(10, 5), start_start());
    l.add(boxed(20, 7), start_start());
    l.add(boxed(30, 3), start_start());
    let out = l.finish();
    assert_eq!(out.len(), 1);
    let space = &out[0];
    // one line only, at cumulative offsets, height = max of main extents
    assert_eq!(space.elements.len(), 1);
    let line = &space.elements[0].1;
    assert_eq!(line.size, Size { width: 60, height: 7 });
    assert_eq!(line.elements.len(), 3);
    assert_eq!(line.elements[0].0.x, 0);
    assert_eq!(line.elements[1].0.x, 10);
    assert_eq!(line.elements[2].0.x, 30);
    assert_eq!(line.elements[0].0.y, 0);
    assert_eq!(line.elements[1].0.y, 0);
    assert_eq!(line.elements[2].0.y, 0);
}

#[test]
fn overflow_forces_line_break() {
    let mut l = LineLayouter::new(ctx(100, 100, 0));
    l.add(boxed(60, 5), start_start());
    l.add(boxed(50, 8), start_start());
    let out = l.finish();
    assert_eq!(out.len(), 1);
    let space = &out[0];
    assert_eq!(space.elements.len(), 2);
    // the closed-off line's height reflects only its own boxes
    assert_eq!(space.elements[0].1.size, Size { width: 60, height: 5 });
    assert_eq!(space.elements[0].0.y, 0);
    assert_eq!(space.elements[1].1.size, Size { width: 50, height: 8 });
    assert_eq!(space.elements[1].0.y, 5);
}

#[test]
fn soft_priority_lower_level_wins() {
    let mut l = LineLayouter::new(ctx(100, 100, 0));
    l.add(boxed(10, 5), start_start());
    l.add_cross_spacing(7, SpacingKind::Soft(2));
    l.add_cross_spacing(3, SpacingKind::Soft(1));
    l.add(boxed(10, 5), start_start());
    let out = l.finish();
    let line = &out[0].elements[0].1;
    // only the level-1 amount was materialized
    assert_eq!(line.elements[1].0.x, 13);
    assert_eq!(line.size.width, 23);
}

#[test]
fn soft_priority_keeps_earlier_higher_priority() {
    let mut l = LineLayouter::new(ctx(100, 100, 0));
    l.add(boxed(10, 5), start_start());
    l.add_cross_spacing(3, SpacingKind::Soft(1));
    l.add_cross_spacing(7, SpacingKind::Soft(2));
    l.add(boxed(10, 5), start_start());
    let out = l.finish();
    let line = &out[0].elements[0].1;
    // the level-1 amount stays, the level-2 request is dropped
    assert_eq!(line.elements[1].0.x, 13);
    assert_eq!(line.size.width, 23);
}

#[test]
fn leading_soft_spacing_dropped() {
    let mut l = LineLayouter::new(ctx(100, 100, 0));
    l.add_cross_spacing(10, SpacingKind::Soft(1));
    l.add(boxed(10, 5), start_start());
    let out = l.finish();
    let line = &out[0].elements[0].1;
    assert_eq!(line.elements[0].0.x, 0);
    assert_eq!(line.size.width, 10);
}

#[test]
fn hard_spacing_consumes_pending_soft() {
    let mut l = LineLayouter::new(ctx(100, 100, 0));
    l.add(boxed(10, 5), start_start());
    l.add_cross_spacing(7, SpacingKind::Soft(2));
    l.add_cross_spacing(5, SpacingKind::Hard);
    let out = l.finish();
    let line = &out[0].elements[0].1;
    // the cached soft amount is materialized first, then the hard amount
    assert_eq!(line.size.width, 10 + 7 + 5);
}

#[test]
fn negative_hard_spacing_moves_back() {
    let mut l = LineLayouter::new(ctx(100, 100, 0));
    l.add(boxed(10, 5), start_start());
    l.add_cross_spacing(-4, SpacingKind::Hard);
    l.add(boxed(5, 5), start_start());
    let out = l.finish();
    let line = &out[0].elements[0].1;
    assert_eq!(line.size.width, 11);
    assert_eq!(line.elements[0].0.x, 0);
    assert_eq!(line.elements[1].0.x, 6);
}

#[test]
fn negative_hard_spacing_floors_at_empty() {
    let mut l = LineLayouter::new(ctx(100, 100, 0));
    l.add(boxed(10, 5), start_start());
    l.add_cross_spacing(-50, SpacingKind::Hard);
    let out = l.finish();
    let line = &out[0].elements[0].1;
    // the run cannot shrink below an empty line
    assert_eq!(line.size.width, 0);
}

#[test]
fn hard_spacing_clamped_to_usable_width() {
    let mut l = LineLayouter::new(ctx(100, 100, 0));
    l.add(boxed(10, 5), start_start());
    l.add_cross_spacing(500, SpacingKind::Hard);
    let out = l.finish();
    let line = &out[0].elements[0].1;
    // the spacing consumed exactly the usable width, never overflowing
    assert_eq!(line.size.width, 100);
}

#[test]
fn finish_untouched_is_empty() {
    let l = LineLayouter::new(ctx(100, 100, 0));
    let out = l.finish();
    let stack_only = StackLayouter::new(StackContext {
        spaces: vec![LayoutSpace { size: Size { width: 100, height: 100 } }],
        dirs: dirs_ltr(),
        repeat: false,
    });
    let reference = stack_only.finish();
    assert_eq!(out.len(), reference.len());
    assert_eq!(out.len(), 0);
}

#[test]
fn alignment_increase_shares_row() {
    let mut l = LineLayouter::new(ctx(100, 50, 0));
    l.add(boxed(10, 5), Aligns { main: Align::Start, cross: Align::Start });
    l.add(boxed(20, 8), Aligns { main: Align::Start, cross: Align::End });
    let out = l.finish();
    assert_eq!(out.len(), 1);
    let space = &out[0];
    // both runs share one row: no net main-axis displacement
    assert_eq!(space.elements.len(), 2);
    assert_eq!(space.elements[0].0.y, 0);
    assert_eq!(space.elements[1].0.y, 0);
    // the Start run stays at offset 0, the End run ends up at 100 - 20
    assert_eq!(space.elements[0].0.x, 0);
    assert_eq!(space.elements[1].0.x, 80);
    // total row height is the max of both boxes' main extents
    assert_eq!(space.size.height, 8);
    assert_eq!(space.elements[1].1.size, Size { width: 20, height: 8 });
}

#[test]
fn negative_cross_polarity_mirrors_placement() {
    let mut pos = LineLayouter::new(ctx(100, 100, 0));
    pos.add(boxed(10, 5), start_start());
    pos.add(boxed(20, 5), start_start());
    let pos_out = pos.finish();
    let pos_line = &pos_out[0].elements[0].1;

    let mut neg = LineLayouter::new(LineContext {
        dirs: dirs_rtl(),
        spaces: vec![LayoutSpace { size: Size { width: 100, height: 100 } }],
        repeat: false,
        line_spacing: 0,
    });
    neg.add(boxed(10, 5), start_start());
    neg.add(boxed(20, 5), start_start());
    let neg_out = neg.finish();
    let neg_line = &neg_out[0].elements[0].1;

    // x = run_width - offset - child_width, against the positive placement
    let run_width = 30;
    assert_eq!(pos_line.elements[0].0.x, 0);
    assert_eq!(pos_line.elements[1].0.x, 10);
    assert_eq!(neg_line.elements[0].0.x, run_width - 0 - 10);
    assert_eq!(neg_line.elements[1].0.x, run_width - 10 - 20);
    // the box added first sits at the physically largest x among siblings
    assert!(neg_line.elements[0].0.x > neg_line.elements[1].0.x);
}

#[test]
fn remaining_reduced_by_run_height() {
    let mut l = LineLayouter::new(LineContext {
        dirs: dirs_ltr(),
        spaces: vec![
            LayoutSpace { size: Size { width: 100, height: 50 } },
            LayoutSpace { size: Size { width: 70, height: 30 } },
        ],
        repeat: false,
        line_spacing: 0,
    });
    l.add(boxed(10, 8), start_start());
    let r = l.remaining();
    assert_eq!(r.len(), 2);
    // the first space's main extent shrinks by the unfinished run's height
    assert_eq!(r[0].size, Size { width: 100, height: 42 });
    // subsequent spaces are unaffected
    assert_eq!(r[1].size, Size { width: 70, height: 30 });
}

#[test]
fn alignment_mismatch_breaks_space() {
    let mut l = LineLayouter::new(LineContext {
        dirs: dirs_ltr(),
        spaces: vec![LayoutSpace { size: Size { width: 100, height: 100 } }],
        repeat: true,
        line_spacing: 0,
    });
    l.add(boxed(10, 5), Aligns { main: Align::End, cross: Align::Start });
    l.add(boxed(10, 5), Aligns { main: Align::Start, cross: Align::Start });
    l.add(boxed(10, 5), Aligns { main: Align::Center, cross: Align::Start });
    let out = l.finish();
    // the center-aligned box no longer fit below the end-aligned content:
    // a hard space break was forced
    assert_eq!(out.len(), 2);
}

#[test]
fn center_alignment_position() {
    let mut l = LineLayouter::new(ctx(100, 100, 0));
    l.add(boxed(20, 5), Aligns { main: Align::Start, cross: Align::Center });
    let out = l.finish();
    let space = &out[0];
    assert_eq!(space.elements[0].0.x, (100 - 20) / 2);
}

#[test]
fn oversized_box_skips_to_fitting_space() {
    let mut l = LineLayouter::new(LineContext {
        dirs: dirs_ltr(),
        spaces: vec![
            LayoutSpace { size: Size { width: 50, height: 50 } },
            LayoutSpace { size: Size { width: 200, height: 200 } },
        ],
        repeat: false,
        line_spacing: 0,
    });
    l.add(boxed(100, 10), start_start());
    let out = l.finish();
    // the untouched first space was passed over without output
    assert_eq!(out.len(), 1);
    assert_eq!(out[0].size, Size { width: 200, height: 10 });
    assert_eq!(out[0].elements[0].1.size, Size { width: 100, height: 10 });
}

#[test]
fn line_spacing_between_lines() {
    let mut l = LineLayouter::new(ctx(100, 100, 0));
    l.set_line_spacing(4);
    l.add(boxed(60, 5), start_start());
    l.add(boxed(50, 8), start_start());
    let out = l.finish();
    let space = &out[0];
    assert_eq!(space.elements[0].0.y, 0);
    assert_eq!(space.elements[1].0.y, 9);
    // trailing line spacing is never materialized
    assert_eq!(space.size.height, 17);
}

#[test]
fn main_spacing_finishes_line_and_moves_cursor() {
    let mut l = LineLayouter::new(ctx(100, 100, 0));
    l.add(boxed(10, 5), start_start());
    l.add_main_spacing(7, SpacingKind::Hard);
    l.add(boxed(10, 3), start_start());
    let out = l.finish();
    let space = &out[0];
    assert_eq!(space.elements.len(), 2);
    assert_eq!(space.elements[0].0.y, 0);
    assert_eq!(space.elements[1].0.y, 12);
    assert_eq!(space.size.height, 15);
}

#[test]
fn set_spaces_replaces_untouched_space() {
    let mut l = LineLayouter::new(ctx(100, 100, 0));
    l.set_spaces(vec![LayoutSpace { size: Size { width: 40, height: 20 } }], true);
    let r = l.remaining();
    assert_eq!(r.len(), 1);
    assert_eq!(r[0].size, Size { width: 40, height: 20 });
}

#[test]
fn line_is_empty_tracks_run() {
    let mut l = LineLayouter::new(ctx(100, 100, 0));
    assert!(l.line_is_empty());
    l.add(boxed(10, 5), start_start());
    assert!(!l.line_is_empty());
    l.finish_line();
    assert!(l.line_is_empty());
}

#[test]
fn finish_space_hard_breaks_page() {
    let mut l = LineLayouter::new(LineContext {
        dirs: dirs_ltr(),
        spaces: vec![LayoutSpace { size: Size { width: 100, height: 100 } }],
        repeat: true,
        line_spacing: 0,
    });
    l.add(boxed(10, 5), start_start());
    l.finish_space(true);
    l.add(boxed(20, 6), start_start());
    let out = l.finish();
    assert_eq!(out.len(), 2);
    assert_eq!(out[0].size.height, 5);
    assert_eq!(out[1].size.height, 6);
}

#[test]
fn misaligned_content_is_reported() {
    let mut l = LineLayouter::new(LineContext {
        dirs: dirs_ltr(),
        spaces: vec![LayoutSpace { size: Size { width: 100, height: 100 } }],
        repeat: false,
        line_spacing: 0,
    });
    l.add(boxed(10, 5), Aligns { main: Align::End, cross: Align::Start });
    l.add(boxed(10, 5), Aligns { main: Align::Start, cross: Align::Start });
    l.add(boxed(10, 5), Aligns { main: Align::Center, cross: Align::Start });
    assert_eq!(l.warnings().as_slice(), &[LayoutWarning::Misaligned]);
}

#[test]
fn unresolved_overflow_is_reported() {
    let mut l = LineLayouter::new(ctx(50, 50, 0));
    l.add(boxed(100, 10), start_start());
    assert_eq!(l.warnings().as_slice(), &[LayoutWarning::Overflow]);
    let out = l.finish();
    // the oversized box is still placed, never rejected
    assert_eq!(out[0].elements[0].1.size, Size { width: 100, height: 10 });
}

#[test]
fn bottom_up_main_direction_mirrors_lines() {
    let mut l = LineLayouter::new(LineContext {
        dirs: Dirs { main: Dir::BottomToTop, cross: Dir::LeftToRight },
        spaces: vec![LayoutSpace { size: Size { width: 100, height: 100 } }],
        repeat: false,
        line_spacing: 0,
    });
    l.add(boxed(60, 5), start_start());
    l.add(boxed(50, 8), start_start());
    let out = l.finish();
    let space = &out[0];
    // total main extent 13; the first line sits at the mirrored position
    assert_eq!(space.size.height, 13);
    assert_eq!(space.elements[0].0.y, 13 - 0 - 5);
    assert_eq!(space.elements[1].0.y, 13 - 5 - 8);
}
