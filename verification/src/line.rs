//! Line layouter: arranging boxes into lines.
//!
//! Boxes are laid out along the cross axis as long as they fit into a line.
//! When necessary, a line break is inserted and the new line is offset along
//! the main axis by the height of the previous line plus extra line spacing.
//! Internally, a stack layouter stacks the finished lines on top of each
//! other.
//!
//! A line is accumulated as a run: an ordered sequence of (cross offset,
//! box) pairs sharing one alignment.  An alignment change closes the run; a
//! cross alignment increase spawns a second run on the same visual row,
//! whose usable width is what the first run left over, and whose placement
//! is rewound by a compensating negative main spacing.

use vstd::prelude::*;
use crate::geom::{
    axis_pos, cross_extent, extent_limit, main_extent, soft_consumes, wf_dirs, wf_size, Align,
    Aligns, BoxLayout, Dirs, LastSpacing, Point, Size, SpacingKind,
};
use crate::stack::{
    finish_space_rel, fresh_space, spacing_next, stack_add_rel, stack_finish_rel, stack_inv,
    skip_rel, with_space, LayoutSpace, StackContext, StackLayouter, StackModel,
};

verus! {

/// The context for line layouting.
pub struct LineContext {
    /// The layout directions.
    pub dirs: Dirs,
    /// The spaces to layout into.
    pub spaces: Vec<LayoutSpace>,
    /// Whether to spill over into copies of the last space or finish
    /// layouting when the last space is used up.
    pub repeat: bool,
    /// The spacing to be inserted between each pair of lines.
    pub line_spacing: i64,
}

/// Model of the in-progress line run.
#[verifier::ext_equal]
pub ghost struct RunModel {
    /// The accumulated items: (cross offset, box).
    pub items: Seq<(i64, BoxLayout)>,
    /// The summed cross extent of the run (boxes plus consumed spacing).
    pub width: i64,
    /// The maximal main extent among the run's own boxes.
    pub height: i64,
    /// The alignment of the run, fixed by its first box.
    pub aligns: Option<Aligns>,
    /// The cross width left over by an earlier run on the same row, if any.
    pub usable: Option<i64>,
    /// The pending-spacing state.
    pub last: LastSpacing,
}

/// A diagnostic collected during layouting.  Neither condition is an
/// error: both are resolved structurally, but they must not pass in
/// silence.
#[derive(Clone, Copy, Debug, PartialEq, Eq, Structural)]
pub enum LayoutWarning {
    /// An alignment change that the stacking layouter reported as not
    /// fitting, in a non-repeating context.
    Misaligned,
    /// Content that does not fit even the freshest space.
    Overflow,
}

/// Model of a line layouter.
#[verifier::ext_equal]
pub ghost struct LineModel {
    /// The spacing issued below each finished line.
    pub line_spacing: i64,
    /// The in-progress run.
    pub run: RunModel,
    /// The stack layouter that receives the finished lines.
    pub stack: StackModel,
    /// The diagnostics collected so far.
    pub warnings: Seq<LayoutWarning>,
}

/// A run holding nothing, as created at construction and after each
/// finished line.  Its pending state is `Hard` so that leading soft spacing
/// on a fresh line is dropped.
pub open spec fn fresh_run() -> RunModel {
    RunModel {
        items: Seq::empty(),
        width: 0,
        height: 0,
        aligns: Option::None,
        usable: Option::None,
        last: LastSpacing::Hard,
    }
}

/// Whether the run holds nothing at all.
pub open spec fn line_empty(run: RunModel) -> bool {
    run.width == 0 && run.height == 0 && run.items.len() == 0
}

/// The cross width available to the run before subtracting what it already
/// consumed: its usable override if it shares a row, else the stack's.
pub open spec fn usable_total(m: LineModel) -> int {
    match m.run.usable {
        Option::Some(u) => u as int,
        Option::None => cross_extent(m.stack.space.size, m.stack.dirs),
    }
}

/// The cross width still free on the current line.
pub open spec fn usable_width(m: LineModel) -> int {
    usable_total(m) - m.run.width
}

/// The main extent still free in the stack's active space.
pub open spec fn usable_main(m: LineModel) -> int {
    main_extent(m.stack.space.size, m.stack.dirs) - m.stack.space.used
}

/// Whether a box of physical size `s` fits the free room of the line.
pub open spec fn fits_current(m: LineModel, s: Size) -> bool {
    &&& usable_width(m) >= cross_extent(s, m.stack.dirs)
    &&& usable_main(m) >= main_extent(s, m.stack.dirs)
}

/// The amount of hard cross spacing materialized from a request of
/// `amount` against a run of width `width` whose line offers `total`:
/// clamped into the available room, so the run neither overflows its
/// usable width nor shrinks below an empty line.
pub open spec fn run_hard_step(width: i64, total: int, amount: i64) -> int {
    let capped = if amount as int <= total - width {
        amount as int
    } else {
        total - width
    };
    if capped >= -width {
        capped
    } else {
        -(width as int)
    }
}

/// One clamped application of hard cross spacing, leaving the pending
/// state `Hard`.
pub open spec fn cross_hard_raw(m: LineModel, amount: i64) -> LineModel {
    LineModel {
        run: RunModel {
            width: (m.run.width + run_hard_step(m.run.width, usable_total(m), amount)) as i64,
            last: LastSpacing::Hard,
            ..m.run
        },
        ..m
    }
}

/// The layouter after a hard cross spacing request: a cached soft amount
/// is consumed first (converted to hard and applied to the run width,
/// clamped), then the requested amount is applied against the reduced
/// free width.
pub open spec fn cross_hard_next(m: LineModel, amount: i64) -> LineModel {
    match m.run.last {
        LastSpacing::Soft(s, _) => cross_hard_raw(cross_hard_raw(m, s), amount),
        _ => cross_hard_raw(m, amount),
    }
}

/// The layouter after a soft cross spacing request: cached only while the
/// pending state is `Cleared` or a soft request of lower priority.
pub open spec fn cross_soft_next(m: LineModel, amount: i64, level: u32) -> LineModel {
    if soft_consumes(m.run.last, level) {
        LineModel {
            run: RunModel { last: LastSpacing::Soft(amount, level), ..m.run },
            ..m
        }
    } else {
        m
    }
}

/// The layouter after a cross spacing request of either kind.
pub open spec fn cross_spacing_next(m: LineModel, amount: i64, kind: SpacingKind) -> LineModel {
    match kind {
        SpacingKind::Hard => cross_hard_next(m, amount),
        SpacingKind::Soft(level) => cross_soft_next(m, amount, level),
    }
}

/// The layouter after pending soft spacing is materialized as hard.
pub open spec fn pending_resolved(m: LineModel) -> LineModel {
    match m.run.last {
        LastSpacing::Soft(s, _) => cross_hard_raw(m, s),
        _ => m,
    }
}

/// The run's alignment, `Start` on both axes while none is captured yet.
pub open spec fn aligns_or_default(a: Option<Aligns>) -> Aligns {
    match a {
        Option::Some(x) => x,
        Option::None => Aligns { main: Align::Start, cross: Align::Start },
    }
}

/// The box a finished run turns into: its generalized size is the run's
/// width by its height; each child keeps its cross offset, mirrored when
/// the cross direction has negative polarity, and sits at zero along the
/// other physical axis.
pub open spec fn is_line_box(b: BoxLayout, run: RunModel, dirs: Dirs) -> bool {
    &&& cross_extent(b.size, dirs) == run.width as int
    &&& main_extent(b.size, dirs) == run.height as int
    &&& b.elements@.len() == run.items.len()
    &&& forall|i: int|
        0 <= i < run.items.len() ==> {
            let t = #[trigger] run.items[i];
            &&& b.elements@[i].1 == t.1
            &&& b.elements@[i].0.x as int == axis_pos(
                dirs.cross.spec_is_positive(),
                run.width as int,
                t.0 as int,
                cross_extent(t.1.size, dirs),
            )
            &&& b.elements@[i].0.y == 0
        }
}

/// One way through `finish_line`: the run becomes a line box, the stack
/// receives it under the run's alignment, then the configured line spacing
/// is issued as soft spacing at the conventional line level.
pub open spec fn finish_line_path(m1: LineModel, m2: LineModel, b: BoxLayout, ms: StackModel) -> bool {
    &&& is_line_box(b, m1.run, m1.stack.dirs)
    &&& stack_add_rel(m1.stack, ms, b, aligns_or_default(m1.run.aligns))
    &&& m2.stack == with_space(
        ms,
        spacing_next(ms.space, ms.dirs, m1.line_spacing, SpacingKind::Soft(2)),
    )
}

/// `finish_line`: close the run into a line box and start a fresh run.
pub open spec fn finish_line_rel(m1: LineModel, m2: LineModel) -> bool {
    &&& m2.run == fresh_run()
    &&& m2.line_spacing == m1.line_spacing
    &&& m2.warnings == m1.warnings
    &&& exists|b: BoxLayout, ms: StackModel| finish_line_path(m1, m2, b, ms)
}

/// Finish the line only if the run holds something.
pub open spec fn finish_line_if_rel(m1: LineModel, m2: LineModel) -> bool {
    if line_empty(m1.run) {
        m2 == m1
    } else {
        finish_line_rel(m1, m2)
    }
}

/// One way through `finish_space`: finish the pending line, then close the
/// stack's active space.
pub open spec fn finish_space_line_path(m1: LineModel, mid: LineModel, m2: LineModel, hard: bool) -> bool {
    &&& finish_line_if_rel(m1, mid)
    &&& finish_space_rel(mid.stack, m2.stack, hard)
    &&& m2.run == mid.run
    &&& m2.line_spacing == m1.line_spacing
    &&& m2.warnings == m1.warnings
}

/// `finish_space`: finish the pending line, then close the active space.
pub open spec fn finish_space_line_rel(m1: LineModel, m2: LineModel, hard: bool) -> bool {
    exists|mid: LineModel| finish_space_line_path(m1, mid, m2, hard)
}

/// The usable cross width of a second run spawned on the same row: what
/// the stack offers, minus the space the first run consumed - twice for
/// `Center`, which reserves equal margin on both sides, once for `End`.
pub open spec fn sibling_usable(m1: LineModel, al: Aligns) -> int {
    let u = cross_extent(m1.stack.space.size, m1.stack.dirs);
    if al.cross == Align::Center {
        u - 2 * m1.run.width
    } else {
        u - m1.run.width
    }
}

/// One way through the cross-alignment-increase branch: the first run is
/// finished as a line, a compensating negative main spacing rewinds the
/// stack by that line's height, and a fresh run inheriting the height and
/// the leftover usable width takes over.
pub open spec fn sibling_path(m1: LineModel, mf: LineModel, m2: LineModel, al: Aligns) -> bool {
    &&& finish_line_rel(m1, mf)
    &&& m2.stack == with_space(
        mf.stack,
        spacing_next(mf.stack.space, mf.stack.dirs, (-m1.run.height) as i64, SpacingKind::Hard),
    )
    &&& m2.run == (RunModel {
        items: Seq::empty(),
        width: 0,
        height: m1.run.height,
        aligns: Option::None,
        usable: Option::Some(sibling_usable(m1, al) as i64),
        last: LastSpacing::Hard,
    })
    &&& m2.line_spacing == m1.line_spacing
    &&& m2.warnings == m1.warnings
}

/// The alignment-increase branch of `add`.
pub open spec fn sibling_rel(m1: LineModel, m2: LineModel, al: Aligns) -> bool {
    exists|mf: LineModel| sibling_path(m1, mf, m2, al)
}

/// A line finish that also records the misaligned-content diagnostic: an
/// alignment change the stack reported as not fitting, met outside a
/// repeating context.
pub open spec fn misaligned_path(m1: LineModel, mw: LineModel, m2: LineModel) -> bool {
    &&& finish_line_rel(m1, mw)
    &&& m2 == (LineModel { warnings: mw.warnings.push(LayoutWarning::Misaligned), ..mw })
}

/// The alignment reconciliation step of `add`: how the current run reacts
/// to a box of alignment `al` before the box is placed.
pub open spec fn reconcile_rel(m1: LineModel, m2: LineModel, al: Aligns) -> bool {
    match m1.run.aligns {
        Option::None => m2 == m1,
        Option::Some(prev) => {
            if al.main != prev.main {
                if al.main.spec_rank() < m1.stack.space.allowed.spec_rank() {
                    if m1.stack.repeat {
                        finish_space_line_rel(m1, m2, true)
                    } else {
                        exists|mw: LineModel| misaligned_path(m1, mw, m2)
                    }
                } else {
                    finish_line_rel(m1, m2)
                }
            } else if al.cross.spec_rank() < prev.cross.spec_rank() {
                finish_line_rel(m1, m2)
            } else if al.cross.spec_rank() > prev.cross.spec_rank() {
                sibling_rel(m1, m2, al)
            } else {
                m2 == m1
            }
        },
    }
}

/// One way through the fit step of `add` when the box does not fit: the
/// non-empty line is finished; if the box does not fit a fresh line
/// either, the stack skips to a space large enough.
pub open spec fn fit_path(mb: LineModel, me: LineModel, md: LineModel, s: Size) -> bool {
    &&& finish_line_if_rel(mb, me)
    &&& if fits_current(me, s) {
        md == me
    } else {
        &&& md.run == me.run
        &&& md.line_spacing == me.line_spacing
        &&& skip_rel(me.stack, md.stack, s)
        &&& md.warnings == (if fits_current(md, s) {
            me.warnings
        } else {
            // genuine overflow: even the freshest space cannot fit it
            me.warnings.push(LayoutWarning::Overflow)
        })
    }
}

/// The fit step of `add`.
pub open spec fn fit_step_rel(mb: LineModel, md: LineModel, s: Size) -> bool {
    if fits_current(mb, s) {
        md == mb
    } else {
        exists|me: LineModel| fit_path(mb, me, md, s)
    }
}

/// The final step of `add`: the box is recorded at the run's current
/// width, which then grows by the box's cross extent; the run's height
/// rises to the box's main extent if that is larger, and its alignment is
/// captured.
pub open spec fn push_next(m: LineModel, b: BoxLayout, al: Aligns) -> LineModel {
    LineModel {
        run: RunModel {
            items: m.run.items.push((m.run.width, b)),
            width: (m.run.width + cross_extent(b.size, m.stack.dirs)) as i64,
            height: if m.run.height >= main_extent(b.size, m.stack.dirs) {
                m.run.height
            } else {
                main_extent(b.size, m.stack.dirs) as i64
            },
            aligns: Option::Some(al),
            last: LastSpacing::Cleared,
            ..m.run
        },
        ..m
    }
}

/// One way through `add`: reconcile the alignment, materialize pending
/// soft spacing, break the line if the box does not fit, place the box.
pub open spec fn add_steps(
    m1: LineModel,
    ma: LineModel,
    md: LineModel,
    m2: LineModel,
    b: BoxLayout,
    al: Aligns,
) -> bool {
    &&& reconcile_rel(m1, ma, al)
    &&& fit_step_rel(pending_resolved(ma), md, b.size)
    &&& m2 == push_next(md, b, al)
}

/// `add`: the central operation.
pub open spec fn line_add_rel(m1: LineModel, m2: LineModel, b: BoxLayout, al: Aligns) -> bool {
    exists|ma: LineModel, md: LineModel| add_steps(m1, ma, md, m2, b, al)
}

/// One way through `add_main_spacing`: the pending line is finished (line
/// spacing belongs to the stack level), then the request goes to the stack
/// unchanged.
pub open spec fn main_spacing_path(
    m1: LineModel,
    mid: LineModel,
    m2: LineModel,
    amount: i64,
    kind: SpacingKind,
) -> bool {
    &&& finish_line_if_rel(m1, mid)
    &&& m2.stack == with_space(mid.stack, spacing_next(mid.stack.space, mid.stack.dirs, amount, kind))
    &&& m2.run == mid.run
    &&& m2.line_spacing == m1.line_spacing
    &&& m2.warnings == m1.warnings
}

/// `add_main_spacing`.
pub open spec fn main_spacing_rel(m1: LineModel, m2: LineModel, amount: i64, kind: SpacingKind) -> bool {
    exists|mid: LineModel| main_spacing_path(m1, mid, m2, amount, kind)
}

/// One way through `finish`: the pending line is finished, then the stack
/// is finished.
pub open spec fn finish_path(m: LineModel, mid: LineModel, r: Seq<BoxLayout>) -> bool {
    &&& finish_line_if_rel(m, mid)
    &&& stack_finish_rel(mid.stack, r)
}

/// `finish`.
pub open spec fn line_finish_rel(m: LineModel, r: Seq<BoxLayout>) -> bool {
    exists|mid: LineModel| finish_path(m, mid, r)
}

/// Bounds on the run that keep all internal arithmetic inside `i64`.
pub open spec fn run_ok(run: RunModel) -> bool {
    &&& -(2 * extent_limit()) <= run.width <= 3 * extent_limit()
    &&& 0 <= run.height <= extent_limit()
    &&& (match run.usable {
        Option::Some(u) => -(2 * extent_limit()) <= u <= 3 * extent_limit(),
        Option::None => 0 <= run.width <= extent_limit(),
    })
    &&& (forall|i: int|
        0 <= i < run.items.len() ==> {
            let t = #[trigger] run.items[i];
            &&& -(2 * extent_limit()) <= t.0 <= 3 * extent_limit()
            &&& wf_size(t.1.size)
        })
}

/// What ties the run's usable override to its alignment at every public
/// boundary: a captured alignment comes from a recorded box; an override
/// only exists on a run whose captured alignment increased past `Start`;
/// and a centered second run (with its tighter double subtraction) stays
/// within one extent limit.
pub open spec fn run_linked(run: RunModel) -> bool {
    &&& (match run.aligns {
        Option::Some(_) => run.items.len() >= 1,
        Option::None => true,
    })
    &&& match run.usable {
        Option::Some(u) => match run.aligns {
            Option::Some(a) => {
                &&& a.cross != Align::Start
                &&& (a.cross == Align::Center ==> u <= extent_limit() && run.width <= extent_limit())
            },
            Option::None => false,
        },
        Option::None => true,
    }
}

/// What holds of the run between the reconciliation step and the box push
/// of one `add` call: an override either belongs to the captured alignment
/// already, or waits for the incoming alignment `al` to be captured.
pub open spec fn linked_for(run: RunModel, al: Aligns) -> bool {
    match run.usable {
        Option::Some(u) => {
            &&& al.cross != Align::Start
            &&& (al.cross == Align::Center ==> u <= extent_limit() && run.width <= extent_limit())
            &&& (run.aligns == Option::Some(al) || run.aligns == Option::<Aligns>::None)
        },
        Option::None => true,
    }
}

/// The full model invariant at public boundaries.
pub open spec fn line_inv(m: LineModel) -> bool {
    &&& stack_inv(m.stack)
    &&& run_ok(m.run)
    &&& run_linked(m.run)
}

/// A sequence of boxes with the same alignment.  A real line can consist
/// of multiple runs with different alignments.
struct LineRun {
    /// The so-far accumulated items of the run.
    layouts: Vec<(i64, BoxLayout)>,
    /// The summed cross extent of the run.
    width: i64,
    /// The maximal main extent among the run's boxes.
    height: i64,
    /// The alignment of all layouts in the run, captured from the first.
    aligns: Option<Aligns>,
    /// The cross width left by another run on the same row, if any.
    usable: Option<i64>,
    /// The pending-spacing state.
    last_spacing: LastSpacing,
}

impl LineRun {
    fn new() -> (r: LineRun)
        ensures
            r.layouts@ == Seq::<(i64, BoxLayout)>::empty(),
            r.width == 0,
            r.height == 0,
            r.aligns == Option::<Aligns>::None,
            r.usable == Option::<i64>::None,
            r.last_spacing == LastSpacing::Hard,
    {
        LineRun {
            layouts: Vec::new(),
            width: 0,
            height: 0,
            aligns: Option::None,
            usable: Option::None,
            last_spacing: LastSpacing::Hard,
        }
    }
}

/// Performs the line layouting.
pub struct LineLayouter {
    /// The context used for line layouting.
    ctx: LineContext,
    /// The underlying layouter that stacks the finished lines.
    stack: StackLayouter,
    /// The in-progress line.
    run: LineRun,
    /// The diagnostics collected so far.
    warnings: Vec<LayoutWarning>,
}

impl View for LineLayouter {
    type V = LineModel;

    closed spec fn view(&self) -> LineModel {
        LineModel {
            line_spacing: self.ctx.line_spacing,
            run: RunModel {
                items: self.run.layouts@,
                width: self.run.width,
                height: self.run.height,
                aligns: self.run.aligns,
                usable: self.run.usable,
                last: self.run.last_spacing,
            },
            stack: self.stack@,
            warnings: self.warnings@,
        }
    }
}

impl LineLayouter {
    /// Arithmetic bounds that hold even between the internal steps of one
    /// operation.
    pub closed spec fn wf0(&self) -> bool {
        &&& self.ctx.dirs == self.stack@.dirs
        &&& self.ctx.repeat == self.stack@.repeat
        &&& stack_inv(self.stack@)
        &&& run_ok(self@.run)
    }

    /// The invariant at public boundaries.
    pub closed spec fn wf(&self) -> bool {
        &&& self.wf0()
        &&& run_linked(self@.run)
    }

    /// `wf` implies the open model invariant.
    pub proof fn lemma_wf_inv(&self)
        requires
            self.wf(),
        ensures
            line_inv(self@),
    {
    }

    /// `wf` includes the mid-operation bounds `wf0`: the bridge a caller
    /// needs to drive [`Self::add_cross_spacing`] or [`Self::finish_line`]
    /// directly.
    pub proof fn lemma_wf_wf0(&self)
        requires
            self.wf(),
        ensures
            self.wf0(),
    {
    }

    /// Create a new line layouter.
    pub fn new(ctx: LineContext) -> (r: LineLayouter)
        requires
            ctx.spaces@.len() >= 1,
            wf_dirs(ctx.dirs),
            forall|i: int| 0 <= i < ctx.spaces@.len() ==> wf_size((#[trigger] ctx.spaces@[i]).size),
        ensures
            r.wf(),
            r@.run == fresh_run(),
            r@.line_spacing == ctx.line_spacing,
            r@.stack.dirs == ctx.dirs,
            r@.stack.repeat == ctx.repeat,
            r@.stack.space == fresh_space(ctx.spaces@[0].size),
            r@.stack.future == ctx.spaces@.skip(1),
            r@.stack.repeat_size == ctx.spaces@[ctx.spaces@.len() - 1].size,
            r@.stack.done == Seq::<BoxLayout>::empty(),
            r@.warnings == Seq::<LayoutWarning>::empty(),
    {
        let mut spaces: Vec<LayoutSpace> = Vec::new();
        let mut i: usize = 0;
        while i < ctx.spaces.len()
            invariant
                i <= ctx.spaces@.len(),
                spaces@ == ctx.spaces@.take(i as int),
            decreases ctx.spaces@.len() - i,
        {
            spaces.push(ctx.spaces[i]);
            proof {
                assert(spaces@ =~= ctx.spaces@.take(i as int + 1));
            }
            i = i + 1;
        }
        proof {
            assert(spaces@ =~= ctx.spaces@);
        }
        let stack = StackLayouter::new(StackContext { spaces, dirs: ctx.dirs, repeat: ctx.repeat });
        let r = LineLayouter { ctx, stack, run: LineRun::new(), warnings: Vec::new() };
        proof {
            assert(r@.run =~= fresh_run());
            assert(r@.warnings =~= Seq::<LayoutWarning>::empty());
        }
        r
    }

    /// The diagnostics collected so far, in the order they arose.
    pub fn warnings(&self) -> (r: &Vec<LayoutWarning>)
        ensures
            r@ == self@.warnings,
    {
        &self.warnings
    }

    /// The remaining usable generalized size of the line: how much more
    /// would fit before a line break would be needed.
    fn usable(&self) -> (r: Size)
        requires
            self.wf0(),
        ensures
            r.width as int == usable_width(self@),
            r.height as int == usable_main(self@),
    {
        let mut usable = self.stack.usable().generalized(self.ctx.dirs);
        match self.run.usable {
            Option::Some(cross) => {
                usable.width = cross;
            },
            Option::None => {},
        }
        usable.width = usable.width - self.run.width;
        usable
    }

    /// Whether the current line holds nothing.
    pub fn line_is_empty(&self) -> (r: bool)
        ensures
            r == line_empty(self@.run),
    {
        self.run.width == 0 && self.run.height == 0 && self.run.layouts.len() == 0
    }

    /// One clamped application of hard cross spacing.
    fn apply_hard(&mut self, amount: i64)
        requires
            old(self).wf0(),
        ensures
            final(self).wf0(),
            old(self).wf() ==> final(self).wf(),
            final(self)@ == cross_hard_raw(old(self)@, amount),
            forall|al: Aligns|
                linked_for(old(self)@.run, al) ==> linked_for(final(self)@.run, al),
    {
        let avail = self.usable().width;
        let capped = if amount <= avail {
            amount
        } else {
            avail
        };
        let mat = if capped >= -self.run.width {
            capped
        } else {
            -self.run.width
        };
        self.run.width = self.run.width + mat;
        self.run.last_spacing = LastSpacing::Hard;
        proof {
            assert(self@ =~= cross_hard_raw(old(self)@, amount));
        }
    }

    /// Add spacing to the line.  A hard amount first consumes any cached
    /// soft amount (converting it to hard, applied to the run width,
    /// clamped) and is then itself clamped into the remaining free width;
    /// a soft amount is cached and collapses against adjacent soft
    /// requests, the numerically lower level winning.
    pub fn add_cross_spacing(&mut self, spacing: i64, kind: SpacingKind)
        requires
            old(self).wf0(),
        ensures
            final(self).wf0(),
            old(self).wf() ==> final(self).wf(),
            final(self)@ == cross_spacing_next(old(self)@, spacing, kind),
    {
        match kind {
            SpacingKind::Hard => {
                match self.run.last_spacing {
                    LastSpacing::Soft(s, _) => {
                        self.apply_hard(s);
                        self.apply_hard(spacing);
                    },
                    _ => {
                        self.apply_hard(spacing);
                    },
                }
                proof {
                    assert(self@ == cross_spacing_next(old(self)@, spacing, kind));
                }
            },
            SpacingKind::Soft(level) => {
                let consumes = match self.run.last_spacing {
                    LastSpacing::Cleared => true,
                    LastSpacing::Soft(_, prev) => level < prev,
                    LastSpacing::Hard => false,
                };
                if consumes {
                    self.run.last_spacing = LastSpacing::Soft(spacing, level);
                }
                proof {
                    assert(self@ =~= cross_spacing_next(old(self)@, spacing, kind));
                }
            },
        }
    }

    /// Finish the active line and start a new one.
    pub fn finish_line(&mut self)
        requires
            old(self).wf0(),
        ensures
            final(self).wf(),
            finish_line_rel(old(self)@, final(self)@),
    {
        let ghost m1 = self@;
        let mut line = BoxLayout::new(
            Size::new(self.run.width, self.run.height).specialized(self.ctx.dirs),
        );
        let aligns = match self.run.aligns {
            Option::Some(a) => a,
            Option::None => Aligns { main: Align::Start, cross: Align::Start },
        };
        let ghost old_items = self.run.layouts@;
        let n = self.run.layouts.len();
        proof {
            assert(old_items.len() == n);
        }
        let mut i: usize = 0;
        while self.run.layouts.len() > 0
            invariant
                self.wf0(),
                old_items == m1.run.items,
                self@.run.width == m1.run.width,
                self@.run.height == m1.run.height,
                self@.run.aligns == m1.run.aligns,
                self@.run.usable == m1.run.usable,
                self@.run.last == m1.run.last,
                self@.stack == m1.stack,
                self@.line_spacing == m1.line_spacing,
                self@.warnings == m1.warnings,
                i <= old_items.len(),
                old_items.len() <= usize::MAX,
                self.run.layouts@ == old_items.skip(i as int),
                forall|j: int|
                    0 <= j < old_items.len() ==> {
                        let t = #[trigger] old_items[j];
                        &&& -(2 * extent_limit()) <= t.0 <= 3 * extent_limit()
                        &&& wf_size(t.1.size)
                    },
                cross_extent(line.size, self@.stack.dirs) == m1.run.width as int,
                main_extent(line.size, self@.stack.dirs) == m1.run.height as int,
                line.elements@.len() == i,
                forall|j: int|
                    0 <= j < i ==> {
                        let t = #[trigger] old_items[j];
                        &&& line.elements@[j].1 == t.1
                        &&& line.elements@[j].0.x as int == axis_pos(
                            m1.stack.dirs.cross.spec_is_positive(),
                            m1.run.width as int,
                            t.0 as int,
                            cross_extent(t.1.size, m1.stack.dirs),
                        )
                        &&& line.elements@[j].0.y == 0
                    },
            decreases self.run.layouts@.len(),
        {
            proof {
                assert(old_items.skip(i as int).len() == old_items.len() - i);
                assert(i < old_items.len());
                assert(self.run.layouts@[0] == old_items[i as int]);
            }
            let (offset, child) = self.run.layouts.remove(0);
            proof {
                assert(self.run.layouts@ =~= old_items.skip(i as int + 1));
                assert((offset, child) == old_items[i as int]);
                assert(-(2 * extent_limit()) <= offset <= 3 * extent_limit());
                assert(wf_size(child.size));
            }
            let child_cross = child.size.generalized(self.ctx.dirs).width;
            let x = if self.ctx.dirs.cross.is_positive() {
                offset
            } else {
                self.run.width - offset - child_cross
            };
            line.push_layout(Point::new(x, 0), child);
            i = i + 1;
        }
        proof {
            assert(line.elements@.len() == m1.run.items.len());
            assert(is_line_box(line, m1.run, m1.stack.dirs));
        }
        let ghost bline = line;
        self.stack.add(line, aligns);
        let ghost ms = self.stack@;
        self.run = LineRun::new();
        self.stack.add_spacing(self.ctx.line_spacing, SpacingKind::Soft(2));
        proof {
            assert(self@.run =~= fresh_run());
            assert(finish_line_path(m1, self@, bline, ms));
            assert(finish_line_rel(m1, self@));
        }
    }

    fn finish_line_if_not_empty(&mut self)
        requires
            old(self).wf0(),
        ensures
            final(self).wf0(),
            old(self).wf() ==> final(self).wf(),
            finish_line_if_rel(old(self)@, final(self)@),
    {
        if !self.line_is_empty() {
            self.finish_line()
        }
    }

    /// Finish the line and add spacing to the underlying stack.
    pub fn add_main_spacing(&mut self, spacing: i64, kind: SpacingKind)
        requires
            old(self).wf(),
        ensures
            final(self).wf(),
            main_spacing_rel(old(self)@, final(self)@, spacing, kind),
    {
        let ghost m1 = self@;
        self.finish_line_if_not_empty();
        let ghost mid = self@;
        self.stack.add_spacing(spacing, kind);
        proof {
            assert(main_spacing_path(m1, mid, self@, spacing, kind));
        }
    }

    /// Update the layouting spaces.  If `replace_empty` is true, the
    /// current space is replaced when no line has touched it yet;
    /// otherwise only the upcoming spaces are replaced.
    pub fn set_spaces(&mut self, spaces: Vec<LayoutSpace>, replace_empty: bool)
        requires
            old(self).wf(),
            spaces@.len() >= 1,
            forall|i: int| 0 <= i < spaces@.len() ==> wf_size((#[trigger] spaces@[i]).size),
        ensures
            final(self).wf(),
            final(self)@.run == old(self)@.run,
            final(self)@.line_spacing == old(self)@.line_spacing,
            replace_empty && line_empty(old(self)@.run) && old(self)@.stack.space.boxes.len() == 0
                ==> final(self)@.stack == (StackModel {
                space: fresh_space(spaces@[0].size),
                future: spaces@.skip(1),
                repeat_size: spaces@[spaces@.len() - 1].size,
                ..old(self)@.stack
            }),
            !(replace_empty && line_empty(old(self)@.run) && old(self)@.stack.space.boxes.len()
                == 0) ==> final(self)@.stack == (StackModel {
                future: spaces@,
                repeat_size: spaces@[spaces@.len() - 1].size,
                ..old(self)@.stack
            }),
    {
        let replace = replace_empty && self.line_is_empty();
        self.stack.set_spaces(spaces, replace);
    }

    /// Update the line spacing used below lines finished from now on.
    pub fn set_line_spacing(&mut self, line_spacing: i64)
        requires
            old(self).wf(),
        ensures
            final(self).wf(),
            final(self)@ == (LineModel { line_spacing, ..old(self)@ }),
    {
        self.ctx.line_spacing = line_spacing;
        proof {
            assert(self@ =~= (LineModel { line_spacing, ..old(self)@ }));
        }
    }

    /// The remaining spaces: as the stack reports them, with the first
    /// one's main extent reduced by the unfinished run's height, so that
    /// callers see the room left once the pending line closes.
    pub fn remaining(&self) -> (r: Vec<LayoutSpace>)
        requires
            self.wf(),
        ensures
            r@.len() == 1 + self@.stack.future.len(),
            cross_extent(r@[0].size, self@.stack.dirs) == cross_extent(
                self@.stack.space.size,
                self@.stack.dirs,
            ),
            main_extent(r@[0].size, self@.stack.dirs) == usable_main(self@) - self@.run.height,
            forall|i: int| 1 <= i < r@.len() ==> r@[i] == self@.stack.future[i - 1],
    {
        let spaces = self.stack.remaining();
        let first = spaces[0];
        let g = first.size.generalized(self.ctx.dirs);
        let reduced = LayoutSpace {
            size: Size::new(g.width, g.height - self.run.height).specialized(self.ctx.dirs),
        };
        let mut r: Vec<LayoutSpace> = Vec::new();
        r.push(reduced);
        let mut i: usize = 1;
        while i < spaces.len()
            invariant
                self.wf(),
                1 <= i <= spaces@.len(),
                spaces@.len() == 1 + self@.stack.future.len(),
                forall|j: int| 1 <= j < spaces@.len() ==> spaces@[j] == self@.stack.future[j - 1],
                r@.len() == i,
                cross_extent(r@[0].size, self@.stack.dirs) == cross_extent(
                    self@.stack.space.size,
                    self@.stack.dirs,
                ),
                main_extent(r@[0].size, self@.stack.dirs) == usable_main(self@) - self@.run.height,
                forall|j: int| 1 <= j < r@.len() ==> r@[j] == self@.stack.future[j - 1],
            decreases spaces@.len() - i,
        {
            r.push(spaces[i]);
            i = i + 1;
        }
        r
    }

    /// Finish everything up and return the final collection of boxes.
    pub fn finish(self) -> (r: Vec<BoxLayout>)
        requires
            self.wf(),
        ensures
            line_finish_rel(self@, r@),
    {
        let ghost m1 = self@;
        let mut this = self;
        this.finish_line_if_not_empty();
        let ghost mid = this@;
        let r = this.stack.finish();
        proof {
            assert(finish_path(m1, mid, r@));
        }
        r
    }

    /// Finish the active space and start a new one.  At the top level,
    /// this is a page break.
    pub fn finish_space(&mut self, hard: bool)
        requires
            old(self).wf(),
        ensures
            final(self).wf(),
            finish_space_line_rel(old(self)@, final(self)@, hard),
    {
        let ghost m1 = self@;
        self.finish_line_if_not_empty();
        let ghost mid = self@;
        self.stack.finish_space(hard);
        proof {
            assert(finish_space_line_path(m1, mid, self@, hard));
        }
    }

    /// The alignment reconciliation step of `add`: close or fork the run
    /// as the incoming alignment demands.
    #[verifier::rlimit(60)]
    fn reconcile(&mut self, aligns: Aligns)
        requires
            old(self).wf(),
        ensures
            final(self).wf0(),
            reconcile_rel(old(self)@, final(self)@, aligns),
            linked_for(final(self)@.run, aligns),
    {
        let ghost m1 = self@;
        match self.run.aligns {
            Option::Some(prev) => {
                if aligns.main.rank() != prev.main.rank() {
                    let fitting = self.stack.is_fitting_alignment(aligns);
                    if !fitting && self.ctx.repeat {
                        self.finish_space(true);
                    } else {
                        self.finish_line();
                        if !fitting {
                            let ghost mw = self@;
                            self.warnings.push(LayoutWarning::Misaligned);
                            proof {
                                assert(self@ =~= (LineModel {
                                    warnings: mw.warnings.push(LayoutWarning::Misaligned),
                                    ..mw
                                }));
                                assert(misaligned_path(m1, mw, self@));
                            }
                        }
                    }
                } else if aligns.cross.rank() < prev.cross.rank() {
                    self.finish_line();
                } else if aligns.cross.rank() > prev.cross.rank() {
                    proof {
                        // the spawning run is narrower than one extent
                        // limit: a `Start` run has no usable override, and
                        // a centered one is bounded by `run_linked`
                        if aligns.cross == Align::Center {
                            assert(prev.cross == Align::Start);
                            assert(m1.run.usable is None);
                            assert(0 <= m1.run.width <= extent_limit());
                        } else {
                            assert(aligns.cross == Align::End);
                            assert(-(2 * extent_limit()) <= m1.run.width <= extent_limit());
                        }
                    }
                    let usable = self.stack.usable().get(self.ctx.dirs.cross.axis());
                    let rest_usable = match aligns.cross {
                        Align::Start => {
                            proof {
                                assert(false);
                            }
                            0
                        },
                        Align::Center => usable - 2 * self.run.width,
                        Align::End => usable - self.run.width,
                    };
                    proof {
                        assert(0 <= usable as int <= extent_limit());
                        assert(-(2 * extent_limit()) <= rest_usable <= 3 * extent_limit());
                        assert(rest_usable as int == sibling_usable(m1, aligns));
                        if aligns.cross == Align::Center {
                            assert(rest_usable <= extent_limit());
                        }
                    }
                    let rest_height = self.run.height;
                    self.finish_line();
                    let ghost mf = self@;
                    self.stack.add_spacing(-rest_height, SpacingKind::Hard);
                    self.run = LineRun {
                        layouts: Vec::new(),
                        width: 0,
                        height: rest_height,
                        aligns: Option::None,
                        usable: Option::Some(rest_usable),
                        last_spacing: LastSpacing::Hard,
                    };
                    proof {
                        assert(self@.run =~= (RunModel {
                            items: Seq::empty(),
                            width: 0,
                            height: m1.run.height,
                            aligns: Option::None,
                            usable: Option::Some(sibling_usable(m1, aligns) as i64),
                            last: LastSpacing::Hard,
                        }));
                        assert(sibling_path(m1, mf, self@, aligns));
                        assert(sibling_rel(m1, self@, aligns));
                    }
                } else {
                    proof {
                        assert(prev.main == aligns.main);
                        assert(prev.cross == aligns.cross);
                        assert(self@ == m1);
                    }
                }
            },
            Option::None => {},
        }
    }

    /// The fit step of `add`: break the line if a box of the given
    /// physical size does not fit it, and skip to a larger space if it
    /// does not even fit a fresh line.
    fn break_if_unfit(&mut self, size: Size)
        requires
            old(self).wf0(),
            wf_size(size),
        ensures
            final(self).wf0(),
            fit_step_rel(old(self)@, final(self)@, size),
            forall|al: Aligns|
                linked_for(old(self)@.run, al) ==> linked_for(final(self)@.run, al),
    {
        let ghost mb = self@;
        let gen = size.generalized(self.ctx.dirs);
        if !self.usable().fits(gen) {
            if !self.line_is_empty() {
                self.finish_line();
            }
            let ghost me = self@;
            if !self.usable().fits(gen) {
                self.stack.skip_to_fitting_space(size);
                if !self.usable().fits(gen) {
                    let ghost mo = self@;
                    self.warnings.push(LayoutWarning::Overflow);
                    proof {
                        assert(self@ =~= (LineModel {
                            warnings: mo.warnings.push(LayoutWarning::Overflow),
                            ..mo
                        }));
                    }
                }
            }
            proof {
                assert(fit_path(mb, me, self@, size));
                assert(fit_step_rel(mb, self@, size));
            }
        }
    }

    /// Add a layout with its alignment.
    #[verifier::rlimit(100)]
    pub fn add(&mut self, layout: BoxLayout, aligns: Aligns)
        requires
            old(self).wf(),
            wf_size(layout.size),
        ensures
            final(self).wf(),
            line_add_rel(old(self)@, final(self)@, layout, aligns),
    {
        let ghost m1 = self@;
        self.reconcile(aligns);
        let ghost ma = self@;
        match self.run.last_spacing {
            LastSpacing::Soft(s, _) => self.apply_hard(s),
            _ => {},
        }
        let ghost mb = self@;
        proof {
            assert(mb == pending_resolved(ma));
            assert(linked_for(mb.run, aligns));
        }
        let size = layout.size.generalized(self.ctx.dirs);
        self.break_if_unfit(layout.size);
        let ghost md = self@;
        proof {
            assert(fit_step_rel(mb, md, layout.size));
            assert(linked_for(md.run, aligns));
        }
        self.run.aligns = Option::Some(aligns);
        let offset = self.run.width;
        self.run.layouts.push((offset, layout));
        self.run.width = offset + size.width;
        self.run.height = if self.run.height >= size.height {
            self.run.height
        } else {
            size.height
        };
        self.run.last_spacing = LastSpacing::Cleared;
        proof {
            assert(self@ =~= push_next(md, layout, aligns));
            assert(add_steps(m1, ma, md, self@, layout, aligns));
            assert(line_add_rel(m1, self@, layout, aligns));
        }
    }
}

} // verus!
