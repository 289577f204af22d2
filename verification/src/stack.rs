//! Stacking layouter: the collaborator below the line layouter.
//!
//! Finished line boxes are placed along the main axis into one or more
//! bounded spaces.  A line that no longer fits the active space moves to the
//! next configured space; an oversized line may skip forward to a space
//! large enough for it.  When the configured spaces are exhausted, the last
//! configured size is reused for every further space.
//!
//! Within the active space a cursor tracks the consumed main extent.  Hard
//! spacing moves the cursor, clamped so that it stays between zero and the
//! space's main extent; soft spacing is cached and only materialized when a
//! box follows it, collapsing adjacent soft requests to the one with the
//! highest priority.  Closing a space that holds boxes emits one space-level
//! box whose children are the placed boxes, positioned by the cursor offsets
//! along the main axis and by their cross alignment across the space;
//! closing an untouched space emits nothing.

use vstd::prelude::*;
use crate::geom::{
    align_max, align_offset, axis_pos, cross_extent, extent_limit, main_extent, soft_consumes,
    wf_dirs, wf_size, Align, Aligns, BoxLayout, Dirs, LastSpacing, Point, Size, SpacingKind,
};

verus! {

/// A bounded layout region with a usable size.
#[derive(Clone, Copy, Debug, PartialEq, Eq, Structural)]
pub struct LayoutSpace {
    /// The usable size of the space.
    pub size: Size,
}

/// The context a stacking layouter is constructed from.
pub struct StackContext {
    /// The spaces to layout into, in order.
    pub spaces: Vec<LayoutSpace>,
    /// The layout directions.
    pub dirs: Dirs,
    /// Whether to spill over into copies of the last space when the
    /// configured spaces are used up.
    pub repeat: bool,
}

/// Model of the active space.
#[verifier::ext_equal]
pub ghost struct SpaceModel {
    /// The usable size of the space.
    pub size: Size,
    /// The main extent consumed so far (box extents plus hard spacing).
    pub used: i64,
    /// The boxes placed so far: (main offset, box, alignment).
    pub boxes: Seq<(i64, BoxLayout, Aligns)>,
    /// The pending-spacing state.
    pub last: LastSpacing,
    /// The highest main alignment placed so far; later content of a lower
    /// main alignment is reported as not fitting.
    pub allowed: Align,
}

/// Model of a stacking layouter.
#[verifier::ext_equal]
pub ghost struct StackModel {
    pub dirs: Dirs,
    pub repeat: bool,
    /// The active space.
    pub space: SpaceModel,
    /// The configured spaces not yet begun.
    pub future: Seq<LayoutSpace>,
    /// The size reused once the configured spaces are exhausted.
    pub repeat_size: Size,
    /// The space-level boxes of the spaces closed so far.
    pub done: Seq<BoxLayout>,
}

/// A fresh, untouched space of the given size.
pub open spec fn fresh_space(size: Size) -> SpaceModel {
    SpaceModel {
        size,
        used: 0,
        boxes: Seq::empty(),
        last: LastSpacing::Hard,
        allowed: Align::Start,
    }
}

/// The size of the next space to begin.
pub open spec fn next_size(m: StackModel) -> Size {
    if m.future.len() > 0 {
        m.future[0].size
    } else {
        m.repeat_size
    }
}

/// The configured spaces left after beginning the next one.
pub open spec fn next_future(m: StackModel) -> Seq<LayoutSpace> {
    if m.future.len() > 0 {
        m.future.skip(1)
    } else {
        Seq::empty()
    }
}

/// The amount of hard spacing materialized from a request of `amount`:
/// clamped so that the cursor stays between zero and the space's main
/// extent `cap` (a cursor already past `cap` is not moved back).
pub open spec fn hard_step(used: i64, cap: int, amount: i64) -> int {
    if amount >= 0 {
        let room = if cap - used >= 0 { cap - used } else { 0 };
        if amount <= room {
            amount as int
        } else {
            room
        }
    } else {
        if amount >= -used {
            amount as int
        } else {
            -(used as int)
        }
    }
}

/// The active space after a spacing request.
pub open spec fn spacing_next(sp: SpaceModel, dirs: Dirs, amount: i64, kind: SpacingKind) -> SpaceModel {
    match kind {
        SpacingKind::Hard => SpaceModel {
            used: (sp.used + hard_step(sp.used, main_extent(sp.size, dirs), amount)) as i64,
            last: LastSpacing::Hard,
            ..sp
        },
        SpacingKind::Soft(level) => {
            if soft_consumes(sp.last, level) {
                SpaceModel { last: LastSpacing::Soft(amount, level), ..sp }
            } else {
                sp
            }
        },
    }
}

/// The active space after a box is placed at the cursor.
pub open spec fn place_next(sp: SpaceModel, dirs: Dirs, b: BoxLayout, al: Aligns) -> SpaceModel {
    SpaceModel {
        boxes: sp.boxes.push((sp.used, b, al)),
        used: (sp.used + main_extent(b.size, dirs)) as i64,
        last: LastSpacing::Cleared,
        allowed: align_max(sp.allowed, al.main),
        ..sp
    }
}

/// The model with only the active space replaced.
pub open spec fn with_space(m: StackModel, sp: SpaceModel) -> StackModel {
    StackModel { space: sp, ..m }
}

/// Whether a box of the given size still fits the remaining room of the
/// active space: the leftover main extent and the full cross extent.
pub open spec fn remaining_fits(m: StackModel, size: Size) -> bool {
    &&& cross_extent(m.space.size, m.dirs) >= cross_extent(size, m.dirs)
    &&& main_extent(m.space.size, m.dirs) - m.space.used >= main_extent(size, m.dirs)
}

/// Whether a space of size `s` can hold a box of the given size at all.
pub open spec fn space_fits(s: Size, size: Size, dirs: Dirs) -> bool {
    &&& cross_extent(s, dirs) >= cross_extent(size, dirs)
    &&& main_extent(s, dirs) >= main_extent(size, dirs)
}

/// The index of the first configured space that can hold a box of the given
/// size, or the number of configured spaces if none can.
pub open spec fn first_fit_idx(future: Seq<LayoutSpace>, size: Size, dirs: Dirs) -> int
    decreases future.len(),
{
    if future.len() == 0 {
        0
    } else if space_fits(future[0].size, size, dirs) {
        0
    } else {
        1 + first_fit_idx(future.skip(1), size, dirs)
    }
}

/// The first-fit index is the least index of a fitting space.
pub proof fn lemma_first_fit_idx(future: Seq<LayoutSpace>, size: Size, dirs: Dirs)
    ensures
        0 <= first_fit_idx(future, size, dirs) <= future.len(),
        forall|i: int|
            0 <= i < first_fit_idx(future, size, dirs)
                ==> !space_fits((#[trigger] future[i]).size, size, dirs),
        first_fit_idx(future, size, dirs) < future.len()
            ==> space_fits(future[first_fit_idx(future, size, dirs)].size, size, dirs),
    decreases future.len(),
{
    let k = first_fit_idx(future, size, dirs);
    if future.len() == 0 {
    } else if space_fits(future[0].size, size, dirs) {
    } else {
        lemma_first_fit_idx(future.skip(1), size, dirs);
        assert forall|i: int| 0 <= i < k implies !space_fits(
            (#[trigger] future[i]).size,
            size,
            dirs,
        ) by {
            if i > 0 {
                assert(future.skip(1)[i - 1] == future[i]);
            }
        }
        if k < future.len() {
            assert(future.skip(1)[k - 1] == future[k]);
        }
    }
}

/// The box a closed space turns into: its generalized size is the space's
/// cross extent by the consumed main extent; each placed box sits at its
/// cursor offset along the main axis (mirrored for negative polarity) and
/// at its alignment's offset across the space's cross extent (mirrored for
/// negative polarity).
pub open spec fn is_space_box(b: BoxLayout, sp: SpaceModel, dirs: Dirs) -> bool {
    &&& cross_extent(b.size, dirs) == cross_extent(sp.size, dirs)
    &&& main_extent(b.size, dirs) == sp.used as int
    &&& b.elements@.len() == sp.boxes.len()
    &&& forall|i: int|
        0 <= i < sp.boxes.len() ==> {
            let t = #[trigger] sp.boxes[i];
            &&& b.elements@[i].1 == t.1
            &&& b.elements@[i].0.x as int == axis_pos(
                dirs.cross.spec_is_positive(),
                cross_extent(sp.size, dirs),
                align_offset(t.2.cross, cross_extent(sp.size, dirs), cross_extent(t.1.size, dirs)),
                cross_extent(t.1.size, dirs),
            )
            &&& b.elements@[i].0.y as int == axis_pos(
                dirs.main.spec_is_positive(),
                sp.used as int,
                t.0 as int,
                main_extent(t.1.size, dirs),
            )
        }
}

/// Everything but the active space, the future spaces and the output is
/// unchanged.
pub open spec fn frame(m1: StackModel, m2: StackModel) -> bool {
    &&& m2.dirs == m1.dirs
    &&& m2.repeat == m1.repeat
    &&& m2.repeat_size == m1.repeat_size
}

/// The output after closing the space `sp`: one space box if it holds
/// boxes, nothing otherwise.
pub open spec fn emitted(sp: SpaceModel, dirs: Dirs, d1: Seq<BoxLayout>, d2: Seq<BoxLayout>) -> bool {
    if sp.boxes.len() > 0 {
        exists|b: BoxLayout| is_space_box(b, sp, dirs) && d2 == d1.push(b)
    } else {
        d2 == d1
    }
}

/// Close the active space (emitting its box if it holds any) and begin the
/// next configured space.
pub open spec fn advance_rel(m1: StackModel, m2: StackModel) -> bool {
    &&& emitted(m1.space, m1.dirs, m1.done, m2.done)
    &&& m2.space == fresh_space(next_size(m1))
    &&& m2.future == next_future(m1)
    &&& frame(m1, m2)
}

/// `finish_space`: a hard close always advances; a soft close advances only
/// when the active space holds boxes.
pub open spec fn finish_space_rel(m1: StackModel, m2: StackModel, hard: bool) -> bool {
    if m1.space.boxes.len() > 0 || hard {
        advance_rel(m1, m2)
    } else {
        m2 == m1
    }
}

/// `skip_to_fitting_space`: advance through the configured spaces to the
/// first that can hold a box of the given size.  If none can, stop at the
/// last configured space, or at a fresh copy of the repeated size when
/// repetition is on and that size is large enough.  At most one space box
/// is emitted: only the space that was active at the call can hold boxes.
pub open spec fn skip_rel(m1: StackModel, m2: StackModel, size: Size) -> bool {
    let n = m1.future.len() as int;
    let k = first_fit_idx(m1.future, size, m1.dirs);
    let repeat_ok = m1.repeat && space_fits(m1.repeat_size, size, m1.dirs);
    if remaining_fits(m1, size) {
        m2 == m1
    } else if n > 0 && k < n {
        &&& m2.space == fresh_space(m1.future[k].size)
        &&& m2.future == m1.future.skip(k + 1)
        &&& emitted(m1.space, m1.dirs, m1.done, m2.done)
        &&& frame(m1, m2)
    } else if n > 0 {
        &&& m2.space == fresh_space(
            if repeat_ok {
                m1.repeat_size
            } else {
                m1.future[n - 1].size
            },
        )
        &&& m2.future == Seq::<LayoutSpace>::empty()
        &&& emitted(m1.space, m1.dirs, m1.done, m2.done)
        &&& frame(m1, m2)
    } else if repeat_ok {
        &&& m2.space == fresh_space(m1.repeat_size)
        &&& m2.future == Seq::<LayoutSpace>::empty()
        &&& emitted(m1.space, m1.dirs, m1.done, m2.done)
        &&& frame(m1, m2)
    } else {
        m2 == m1
    }
}

/// `add`: materialize pending soft spacing, move to a space with room if
/// the box does not fit the remaining one, then place the box at the
/// cursor.
pub open spec fn soft_resolved(m: StackModel) -> StackModel {
    match m.space.last {
        LastSpacing::Soft(s, _) => with_space(
            m,
            spacing_next(m.space, m.dirs, s, SpacingKind::Hard),
        ),
        _ => m,
    }
}

pub open spec fn stack_add_rel(m1: StackModel, m2: StackModel, b: BoxLayout, al: Aligns) -> bool {
    if remaining_fits(soft_resolved(m1), b.size) {
        m2 == with_space(
            soft_resolved(m1),
            place_next(soft_resolved(m1).space, soft_resolved(m1).dirs, b, al),
        )
    } else {
        exists|mb: StackModel, mc: StackModel| add_path(soft_resolved(m1), mb, mc, m2, b, al)
    }
}

/// One way through the non-fitting arm of [`stack_add_rel`]: close the
/// touched space, skip if even a fresh space lacks room, then place.
pub open spec fn add_path(
    ma: StackModel,
    mb: StackModel,
    mc: StackModel,
    m2: StackModel,
    b: BoxLayout,
    al: Aligns,
) -> bool {
    &&& if ma.space.boxes.len() > 0 {
        advance_rel(ma, mb)
    } else {
        mb == ma
    }
    &&& if remaining_fits(mb, b.size) {
        mc == mb
    } else {
        skip_rel(mb, mc, b.size)
    }
    &&& m2 == with_space(mc, place_next(mc.space, mc.dirs, b, al))
}

/// `finish`: the closed spaces' boxes, followed by the active space's box
/// if it holds any.
pub open spec fn stack_finish_rel(m: StackModel, r: Seq<BoxLayout>) -> bool {
    emitted(m.space, m.dirs, m.done, r)
}

/// Bounds that every reachable stacking layouter satisfies; they keep all
/// internal arithmetic inside `i64`.
pub open spec fn stack_inv(m: StackModel) -> bool {
    &&& wf_dirs(m.dirs)
    &&& wf_size(m.space.size)
    &&& wf_size(m.repeat_size)
    &&& (forall|i: int| 0 <= i < m.future.len() ==> wf_size((#[trigger] m.future[i]).size))
    &&& 0 <= m.space.used <= 2 * extent_limit()
    &&& (m.space.boxes.len() == 0 ==> m.space.used <= extent_limit())
    &&& (forall|i: int|
        0 <= i < m.space.boxes.len() ==> {
            let t = #[trigger] m.space.boxes[i];
            &&& 0 <= t.0 <= extent_limit()
            &&& -(4 * extent_limit()) <= t.1.size.width <= 4 * extent_limit()
            &&& -(4 * extent_limit()) <= t.1.size.height <= 4 * extent_limit()
            &&& 0 <= main_extent(t.1.size, m.dirs) <= extent_limit()
        })
}

/// Bounds on a box handed to [`StackLayouter::add`]: line boxes may have a
/// negative cross extent (an overfull run shrunk by clamped spacing), but
/// their main extent is a height and stays within the extent limit.
pub open spec fn wf_stack_box(s: Size, dirs: Dirs) -> bool {
    &&& -(4 * extent_limit()) <= s.width <= 4 * extent_limit()
    &&& -(4 * extent_limit()) <= s.height <= 4 * extent_limit()
    &&& 0 <= main_extent(s, dirs) <= extent_limit()
}

/// Performs the stack layouting.
pub struct StackLayouter {
    /// The layout directions.
    dirs: Dirs,
    /// Whether to reuse the last configured space when the list is
    /// exhausted.
    repeat: bool,
    /// The size of the active space.
    space_size: Size,
    /// The consumed main extent of the active space.
    used: i64,
    /// The boxes placed into the active space.
    boxes: Vec<(i64, BoxLayout, Aligns)>,
    /// The pending-spacing state of the active space.
    last: LastSpacing,
    /// The highest main alignment placed into the active space.
    allowed: Align,
    /// The configured spaces not yet begun.
    future: Vec<LayoutSpace>,
    /// The size reused once the configured spaces are exhausted.
    repeat_size: Size,
    /// The space boxes of the closed spaces.
    done: Vec<BoxLayout>,
}

impl View for StackLayouter {
    type V = StackModel;

    closed spec fn view(&self) -> StackModel {
        StackModel {
            dirs: self.dirs,
            repeat: self.repeat,
            space: SpaceModel {
                size: self.space_size,
                used: self.used,
                boxes: self.boxes@,
                last: self.last,
                allowed: self.allowed,
            },
            future: self.future@,
            repeat_size: self.repeat_size,
            done: self.done@,
        }
    }
}

impl StackLayouter {
    /// Whether this layouter is in a reachable, well-bounded state.
    pub open spec fn inv(&self) -> bool {
        stack_inv(self@)
    }

    /// Create a new stack layouter.
    pub fn new(ctx: StackContext) -> (r: StackLayouter)
        requires
            ctx.spaces@.len() >= 1,
            wf_dirs(ctx.dirs),
            forall|i: int| 0 <= i < ctx.spaces@.len() ==> wf_size((#[trigger] ctx.spaces@[i]).size),
        ensures
            r.inv(),
            r@.dirs == ctx.dirs,
            r@.repeat == ctx.repeat,
            r@.space == fresh_space(ctx.spaces@[0].size),
            r@.future == ctx.spaces@.skip(1),
            r@.repeat_size == ctx.spaces@[ctx.spaces@.len() - 1].size,
            r@.done == Seq::<BoxLayout>::empty(),
    {
        let mut spaces = ctx.spaces;
        let repeat_size = spaces[spaces.len() - 1].size;
        let first = spaces.remove(0);
        let r = StackLayouter {
            dirs: ctx.dirs,
            repeat: ctx.repeat,
            space_size: first.size,
            used: 0,
            boxes: Vec::new(),
            last: LastSpacing::Hard,
            allowed: Align::Start,
            future: spaces,
            repeat_size,
            done: Vec::new(),
        };
        proof {
            assert(r@.future =~= ctx.spaces@.skip(1));
            assert(r@.space =~= fresh_space(ctx.spaces@[0].size));
            assert(r@.done =~= Seq::<BoxLayout>::empty());
        }
        r
    }

    /// The remaining usable size of the active space: the full cross
    /// extent, and the main extent reduced by the consumed amount.
    pub fn usable(&self) -> (r: Size)
        requires
            self.inv(),
        ensures
            cross_extent(r, self@.dirs) == cross_extent(self@.space.size, self@.dirs),
            main_extent(r, self@.dirs) == main_extent(self@.space.size, self@.dirs)
                - self@.space.used,
    {
        let g = self.space_size.generalized(self.dirs);
        Size::new(g.width, g.height - self.used).specialized(self.dirs)
    }

    /// Whether a box of the given physical size fits the remaining room.
    fn remaining_ok(&self, size: Size) -> (r: bool)
        requires
            self.inv(),
            -(4 * extent_limit()) <= size.width <= 4 * extent_limit(),
            -(4 * extent_limit()) <= size.height <= 4 * extent_limit(),
        ensures
            r == remaining_fits(self@, size),
    {
        let sg = self.space_size.generalized(self.dirs);
        let bg = size.generalized(self.dirs);
        sg.width >= bg.width && sg.height - self.used >= bg.height
    }

    /// Whether content of the given alignment still fits the active space:
    /// its main alignment may not precede what is already placed there.
    pub fn is_fitting_alignment(&self, aligns: Aligns) -> (r: bool)
        requires
            self.inv(),
        ensures
            r == (aligns.main.spec_rank() >= self@.space.allowed.spec_rank()),
    {
        aligns.main.rank() >= self.allowed.rank()
    }

    /// Add spacing along the main axis.
    pub fn add_spacing(&mut self, amount: i64, kind: SpacingKind)
        requires
            old(self).inv(),
        ensures
            final(self).inv(),
            final(self)@ == with_space(
                old(self)@,
                spacing_next(old(self)@.space, old(self)@.dirs, amount, kind),
            ),
    {
        match kind {
            SpacingKind::Hard => {
                let cap = self.space_size.generalized(self.dirs).height;
                let room_raw = cap - self.used;
                let room = if room_raw >= 0 {
                    room_raw
                } else {
                    0
                };
                let mat = if amount >= 0 {
                    if amount <= room {
                        amount
                    } else {
                        room
                    }
                } else {
                    if amount >= -self.used {
                        amount
                    } else {
                        -self.used
                    }
                };
                self.used = self.used + mat;
                self.last = LastSpacing::Hard;
            },
            SpacingKind::Soft(level) => {
                let consumes = match self.last {
                    LastSpacing::Cleared => true,
                    LastSpacing::Soft(_, prev) => level < prev,
                    LastSpacing::Hard => false,
                };
                if consumes {
                    self.last = LastSpacing::Soft(amount, level);
                }
            },
        }
        proof {
            assert(self@ =~= with_space(
                old(self)@,
                spacing_next(old(self)@.space, old(self)@.dirs, amount, kind),
            ));
        }
    }

    /// Place a box at the cursor of the active space.
    fn place(&mut self, layout: BoxLayout, aligns: Aligns)
        requires
            old(self).inv(),
            wf_stack_box(layout.size, old(self)@.dirs),
            old(self)@.space.used <= extent_limit(),
        ensures
            final(self).inv(),
            final(self)@ == with_space(
                old(self)@,
                place_next(old(self)@.space, old(self)@.dirs, layout, aligns),
            ),
    {
        let main_e = layout.size.generalized(self.dirs).height;
        self.allowed = if self.allowed.rank() >= aligns.main.rank() {
            self.allowed
        } else {
            aligns.main
        };
        let off = self.used;
        self.boxes.push((off, layout, aligns));
        self.used = off + main_e;
        self.last = LastSpacing::Cleared;
        proof {
            assert(self@ =~= with_space(
                old(self)@,
                place_next(old(self)@.space, old(self)@.dirs, layout, aligns),
            ));
        }
    }

    /// Close the active space and begin the next configured one.
    fn advance(&mut self)
        requires
            old(self).inv(),
        ensures
            final(self).inv(),
            advance_rel(old(self)@, final(self)@),
            final(self)@.space.boxes.len() == 0,
    {
        let ghost m1 = self@;
        if self.boxes.len() > 0 {
            let cross = self.space_size.generalized(self.dirs).width;
            let mut space_box = BoxLayout::new(Size::new(cross, self.used).specialized(self.dirs));
            let ghost old_boxes = self.boxes@;
            let mut i: usize = 0;
            while self.boxes.len() > 0
                invariant
                    stack_inv(m1),
                    old_boxes == m1.space.boxes,
                    self.dirs == m1.dirs,
                    self.space_size == m1.space.size,
                    self.used == m1.space.used,
                    self.last == m1.space.last,
                    self.allowed == m1.space.allowed,
                    self.repeat == m1.repeat,
                    self.future@ == m1.future,
                    self.repeat_size == m1.repeat_size,
                    self.done@ == m1.done,
                    i <= old_boxes.len(),
                    old_boxes.len() <= usize::MAX,
                    self.boxes@ == old_boxes.skip(i as int),
                    cross as int == cross_extent(m1.space.size, m1.dirs),
                    cross_extent(space_box.size, m1.dirs) == cross_extent(m1.space.size, m1.dirs),
                    main_extent(space_box.size, m1.dirs) == m1.space.used as int,
                    space_box.elements@.len() == i,
                    forall|j: int|
                        0 <= j < i ==> {
                            let t = #[trigger] old_boxes[j];
                            &&& space_box.elements@[j].1 == t.1
                            &&& space_box.elements@[j].0.x as int == axis_pos(
                                m1.dirs.cross.spec_is_positive(),
                                cross_extent(m1.space.size, m1.dirs),
                                align_offset(
                                    t.2.cross,
                                    cross_extent(m1.space.size, m1.dirs),
                                    cross_extent(t.1.size, m1.dirs),
                                ),
                                cross_extent(t.1.size, m1.dirs),
                            )
                            &&& space_box.elements@[j].0.y as int == axis_pos(
                                m1.dirs.main.spec_is_positive(),
                                m1.space.used as int,
                                t.0 as int,
                                main_extent(t.1.size, m1.dirs),
                            )
                        },
                decreases self.boxes@.len(),
            {
                proof {
                    assert(old_boxes.skip(i as int).len() == old_boxes.len() - i);
                    assert(i < old_boxes.len());
                    assert(self.boxes@[0] == old_boxes[i as int]);
                }
                let (off, child, al) = self.boxes.remove(0);
                proof {
                    assert(self.boxes@ =~= old_boxes.skip(i as int + 1));
                }
                let child_cross = child.size.generalized(self.dirs).width;
                let child_main = child.size.generalized(self.dirs).height;
                let gen_off = match al.cross {
                    Align::Start => 0i64,
                    Align::Center => {
                        let d = cross - child_cross;
                        if d >= 0 {
                            ((d as u64) / 2u64) as i64
                        } else {
                            -((((-d) as u64) / 2u64) as i64)
                        }
                    },
                    Align::End => cross - child_cross,
                };
                proof {
                    assert(gen_off as int == align_offset(
                        al.cross,
                        cross_extent(m1.space.size, m1.dirs),
                        cross_extent(child.size, m1.dirs),
                    ));
                }
                let x = if self.dirs.cross.is_positive() {
                    gen_off
                } else {
                    cross - gen_off - child_cross
                };
                let y = if self.dirs.main.is_positive() {
                    off
                } else {
                    self.used - off - child_main
                };
                space_box.push_layout(Point::new(x, y), child);
                i = i + 1;
            }
            proof {
                assert(space_box.elements@.len() == m1.space.boxes.len());
                assert(is_space_box(space_box, m1.space, m1.dirs));
            }
            self.done.push(space_box);
            proof {
                assert(self.done@ == m1.done.push(space_box));
            }
        }
        let next = if self.future.len() > 0 {
            self.future.remove(0)
        } else {
            LayoutSpace { size: self.repeat_size }
        };
        self.space_size = next.size;
        self.used = 0;
        self.boxes = Vec::new();
        self.last = LastSpacing::Hard;
        self.allowed = Align::Start;
        proof {
            assert(self@.space =~= fresh_space(next_size(m1)));
            assert(self@.future =~= next_future(m1));
            assert(emitted(m1.space, m1.dirs, m1.done, self@.done));
        }
    }

    /// Close the active space and begin a new one.  A hard close always
    /// advances (an explicit break); a soft close only does so when the
    /// space holds boxes.  An untouched space emits no output either way.
    pub fn finish_space(&mut self, hard: bool)
        requires
            old(self).inv(),
        ensures
            final(self).inv(),
            finish_space_rel(old(self)@, final(self)@, hard),
    {
        if self.boxes.len() > 0 || hard {
            self.advance();
        }
    }

    /// Advance to a space that can hold a box of the given physical size,
    /// if any configured (or repeated) space can.
    pub fn skip_to_fitting_space(&mut self, size: Size)
        requires
            old(self).inv(),
            -(4 * extent_limit()) <= size.width <= 4 * extent_limit(),
            -(4 * extent_limit()) <= size.height <= 4 * extent_limit(),
        ensures
            final(self).inv(),
            skip_rel(old(self)@, final(self)@, size),
    {
        let ghost m1 = self@;
        proof {
            lemma_first_fit_idx(m1.future, size, m1.dirs);
        }
        if self.remaining_ok(size) {
            return ;
        }
        let ghost k = first_fit_idx(m1.future, size, m1.dirs);
        let ghost mut j: int = 0;
        while self.future.len() > 0 && !self.remaining_ok(size)
            invariant
                self.inv(),
                stack_inv(m1),
                !remaining_fits(m1, size),
                -(4 * extent_limit()) <= size.width <= 4 * extent_limit(),
                -(4 * extent_limit()) <= size.height <= 4 * extent_limit(),
                0 <= j <= m1.future.len(),
                j == 0 ==> self@ == m1,
                j > 0 ==> {
                    &&& self@.space == fresh_space(m1.future[j - 1].size)
                    &&& self@.future == m1.future.skip(j)
                    &&& emitted(m1.space, m1.dirs, m1.done, self@.done)
                    &&& frame(m1, self@)
                    &&& forall|i: int|
                        0 <= i < j - 1 ==> !space_fits(
                            (#[trigger] m1.future[i]).size,
                            size,
                            m1.dirs,
                        )
                },
            decreases self.future@.len(),
        {
            let ghost pre = self@;
            proof {
                if j > 0 {
                    assert(pre.space.boxes.len() == 0);
                    assert(m1.future.skip(j)[0] == m1.future[j]);
                }
            }
            self.advance();
            proof {
                if j > 0 {
                    assert(self@.done == pre.done);
                    assert(self@.space == fresh_space(m1.future[j].size));
                    assert(self@.future =~= m1.future.skip(j + 1));
                    // the space just left was a fresh copy of future[j - 1]
                    // and did not fit
                    assert(!space_fits(m1.future[j - 1].size, size, m1.dirs));
                } else {
                    assert(self@.space == fresh_space(m1.future[0].size));
                    assert(self@.future =~= m1.future.skip(1));
                }
                j = j + 1;
            }
        }
        // either the active space now fits, or the configured spaces are
        // exhausted
        if !self.remaining_ok(size) {
            let repeat_fits = if self.repeat {
                let rg = self.repeat_size.generalized(self.dirs);
                let bg = size.generalized(self.dirs);
                rg.width >= bg.width && rg.height >= bg.height
            } else {
                false
            };
            proof {
                if j > 0 {
                    assert(self@.future == m1.future.skip(j));
                    assert(m1.future.skip(j).len() == m1.future.len() - j);
                    assert(j == m1.future.len());
                    assert(!remaining_fits(self@, size));
                    assert(!space_fits(m1.future[j - 1].size, size, m1.dirs));
                    if k < m1.future.len() {
                        assert(space_fits(m1.future[k].size, size, m1.dirs));
                        assert(k <= j - 1);
                        assert(!space_fits(m1.future[k].size, size, m1.dirs));
                    }
                    assert(k == m1.future.len() as int);
                } else {
                    assert(self@ == m1);
                    assert(m1.future.len() == 0);
                }
            }
            if repeat_fits {
                let ghost pre = self@;
                self.advance();
                proof {
                    assert(pre.future.len() == 0);
                    assert(self@.space == fresh_space(m1.repeat_size));
                    assert(self@.future =~= Seq::<LayoutSpace>::empty());
                    if j > 0 {
                        assert(pre.space.boxes.len() == 0);
                        assert(self@.done == pre.done);
                        assert(emitted(m1.space, m1.dirs, m1.done, self@.done));
                    } else {
                        assert(emitted(m1.space, m1.dirs, m1.done, self@.done));
                    }
                }
            } else {
                proof {
                    if j > 0 {
                        assert(self@.future =~= Seq::<LayoutSpace>::empty());
                    }
                }
            }
        } else {
            proof {
                if j > 0 {
                    // the active space is a fresh copy of future[j - 1] and
                    // fits, so j - 1 is the first fitting index
                    assert(space_fits(m1.future[j - 1].size, size, m1.dirs));
                    if k < j - 1 {
                        assert(space_fits(m1.future[k].size, size, m1.dirs));
                        assert(false);
                    }
                    if k > j - 1 {
                        assert(!space_fits(m1.future[j - 1].size, size, m1.dirs));
                        assert(false);
                    }
                    assert(k == j - 1);
                }
            }
        }
    }

    /// Add a finished line box with its alignment.  If it does not fit the
    /// remaining room, the active space is closed first; if it does not
    /// even fit a fresh space, skip forward to one large enough.
    #[verifier::rlimit(50)]
    pub fn add(&mut self, layout: BoxLayout, aligns: Aligns)
        requires
            old(self).inv(),
            wf_stack_box(layout.size, old(self)@.dirs),
        ensures
            final(self).inv(),
            stack_add_rel(old(self)@, final(self)@, layout, aligns),
    {
        let ghost m1 = self@;
        match self.last {
            LastSpacing::Soft(s, _) => self.add_spacing(s, SpacingKind::Hard),
            _ => (),
        }
        let ghost ma = self@;
        proof {
            assert(ma == soft_resolved(m1));
        }
        if self.remaining_ok(layout.size) {
            self.place(layout, aligns);
            proof {
                assert(self@ =~= with_space(ma, place_next(ma.space, ma.dirs, layout, aligns)));
                assert(stack_add_rel(m1, self@, layout, aligns));
            }
        } else {
            if self.boxes.len() > 0 {
                self.advance();
            }
            let ghost mb = self@;
            if !self.remaining_ok(layout.size) {
                self.skip_to_fitting_space(layout.size);
            }
            let ghost mc = self@;
            proof {
                assert(mc.space.boxes.len() == 0);
                assert(mc.space.used <= extent_limit());
            }
            self.place(layout, aligns);
            proof {
                assert(add_path(soft_resolved(m1), mb, mc, self@, layout, aligns));
                assert(exists|mb2: StackModel, mc2: StackModel|
                    add_path(soft_resolved(m1), mb2, mc2, self@, layout, aligns));
                assert(stack_add_rel(m1, self@, layout, aligns));
            }
        }
    }

    /// The remaining spaces: the leftover of the active space, then the
    /// configured spaces not yet begun.
    pub fn remaining(&self) -> (r: Vec<LayoutSpace>)
        requires
            self.inv(),
        ensures
            r@.len() == 1 + self@.future.len(),
            cross_extent(r@[0].size, self@.dirs) == cross_extent(self@.space.size, self@.dirs),
            main_extent(r@[0].size, self@.dirs) == main_extent(self@.space.size, self@.dirs)
                - self@.space.used,
            forall|i: int| 1 <= i < r@.len() ==> r@[i] == self@.future[i - 1],
    {
        let mut r: Vec<LayoutSpace> = Vec::new();
        r.push(LayoutSpace { size: self.usable() });
        let mut i: usize = 0;
        while i < self.future.len()
            invariant
                self.inv(),
                i <= self.future@.len(),
                r@.len() == 1 + i,
                cross_extent(r@[0].size, self@.dirs) == cross_extent(self@.space.size, self@.dirs),
                main_extent(r@[0].size, self@.dirs) == main_extent(self@.space.size, self@.dirs)
                    - self@.space.used,
                forall|j: int| 1 <= j < r@.len() ==> r@[j] == self@.future[j - 1],
            decreases self.future@.len() - i,
        {
            r.push(self.future[i]);
            i = i + 1;
        }
        r
    }

    /// Update the configured spaces.  If `replace_empty` is set and the
    /// active space holds no boxes yet, it is replaced by the first new
    /// space; otherwise only the upcoming spaces are replaced.
    pub fn set_spaces(&mut self, spaces: Vec<LayoutSpace>, replace_empty: bool)
        requires
            old(self).inv(),
            spaces@.len() >= 1,
            forall|i: int| 0 <= i < spaces@.len() ==> wf_size((#[trigger] spaces@[i]).size),
        ensures
            final(self).inv(),
            replace_empty && old(self)@.space.boxes.len() == 0 ==> final(self)@ == (StackModel {
                space: fresh_space(spaces@[0].size),
                future: spaces@.skip(1),
                repeat_size: spaces@[spaces@.len() - 1].size,
                ..old(self)@
            }),
            !(replace_empty && old(self)@.space.boxes.len() == 0) ==> final(self)@ == (StackModel {
                future: spaces@,
                repeat_size: spaces@[spaces@.len() - 1].size,
                ..old(self)@
            }),
    {
        let mut spaces = spaces;
        self.repeat_size = spaces[spaces.len() - 1].size;
        if replace_empty && self.boxes.len() == 0 {
            let first = spaces.remove(0);
            self.space_size = first.size;
            self.used = 0;
            self.boxes = Vec::new();
            self.last = LastSpacing::Hard;
            self.allowed = Align::Start;
            self.future = spaces;
        } else {
            self.future = spaces;
        }
    }

    /// Finish everything up and return the space boxes in order.
    pub fn finish(self) -> (r: Vec<BoxLayout>)
        requires
            self.inv(),
        ensures
            stack_finish_rel(self@, r@),
    {
        let mut this = self;
        if this.boxes.len() > 0 {
            this.advance();
        }
        this.done
    }
}

} // verus!
