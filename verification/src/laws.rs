//! Laws of the line layouter, stated over the models and relations of
//! [`crate::line`] and proved from them.

use vstd::prelude::*;
use crate::geom::{
    cross_extent, main_extent, wf_size, Aligns, BoxLayout, Dirs, LastSpacing, SpacingKind,
};
use crate::stack::{place_next, soft_resolved, stack_finish_rel, stack_inv, with_space, StackModel};
use crate::line::{
    add_steps, cross_hard_next, cross_hard_raw, cross_spacing_next, finish_line_if_rel,
    finish_line_path, finish_line_rel, finish_path, fit_path, fits_current, fresh_run,
    is_line_box, line_add_rel, line_empty, line_finish_rel, line_inv, pending_resolved,
    push_next, usable_main, usable_total, usable_width, LineModel, RunModel,
};

verus! {

/// The summed cross extent of a sequence of boxes.
pub open spec fn cross_sum(boxes: Seq<BoxLayout>, dirs: Dirs) -> int
    decreases boxes.len(),
{
    if boxes.len() == 0 {
        0
    } else {
        cross_sum(boxes.drop_last(), dirs) + cross_extent(boxes.last().size, dirs)
    }
}

/// The maximal main extent of a sequence of boxes (zero if empty).
pub open spec fn main_max(boxes: Seq<BoxLayout>, dirs: Dirs) -> int
    decreases boxes.len(),
{
    if boxes.len() == 0 {
        0
    } else {
        let rest = main_max(boxes.drop_last(), dirs);
        let last = main_extent(boxes.last().size, dirs);
        if rest >= last {
            rest
        } else {
            last
        }
    }
}

/// The cross sum of well-sized boxes is nonnegative.
pub proof fn lemma_cross_sum_nonneg(boxes: Seq<BoxLayout>, dirs: Dirs)
    requires
        forall|i: int| 0 <= i < boxes.len() ==> wf_size((#[trigger] boxes[i]).size),
    ensures
        cross_sum(boxes, dirs) >= 0,
    decreases boxes.len(),
{
    if boxes.len() > 0 {
        lemma_cross_sum_nonneg(boxes.drop_last(), dirs);
    }
}

/// An `add` whose box shares the run's alignment, meets no pending soft
/// spacing and fits the free room simply appends the box: no line breaks,
/// the stack is untouched.
pub proof fn lemma_add_continues(m1: LineModel, m2: LineModel, b: BoxLayout, al: Aligns)
    requires
        line_add_rel(m1, m2, b, al),
        m1.run.aligns == Option::<Aligns>::None || m1.run.aligns == Option::Some(al),
        !(m1.run.last is Soft),
        fits_current(m1, b.size),
    ensures
        m2 == push_next(m1, b, al),
{
    let (ma, md) = choose|ma: LineModel, md: LineModel| add_steps(m1, ma, md, m2, b, al);
    assert(ma == m1);
    assert(pending_resolved(ma) == m1);
    assert(md == m1);
}

/// The conditions of the one-line law: starting from a fresh run, a
/// sequence of same-alignment, well-sized boxes is added whose summed
/// cross extent fits the space's cross extent and whose main extents each
/// fit the remaining main room.
pub open spec fn same_line_conditions(ms: Seq<LineModel>, boxes: Seq<BoxLayout>, al: Aligns) -> bool {
    let dirs = ms[0].stack.dirs;
    &&& ms.len() == boxes.len() + 1
    &&& ms[0].run == fresh_run()
    &&& stack_inv(ms[0].stack)
    &&& (forall|i: int| 0 <= i < boxes.len() ==> wf_size((#[trigger] boxes[i]).size))
    &&& cross_sum(boxes, dirs) <= cross_extent(ms[0].stack.space.size, dirs)
    &&& (forall|i: int|
        0 <= i < boxes.len() ==> main_extent((#[trigger] boxes[i]).size, dirs) <= usable_main(
            ms[0],
        ))
    &&& (forall|i: int|
        0 <= i < boxes.len() ==> line_add_rel(#[trigger] ms[i], ms[i + 1], boxes[i], al))
}

/// For any sequence of same-alignment boxes whose cumulative cross extent
/// fits the usable width, all boxes land on one line, at cumulative
/// offsets, with no break: the stack is untouched, and the line's height
/// is the maximum of the boxes' main extents.
pub proof fn lemma_same_line(ms: Seq<LineModel>, boxes: Seq<BoxLayout>, al: Aligns)
    requires
        same_line_conditions(ms, boxes, al),
    ensures
        ms.last().stack == ms[0].stack,
        ms.last().line_spacing == ms[0].line_spacing,
        ms.last().run.usable == Option::<i64>::None,
        ms.last().run.aligns == (if boxes.len() == 0 {
            Option::<Aligns>::None
        } else {
            Option::Some(al)
        }),
        !(ms.last().run.last is Soft),
        ms.last().run.items.len() == boxes.len(),
        forall|i: int|
            0 <= i < boxes.len() ==> (#[trigger] ms.last().run.items[i]).0 as int == cross_sum(
                boxes.take(i),
                ms[0].stack.dirs,
            ) && ms.last().run.items[i].1 == boxes[i],
        ms.last().run.width as int == cross_sum(boxes, ms[0].stack.dirs),
        ms.last().run.height as int == main_max(boxes, ms[0].stack.dirs),
    decreases boxes.len(),
{
    let dirs = ms[0].stack.dirs;
    if boxes.len() == 0 {
        assert(ms.last() == ms[0]);
        assert(boxes =~= Seq::<BoxLayout>::empty());
    } else {
        let n = boxes.len() as int;
        let boxes2 = boxes.drop_last();
        let ms2 = ms.take(n);
        assert(ms2[0] == ms[0]);
        assert(boxes2 =~= boxes.take(n - 1));
        lemma_cross_sum_nonneg(boxes2, dirs);
        assert forall|i: int| 0 <= i < boxes2.len() implies line_add_rel(
            #[trigger] ms2[i],
            ms2[i + 1],
            boxes2[i],
            al,
        ) by {
            assert(ms2[i] == ms[i]);
            assert(ms2[i + 1] == ms[i + 1]);
            assert(boxes2[i] == boxes[i]);
        }
        assert(cross_sum(boxes, dirs) == cross_sum(boxes2, dirs) + cross_extent(
            boxes.last().size,
            dirs,
        ));
        assert(same_line_conditions(ms2, boxes2, al));
        lemma_same_line(ms2, boxes2, al);
        let mp = ms2.last();
        assert(mp == ms[n - 1]);
        let b = boxes[n - 1];
        assert(b == boxes.last());
        assert(line_add_rel(ms[n - 1], ms[n], b, al));
        // the next box still fits the line
        assert(usable_total(mp) == cross_extent(ms[0].stack.space.size, dirs));
        assert(usable_width(mp) >= cross_extent(b.size, dirs));
        assert(usable_main(mp) == usable_main(ms[0]));
        lemma_add_continues(mp, ms[n], b, al);
        assert(ms[n] == push_next(mp, b, al));
        assert(ms.last() == ms[n]);
        // offsets are the cumulative cross sums
        assert forall|i: int| 0 <= i < boxes.len() implies (#[trigger] ms.last().run.items[i]).0
            as int == cross_sum(boxes.take(i), dirs) && ms.last().run.items[i].1 == boxes[i] by {
            if i < n - 1 {
                assert(ms.last().run.items[i] == mp.run.items[i]);
                assert(boxes2.take(i) =~= boxes.take(i));
            } else {
                assert(ms.last().run.items[i] == (mp.run.width, b));
                assert(boxes.take(n - 1) =~= boxes2);
            }
        }
        assert(boxes.take(n) =~= boxes);
    }
}

/// A box whose cross extent exceeds the free width of a non-empty line
/// forces exactly one line break before it is placed: the closed line -
/// whose height reflects only its own boxes - is placed into the stack's
/// active space, and the new run holds exactly the box, at offset zero.
pub proof fn lemma_forced_break(m1: LineModel, m2: LineModel, b: BoxLayout, al: Aligns)
    requires
        line_add_rel(m1, m2, b, al),
        line_inv(m1),
        wf_size(b.size),
        m1.run.aligns == Option::Some(al),
        !(m1.run.last is Soft),
        !line_empty(m1.run),
        // the box no longer fits the line
        usable_width(m1) < cross_extent(b.size, m1.stack.dirs),
        // the closed line itself fits the active space, with no spacing
        // pending at the stack level
        !(m1.stack.space.last is Soft),
        cross_extent(m1.stack.space.size, m1.stack.dirs) >= m1.run.width,
        usable_main(m1) >= m1.run.height,
        // and the box fits a fresh line in that space
        cross_extent(m1.stack.space.size, m1.stack.dirs) >= cross_extent(b.size, m1.stack.dirs),
        usable_main(m1) - m1.run.height >= main_extent(b.size, m1.stack.dirs),
    ensures
        m2.stack.done == m1.stack.done,
        m2.stack.space.boxes.len() == m1.stack.space.boxes.len() + 1,
        exists|lb: BoxLayout|
            {
                &&& is_line_box(lb, m1.run, m1.stack.dirs)
                &&& m2.stack.space.boxes == m1.stack.space.boxes.push(
                    (m1.stack.space.used, lb, al),
                )
            },
        m2.run.items.len() == 1,
        m2.run.items[0].0 == 0,
        m2.run.items[0].1 == b,
        m2.run.width as int == cross_extent(b.size, m1.stack.dirs),
        m2.run.height as int == main_extent(b.size, m1.stack.dirs),
    {
    let dirs = m1.stack.dirs;
    let (ma, md) = choose|ma: LineModel, md: LineModel| add_steps(m1, ma, md, m2, b, al);
    assert(ma == m1);
    assert(pending_resolved(ma) == m1);
    assert(!fits_current(m1, b.size));
    let me = choose|me: LineModel| fit_path(m1, me, md, b.size);
    assert(finish_line_rel(m1, me));
    let (lb, ms) = choose|lb: BoxLayout, ms: StackModel| finish_line_path(m1, me, lb, ms);
    assert(soft_resolved(m1.stack) == m1.stack);
    assert(cross_extent(lb.size, dirs) == m1.run.width as int);
    assert(main_extent(lb.size, dirs) == m1.run.height as int);
    assert(ms == with_space(m1.stack, place_next(m1.stack.space, dirs, lb, al)));
    assert(me.stack.space.boxes == m1.stack.space.boxes.push((m1.stack.space.used, lb, al)));
    assert(me.stack.space.used == m1.stack.space.used + m1.run.height);
    assert(fits_current(me, b.size));
    assert(md == me);
    assert(m2 == push_next(me, b, al));
}

/// Soft spacing collapses to the highest priority (the numerically lowest
/// level): with no intervening box or hard spacing, a level-2 request
/// followed by a level-1 request leaves the level-1 amount pending, and a
/// level-1 request followed by a level-2 request keeps the level-1 amount
/// and drops the level-2 request.  The pending amount is what the next
/// consuming event materializes.
pub proof fn lemma_soft_priority(m: LineModel, a1: i64, a2: i64)
    requires
        m.run.last == LastSpacing::Cleared,
    ensures
        cross_spacing_next(
            cross_spacing_next(m, a2, SpacingKind::Soft(2)),
            a1,
            SpacingKind::Soft(1),
        ).run.last == LastSpacing::Soft(a1, 1),
        cross_spacing_next(
            cross_spacing_next(m, a1, SpacingKind::Soft(1)),
            a2,
            SpacingKind::Soft(2),
        ).run.last == LastSpacing::Soft(a1, 1),
        pending_resolved(
            cross_spacing_next(
                cross_spacing_next(m, a2, SpacingKind::Soft(2)),
                a1,
                SpacingKind::Soft(1),
            ),
        ) == cross_hard_raw(
            cross_spacing_next(
                cross_spacing_next(m, a2, SpacingKind::Soft(2)),
                a1,
                SpacingKind::Soft(1),
            ),
            a1,
        ),
{
}

/// Hard cross spacing is clamped: with no soft amount pending, a request
/// of at least the free width consumes exactly the free width, never
/// overflowing the line.
pub proof fn lemma_hard_spacing_clamped(m: LineModel, amount: i64)
    requires
        !(m.run.last is Soft),
        usable_total(m) >= 0,
        amount as int >= usable_width(m),
    ensures
        cross_hard_next(m, amount).run.width as int == usable_total(m),
        usable_width(cross_hard_next(m, amount)) == 0,
{
    assert(cross_hard_next(m, amount) == cross_hard_raw(m, amount));
    assert(cross_hard_raw(m, amount).run.usable == m.run.usable);
}

/// Pending soft spacing is consumed before hard spacing is applied: when
/// both amounts are nonnegative and fit the free width together, a hard
/// request on a run with a cached soft amount grows the run by soft plus
/// hard, and leaves the pending state `Hard`.
pub proof fn lemma_hard_consumes_pending_soft(m: LineModel, s: i64, level: u32, amount: i64)
    requires
        m.run.last == LastSpacing::Soft(s, level),
        m.run.width >= 0,
        s >= 0,
        amount >= 0,
        s + amount <= usable_width(m),
    ensures
        cross_hard_next(m, amount).run.width == m.run.width + s + amount,
        cross_hard_next(m, amount).run.last == LastSpacing::Hard,
{
    assert(cross_hard_next(m, amount) == cross_hard_raw(cross_hard_raw(m, s), amount));
    assert(cross_hard_raw(m, s).run.width == m.run.width + s);
}

/// Finishing the line on an empty run is a no-op: the guard every public
/// finishing path goes through leaves the layouter untouched when the run
/// holds nothing.
pub proof fn lemma_empty_line_finish_noop(m1: LineModel, m2: LineModel)
    requires
        finish_line_if_rel(m1, m2),
        line_empty(m1.run),
    ensures
        m2 == m1,
{
}

/// `finish` on an untouched layouter (fresh run, no line ever placed, no
/// space ever closed) yields exactly what a stack layouter that received
/// zero lines yields: the same output as any finish of the bare stack.
pub proof fn lemma_finish_untouched(m: LineModel, r: Seq<BoxLayout>)
    requires
        line_finish_rel(m, r),
        m.run == fresh_run(),
        m.stack.space.boxes.len() == 0,
    ensures
        r == m.stack.done,
        forall|r2: Seq<BoxLayout>| stack_finish_rel(m.stack, r2) ==> r2 == r,
{
    let mid = choose|mid: LineModel| finish_path(m, mid, r);
    assert(line_empty(m.run));
    assert(mid == m);
}

/// Direction mirroring: for one and the same run, a placement under a
/// negative-polarity cross direction sits at `run width - offset - child
/// cross extent`, the mirror image of the positive-polarity placement.
pub proof fn lemma_mirrored_placement(
    b_pos: BoxLayout,
    b_neg: BoxLayout,
    run: RunModel,
    d_pos: Dirs,
    d_neg: Dirs,
)
    requires
        is_line_box(b_pos, run, d_pos),
        is_line_box(b_neg, run, d_neg),
        d_pos.cross.spec_axis() == d_neg.cross.spec_axis(),
        d_pos.main.spec_axis() == d_neg.main.spec_axis(),
        d_pos.cross.spec_is_positive(),
        !d_neg.cross.spec_is_positive(),
    ensures
        forall|i: int|
            0 <= i < run.items.len() ==> (#[trigger] b_neg.elements@[i]).0.x as int == run.width
                as int - b_pos.elements@[i].0.x as int - cross_extent(
                run.items[i].1.size,
                d_pos,
            ),
{
    assert forall|i: int| 0 <= i < run.items.len() implies (#[trigger] b_neg.elements@[i]).0.x
        as int == run.width as int - b_pos.elements@[i].0.x as int - cross_extent(
        run.items[i].1.size,
        d_pos,
    ) by {
        assert(cross_extent(run.items[i].1.size, d_neg) == cross_extent(run.items[i].1.size, d_pos));
        assert(b_pos.elements@[i].0.x as int == run.items[i].0 as int);
    }
}

} // verus!
