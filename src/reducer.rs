use vstd::prelude::*;

use crate::model::{Canvas, Data, Mod, Point, Shapes, Slot, Type, fresh_slot, slot_view};

verus! {

/// The slot as an edit sees it: a slot with no instance acts as one holding a
/// single empty instance, so that "the last instance" always exists.
pub open spec fn opened(s: Slot) -> Slot {
    if s.len() == 0 {
        fresh_slot()
    } else {
        s
    }
}

/// `Click` on a two-point kind (rectangle, circle, line): an empty instance
/// gets the point as anchor and as provisional far point, an anchored one gets
/// its far point, a complete one has its far point moved.
pub open spec fn two_point_click(s: Slot, p: Point) -> Slot {
    let t = opened(s);
    let i = t.len() - 1;
    let last = t[i];
    if last.len() == 0 {
        t.update(i, seq![p, p])
    } else if last.len() == 1 {
        t.update(i, last.push(p))
    } else {
        t.update(i, last.update(1, p))
    }
}

/// `Release` on a two-point kind: a complete instance is finalised and a new
/// empty one opened; a lone anchor is discarded; an empty instance stays.
pub open spec fn two_point_release(s: Slot) -> Slot {
    let t = opened(s);
    let i = t.len() - 1;
    let last = t[i];
    if last.len() == 0 {
        t
    } else if last.len() == 1 {
        t.update(i, Seq::empty())
    } else {
        t.push(Seq::empty())
    }
}

/// `Click` on a stroke: the point is appended to the open polyline.
pub open spec fn stroke_click(s: Slot, p: Point) -> Slot {
    let t = opened(s);
    let i = t.len() - 1;
    t.update(i, t[i].push(p))
}

/// `Release` on a stroke: a non-empty polyline is closed and a new empty one
/// opened.
pub open spec fn stroke_release(s: Slot) -> Slot {
    let t = opened(s);
    if t[t.len() - 1].len() == 0 {
        t
    } else {
        t.push(Seq::empty())
    }
}

/// What an edit other than `Clean` does to the slot of a two-point kind.
pub open spec fn two_point_step(s: Slot, a: Type, p: Point) -> Slot {
    match a {
        Type::Click => two_point_click(s, p),
        Type::Release => two_point_release(s),
        Type::Clean => s,
    }
}

/// What an edit other than `Clean` does to the stroke slot.
pub open spec fn stroke_step(s: Slot, a: Type, p: Point) -> Slot {
    match a {
        Type::Click => stroke_click(s, p),
        Type::Release => stroke_release(s),
        Type::Clean => s,
    }
}

pub open spec fn slot_step(k: Mod, s: Slot, a: Type, p: Point) -> Slot {
    if k is Pen {
        stroke_step(s, a, p)
    } else {
        two_point_step(s, a, p)
    }
}

/// The reducer: the collection after one edit event.
pub open spec fn apply(c: Canvas, e: Data) -> Canvas {
    if e.draw_mode is Clean {
        Canvas::blank()
    } else {
        c.with_slot(e.mode, slot_step(e.mode, c.slot(e.mode), e.draw_mode, e.last))
    }
}

/// The collection after a sequence of edit events, applied in order.
pub open spec fn replay(c: Canvas, events: Seq<Data>) -> Canvas
    decreases events.len(),
{
    if events.len() == 0 {
        c
    } else {
        apply(replay(c, events.drop_last()), events.last())
    }
}

/// Makes sure the slot has a last instance to edit.
fn open_slot(shape: &mut Vec<Vec<Point>>)
    ensures
        slot_view(final(shape)) == opened(slot_view(old(shape))),
        final(shape).len() > 0,
{
    if shape.len() == 0 {
        shape.push(Vec::new());
        assert(slot_view(shape) =~= opened(slot_view(old(shape))));
    }
}

/// Folds one edit into the slot of a rectangle, circle or line kind.
pub fn handle_shape_operation(shape: &mut Vec<Vec<Point>>, draw_mode: Type, last_point: Point)
    ensures
        slot_view(final(shape)) == two_point_step(slot_view(old(shape)), draw_mode, last_point),
{
    match draw_mode {
        Type::Release => {
            open_slot(shape);
            let ghost t = slot_view(shape);
            let i = shape.len() - 1;
            let n = shape[i].len();
            if n == 1 {
                shape[i] = Vec::new();
                assert(slot_view(shape) =~= t.update(i as int, Seq::empty()));
            } else if n >= 2 {
                shape.push(Vec::new());
                assert(slot_view(shape) =~= t.push(Seq::empty()));
            }
        },
        Type::Click => {
            open_slot(shape);
            let ghost t = slot_view(shape);
            let i = shape.len() - 1;
            let n = shape[i].len();
            if n == 0 {
                shape[i].push(last_point);
                shape[i].push(last_point);
                assert(shape[i as int]@ =~= seq![last_point, last_point]);
                assert(slot_view(shape) =~= t.update(i as int, seq![last_point, last_point]));
            } else if n == 1 {
                shape[i].push(last_point);
                assert(slot_view(shape) =~= t.update(i as int, t[i as int].push(last_point)));
            } else {
                shape[i][1] = last_point;
                assert(slot_view(shape) =~= t.update(i as int, t[i as int].update(1, last_point)));
            }
        },
        Type::Clean => {},
    }
}

/// Folds one edit into the stroke slot.
pub fn handle_pen_operation(shape: &mut Vec<Vec<Point>>, draw_mode: Type, last_point: Point)
    ensures
        slot_view(final(shape)) == stroke_step(slot_view(old(shape)), draw_mode, last_point),
{
    match draw_mode {
        Type::Release => {
            open_slot(shape);
            let ghost t = slot_view(shape);
            let i = shape.len() - 1;
            if shape[i].len() > 0 {
                shape.push(Vec::new());
                assert(slot_view(shape) =~= t.push(Seq::empty()));
            }
        },
        Type::Click => {
            open_slot(shape);
            let ghost t = slot_view(shape);
            let i = shape.len() - 1;
            shape[i].push(last_point);
            assert(slot_view(shape) =~= t.update(i as int, t[i as int].push(last_point)));
        },
        Type::Clean => {},
    }
}

impl Shapes {
    /// Applies one edit event: `Clean` wipes every slot, any other action
    /// edits the slot of the event's kind and leaves the others alone.
    pub fn apply(&mut self, data: &Data)
        ensures
            final(self)@ == apply(old(self)@, *data),
            old(self)@.wf() ==> final(self)@.wf(),
    {
        proof {
            if self@.wf() {
                lemma_apply_preserves_wf(self@, *data);
            }
        }
        if data.draw_mode == Type::Clean {
            self.clear();
            return;
        }
        match data.mode {
            Mod::Pen => handle_pen_operation(&mut self.strokes, data.draw_mode, data.last),
            Mod::Rectangle => handle_shape_operation(&mut self.rectangles, data.draw_mode, data.last),
            Mod::RectangleLines => handle_shape_operation(
                &mut self.rectangles_lines,
                data.draw_mode,
                data.last,
            ),
            Mod::Circle => handle_shape_operation(&mut self.circles, data.draw_mode, data.last),
            Mod::CircleLines => handle_shape_operation(
                &mut self.circles_lines,
                data.draw_mode,
                data.last,
            ),
            Mod::Line => handle_shape_operation(&mut self.lines, data.draw_mode, data.last),
        }
    }
}

/// The shape of a well-formed slot of a two-point kind: at least one
/// instance, none with more than two points, every instance but the last
/// complete.
pub open spec fn two_point_wf(s: Slot) -> bool {
    &&& s.len() > 0
    &&& forall|i: int| 0 <= i < s.len() ==> #[trigger] s[i].len() <= 2
    &&& forall|i: int| 0 <= i < s.len() - 1 ==> #[trigger] s[i].len() == 2
}

/// The shape of a well-formed stroke slot: at least one instance, every
/// polyline but the last closed and non-empty.
pub open spec fn stroke_wf(s: Slot) -> bool {
    &&& s.len() > 0
    &&& forall|i: int| 0 <= i < s.len() - 1 ==> #[trigger] s[i].len() > 0
}

impl Canvas {
    /// Only the last instance of a slot may be in progress.
    pub open spec fn wf(self) -> bool {
        &&& stroke_wf(self.strokes)
        &&& two_point_wf(self.rectangles)
        &&& two_point_wf(self.rectangles_lines)
        &&& two_point_wf(self.circles)
        &&& two_point_wf(self.circles_lines)
        &&& two_point_wf(self.lines)
    }
}

proof fn lemma_slot_step_wf(k: Mod, s: Slot, a: Type, p: Point)
    requires
        a !is Clean,
        k is Pen ==> stroke_wf(s),
        k !is Pen ==> two_point_wf(s),
    ensures
        k is Pen ==> stroke_wf(slot_step(k, s, a, p)),
        k !is Pen ==> two_point_wf(slot_step(k, s, a, p)),
{
    let r = slot_step(k, s, a, p);
    if k is Pen {
        assert forall|i: int| 0 <= i < r.len() - 1 implies #[trigger] r[i].len() > 0 by {
            if a is Release && i == s.len() - 1 {
                assert(r[i] == s[i]);
            }
        }
    } else {
        assert forall|i: int| 0 <= i < r.len() implies #[trigger] r[i].len() <= 2 by {
            if i < s.len() - 1 {
                assert(r[i] == s[i]);
            }
        }
        assert forall|i: int| 0 <= i < r.len() - 1 implies #[trigger] r[i].len() == 2 by {
            if i < s.len() - 1 {
                assert(r[i] == s[i]);
            }
        }
    }
}

/// The reducer keeps every slot well formed: starting from `Shapes::new()`,
/// no sequence of edits leaves an incomplete instance anywhere but at the end
/// of its slot.
pub proof fn lemma_apply_preserves_wf(c: Canvas, e: Data)
    requires
        c.wf(),
    ensures
        apply(c, e).wf(),
{
    if e.draw_mode !is Clean {
        lemma_slot_step_wf(e.mode, c.slot(e.mode), e.draw_mode, e.last);
    }
}

/// The blank canvas is well formed, and so is every canvas that a sequence
/// of edits makes from it.
pub proof fn lemma_replay_wf(events: Seq<Data>)
    ensures
        Canvas::blank().wf(),
        replay(Canvas::blank(), events).wf(),
    decreases events.len(),
{
    if events.len() > 0 {
        lemma_replay_wf(events.drop_last());
        lemma_apply_preserves_wf(replay(Canvas::blank(), events.drop_last()), events.last());
    }
}

/// Replaying `a` then `b` is replaying their concatenation.
pub proof fn lemma_replay_concat(c: Canvas, a: Seq<Data>, b: Seq<Data>)
    ensures
        replay(c, a + b) == replay(replay(c, a), b),
    decreases b.len(),
{
    if b.len() == 0 {
        assert(a + b =~= a);
    } else {
        assert((a + b).drop_last() =~= a + b.drop_last());
        lemma_replay_concat(c, a, b.drop_last());
    }
}

proof fn lemma_slot_step_opened(k: Mod, s: Slot, a: Type, p: Point)
    requires
        a !is Clean,
    ensures
        slot_step(k, s, a, p) == slot_step(k, opened(s), a, p),
        slot_step(k, s, a, p).len() > 0,
{
}

/// Replaying the same `Click`/`Release` events of one kind on two
/// collections whose slot of that kind starts empty (no instance, or one empty
/// instance) gives the same slot on both; the other slots are untouched.
pub proof fn lemma_replay_one_kind(c1: Canvas, c2: Canvas, k: Mod, events: Seq<Data>)
    requires
        forall|i: int| 0 <= i < events.len() ==> (#[trigger] events[i]).mode == k,
        forall|i: int| 0 <= i < events.len() ==> (#[trigger] events[i]).draw_mode !is Clean,
        opened(c1.slot(k)) == fresh_slot(),
        opened(c2.slot(k)) == fresh_slot(),
    ensures
        opened(replay(c1, events).slot(k)) == opened(replay(c2, events).slot(k)),
        events.len() > 0 ==> replay(c1, events).slot(k) == replay(c2, events).slot(k),
        forall|j: Mod| j != k ==> #[trigger] replay(c1, events).slot(j) == c1.slot(j),
    decreases events.len(),
{
    if events.len() > 0 {
        let init = events.drop_last();
        assert forall|i: int| 0 <= i < init.len() implies (#[trigger] init[i]).mode == k by {
            assert(init[i] == events[i]);
        }
        assert forall|i: int| 0 <= i < init.len() implies (#[trigger] init[i]).draw_mode !is Clean by {
            assert(init[i] == events[i]);
        }
        lemma_replay_one_kind(c1, c2, k, init);
        let e = events.last();
        let r1 = replay(c1, init);
        let r2 = replay(c2, init);
        lemma_slot_step_opened(k, r1.slot(k), e.draw_mode, e.last);
        lemma_slot_step_opened(k, r2.slot(k), e.draw_mode, e.last);
        assert forall|j: Mod| j != k implies #[trigger] replay(c1, events).slot(j) == c1.slot(j) by {
            assert(replay(c1, events).slot(j) == r1.slot(j));
        }
    }
}

/// A `Clean` event followed by any sequence of events leaves the same
/// collection as that sequence applied to a new one.
pub proof fn lemma_clear_then_replay(c: Canvas, clean: Data, events: Seq<Data>)
    requires
        clean.draw_mode is Clean,
    ensures
        replay(c, seq![clean] + events) == replay(Canvas::blank(), events),
{
    lemma_replay_concat(c, seq![clean], events);
    assert(seq![clean].drop_last() =~= Seq::<Data>::empty());
    assert(replay(c, seq![clean]) == Canvas::blank());
}

/// `Release` twice is `Release` once, for every kind; it opens at most one
/// new instance, and for rectangles, circles and lines none when the last
/// instance had fewer than two points.
pub proof fn lemma_release_idempotent(c: Canvas, release: Data)
    requires
        release.draw_mode is Release,
    ensures
        apply(apply(c, release), release) == apply(c, release),
        apply(c, release).slot(release.mode).len() <= opened(c.slot(release.mode)).len() + 1,
        release.mode !is Pen && opened(c.slot(release.mode)).last().len() < 2 ==> apply(c, release).slot(release.mode).len()
            == opened(c.slot(release.mode)).len(),
{
    let k = release.mode;
    let once = apply(c, release);
    assert(once.slot(k) == slot_step(k, c.slot(k), Type::Release, release.last));
    assert(apply(once, release).slot(k) == once.slot(k));
    assert(apply(once, release) == once.with_slot(k, once.slot(k)));
}

} // verus!
