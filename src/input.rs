use vstd::prelude::*;

use crate::model::{Data, Mod, Point, Shapes, Slot, Type, slot_view};
use crate::reducer::{
    apply, handle_pen_operation, handle_shape_operation, opened, stroke_step, two_point_step,
};

verus! {

/// The edit that one frame of pointer input makes with a two-point tool.
/// Outside the canvas nothing happens. A slot with no instance first gets one
/// opened. With the button held the pointer drags the far point (or anchors
/// a new shape); on release a complete shape is finished.
pub open spec fn two_point_input(
    s: Slot,
    mode: Mod,
    mouse_pos: Point,
    in_canvas: bool,
    left_down: bool,
) -> Option<Data> {
    if !in_canvas {
        None
    } else if s.len() == 0 {
        Some(Data { mode, draw_mode: Type::Release, last: mouse_pos })
    } else if left_down {
        if s.last().len() <= 2 {
            Some(Data { mode, draw_mode: Type::Click, last: mouse_pos })
        } else {
            None
        }
    } else if s.last().len() == 2 {
        Some(Data { mode, draw_mode: Type::Release, last: s.last()[1] })
    } else {
        None
    }
}

/// The edit that one frame of pointer input makes with the pen: with the
/// button held inside the canvas the point extends the stroke; once the
/// button is up a non-empty stroke is closed.
pub open spec fn pen_input(
    s: Slot,
    mode: Mod,
    mouse_pos: Point,
    in_canvas: bool,
    left_down: bool,
) -> Option<Data> {
    if left_down {
        if in_canvas {
            Some(Data { mode, draw_mode: Type::Click, last: mouse_pos })
        } else {
            None
        }
    } else if opened(s).last().len() > 0 {
        Some(Data { mode, draw_mode: Type::Release, last: Point { x: 0, y: 0 } })
    } else {
        None
    }
}

/// The edit that one frame of pointer input makes with the tool `mode`.
pub open spec fn local_input(
    s: Slot,
    mode: Mod,
    mouse_pos: Point,
    in_canvas: bool,
    left_down: bool,
) -> Option<Data> {
    if mode is Pen {
        pen_input(s, mode, mouse_pos, in_canvas, left_down)
    } else {
        two_point_input(s, mode, mouse_pos, in_canvas, left_down)
    }
}

/// Turns one frame of pointer input with a rectangle, circle or line tool
/// into an edit, applies it to the slot and returns it for the peers.
pub fn get_2_point_mod(
    shapes: &mut Vec<Vec<Point>>,
    mode: Mod,
    mouse_pos: Point,
    in_canvas: bool,
    left_down: bool,
) -> (r: Option<Data>)
    ensures
        r == two_point_input(slot_view(old(shapes)), mode, mouse_pos, in_canvas, left_down),
        r matches Some(e) ==> slot_view(final(shapes)) == two_point_step(
            slot_view(old(shapes)),
            e.draw_mode,
            e.last,
        ),
        r is None ==> final(shapes)@ == old(shapes)@,
{
    if !in_canvas {
        return None;
    }
    let n = shapes.len();
    let r = if n == 0 {
        Some(Data { mode, draw_mode: Type::Release, last: mouse_pos })
    } else if left_down {
        if shapes[n - 1].len() <= 2 {
            Some(Data { mode, draw_mode: Type::Click, last: mouse_pos })
        } else {
            None
        }
    } else if shapes[n - 1].len() == 2 {
        Some(Data { mode, draw_mode: Type::Release, last: shapes[n - 1][1] })
    } else {
        None
    };
    if let Some(e) = r {
        handle_shape_operation(shapes, e.draw_mode, e.last);
    }
    r
}

/// Turns one frame of pointer input with the pen into an edit, applies it to
/// the stroke slot and returns it for the peers.
pub fn pen_mod(
    strokes: &mut Vec<Vec<Point>>,
    mode: Mod,
    mouse_pos: Point,
    in_canvas: bool,
    left_down: bool,
) -> (r: Option<Data>)
    ensures
        r == pen_input(slot_view(old(strokes)), mode, mouse_pos, in_canvas, left_down),
        r matches Some(e) ==> slot_view(final(strokes)) == stroke_step(
            slot_view(old(strokes)),
            e.draw_mode,
            e.last,
        ),
        r is None ==> final(strokes)@ == old(strokes)@,
{
    let n = strokes.len();
    let r = if left_down {
        if in_canvas {
            Some(Data { mode, draw_mode: Type::Click, last: mouse_pos })
        } else {
            None
        }
    } else if n > 0 && strokes[n - 1].len() > 0 {
        Some(Data { mode, draw_mode: Type::Release, last: Point { x: 0, y: 0 } })
    } else {
        None
    };
    if let Some(e) = r {
        handle_pen_operation(strokes, e.draw_mode, e.last);
    }
    r
}

impl Shapes {
    /// One frame of pointer input with the tool `mode`: the edit it makes, if
    /// any, already applied here, to be sent to the peers. Applying the
    /// returned edit on a peer that holds the same collection gives the same
    /// collection.
    pub fn local_edit(&mut self, mode: Mod, mouse_pos: Point, in_canvas: bool, left_down: bool) -> (r:
        Option<Data>)
        ensures
            r == local_input(old(self)@.slot(mode), mode, mouse_pos, in_canvas, left_down),
            r matches Some(e) ==> e.mode == mode && final(self)@ == apply(old(self)@, e),
            r is None ==> final(self)@ == old(self)@,
    {
        match mode {
            Mod::Pen => pen_mod(&mut self.strokes, mode, mouse_pos, in_canvas, left_down),
            Mod::Rectangle => get_2_point_mod(
                &mut self.rectangles,
                mode,
                mouse_pos,
                in_canvas,
                left_down,
            ),
            Mod::RectangleLines => get_2_point_mod(
                &mut self.rectangles_lines,
                mode,
                mouse_pos,
                in_canvas,
                left_down,
            ),
            Mod::Circle => get_2_point_mod(&mut self.circles, mode, mouse_pos, in_canvas, left_down),
            Mod::CircleLines => get_2_point_mod(
                &mut self.circles_lines,
                mode,
                mouse_pos,
                in_canvas,
                left_down,
            ),
            Mod::Line => get_2_point_mod(&mut self.lines, mode, mouse_pos, in_canvas, left_down),
        }
    }
}

} // verus!
