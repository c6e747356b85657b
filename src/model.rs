use vstd::prelude::*;

verus! {

/// A point on the board. Each coordinate is the IEEE-754 bit pattern of an
/// `f32`: the synchronisation core only stores and copies points, so keeping
/// the bits keeps every replica bit-identical.
#[derive(Clone, Copy, Debug, PartialEq, Eq, Structural)]
pub struct Point {
    pub x: u32,
    pub y: u32,
}

/// The kind of shape an edit applies to.
#[derive(Clone, Copy, Debug, PartialEq, Eq, Structural)]
pub enum Mod {
    Pen,
    Rectangle,
    RectangleLines,
    Circle,
    CircleLines,
    Line,
}

/// What an edit does.
#[derive(Clone, Copy, Debug, PartialEq, Eq, Structural)]
pub enum Type {
    Release,
    Clean,
    Click,
}

/// One edit event: the shape kind, the action and its point.
#[derive(Clone, Copy, Debug, PartialEq, Eq, Structural)]
pub struct Data {
    pub mode: Mod,
    pub draw_mode: Type,
    pub last: Point,
}

/// The shape collection: one slot per shape kind, each an ordered list of
/// shape instances, each instance a list of points.
#[derive(Clone, Debug)]
pub struct Shapes {
    pub strokes: Vec<Vec<Point>>,
    pub rectangles: Vec<Vec<Point>>,
    pub rectangles_lines: Vec<Vec<Point>>,
    pub circles: Vec<Vec<Point>>,
    pub circles_lines: Vec<Vec<Point>>,
    pub lines: Vec<Vec<Point>>,
}

/// The contents of one slot.
pub type Slot = Seq<Seq<Point>>;

/// The mathematical value of a `Shapes`: its six slots.
pub struct Canvas {
    pub strokes: Slot,
    pub rectangles: Slot,
    pub rectangles_lines: Slot,
    pub circles: Slot,
    pub circles_lines: Slot,
    pub lines: Slot,
}

pub open spec fn slot_view(v: &Vec<Vec<Point>>) -> Slot {
    v@.map_values(|inst: Vec<Point>| inst@)
}

/// A slot holding a single empty instance.
pub open spec fn fresh_slot() -> Slot {
    seq![Seq::<Point>::empty()]
}

impl Canvas {
    pub open spec fn slot(self, k: Mod) -> Slot {
        match k {
            Mod::Pen => self.strokes,
            Mod::Rectangle => self.rectangles,
            Mod::RectangleLines => self.rectangles_lines,
            Mod::Circle => self.circles,
            Mod::CircleLines => self.circles_lines,
            Mod::Line => self.lines,
        }
    }

    pub open spec fn with_slot(self, k: Mod, s: Slot) -> Canvas {
        match k {
            Mod::Pen => Canvas { strokes: s, ..self },
            Mod::Rectangle => Canvas { rectangles: s, ..self },
            Mod::RectangleLines => Canvas { rectangles_lines: s, ..self },
            Mod::Circle => Canvas { circles: s, ..self },
            Mod::CircleLines => Canvas { circles_lines: s, ..self },
            Mod::Line => Canvas { lines: s, ..self },
        }
    }

    /// The canvas with no shapes: every slot holds one empty instance.
    pub open spec fn blank() -> Canvas {
        Canvas {
            strokes: fresh_slot(),
            rectangles: fresh_slot(),
            rectangles_lines: fresh_slot(),
            circles: fresh_slot(),
            circles_lines: fresh_slot(),
            lines: fresh_slot(),
        }
    }
}

impl View for Shapes {
    type V = Canvas;

    open spec fn view(&self) -> Canvas {
        Canvas {
            strokes: slot_view(&self.strokes),
            rectangles: slot_view(&self.rectangles),
            rectangles_lines: slot_view(&self.rectangles_lines),
            circles: slot_view(&self.circles),
            circles_lines: slot_view(&self.circles_lines),
            lines: slot_view(&self.lines),
        }
    }
}

fn fresh_slot_vec() -> (r: Vec<Vec<Point>>)
    ensures
        slot_view(&r) == fresh_slot(),
{
    let r = vec![Vec::new()];
    assert(slot_view(&r) =~= fresh_slot());
    r
}

impl Shapes {
    /// A collection with no shapes, each slot holding one open, empty
    /// instance.
    pub fn new() -> (r: Shapes)
        ensures
            r@ == Canvas::blank(),
    {
        Shapes {
            strokes: fresh_slot_vec(),
            rectangles: fresh_slot_vec(),
            rectangles_lines: fresh_slot_vec(),
            circles: fresh_slot_vec(),
            circles_lines: fresh_slot_vec(),
            lines: fresh_slot_vec(),
        }
    }

    /// Drops every shape: each slot is reset to one empty instance.
    pub fn clear(&mut self)
        ensures
            final(self)@ == Canvas::blank(),
    {
        self.strokes = fresh_slot_vec();
        self.rectangles = fresh_slot_vec();
        self.rectangles_lines = fresh_slot_vec();
        self.circles = fresh_slot_vec();
        self.circles_lines = fresh_slot_vec();
        self.lines = fresh_slot_vec();
    }
}

/// Wipes the board.
pub fn clean_screen(shapes: &mut Shapes)
    ensures
        final(shapes)@ == Canvas::blank(),
{
    shapes.clear();
}

} // verus!
