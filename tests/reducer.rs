use whiteboard::model::{clean_screen, Data, Mod, Point, Shapes, Type};
use whiteboard::reducer::{handle_pen_operation, handle_shape_operation};

fn pt(x: f32, y: f32) -> Point {
    Point { x: x.to_bits(), y: y.to_bits() }
}

fn ev(mode: Mod, draw_mode: Type, x: f32, y: f32) -> Data {
    Data { mode, draw_mode, last: pt(x, y) }
}

fn all_slots(s: &Shapes) -> Vec<Vec<Vec<Point>>> {
    vec![
        s.strokes.clone(),
        s.rectangles.clone(),
        s.rectangles_lines.clone(),
        s.circles.clone(),
        s.circles_lines.clone(),
        s.lines.clone(),
    ]
}

#[test]
fn new_collection_has_one_empty_instance_per_slot() {
    let s = Shapes::new();
    for slot in all_slots(&s) {
        assert_eq!(slot, vec![Vec::<Point>::new()]);
    }
}

#[test]
fn click_on_empty_instance_sets_anchor_and_far_point() {
    let mut slot: Vec<Vec<Point>> = vec![vec![]];
    handle_shape_operation(&mut slot, Type::Click, pt(3.0, 4.0));
    assert_eq!(slot, vec![vec![pt(3.0, 4.0), pt(3.0, 4.0)]]);
}

#[test]
fn click_on_anchored_instance_adds_far_point() {
    let mut slot: Vec<Vec<Point>> = vec![vec![pt(1.0, 1.0)]];
    handle_shape_operation(&mut slot, Type::Click, pt(5.0, 6.0));
    assert_eq!(slot, vec![vec![pt(1.0, 1.0), pt(5.0, 6.0)]]);
}

#[test]
fn click_on_complete_instance_moves_far_point() {
    let mut slot: Vec<Vec<Point>> = vec![vec![pt(1.0, 1.0), pt(2.0, 2.0)]];
    handle_shape_operation(&mut slot, Type::Click, pt(7.0, 8.0));
    assert_eq!(slot, vec![vec![pt(1.0, 1.0), pt(7.0, 8.0)]]);
}

#[test]
fn click_on_slot_without_instance_opens_one() {
    let mut slot: Vec<Vec<Point>> = vec![];
    handle_shape_operation(&mut slot, Type::Click, pt(9.0, 9.0));
    assert_eq!(slot, vec![vec![pt(9.0, 9.0), pt(9.0, 9.0)]]);
}

#[test]
fn release_finalises_complete_instance() {
    let mut slot: Vec<Vec<Point>> = vec![vec![pt(1.0, 1.0), pt(2.0, 2.0)]];
    handle_shape_operation(&mut slot, Type::Release, pt(0.0, 0.0));
    assert_eq!(slot, vec![vec![pt(1.0, 1.0), pt(2.0, 2.0)], vec![]]);
}

#[test]
fn release_discards_lone_anchor() {
    let mut slot: Vec<Vec<Point>> = vec![vec![pt(1.0, 1.0), pt(2.0, 2.0)], vec![pt(4.0, 4.0)]];
    handle_shape_operation(&mut slot, Type::Release, pt(0.0, 0.0));
    assert_eq!(slot, vec![vec![pt(1.0, 1.0), pt(2.0, 2.0)], vec![]]);
}

#[test]
fn release_on_empty_instance_is_no_op() {
    let mut slot: Vec<Vec<Point>> = vec![vec![pt(1.0, 1.0), pt(2.0, 2.0)], vec![]];
    handle_shape_operation(&mut slot, Type::Release, pt(0.0, 0.0));
    assert_eq!(slot, vec![vec![pt(1.0, 1.0), pt(2.0, 2.0)], vec![]]);
}

#[test]
fn release_on_slot_without_instance_opens_one() {
    let mut slot: Vec<Vec<Point>> = vec![];
    handle_shape_operation(&mut slot, Type::Release, pt(0.0, 0.0));
    assert_eq!(slot, vec![Vec::<Point>::new()]);
}

#[test]
fn stroke_click_appends_without_cap() {
    let mut slot: Vec<Vec<Point>> = vec![vec![]];
    for i in 0..5 {
        handle_pen_operation(&mut slot, Type::Click, pt(i as f32, 1.0));
    }
    assert_eq!(slot.len(), 1);
    assert_eq!(slot[0].len(), 5);
    assert_eq!(slot[0][4], pt(4.0, 1.0));
}

#[test]
fn stroke_release_closes_only_non_empty_polyline() {
    let mut slot: Vec<Vec<Point>> = vec![vec![]];
    handle_pen_operation(&mut slot, Type::Release, pt(0.0, 0.0));
    assert_eq!(slot, vec![Vec::<Point>::new()]);
    handle_pen_operation(&mut slot, Type::Click, pt(1.0, 2.0));
    handle_pen_operation(&mut slot, Type::Release, pt(0.0, 0.0));
    assert_eq!(slot, vec![vec![pt(1.0, 2.0)], vec![]]);
}

#[test]
fn stroke_click_on_slot_without_instance_keeps_point() {
    let mut slot: Vec<Vec<Point>> = vec![];
    handle_pen_operation(&mut slot, Type::Click, pt(1.0, 2.0));
    assert_eq!(slot, vec![vec![pt(1.0, 2.0)]]);
}

#[test]
fn clean_event_resets_every_slot() {
    let mut s = Shapes::new();
    s.apply(&ev(Mod::Circle, Type::Click, 1.0, 1.0));
    s.apply(&ev(Mod::Pen, Type::Click, 2.0, 2.0));
    s.apply(&ev(Mod::Line, Type::Clean, 123.0, 456.0));
    for slot in all_slots(&s) {
        assert_eq!(slot, vec![Vec::<Point>::new()]);
    }
}

#[test]
fn clean_screen_resets_every_slot() {
    let mut s = Shapes::new();
    s.apply(&ev(Mod::Rectangle, Type::Click, 1.0, 1.0));
    s.strokes = vec![];
    clean_screen(&mut s);
    for slot in all_slots(&s) {
        assert_eq!(slot, vec![Vec::<Point>::new()]);
    }
}

#[test]
fn apply_touches_only_the_event_kind() {
    let mut s = Shapes::new();
    s.apply(&ev(Mod::CircleLines, Type::Click, 1.0, 2.0));
    assert_eq!(s.circles_lines, vec![vec![pt(1.0, 2.0), pt(1.0, 2.0)]]);
    assert_eq!(s.circles, vec![Vec::<Point>::new()]);
    assert_eq!(s.rectangles_lines, vec![Vec::<Point>::new()]);
    assert_eq!(s.strokes, vec![Vec::<Point>::new()]);
}

#[test]
fn same_kind_replay_gives_identical_geometry() {
    let events = vec![
        ev(Mod::Line, Type::Click, 1.0, 1.0),
        ev(Mod::Line, Type::Click, 2.0, 3.0),
        ev(Mod::Line, Type::Release, 0.0, 0.0),
        ev(Mod::Line, Type::Release, 0.0, 0.0),
        ev(Mod::Line, Type::Click, -4.5, 1e30),
    ];
    let mut a = Shapes::new();
    let mut b = Shapes::new();
    b.lines = vec![];
    for e in &events {
        a.apply(e);
        b.apply(e);
    }
    assert_eq!(all_slots(&a)[5], all_slots(&b)[5]);
    assert_eq!(a.lines, vec![vec![pt(1.0, 1.0), pt(2.0, 3.0)], vec![pt(-4.5, 1e30), pt(-4.5, 1e30)]]);
}

#[test]
fn clear_then_events_matches_fresh_collection() {
    let events = vec![
        ev(Mod::Rectangle, Type::Click, 1.0, 1.0),
        ev(Mod::Pen, Type::Click, 5.0, 5.0),
        ev(Mod::Rectangle, Type::Release, 0.0, 0.0),
    ];
    let mut dirty = Shapes::new();
    dirty.apply(&ev(Mod::Circle, Type::Click, 9.0, 9.0));
    dirty.apply(&ev(Mod::Circle, Type::Release, 9.0, 9.0));
    dirty.apply(&ev(Mod::Pen, Type::Clean, 0.0, 0.0));
    let mut fresh = Shapes::new();
    for e in &events {
        dirty.apply(e);
        fresh.apply(e);
    }
    assert_eq!(all_slots(&dirty), all_slots(&fresh));
}

#[test]
fn release_twice_equals_release_once() {
    let release = ev(Mod::Rectangle, Type::Release, 0.0, 0.0);
    let mut s = Shapes::new();
    s.rectangles = vec![vec![pt(1.0, 1.0), pt(2.0, 2.0)], vec![pt(3.0, 3.0)]];
    s.apply(&release);
    let once = s.rectangles.clone();
    s.apply(&release);
    assert_eq!(s.rectangles, once);
    assert_eq!(s.rectangles.len(), 2);

    let mut t = Shapes::new();
    t.apply(&release);
    t.apply(&release);
    assert_eq!(t.rectangles, vec![Vec::<Point>::new()]);
}
