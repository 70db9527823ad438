use slidep::editor::{Button, Event, Key, KinSpace, Mode, Preview, Tool};
use slidep::geometry::{distance_squared, is_near, offset_between, translate, Offset, Point};
use slidep::sketch::{Beam, Sketch};

fn pt(x: i32, y: i32) -> Point {
    Point { x, y }
}

fn press(k: &mut KinSpace, x: i32, y: i32) {
    k.pointer_down(pt(x, y), Button::Primary, None);
}

#[test]
fn snap_reuses_close_node_and_creates_far_one() {
    let mut g = Sketch::new();
    let a = g.resolve_or_create_node(pt(100, 100));
    assert_eq!(a, 0);
    assert_eq!(g.node_count(), 1);
    let b = g.resolve_or_create_node(pt(105, 103));
    assert_eq!(b, 0);
    assert_eq!(g.node_count(), 1);
    assert_eq!(g.pivot_count(), 1);
    let c = g.resolve_or_create_node(pt(120, 100));
    assert_eq!(c, 1);
    assert_eq!(g.node_count(), 2);
    assert_eq!(g.node(1), pt(120, 100));
}

#[test]
fn snap_radius_is_strict() {
    assert!(is_near(pt(0, 0), pt(11, 0)));
    assert!(!is_near(pt(0, 0), pt(12, 0)));
    let mut g = Sketch::new();
    g.resolve_or_create_node(pt(0, 0));
    assert_eq!(g.find_near(pt(12, 0)), None);
    assert_eq!(g.find_near(pt(8, 8)), Some(0));
    assert_eq!(g.find_near(pt(9, 9)), None);
}

#[test]
fn snap_takes_first_match_not_nearest() {
    let mut g = Sketch::new();
    g.resolve_or_create_node(pt(0, 0));
    g.resolve_or_create_node(pt(20, 0));
    assert_eq!(g.find_near(pt(11, 0)), Some(0));
    assert_eq!(g.find_near(pt(19, 0)), Some(1));
    assert_eq!(g.snap_position(pt(11, 0)), pt(0, 0));
    assert_eq!(g.snap_position(pt(50, 50)), pt(50, 50));
}

#[test]
fn placements_near_each_other_share_a_node() {
    let mut g = Sketch::new();
    let a = g.resolve_or_create_node(pt(0, 0));
    let b = g.resolve_or_create_node(pt(6, 6));
    assert_eq!(a, b);
    let mut h = Sketch::new();
    let c = h.resolve_or_create_node(pt(0, 0));
    let d = h.resolve_or_create_node(pt(12, 0));
    assert_ne!(c, d);
}

#[test]
fn add_beam_appends_with_rest_length() {
    let mut g = Sketch::new();
    g.resolve_or_create_node(pt(0, 0));
    g.resolve_or_create_node(pt(30, 40));
    let id = g.add_beam(0, 1);
    assert_eq!(id, 0);
    assert_eq!(g.beam_count(), 1);
    assert_eq!(g.beam(0), Beam { start: 0, end: 1, rest_length_sq: 2500 });
    g.move_node(1, pt(300, 400));
    assert_eq!(g.beam(0).rest_length_sq, 2500);
    assert_eq!(g.node(1), pt(300, 400));
}

#[test]
fn pivot_lists_placed_beam_then_incident_beams() {
    let mut g = Sketch::new();
    assert_eq!(g.commit_beam(pt(0, 0), pt(50, 0)), Some(0));
    assert_eq!(g.commit_beam(pt(100, 0), pt(150, 0)), Some(1));
    assert_eq!(g.pivot_count(), 0);
    assert_eq!(g.commit_beam(pt(2, 1), pt(100, 2)), Some(2));
    assert_eq!(g.node_count(), 4);
    assert_eq!(g.pivot_count(), 2);
    assert_eq!(g.pivot(0).node, 0);
    assert_eq!(g.pivot(0).beams, vec![2, 0]);
    assert_eq!(g.pivot(1).node, 2);
    assert_eq!(g.pivot(1).beams, vec![2, 1]);
    assert_eq!(g.beam(2), Beam { start: 0, end: 2, rest_length_sq: 10000 });
}

#[test]
fn commit_with_both_ends_on_one_node_changes_nothing() {
    let mut g = Sketch::new();
    assert_eq!(g.commit_beam(pt(0, 0), pt(5, 5)), None);
    assert_eq!(g.node_count(), 0);
    assert_eq!(g.commit_beam(pt(0, 0), pt(40, 0)), Some(0));
    assert_eq!(g.commit_beam(pt(1, 0), pt(-3, 2)), None);
    assert_eq!(g.node_count(), 2);
    assert_eq!(g.beam_count(), 1);
    assert_eq!(g.pivot_count(), 0);
}

#[test]
fn repeated_commit_adds_no_node() {
    let mut g = Sketch::new();
    g.commit_beam(pt(0, 0), pt(50, 0));
    assert_eq!(g.node_count(), 2);
    g.commit_beam(pt(0, 0), pt(50, 0));
    assert_eq!(g.node_count(), 2);
    assert_eq!(g.beam_count(), 2);
    assert_eq!(g.pivot_count(), 2);
    let mut h = Sketch::new();
    let a = h.resolve_or_create_node(pt(7, 7));
    let b = h.resolve_or_create_node(pt(7, 7));
    assert_eq!(a, b);
    assert_eq!(h.node_count(), 1);
}

#[test]
fn beam_tool_places_and_chains() {
    let mut k = KinSpace::new();
    assert_eq!(k.mode(), Mode::Idle);
    k.click_tool(Tool::Beam);
    assert_eq!(k.mode(), Mode::PlacingBeamStart);
    press(&mut k, 0, 0);
    assert_eq!(k.mode(), Mode::PlacingBeamEnd { start: pt(0, 0) });
    press(&mut k, 50, 0);
    assert_eq!(k.mode(), Mode::PlacingBeamStart);
    assert_eq!(k.sketch().beam_count(), 1);
    assert_eq!(k.sketch().node_count(), 2);
    assert_eq!(k.sketch().beam(0), Beam { start: 0, end: 1, rest_length_sq: 2500 });
    press(&mut k, 52, 3);
    assert_eq!(k.mode(), Mode::PlacingBeamEnd { start: pt(50, 0) });
    press(&mut k, 50, 80);
    assert_eq!(k.sketch().beam(1), Beam { start: 1, end: 2, rest_length_sq: 6400 });
    assert_eq!(k.sketch().pivot_count(), 1);
}

#[test]
fn beam_end_snaps_to_existing_node() {
    let mut k = KinSpace::new();
    k.click_tool(Tool::Beam);
    press(&mut k, 100, 100);
    press(&mut k, 200, 100);
    press(&mut k, 0, 0);
    press(&mut k, 105, 103);
    assert_eq!(k.sketch().node_count(), 3);
    assert_eq!(k.sketch().beam(1).end, 0);
    assert_eq!(k.sketch().beam(1).rest_length_sq, 20000);
    press(&mut k, 300, 300);
    press(&mut k, 120, 100);
    assert_eq!(k.sketch().node_count(), 5);
}

#[test]
fn escape_returns_to_idle_and_keeps_counts() {
    let mut k = KinSpace::new();
    k.click_tool(Tool::Beam);
    press(&mut k, 0, 0);
    press(&mut k, 50, 0);
    press(&mut k, 10, 60);
    let (n, b, p) = (k.sketch().node_count(), k.sketch().beam_count(), k.sketch().pivot_count());
    k.key_down(Key::Escape, false);
    assert_eq!(k.mode(), Mode::Idle);
    assert_eq!(k.sketch().node_count(), n);
    assert_eq!(k.sketch().beam_count(), b);
    assert_eq!(k.sketch().pivot_count(), p);
    k.click_tool(Tool::Pivot);
    k.key_down(Key::Escape, true);
    assert_eq!(k.mode(), Mode::PlacingPivot);
    k.key_down(Key::Other, false);
    assert_eq!(k.mode(), Mode::PlacingPivot);
    k.handle(Event::KeyDown { key: Key::Escape, modifier: false });
    assert_eq!(k.mode(), Mode::Idle);
}

#[test]
fn tools_only_start_from_idle() {
    let mut k = KinSpace::new();
    k.click_tool(Tool::Slider);
    assert_eq!(k.mode(), Mode::PlacingSlider);
    k.click_tool(Tool::Ground);
    assert_eq!(k.mode(), Mode::PlacingSlider);
    k.key_down(Key::Escape, false);
    k.click_tool(Tool::Ground);
    assert_eq!(k.mode(), Mode::PlacingGround);
    press(&mut k, 3, 3);
    assert_eq!(k.mode(), Mode::PlacingGround);
    assert_eq!(k.sketch().node_count(), 0);
}

#[test]
fn dragging_moves_only_the_beam_ends() {
    let mut k = KinSpace::new();
    k.click_tool(Tool::Beam);
    press(&mut k, 0, 0);
    press(&mut k, 40, 0);
    press(&mut k, 100, 100);
    press(&mut k, 100, 150);
    k.key_down(Key::Escape, false);
    k.pointer_down(pt(10, 0), Button::Primary, Some(0));
    assert_eq!(
        k.mode(),
        Mode::Moving { beam: 0, to_start: Offset { dx: -10, dy: 0 }, to_end: Offset { dx: 30, dy: 0 } }
    );
    k.pointer_move(pt(20, 5));
    assert_eq!(k.sketch().node(0), pt(10, 5));
    assert_eq!(k.sketch().node(1), pt(50, 5));
    k.pointer_move(pt(-5, -5));
    assert_eq!(k.sketch().node(0), pt(-15, -5));
    assert_eq!(k.sketch().node(1), pt(25, -5));
    assert_eq!(k.sketch().node(2), pt(100, 100));
    assert_eq!(k.sketch().node(3), pt(100, 150));
    assert_eq!(k.sketch().node_count(), 4);
    assert_eq!(k.sketch().beam_count(), 2);
    assert_eq!(k.sketch().beam(0).rest_length_sq, 1600);
    k.pointer_up(pt(-5, -5), Button::Secondary);
    assert!(matches!(k.mode(), Mode::Moving { .. }));
    k.pointer_up(pt(-5, -5), Button::Primary);
    assert_eq!(k.mode(), Mode::Idle);
    k.pointer_move(pt(70, 70));
    assert_eq!(k.sketch().node(0), pt(-15, -5));
}

#[test]
fn press_in_idle_off_beams_does_nothing() {
    let mut k = KinSpace::new();
    k.pointer_down(pt(5, 5), Button::Primary, None);
    assert_eq!(k.mode(), Mode::Idle);
    k.pointer_down(pt(5, 5), Button::Secondary, None);
    assert_eq!(k.mode(), Mode::Idle);
    assert_eq!(k.cursor(), pt(5, 5));
}

#[test]
fn preview_follows_cursor_and_snaps() {
    let mut k = KinSpace::new();
    assert_eq!(k.preview(), Preview::Nothing);
    k.click_tool(Tool::Pivot);
    k.pointer_move(pt(7, 9));
    assert_eq!(k.preview(), Preview::Pivot(pt(7, 9)));
    k.key_down(Key::Escape, false);
    k.click_tool(Tool::Beam);
    press(&mut k, 0, 0);
    press(&mut k, 50, 0);
    k.handle(Event::PointerMove(pt(48, 4)));
    assert_eq!(k.preview(), Preview::BeamEnd(pt(50, 0)));
    press(&mut k, 48, 4);
    k.pointer_move(pt(90, 90));
    assert_eq!(k.preview(), Preview::BeamSegment(pt(50, 0), pt(90, 90)));
    k.pointer_move(pt(3, 1));
    assert_eq!(k.preview(), Preview::BeamSegment(pt(50, 0), pt(0, 0)));
}

#[test]
fn geometry_is_exact_at_the_extremes() {
    let lo = pt(i32::MIN, i32::MIN);
    let hi = pt(i32::MAX, i32::MAX);
    let d = (u32::MAX as u128) * (u32::MAX as u128) * 2;
    assert_eq!(distance_squared(lo, hi), d);
    assert_eq!(distance_squared(pt(1, 2), pt(4, 6)), 25);
    let o = offset_between(lo, hi);
    assert_eq!(o, Offset { dx: u32::MAX as i64, dy: u32::MAX as i64 });
    assert_eq!(translate(hi, o), hi);
    assert_eq!(translate(pt(1, -1), Offset { dx: 2, dy: -3 }), pt(3, -4));
    assert_eq!(translate(pt(0, 0), Offset { dx: i64::MIN, dy: i64::MAX }), pt(i32::MIN, i32::MAX));
}
