//! The interaction state machine: the one writer of the sketch, driven by
//! toolbar clicks, pointer events and key presses.

use vstd::prelude::*;

use crate::geometry::{offset_between, offset_spec, shifted, translate, Offset, Point};
use crate::sketch::{collapses, commit, joints_settled, snapped, Sketch, SketchView, well_formed};

verus! {

/// A toolbar button.
#[derive(Clone, Copy, Debug, PartialEq, Eq, Structural)]
pub enum Tool {
    Pivot,
    Slider,
    Ground,
    Beam,
}

/// A pointer button; only the primary one drives the editor.
#[derive(Clone, Copy, Debug, PartialEq, Eq, Structural)]
pub enum Button {
    Primary,
    Secondary,
    Auxiliary,
}

/// A key; only Escape drives the editor.
#[derive(Clone, Copy, Debug, PartialEq, Eq, Structural)]
pub enum Key {
    Escape,
    Other,
}

/// An input event. A press names the beam under the pointer, if any.
#[derive(Clone, Copy, Debug, PartialEq, Eq, Structural)]
pub enum Event {
    ToolClicked(Tool),
    PointerMove(Point),
    PointerDown { pos: Point, button: Button, beam: Option<usize> },
    PointerUp { pos: Point, button: Button },
    KeyDown { key: Key, modifier: bool },
}

/// The editing mode.
#[derive(Clone, Copy, Debug, PartialEq, Eq, Structural)]
pub enum Mode {
    Idle,
    PlacingPivot,
    PlacingSlider,
    PlacingGround,
    PlacingBeamStart,
    /// The start of the beam being drawn has been placed.
    PlacingBeamEnd { start: Point },
    /// A beam is being dragged; each end keeps its offset from the pointer.
    Moving { beam: usize, to_start: Offset, to_end: Offset },
}

/// What the renderer draws for the placement in progress.
#[derive(Clone, Copy, Debug, PartialEq, Eq, Structural)]
pub enum Preview {
    Nothing,
    Pivot(Point),
    Slider(Point),
    Ground(Point),
    BeamEnd(Point),
    BeamSegment(Point, Point),
}

/// A sketch together with the editing mode and the last pointer position.
pub struct KinSpace {
    sketch: Sketch,
    mode: Mode,
    cursor: Point,
}

/// The value of an editor.
pub struct KinSpaceView {
    pub sketch: SketchView,
    pub mode: Mode,
    pub cursor: Point,
}

impl View for KinSpace {
    type V = KinSpaceView;

    closed spec fn view(&self) -> KinSpaceView {
        KinSpaceView { sketch: self.sketch@, mode: self.mode, cursor: self.cursor }
    }
}

/// The sketch is well formed, every joint record names existing beams only,
/// and a dragged beam exists.
pub open spec fn editor_ok(v: KinSpaceView) -> bool {
    &&& well_formed(v.sketch)
    &&& joints_settled(v.sketch)
    &&& (v.mode matches Mode::Moving { beam, .. } ==> beam < v.sketch.beams.len())
}

/// A press names only beams that exist.
pub open spec fn event_ok(v: KinSpaceView, ev: Event) -> bool {
    ev matches Event::PointerDown { beam: Some(b), .. } ==> b < v.sketch.beams.len()
}

/// The placing mode that a toolbar button enters.
pub open spec fn tool_mode(t: Tool) -> Mode {
    match t {
        Tool::Pivot => Mode::PlacingPivot,
        Tool::Slider => Mode::PlacingSlider,
        Tool::Ground => Mode::PlacingGround,
        Tool::Beam => Mode::PlacingBeamStart,
    }
}

/// The sketch with both ends of beam `beam` placed at the pointer plus their offsets.
pub open spec fn dragged(g: SketchView, beam: usize, pos: Point, to_start: Offset, to_end: Offset) -> SketchView {
    let b = g.beams[beam as int];
    SketchView {
        nodes: g.nodes.update(b.start as int, shifted(pos, to_start)).update(
            b.end as int,
            shifted(pos, to_end),
        ),
        ..g
    }
}

/// The editor after a pointer move to `pos`.
pub open spec fn on_move(v: KinSpaceView, pos: Point) -> KinSpaceView {
    match v.mode {
        Mode::Moving { beam, to_start, to_end } => KinSpaceView {
            sketch: dragged(v.sketch, beam, pos, to_start, to_end),
            cursor: pos,
            ..v
        },
        _ => KinSpaceView { cursor: pos, ..v },
    }
}

/// The editor after a primary press at `pos`, over beam `hit` if any. A
/// second beam press whose two ends would land on one node is ignored: nothing
/// is committed and the mode stays `PlacingBeamEnd`.
pub open spec fn on_press(v: KinSpaceView, pos: Point, hit: Option<usize>) -> KinSpaceView {
    let at = KinSpaceView { cursor: pos, ..v };
    match v.mode {
        Mode::PlacingBeamStart => KinSpaceView {
            mode: Mode::PlacingBeamEnd { start: snapped(v.sketch.nodes, pos) },
            ..at
        },
        Mode::PlacingBeamEnd { start } => {
            let end = snapped(v.sketch.nodes, pos);
            if collapses(v.sketch, start, end) {
                at
            } else {
                KinSpaceView {
                    sketch: commit(v.sketch, start, end),
                    mode: Mode::PlacingBeamStart,
                    cursor: pos,
                }
            }
        },
        Mode::Idle => match hit {
            Some(b) => {
                let beam = v.sketch.beams[b as int];
                KinSpaceView {
                    mode: Mode::Moving {
                        beam: b,
                        to_start: offset_spec(pos, v.sketch.nodes[beam.start as int]),
                        to_end: offset_spec(pos, v.sketch.nodes[beam.end as int]),
                    },
                    ..at
                }
            },
            None => at,
        },
        _ => at,
    }
}

/// The editor after event `ev`. Events that the mode has no use for change
/// nothing but the pointer position.
pub open spec fn step(v: KinSpaceView, ev: Event) -> KinSpaceView {
    match ev {
        Event::ToolClicked(t) => if v.mode is Idle {
            KinSpaceView { mode: tool_mode(t), ..v }
        } else {
            v
        },
        Event::PointerMove(pos) => on_move(v, pos),
        Event::PointerDown { pos, button, beam } => if button is Primary {
            on_press(v, pos, beam)
        } else {
            KinSpaceView { cursor: pos, ..v }
        },
        Event::PointerUp { pos, button } => if button is Primary && v.mode is Moving {
            KinSpaceView { mode: Mode::Idle, cursor: pos, ..v }
        } else {
            KinSpaceView { cursor: pos, ..v }
        },
        Event::KeyDown { key, modifier } => if key is Escape && !modifier {
            KinSpaceView { mode: Mode::Idle, ..v }
        } else {
            v
        },
    }
}

/// The editor after the events of `evs`, in order.
pub open spec fn run(v: KinSpaceView, evs: Seq<Event>) -> KinSpaceView
    decreases evs.len(),
{
    if evs.len() == 0 {
        v
    } else {
        run(step(v, evs[0]), evs.drop_first())
    }
}

/// What is drawn for the placement in progress.
pub open spec fn preview_of(v: KinSpaceView) -> Preview {
    match v.mode {
        Mode::PlacingPivot => Preview::Pivot(v.cursor),
        Mode::PlacingSlider => Preview::Slider(v.cursor),
        Mode::PlacingGround => Preview::Ground(v.cursor),
        Mode::PlacingBeamStart => Preview::BeamEnd(snapped(v.sketch.nodes, v.cursor)),
        Mode::PlacingBeamEnd { start } => Preview::BeamSegment(start, snapped(v.sketch.nodes, v.cursor)),
        _ => Preview::Nothing,
    }
}

/// Escape without a modifier, in any mode but Idle, returns to Idle and
/// leaves the sketch, and so every count of nodes, beams and pivots, as it was.
pub proof fn lemma_escape_returns_to_idle(v: KinSpaceView)
    requires
        editor_ok(v),
        !(v.mode is Idle),
    ensures
        ({
            let w = step(v, Event::KeyDown { key: Key::Escape, modifier: false });
            &&& w.mode is Idle
            &&& w.sketch == v.sketch
            &&& w.sketch.nodes.len() == v.sketch.nodes.len()
            &&& w.sketch.beams.len() == v.sketch.beams.len()
            &&& w.sketch.pivots.len() == v.sketch.pivots.len()
        }),
{
}

/// While a beam is dragged, any run of pointer moves changes only the
/// positions of that beam's two end nodes: the drag goes on, and the node and
/// beam counts and every other record stay as they were.
pub proof fn lemma_drag_moves_only_beam_ends(v: KinSpaceView, evs: Seq<Event>)
    requires
        editor_ok(v),
        v.mode is Moving,
        forall|i: int| 0 <= i < evs.len() ==> #[trigger] evs[i] is PointerMove,
    ensures
        ({
            let w = run(v, evs);
            let b = v.sketch.beams[v.mode->beam as int];
            &&& w.mode == v.mode
            &&& editor_ok(w)
            &&& w.sketch.nodes.len() == v.sketch.nodes.len()
            &&& w.sketch.beams == v.sketch.beams
            &&& w.sketch.pivots == v.sketch.pivots
            &&& w.sketch.sliders == v.sketch.sliders
            &&& w.sketch.grounds == v.sketch.grounds
            &&& w.sketch.coincidences == v.sketch.coincidences
            &&& w.sketch.fixations == v.sketch.fixations
            &&& forall|n: int|
                0 <= n < v.sketch.nodes.len() && n != b.start && n != b.end
                    ==> #[trigger] w.sketch.nodes[n] == v.sketch.nodes[n]
        }),
    decreases evs.len(),
{
    if evs.len() > 0 {
        let v1 = step(v, evs[0]);
        let rest = evs.drop_first();
        assert forall|i: int| 0 <= i < rest.len() implies #[trigger] rest[i] is PointerMove by {
            assert(rest[i] == evs[i + 1]);
        }
        lemma_drag_moves_only_beam_ends(v1, rest);
    }
}

impl KinSpace {
    /// An editor on an empty sketch, idle, with the pointer at the origin.
    pub fn new() -> (r: KinSpace)
        ensures
            r@.mode == Mode::Idle,
            r@.cursor == (Point { x: 0, y: 0 }),
            r@.sketch.nodes.len() == 0,
            r@.sketch.beams.len() == 0,
            r@.sketch.pivots.len() == 0,
            r@.sketch.sliders.len() == 0,
            r@.sketch.grounds.len() == 0,
            r@.sketch.coincidences.len() == 0,
            r@.sketch.fixations.len() == 0,
            editor_ok(r@),
    {
        KinSpace { sketch: Sketch::new(), mode: Mode::Idle, cursor: Point { x: 0, y: 0 } }
    }

    /// The current mode.
    pub fn mode(&self) -> (r: Mode)
        ensures
            r == self@.mode,
    {
        self.mode
    }

    /// The last pointer position.
    pub fn cursor(&self) -> (r: Point)
        ensures
            r == self@.cursor,
    {
        self.cursor
    }

    /// The sketch being edited.
    pub fn sketch(&self) -> (r: &Sketch)
        ensures
            r@ == self@.sketch,
    {
        &self.sketch
    }

    /// A toolbar click: from Idle, enters the tool's placing mode.
    pub fn click_tool(&mut self, tool: Tool)
        requires
            editor_ok(old(self)@),
        ensures
            final(self)@ == step(old(self)@, Event::ToolClicked(tool)),
            editor_ok(final(self)@),
    {
        if let Mode::Idle = self.mode {
            self.mode = match tool {
                Tool::Pivot => Mode::PlacingPivot,
                Tool::Slider => Mode::PlacingSlider,
                Tool::Ground => Mode::PlacingGround,
                Tool::Beam => Mode::PlacingBeamStart,
            };
        }
    }

    /// The pointer moved to `pos`. While a beam is dragged, each of its ends
    /// is put at `pos` plus the offset it had when the drag began.
    pub fn pointer_move(&mut self, pos: Point)
        requires
            editor_ok(old(self)@),
        ensures
            final(self)@ == step(old(self)@, Event::PointerMove(pos)),
            editor_ok(final(self)@),
    {
        if let Mode::Moving { beam, to_start, to_end } = self.mode {
            let b = self.sketch.beam(beam);
            self.sketch.move_node(b.start, translate(pos, to_start));
            self.sketch.move_node(b.end, translate(pos, to_end));
        }
        self.cursor = pos;
    }

    /// A press of `button` at `pos`, over beam `hit` if any. A second beam
    /// press whose two ends would land on one node is ignored: nothing is
    /// committed and the mode stays `PlacingBeamEnd`.
    pub fn pointer_down(&mut self, pos: Point, button: Button, hit: Option<usize>)
        requires
            editor_ok(old(self)@),
            event_ok(old(self)@, Event::PointerDown { pos, button, beam: hit }),
        ensures
            final(self)@ == step(old(self)@, Event::PointerDown { pos, button, beam: hit }),
            editor_ok(final(self)@),
    {
        if let Button::Primary = button {
            match self.mode {
                Mode::PlacingBeamStart => {
                    self.mode = Mode::PlacingBeamEnd { start: self.sketch.snap_position(pos) };
                },
                Mode::PlacingBeamEnd { start } => {
                    let end = self.sketch.snap_position(pos);
                    if let Some(_) = self.sketch.commit_beam(start, end) {
                        self.mode = Mode::PlacingBeamStart;
                    }
                },
                Mode::Idle => {
                    if let Some(b) = hit {
                        let beam = self.sketch.beam(b);
                        let to_start = offset_between(pos, self.sketch.node(beam.start));
                        let to_end = offset_between(pos, self.sketch.node(beam.end));
                        self.mode = Mode::Moving { beam: b, to_start, to_end };
                    }
                },
                _ => {},
            }
        }
        self.cursor = pos;
    }

    /// A release of `button` at `pos`: a primary release ends a drag.
    pub fn pointer_up(&mut self, pos: Point, button: Button)
        requires
            editor_ok(old(self)@),
        ensures
            final(self)@ == step(old(self)@, Event::PointerUp { pos, button }),
            editor_ok(final(self)@),
    {
        if let Button::Primary = button {
            if let Mode::Moving { .. } = self.mode {
                self.mode = Mode::Idle;
            }
        }
        self.cursor = pos;
    }

    /// A key press: Escape without a held modifier drops whatever was in
    /// progress and returns to Idle.
    pub fn key_down(&mut self, key: Key, modifier: bool)
        requires
            editor_ok(old(self)@),
        ensures
            final(self)@ == step(old(self)@, Event::KeyDown { key, modifier }),
            editor_ok(final(self)@),
    {
        if let Key::Escape = key {
            if !modifier {
                self.mode = Mode::Idle;
            }
        }
    }

    /// Feeds one event to the editor.
    pub fn handle(&mut self, ev: Event)
        requires
            editor_ok(old(self)@),
            event_ok(old(self)@, ev),
        ensures
            final(self)@ == step(old(self)@, ev),
            editor_ok(final(self)@),
    {
        match ev {
            Event::ToolClicked(t) => self.click_tool(t),
            Event::PointerMove(pos) => self.pointer_move(pos),
            Event::PointerDown { pos, button, beam } => self.pointer_down(pos, button, beam),
            Event::PointerUp { pos, button } => self.pointer_up(pos, button),
            Event::KeyDown { key, modifier } => self.key_down(key, modifier),
        }
    }

    /// What the renderer draws for the placement in progress.
    pub fn preview(&self) -> (r: Preview)
        ensures
            r == preview_of(self@),
    {
        match self.mode {
            Mode::PlacingPivot => Preview::Pivot(self.cursor),
            Mode::PlacingSlider => Preview::Slider(self.cursor),
            Mode::PlacingGround => Preview::Ground(self.cursor),
            Mode::PlacingBeamStart => Preview::BeamEnd(self.sketch.snap_position(self.cursor)),
            Mode::PlacingBeamEnd { start } => Preview::BeamSegment(
                start,
                self.sketch.snap_position(self.cursor),
            ),
            _ => Preview::Nothing,
        }
    }
}

} // verus!
