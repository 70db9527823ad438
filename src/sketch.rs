//! The sketch graph: append-only nodes, beams and joint records, with
//! first-match snapping of new placements onto existing nodes.

use vstd::prelude::*;

use crate::geometry::{dist2, distance_squared, is_near, near, Point};

verus! {

/// A rigid segment between two nodes. The square of its length is taken when
/// the beam is created and never recomputed.
#[derive(Clone, Copy, Debug, PartialEq, Eq, Structural)]
pub struct Beam {
    pub start: usize,
    pub end: usize,
    pub rest_length_sq: u128,
}

/// A joint record: a node and the beams that met there when it was recorded.
#[derive(Debug)]
pub struct Joint {
    pub node: usize,
    pub beams: Vec<usize>,
}

/// The value of a joint record.
pub struct JointView {
    pub node: usize,
    pub beams: Seq<usize>,
}

impl View for Joint {
    type V = JointView;

    open spec fn view(&self) -> JointView {
        JointView { node: self.node, beams: self.beams@ }
    }
}

/// What a ground record fastens a node to.
#[derive(Clone, Copy, Debug, PartialEq, Eq, Structural)]
pub enum KinElement {
    Beam,
    Slider,
    Pivot,
    Slidep,
}

/// A node grounded through an element of some kind.
#[derive(Clone, Copy, Debug, PartialEq, Eq, Structural)]
pub struct Ground {
    pub node: usize,
    pub element: KinElement,
    pub id: usize,
}

/// The whole graph of a sketch. All collections only ever grow; node
/// positions are the one thing that changes in place.
pub struct Sketch {
    nodes: Vec<Point>,
    beams: Vec<Beam>,
    pivots: Vec<Joint>,
    sliders: Vec<Joint>,
    grounds: Vec<Ground>,
    coincidences: Vec<(usize, usize)>,
    fixations: Vec<(usize, usize)>,
}

/// The value of a sketch.
pub struct SketchView {
    pub nodes: Seq<Point>,
    pub beams: Seq<Beam>,
    pub pivots: Seq<JointView>,
    pub sliders: Seq<JointView>,
    pub grounds: Seq<Ground>,
    /// (node, beam) pairs.
    pub coincidences: Seq<(usize, usize)>,
    /// (beam, beam) pairs.
    pub fixations: Seq<(usize, usize)>,
}

impl View for Sketch {
    type V = SketchView;

    closed spec fn view(&self) -> SketchView {
        SketchView {
            nodes: self.nodes@,
            beams: self.beams@,
            pivots: self.pivots@.map_values(|j: Joint| j@),
            sliders: self.sliders@.map_values(|j: Joint| j@),
            grounds: self.grounds@,
            coincidences: self.coincidences@,
            fixations: self.fixations@,
        }
    }
}

/// A joint record names a known node, and beams that exist or the one being placed.
pub open spec fn joint_ok(g: SketchView, j: JointView) -> bool {
    &&& j.node < g.nodes.len()
    &&& forall|k: int| 0 <= k < j.beams.len() ==> j.beams[k] <= g.beams.len()
}

/// Every beam id that a joint record lists refers to an existing beam. A
/// placement on its own may list the beam it is about to add; a completed beam
/// placement leaves no such id behind.
pub open spec fn joints_settled(g: SketchView) -> bool {
    &&& forall|k: int, i: int|
        0 <= k < g.pivots.len() && 0 <= i < g.pivots[k].beams.len() ==> #[trigger] g.pivots[k].beams[i]
            < g.beams.len()
    &&& forall|k: int, i: int|
        0 <= k < g.sliders.len() && 0 <= i < g.sliders[k].beams.len() ==> #[trigger] g.sliders[k].beams[i]
            < g.beams.len()
}

/// Every id that a record holds refers to an existing entry, and every beam
/// joins two distinct nodes.
pub open spec fn well_formed(g: SketchView) -> bool {
    &&& forall|b: int|
        0 <= b < g.beams.len() ==> {
            &&& g.beams[b].start < g.nodes.len()
            &&& g.beams[b].end < g.nodes.len()
            &&& g.beams[b].start != g.beams[b].end
        }
    &&& forall|k: int| 0 <= k < g.pivots.len() ==> joint_ok(g, g.pivots[k])
    &&& forall|k: int| 0 <= k < g.sliders.len() ==> joint_ok(g, g.sliders[k])
    &&& forall|k: int| 0 <= k < g.grounds.len() ==> g.grounds[k].node < g.nodes.len()
    &&& forall|k: int|
        0 <= k < g.coincidences.len() ==> g.coincidences[k].0 < g.nodes.len()
            && g.coincidences[k].1 < g.beams.len()
    &&& forall|k: int|
        0 <= k < g.fixations.len() ==> g.fixations[k].0 < g.beams.len() && g.fixations[k].1
            < g.beams.len()
}

/// The first node, at index `i` or later, that lies within the snap radius of `p`.
pub open spec fn snap_from(nodes: Seq<Point>, p: Point, i: int) -> Option<int>
    decreases nodes.len() - i,
{
    if i < 0 || i >= nodes.len() {
        None
    } else if near(nodes[i], p) {
        Some(i)
    } else {
        snap_from(nodes, p, i + 1)
    }
}

/// An optional node id as a mathematical integer.
pub open spec fn as_id(o: Option<usize>) -> Option<int> {
    match o {
        Some(i) => Some(i as int),
        None => None,
    }
}

/// The first node (lowest index) within the snap radius of `p`, if any.
pub open spec fn snap(nodes: Seq<Point>, p: Point) -> Option<int> {
    snap_from(nodes, p, 0)
}

/// Where a placement at `p` is drawn: on the first node near it, else at `p`.
pub open spec fn snapped(nodes: Seq<Point>, p: Point) -> Point {
    match snap(nodes, p) {
        Some(i) => nodes[i],
        None => p,
    }
}

/// Ids of the beams among `beams` that have node `n` as an endpoint, in order.
pub open spec fn adjacent(beams: Seq<Beam>, n: usize) -> Seq<usize>
    decreases beams.len(),
{
    if beams.len() == 0 {
        Seq::empty()
    } else {
        let rest = adjacent(beams.drop_last(), n);
        if beams.last().start == n || beams.last().end == n {
            rest.push((beams.len() - 1) as usize)
        } else {
            rest
        }
    }
}

/// The pivot recorded when a placement lands on node `n`: the beam about to be
/// placed, then every beam that already meets `n`.
pub open spec fn pivot_at(g: SketchView, n: int) -> JointView {
    JointView { node: n as usize, beams: seq![g.beams.len() as usize] + adjacent(g.beams, n as usize) }
}

/// The sketch after a placement at `p`, and the node the placement lands on:
/// the first node near `p` (recording a pivot there), else a new node at `p`.
pub open spec fn resolve(g: SketchView, p: Point) -> (SketchView, int) {
    match snap(g.nodes, p) {
        Some(i) => (SketchView { pivots: g.pivots.push(pivot_at(g, i)), ..g }, i),
        None => (SketchView { nodes: g.nodes.push(p), ..g }, g.nodes.len() as int),
    }
}

/// The sketch with one more beam from `s` to `e`, at their current distance.
pub open spec fn with_beam(g: SketchView, s: int, e: int) -> SketchView {
    SketchView {
        beams: g.beams.push(
            Beam { start: s as usize, end: e as usize, rest_length_sq: dist2(g.nodes[s], g.nodes[e]) as u128 },
        ),
        ..g
    }
}

/// Whether a beam placed from `s` to `e` would have both ends on one node.
pub open spec fn collapses(g: SketchView, s: Point, e: Point) -> bool {
    match (snap(g.nodes, s), snap(g.nodes, e)) {
        (Some(a), Some(b)) => a == b,
        (None, None) => near(s, e),
        _ => false,
    }
}

/// The sketch after a beam placement from `s` to `e`: both ends resolved in
/// turn and the beam added between them; unchanged where the ends would meet.
pub open spec fn commit(g: SketchView, s: Point, e: Point) -> SketchView {
    if collapses(g, s, e) {
        g
    } else {
        let (g1, a) = resolve(g, s);
        let (g2, b) = resolve(g1, e);
        with_beam(g2, a, b)
    }
}

/// What `snap_from` returns: the first near node at `i` or later, or none.
proof fn lemma_snap_from(nodes: Seq<Point>, p: Point, i: int)
    requires
        0 <= i <= nodes.len(),
    ensures
        match snap_from(nodes, p, i) {
            Some(k) => i <= k < nodes.len() && near(nodes[k], p) && forall|j: int|
                i <= j < k ==> !near(nodes[j], p),
            None => forall|j: int| i <= j < nodes.len() ==> !near(#[trigger] nodes[j], p),
        },
    decreases nodes.len() - i,
{
    if i < nodes.len() && !near(nodes[i], p) {
        lemma_snap_from(nodes, p, i + 1);
    }
}

/// `snap` returns the lowest-indexed node within the snap radius, or none
/// when no node is within it.
pub proof fn lemma_snap(nodes: Seq<Point>, p: Point)
    ensures
        match snap(nodes, p) {
            Some(k) => 0 <= k < nodes.len() && near(nodes[k], p) && forall|j: int|
                0 <= j < k ==> !near(nodes[j], p),
            None => forall|j: int| 0 <= j < nodes.len() ==> !near(#[trigger] nodes[j], p),
        },
{
    lemma_snap_from(nodes, p, 0);
}

/// A node within the snap radius guarantees that snapping finds one.
pub proof fn lemma_snap_found(nodes: Seq<Point>, p: Point, j: int)
    requires
        0 <= j < nodes.len(),
        near(nodes[j], p),
    ensures
        snap(nodes, p) is Some,
{
    lemma_snap(nodes, p);
}

proof fn lemma_snap_from_push(nodes: Seq<Point>, x: Point, p: Point, i: int)
    requires
        0 <= i <= nodes.len(),
    ensures
        snap_from(nodes.push(x), p, i) == match snap_from(nodes, p, i) {
            Some(k) => Some(k),
            None => if near(x, p) {
                Some(nodes.len() as int)
            } else {
                None
            },
        },
    decreases nodes.len() - i,
{
    let n2 = nodes.push(x);
    assert(n2[i] == if i < nodes.len() { nodes[i] } else { x });
    if i < nodes.len() {
        lemma_snap_from_push(nodes, x, p, i + 1);
    } else {
        assert(snap_from(n2, p, i + 1) is None);
    }
}

/// Appending a node leaves earlier matches alone; the new node is found only
/// where no earlier one was.
pub proof fn lemma_snap_push(nodes: Seq<Point>, x: Point, p: Point)
    ensures
        snap(nodes.push(x), p) == match snap(nodes, p) {
            Some(k) => Some(k),
            None => if near(x, p) {
                Some(nodes.len() as int)
            } else {
                None
            },
        },
{
    lemma_snap_from_push(nodes, x, p, 0);
}

/// Every id that `adjacent` lists is an index of `beams`.
proof fn lemma_adjacent_bounded(beams: Seq<Beam>, n: usize)
    ensures
        forall|k: int|
            0 <= k < adjacent(beams, n).len() ==> #[trigger] adjacent(beams, n)[k] < beams.len(),
    decreases beams.len(),
{
    if beams.len() > 0 {
        let rest = adjacent(beams.drop_last(), n);
        lemma_adjacent_bounded(beams.drop_last(), n);
        assert forall|k: int| 0 <= k < adjacent(beams, n).len() implies #[trigger] adjacent(
            beams,
            n,
        )[k] < beams.len() by {
            if k < rest.len() {
                assert(adjacent(beams, n)[k] == rest[k]);
            }
        }
    }
}

/// A placement keeps the sketch well formed, and lands on a node near it.
pub proof fn lemma_resolve_well_formed(g: SketchView, p: Point)
    requires
        well_formed(g),
    ensures
        well_formed(resolve(g, p).0),
        0 <= resolve(g, p).1 < resolve(g, p).0.nodes.len(),
        near(resolve(g, p).0.nodes[resolve(g, p).1], p),
        resolve(g, p).0.beams == g.beams,
        resolve(g, p).0.nodes.len() >= g.nodes.len(),
        forall|k: int| 0 <= k < g.nodes.len() ==> resolve(g, p).0.nodes[k] == g.nodes[k],
{
    lemma_snap(g.nodes, p);
    match snap(g.nodes, p) {
        Some(i) => {
            let j = pivot_at(g, i);
            lemma_adjacent_bounded(g.beams, i as usize);
            assert(joint_ok(g, j));
            let g1 = resolve(g, p).0;
            assert forall|k: int| 0 <= k < g1.pivots.len() implies joint_ok(g1, g1.pivots[k]) by {
                if k < g.pivots.len() {
                    assert(g1.pivots[k] == g.pivots[k]);
                }
            }
        },
        None => {
            crate::geometry::lemma_near_self(p);
            let g1 = resolve(g, p).0;
            assert forall|k: int| 0 <= k < g1.pivots.len() implies joint_ok(g1, g1.pivots[k]) by {
                assert(g1.pivots[k] == g.pivots[k]);
            }
            assert forall|k: int| 0 <= k < g1.sliders.len() implies joint_ok(g1, g1.sliders[k]) by {
                assert(g1.sliders[k] == g.sliders[k]);
            }
        },
    }
}

/// On a sketch with no node near either point, placing at `p` and then at `q`
/// lands on the same node exactly when `q` is within the snap radius of `p`,
/// and on two distinct nodes otherwise.
pub proof fn lemma_fresh_placements_share_node_iff_near(g: SketchView, p: Point, q: Point)
    requires
        well_formed(g),
        snap(g.nodes, p) is None,
        snap(g.nodes, q) is None,
    ensures
        ({
            let (g1, a) = resolve(g, p);
            let (g2, b) = resolve(g1, q);
            (a == b <==> near(p, q))
        }),
{
    lemma_snap_push(g.nodes, p, q);
}

/// Placing twice at the same point lands both times on the same node, and the
/// second placement adds no node.
pub proof fn lemma_repeat_placement_reuses_node(g: SketchView, p: Point)
    requires
        well_formed(g),
    ensures
        ({
            let (g1, a) = resolve(g, p);
            let (g2, b) = resolve(g1, p);
            &&& b == a
            &&& g2.nodes.len() == g1.nodes.len()
        }),
{
    crate::geometry::lemma_near_self(p);
    lemma_snap_push(g.nodes, p, p);
}

/// A beam placement leaves every joint record naming existing beams only.
pub proof fn lemma_commit_settled(g: SketchView, s: Point, e: Point)
    requires
        well_formed(g),
        joints_settled(g),
    ensures
        joints_settled(commit(g, s, e)),
{
    if !collapses(g, s, e) {
        let (g1, a) = resolve(g, s);
        let (g2, b) = resolve(g1, e);
        lemma_resolve_well_formed(g, s);
        lemma_resolve_well_formed(g1, e);
        let h = commit(g, s, e);
        assert forall|k: int, i: int|
            0 <= k < h.pivots.len() && 0 <= i < h.pivots[k].beams.len() implies #[trigger] h.pivots[k].beams[i]
            < h.beams.len() by {
            assert(joint_ok(g2, g2.pivots[k]));
        }
        assert forall|k: int, i: int|
            0 <= k < h.sliders.len() && 0 <= i < h.sliders[k].beams.len() implies #[trigger] h.sliders[k].beams[i]
            < h.beams.len() by {
            assert(joint_ok(g2, g2.sliders[k]));
        }
    }
}

/// The two ends of a placement that does not collapse land on distinct nodes.
pub proof fn lemma_commit_ends_distinct(g: SketchView, s: Point, e: Point)
    requires
        well_formed(g),
        !collapses(g, s, e),
    ensures
        resolve(g, s).1 != resolve(resolve(g, s).0, e).1,
{
    lemma_snap(g.nodes, s);
    lemma_snap(g.nodes, e);
    lemma_resolve_well_formed(g, s);
    if snap(g.nodes, s) is None {
        lemma_snap_push(g.nodes, s, e);
    }
}

/// A beam placement that does not collapse adds exactly one beam, whose ends
/// are nodes near the two placed points and whose rest length is their
/// distance at that moment. (The bound on the node count says only that the
/// ids of the up to two new nodes fit in `usize`.)
pub proof fn lemma_commit_adds_one_beam(g: SketchView, s: Point, e: Point)
    requires
        well_formed(g),
        g.nodes.len() + 2 <= usize::MAX,
        !collapses(g, s, e),
    ensures
        ({
            let g2 = commit(g, s, e);
            let b = g2.beams.last();
            &&& g2.beams.len() == g.beams.len() + 1
            &&& g2.beams.drop_last() == g.beams
            &&& b.start < g2.nodes.len() && b.end < g2.nodes.len()
            &&& near(g2.nodes[b.start as int], s)
            &&& near(g2.nodes[b.end as int], e)
            &&& b.rest_length_sq == dist2(g2.nodes[b.start as int], g2.nodes[b.end as int])
        }),
{
    let (g1, a) = resolve(g, s);
    lemma_resolve_well_formed(g, s);
    lemma_resolve_well_formed(g1, e);
    lemma_commit_ends_distinct(g, s, e);
    let (g2, b) = resolve(g1, e);
    crate::geometry::lemma_dist2_range(g2.nodes[a], g2.nodes[b]);
    let h = commit(g, s, e);
    assert(h.beams.drop_last() =~= g.beams);
}

/// Repeating the same beam placement adds no node the second time.
pub proof fn lemma_repeat_commit_keeps_node_count(g: SketchView, s: Point, e: Point)
    requires
        well_formed(g),
    ensures
        commit(commit(g, s, e), s, e).nodes.len() == commit(g, s, e).nodes.len(),
{
    if !collapses(g, s, e) {
        let (g1, a) = resolve(g, s);
        let (g2, b) = resolve(g1, e);
        lemma_resolve_well_formed(g, s);
        lemma_resolve_well_formed(g1, e);
        let h = commit(g, s, e);
        assert(h.nodes == g2.nodes);
        lemma_snap_found(h.nodes, s, a);
        lemma_snap_found(h.nodes, e, b);
        let (h1, c) = resolve(h, s);
        assert(h1.nodes == h.nodes);
    }
}

impl Sketch {
    /// An empty sketch.
    pub fn new() -> (r: Sketch)
        ensures
            r@.nodes.len() == 0,
            r@.beams.len() == 0,
            r@.pivots.len() == 0,
            r@.sliders.len() == 0,
            r@.grounds.len() == 0,
            r@.coincidences.len() == 0,
            r@.fixations.len() == 0,
            well_formed(r@),
            joints_settled(r@),
    {
        Sketch {
            nodes: Vec::new(),
            beams: Vec::new(),
            pivots: Vec::new(),
            sliders: Vec::new(),
            grounds: Vec::new(),
            coincidences: Vec::new(),
            fixations: Vec::new(),
        }
    }

    /// The first node (lowest index) strictly within the snap radius of `p`.
    /// This is a first match, not a nearest match.
    pub fn find_near(&self, p: Point) -> (r: Option<usize>)
        ensures
            as_id(r) == snap(self@.nodes, p),
    {
        let mut i: usize = 0;
        while i < self.nodes.len()
            invariant
                0 <= i <= self.nodes@.len(),
                snap(self.nodes@, p) == snap_from(self.nodes@, p, i as int),
            decreases self.nodes@.len() - i,
        {
            if is_near(self.nodes[i], p) {
                return Some(i);
            }
            i += 1;
        }
        None
    }

    /// Where a placement at `p` is drawn: on the first node near it, else at `p`.
    pub fn snap_position(&self, p: Point) -> (r: Point)
        ensures
            r == snapped(self@.nodes, p),
    {
        proof {
            lemma_snap(self@.nodes, p);
        }
        match self.find_near(p) {
            Some(i) => self.nodes[i],
            None => p,
        }
    }

    /// The beam about to be placed, then every beam that meets node `n`.
    fn adjacent_beams(&self, n: usize) -> (r: Vec<usize>)
        ensures
            r@ == seq![self@.beams.len() as usize] + adjacent(self@.beams, n),
    {
        let mut r: Vec<usize> = Vec::new();
        r.push(self.beams.len());
        let mut i: usize = 0;
        while i < self.beams.len()
            invariant
                0 <= i <= self.beams@.len(),
                r@ == seq![self.beams@.len() as usize] + adjacent(self.beams@.take(i as int), n),
            decreases self.beams@.len() - i,
        {
            let b = self.beams[i];
            let ghost before = r@;
            if b.start == n || b.end == n {
                r.push(i);
            }
            proof {
                assert(self.beams@.take(i + 1).drop_last() =~= self.beams@.take(i as int));
                assert(r@ =~= seq![self.beams@.len() as usize] + adjacent(
                    self.beams@.take(i + 1),
                    n,
                ));
            }
            i += 1;
        }
        proof {
            assert(self.beams@.take(self.beams@.len() as int) =~= self.beams@);
        }
        r
    }

    /// Settles a placement at `p` onto a node: the first node within the snap
    /// radius is reused, and a pivot is recorded there with the beams that meet
    /// it; with no such node, a new node is made at `p`.
    pub fn resolve_or_create_node(&mut self, p: Point) -> (r: usize)
        requires
            well_formed(old(self)@),
        ensures
            final(self)@ == resolve(old(self)@, p).0,
            r == resolve(old(self)@, p).1,
            well_formed(final(self)@),
    {
        proof {
            lemma_resolve_well_formed(self@, p);
        }
        match self.find_near(p) {
            Some(i) => {
                let beams = self.adjacent_beams(i);
                let ghost old_pivots = self.pivots@;
                self.pivots.push(Joint { node: i, beams });
                proof {
                    assert(self.pivots@.map_values(|j: Joint| j@) =~= old_pivots.map_values(
                        |j: Joint| j@,
                    ).push(pivot_at(old(self)@, i as int)));
                }
                i
            },
            None => {
                self.nodes.push(p);
                self.nodes.len() - 1
            },
        }
    }

    /// Adds a beam from node `start` to node `end`; its rest length is their
    /// distance now. Returns the new beam's id.
    pub fn add_beam(&mut self, start: usize, end: usize) -> (r: usize)
        requires
            well_formed(old(self)@),
            start < old(self)@.nodes.len(),
            end < old(self)@.nodes.len(),
            start != end,
        ensures
            final(self)@ == with_beam(old(self)@, start as int, end as int),
            r == old(self)@.beams.len(),
            final(self)@.beams.len() == old(self)@.beams.len() + 1,
            final(self)@.beams[r as int].rest_length_sq == dist2(
                old(self)@.nodes[start as int],
                old(self)@.nodes[end as int],
            ),
            well_formed(final(self)@),
    {
        let rest_length_sq = distance_squared(self.nodes[start], self.nodes[end]);
        self.beams.push(Beam { start, end, rest_length_sq });
        proof {
            let g = self@;
            assert forall|k: int| 0 <= k < g.pivots.len() implies joint_ok(g, g.pivots[k]) by {
                assert(joint_ok(old(self)@, old(self)@.pivots[k]));
            }
            assert forall|k: int| 0 <= k < g.sliders.len() implies joint_ok(g, g.sliders[k]) by {
                assert(joint_ok(old(self)@, old(self)@.sliders[k]));
            }
        }
        self.beams.len() - 1
    }

    /// Puts node `node` at `pos`.
    pub fn move_node(&mut self, node: usize, pos: Point)
        requires
            well_formed(old(self)@),
            node < old(self)@.nodes.len(),
        ensures
            final(self)@ == (SketchView { nodes: old(self)@.nodes.update(node as int, pos), ..old(self)@ }),
            well_formed(final(self)@),
    {
        self.nodes.set(node, pos);
    }

    /// Places a beam from `start` to `end`: both ends are settled onto nodes in
    /// turn, then the beam is added between them. Where both ends would settle
    /// on one node nothing changes and `None` is returned.
    pub fn commit_beam(&mut self, start: Point, end: Point) -> (r: Option<usize>)
        requires
            well_formed(old(self)@),
        ensures
            final(self)@ == commit(old(self)@, start, end),
            r is None <==> collapses(old(self)@, start, end),
            r is Some ==> r->0 == old(self)@.beams.len(),
            well_formed(final(self)@),
            joints_settled(old(self)@) ==> joints_settled(final(self)@),
    {
        proof {
            if joints_settled(self@) {
                lemma_commit_settled(self@, start, end);
            }
        }
        let s = self.find_near(start);
        let e = self.find_near(end);
        let same = match (s, e) {
            (Some(a), Some(b)) => a == b,
            (None, None) => is_near(start, end),
            _ => false,
        };
        if same {
            return None;
        }
        let ghost g0 = self@;
        let a = self.resolve_or_create_node(start);
        let ghost g1 = self@;
        let b = self.resolve_or_create_node(end);
        proof {
            lemma_snap(g0.nodes, start);
            lemma_snap(g0.nodes, end);
            if s is None {
                lemma_snap_push(g0.nodes, start, end);
                assert(g1.nodes == g0.nodes.push(start));
                assert(a == g0.nodes.len());
            } else {
                assert(g1.nodes == g0.nodes);
            }
            lemma_resolve_well_formed(g1, end);
            assert(a != b);
        }
        Some(self.add_beam(a, b))
    }

    /// Number of nodes.
    pub fn node_count(&self) -> (r: usize)
        ensures
            r == self@.nodes.len(),
    {
        self.nodes.len()
    }

    /// Number of beams.
    pub fn beam_count(&self) -> (r: usize)
        ensures
            r == self@.beams.len(),
    {
        self.beams.len()
    }

    /// Number of pivot records.
    pub fn pivot_count(&self) -> (r: usize)
        ensures
            r == self@.pivots.len(),
    {
        self.pivots.len()
    }

    /// Position of node `i`.
    pub fn node(&self, i: usize) -> (r: Point)
        requires
            i < self@.nodes.len(),
        ensures
            r == self@.nodes[i as int],
    {
        self.nodes[i]
    }

    /// Beam `i`.
    pub fn beam(&self, i: usize) -> (r: Beam)
        requires
            i < self@.beams.len(),
        ensures
            r == self@.beams[i as int],
    {
        self.beams[i]
    }

    /// Pivot record `i`.
    pub fn pivot(&self, i: usize) -> (r: &Joint)
        requires
            i < self@.pivots.len(),
        ensures
            r@ == self@.pivots[i as int],
    {
        &self.pivots[i]
    }
}

} // verus!
