//! Cubes, the ports that emit and consume them, and the check that every
//! output is fed by an input of its colour.

use vstd::prelude::*;
use vstd::relations::injective_on;
use vstd::set_lib::{lemma_int_range, lemma_len_subset, lemma_map_size, set_int_range};
use crate::geometry::Rotation;
use crate::world::{Point, WorldPos};

verus! {

/// Squared distance, in world units, below which the exit of one router and
/// the entry of the next count as joined: a tenth of a cell squared.
pub const JOIN_LIMIT_SQ: u64 = 100_000;

/// Squared distance, in world units, below which a loose cube is picked up by
/// the entry of a router: a hundredth of a cell squared.
pub const PICKUP_LIMIT_SQ: u64 = 10_000;

/// The colour of a cube and of the ports that emit or accept it.
#[derive(Clone, Copy, Debug, PartialEq, Eq, Structural)]
pub enum CubeColor {
    Green,
    Purple,
    Yellow,
    Black,
}

impl CubeColor {
    /// The asset that shows a cube of this colour.
    pub fn cube_path(&self) -> (path: &'static str)
        ensures
            path@ == match *self {
                CubeColor::Green => "models/cubeG.glb#Scene0"@,
                CubeColor::Purple => "models/cubeP.glb#Scene0"@,
                CubeColor::Yellow => "models/cubeY.glb#Scene0"@,
                CubeColor::Black => "models/cubeB.glb#Scene0"@,
            },
    {
        match self {
            CubeColor::Green => "models/cubeG.glb#Scene0",
            CubeColor::Purple => "models/cubeP.glb#Scene0",
            CubeColor::Yellow => "models/cubeY.glb#Scene0",
            CubeColor::Black => "models/cubeB.glb#Scene0",
        }
    }

    /// The asset that shows an input or output of this colour.
    pub fn io_path(&self) -> (path: &'static str)
        ensures
            path@ == match *self {
                CubeColor::Green => "models/inoutG.glb#Scene0"@,
                CubeColor::Purple => "models/inoutP.glb#Scene0"@,
                CubeColor::Yellow => "models/inoutY.glb#Scene0"@,
                CubeColor::Black => "models/inoutB.glb#Scene0"@,
            },
    {
        match self {
            CubeColor::Green => "models/inoutG.glb#Scene0",
            CubeColor::Purple => "models/inoutP.glb#Scene0",
            CubeColor::Yellow => "models/inoutY.glb#Scene0",
            CubeColor::Black => "models/inoutB.glb#Scene0",
        }
    }
}

/// A cube travelling through the level.
#[derive(Clone, Copy, Debug, PartialEq, Eq, Structural)]
pub struct Cube(pub CubeColor);

/// An output: it accepts cubes of one colour and counts them.
#[derive(Clone, Copy, Debug, PartialEq, Eq, Structural)]
pub struct CubeProcessor {
    /// How many cubes of the right colour have arrived.
    pub count: usize,
    /// The colour the output accepts.
    pub color: CubeColor,
}

impl CubeProcessor {
    /// An output for `color` that has not received anything yet.
    pub fn new(color: CubeColor) -> (p: Self)
        ensures
            p.count == 0,
            p.color == color,
    {
        CubeProcessor { count: 0, color }
    }

    /// Takes in `cube`. A cube of the output's colour is counted and `true`
    /// is returned; any other cube is discarded and `false` is returned.
    pub fn receive(&mut self, cube: Cube) -> (accepted: bool)
        requires
            old(self).count < usize::MAX,
        ensures
            accepted == (cube.0 == old(self).color),
            final(self).color == old(self).color,
            final(self).count == if accepted {
                old(self).count + 1
            } else {
                old(self).count as int
            },
    {
        if cube.0 == self.color {
            self.count += 1;
            true
        } else {
            false
        }
    }
}

/// An input: it emits a cube of its colour at regular intervals.
#[derive(Clone, Copy, Debug, PartialEq, Eq, Structural)]
pub struct CubeSpawner {
    /// Where a new cube appears, relative to the input.
    pub pos: WorldPos,
    /// Milliseconds between two cubes.
    pub delay: u64,
    /// The time, in milliseconds, after which the next cube is due.
    pub next: u64,
    /// The colour of the cubes.
    pub color: CubeColor,
}

impl CubeSpawner {
    /// An input that emits its first cube as soon as time has passed.
    pub fn new(pos: WorldPos, delay: u64, color: CubeColor) -> (s: Self)
        ensures
            s.pos == pos,
            s.delay == delay,
            s.next == 0,
            s.color == color,
    {
        CubeSpawner { pos, delay, next: 0, color }
    }

    /// Advances the input to the time `now`, in milliseconds. If a cube is
    /// due, that is if `now` is past `next`, the cube is returned and the next
    /// one becomes due `delay` after `now`.
    pub fn tick(&mut self, now: u64) -> (cube: Option<Cube>)
        requires
            now + old(self).delay <= u64::MAX,
        ensures
            cube == if old(self).next < now {
                Some(Cube(old(self).color))
            } else {
                None
            },
            final(self).pos == old(self).pos,
            final(self).delay == old(self).delay,
            final(self).color == old(self).color,
            final(self).next == if old(self).next < now {
                now + old(self).delay
            } else {
                old(self).next as int
            },
    {
        if self.next < now {
            self.next = now + self.delay;
            Some(Cube(self.color))
        } else {
            None
        }
    }
}

/// The path of a cube through a piece or a port: its first point is the
/// entry, its last the exit, and those between are the corners of the path.
#[derive(Debug)]
pub struct CubeRouter(pub Vec<WorldPos>);

impl CubeRouter {
    /// The path has an entry and an exit.
    pub open spec fn wf(&self) -> bool {
        self.0@.len() >= 2
    }

    /// Where cubes enter.
    pub open spec fn entry_point(&self) -> Point {
        self.0@[0]@
    }

    /// Where cubes leave.
    pub open spec fn exit_point(&self) -> Point {
        self.0@[self.0@.len() - 1]@
    }

    /// The path in world space, given the path relative to a piece that
    /// stands at `origin` turned by `rotation`.
    pub open spec fn placed_spec(&self, origin: Point, rotation: Rotation) -> Seq<Point> {
        Seq::new(self.0@.len(), |i: int| origin.plus(self.0@[i]@.rotated(rotation)))
    }

    /// Where cubes enter.
    pub fn entry(&self) -> (p: WorldPos)
        requires
            self.wf(),
        ensures
            p@ == self.entry_point(),
    {
        self.0[0]
    }

    /// Where cubes leave.
    pub fn exit(&self) -> (p: WorldPos)
        requires
            self.wf(),
        ensures
            p@ == self.exit_point(),
    {
        self.0[self.0.len() - 1]
    }

    /// Every point of the path, placed at `origin` turned by `rotation`, fits
    /// the machine coordinates.
    pub open spec fn can_place(&self, origin: Point, rotation: Rotation) -> bool {
        forall|i: int|
            0 <= i < self.0@.len() ==> (#[trigger] self.placed_spec(origin, rotation)[i]).fits()
    }

    /// The path in world space of a piece that stands at `origin` turned by
    /// `rotation`, where `self` is its path relative to the piece; `None` if a
    /// point of it does not fit the machine coordinates.
    pub fn placed(&self, origin: WorldPos, rotation: Rotation) -> (out: Option<CubeRouter>)
        ensures
            out is Some <==> self.can_place(origin@, rotation),
            out matches Some(world) ==> {
                &&& world.0@.len() == self.0@.len()
                &&& forall|i: int|
                    0 <= i < self.0@.len() ==> (#[trigger] world.0@[i])@ == self.placed_spec(
                        origin@,
                        rotation,
                    )[i]
            },
    {
        let mut path: Vec<WorldPos> = Vec::new();
        let mut i: usize = 0;
        while i < self.0.len()
            invariant
                i <= self.0@.len(),
                path@.len() == i,
                forall|k: int|
                    0 <= k < i ==> (#[trigger] self.placed_spec(origin@, rotation)[k]).fits(),
                forall|k: int|
                    0 <= k < i ==> (#[trigger] path@[k])@ == self.placed_spec(origin@, rotation)[k],
            decreases self.0@.len() - i,
        {
            match self.0[i].placed(origin, rotation) {
                Some(world) => {
                    path.push(world);
                },
                None => {
                    assert(!self.placed_spec(origin@, rotation)[i as int].fits());
                    return None;
                },
            }
            i += 1;
        }
        Some(CubeRouter(path))
    }
}

/// A router as the connectivity check sees it: the two ends of its path in
/// world space, and the colour it emits if it is the router of an input.
#[derive(Clone, Copy, Debug, PartialEq, Eq, Structural)]
pub struct Segment {
    /// Where cubes enter the router.
    pub entry: WorldPos,
    /// Where cubes leave the router.
    pub exit: WorldPos,
    /// The colour of the input that the router belongs to, if it does.
    pub emits: Option<CubeColor>,
}

/// An output as the connectivity check sees it.
#[derive(Clone, Copy, Debug, PartialEq, Eq, Structural)]
pub struct Sink {
    /// Where cubes enter the output, in world space.
    pub entry: WorldPos,
    /// The output itself.
    pub processor: CubeProcessor,
}

impl Segment {
    /// The segment of a router whose path `router` is given in world space;
    /// `emits` is the colour of its input, if it is the router of one.
    pub fn new(router: &CubeRouter, emits: Option<CubeColor>) -> (s: Self)
        requires
            router.wf(),
        ensures
            s.entry@ == router.entry_point(),
            s.exit@ == router.exit_point(),
            s.emits == emits,
    {
        Segment { entry: router.entry(), exit: router.exit(), emits }
    }
}

impl Segment {
    /// The segment of a router that stands at `origin` turned by `rotation`,
    /// where `router` is its path relative to that place; `None` if an end of
    /// the path does not fit the machine coordinates.
    pub fn at(router: &CubeRouter, origin: WorldPos, rotation: Rotation, emits: Option<
        CubeColor,
    >) -> (out: Option<Segment>)
        requires
            router.wf(),
        ensures
            out is Some <==> origin@.plus(router.entry_point().rotated(rotation)).fits()
                && origin@.plus(router.exit_point().rotated(rotation)).fits(),
            out matches Some(s) ==> {
                &&& s.entry@ == origin@.plus(router.entry_point().rotated(rotation))
                &&& s.exit@ == origin@.plus(router.exit_point().rotated(rotation))
                &&& s.emits == emits
            },
    {
        match (router.entry().placed(origin, rotation), router.exit().placed(origin, rotation)) {
            (Some(entry), Some(exit)) => Some(Segment { entry, exit, emits }),
            _ => None,
        }
    }
}

impl Sink {
    /// The sink of an output that stands at `origin` turned by `rotation`,
    /// where `router` is its path relative to that place; `None` if the entry
    /// of the path does not fit the machine coordinates.
    pub fn at(router: &CubeRouter, origin: WorldPos, rotation: Rotation, processor: CubeProcessor) -> (out:
        Option<Sink>)
        requires
            router.wf(),
        ensures
            out is Some <==> origin@.plus(router.entry_point().rotated(rotation)).fits(),
            out matches Some(s) ==> {
                &&& s.entry@ == origin@.plus(router.entry_point().rotated(rotation))
                &&& s.processor == processor
            },
    {
        match router.entry().placed(origin, rotation) {
            Some(entry) => Some(Sink { entry, processor }),
            None => None,
        }
    }
}

impl Sink {
    /// The sink of an output whose path `router` is given in world space.
    pub fn new(router: &CubeRouter, processor: CubeProcessor) -> (s: Self)
        requires
            router.wf(),
        ensures
            s.entry@ == router.entry_point(),
            s.processor == processor,
    {
        Sink { entry: router.entry(), processor }
    }
}

/// Two ends of paths are close enough for a cube to pass from one to the
/// other.
pub open spec fn joins(a: Point, b: Point) -> bool {
    a.distance_squared(b) < JOIN_LIMIT_SQ
}

/// The first router at or after index `from` whose exit joins `at`.
pub open spec fn feeder_from(routers: Seq<Segment>, at: Point, from: int) -> Option<int>
    decreases routers.len() - from,
{
    if from < 0 || from >= routers.len() {
        None
    } else if joins(routers[from].exit@, at) {
        Some(from)
    } else {
        feeder_from(routers, at, from + 1)
    }
}

/// The router that feeds the point `at`: the first whose exit joins it.
pub open spec fn feeder(routers: Seq<Segment>, at: Point) -> Option<int> {
    feeder_from(routers, at, 0)
}

/// The first router at or after index `from` whose entry is close enough to
/// `at` to pick up a cube there.
pub open spec fn taker_from(routers: Seq<Segment>, at: Point, from: int) -> Option<int>
    decreases routers.len() - from,
{
    if from < 0 || from >= routers.len() {
        None
    } else if routers[from].entry@.distance_squared(at) < PICKUP_LIMIT_SQ {
        Some(from)
    } else {
        taker_from(routers, at, from + 1)
    }
}

/// Whether the trace from `at` back through the routers reaches an input of
/// `color` within `hops` routers.
///
/// The router that feeds `at` is looked up. If there is none, the path is
/// broken. If it is the router of an input of `color`, the trace has arrived.
/// Otherwise the trace goes on from the entry of that router.
pub open spec fn traced(routers: Seq<Segment>, color: CubeColor, at: Point, hops: nat) -> bool
    decreases hops,
{
    if hops == 0 {
        false
    } else {
        match feeder(routers, at) {
            None => false,
            Some(i) => routers[i].emits == Some(color) || traced(
                routers,
                color,
                routers[i].entry@,
                (hops - 1) as nat,
            ),
        }
    }
}

/// Whether the point `at` is fed, through a chain of routers, by an input of
/// `color`.
pub open spec fn connected(routers: Seq<Segment>, color: CubeColor, at: Point) -> bool {
    exists|hops: nat| traced(routers, color, at, hops)
}

/// Whether the level is solved: every output has received a cube, and every
/// output is fed by an input of its colour.
pub open spec fn solved(routers: Seq<Segment>, sinks: Seq<Sink>) -> bool {
    &&& forall|j: int| 0 <= j < sinks.len() ==> (#[trigger] sinks[j]).processor.count > 0
    &&& forall|j: int|
        0 <= j < sinks.len() ==> connected(
            routers,
            (#[trigger] sinks[j]).processor.color,
            sinks[j].entry@,
        )
}

proof fn lemma_feeder_from(routers: Seq<Segment>, at: Point, from: int)
    requires
        0 <= from,
    ensures
        match feeder_from(routers, at, from) {
            Some(i) => from <= i < routers.len() && joins(routers[i].exit@, at),
            None => forall|k: int| from <= k < routers.len() ==> !joins(#[trigger] routers[k].exit@, at),
        },
    decreases routers.len() - from,
{
    if from < routers.len() && !joins(routers[from].exit@, at) {
        lemma_feeder_from(routers, at, from + 1);
    }
}

/// A trace that arrives within some number of hops arrives within any larger
/// number.
proof fn lemma_traced_monotone(
    routers: Seq<Segment>,
    color: CubeColor,
    at: Point,
    hops: nat,
    more: nat,
)
    requires
        traced(routers, color, at, hops),
        hops <= more,
    ensures
        traced(routers, color, at, more),
    decreases hops,
{
    let i = feeder(routers, at)->0;
    if routers[i].emits != Some(color) {
        lemma_traced_monotone(
            routers,
            color,
            routers[i].entry@,
            (hops - 1) as nat,
            (more - 1) as nat,
        );
    }
}

/// The trace from `at` arrives within `hops` routers and within no fewer.
spec fn exact(routers: Seq<Segment>, color: CubeColor, at: Point, hops: nat) -> bool {
    traced(routers, color, at, hops) && (hops == 0 || !traced(
        routers,
        color,
        at,
        (hops - 1) as nat,
    ))
}

proof fn lemma_exact_exists(routers: Seq<Segment>, color: CubeColor, at: Point, hops: nat) -> (least:
    nat)
    requires
        traced(routers, color, at, hops),
    ensures
        1 <= least <= hops,
        exact(routers, color, at, least),
    decreases hops,
{
    if traced(routers, color, at, (hops - 1) as nat) {
        lemma_exact_exists(routers, color, at, (hops - 1) as nat)
    } else {
        hops
    }
}

proof fn lemma_exact_unique(routers: Seq<Segment>, color: CubeColor, at: Point, a: nat, b: nat)
    requires
        exact(routers, color, at, a),
        exact(routers, color, at, b),
    ensures
        a == b,
{
    if a < b {
        lemma_traced_monotone(routers, color, at, a, (b - 1) as nat);
    } else if b < a {
        lemma_traced_monotone(routers, color, at, b, (a - 1) as nat);
    }
}

/// The router that a trace of exactly `hops` routers from `at` passes when
/// `left` routers are still to come, itself included.
spec fn passed(routers: Seq<Segment>, at: Point, hops: nat, left: nat) -> int
    decreases hops,
{
    let i = feeder(routers, at)->0;
    if hops == 0 || left >= hops {
        i
    } else {
        passed(routers, routers[i].entry@, (hops - 1) as nat, left)
    }
}

proof fn lemma_passed(
    routers: Seq<Segment>,
    color: CubeColor,
    at: Point,
    hops: nat,
    left: nat,
)
    requires
        exact(routers, color, at, hops),
        1 <= left <= hops,
    ensures
        0 <= passed(routers, at, hops, left) < routers.len(),
        left == 1 ==> routers[passed(routers, at, hops, left)].emits == Some(color),
        left >= 2 ==> routers[passed(routers, at, hops, left)].emits != Some(color) && exact(
            routers,
            color,
            routers[passed(routers, at, hops, left)].entry@,
            (left - 1) as nat,
        ),
    decreases hops,
{
    lemma_feeder_from(routers, at, 0);
    let i = feeder(routers, at)->0;
    if hops >= 2 {
        if routers[i].emits == Some(color) {
            assert(traced(routers, color, at, 1));
            lemma_traced_monotone(routers, color, at, 1, (hops - 1) as nat);
        }
        assert(traced(routers, color, routers[i].entry@, (hops - 1) as nat));
        assert(!traced(routers, color, routers[i].entry@, (hops - 2) as nat));
        if left < hops {
            lemma_passed(routers, color, routers[i].entry@, (hops - 1) as nat, left);
        }
    } else {
        assert(!traced(routers, color, routers[i].entry@, 0));
    }
}

/// A trace that arrives at all arrives within as many hops as there are
/// routers: it passes no router twice, since one that comes round to a router
/// again goes round for ever.
pub proof fn lemma_trace_is_bounded(
    routers: Seq<Segment>,
    color: CubeColor,
    at: Point,
    hops: nat,
)
    requires
        traced(routers, color, at, hops),
    ensures
        traced(routers, color, at, routers.len()),
{
    let least = lemma_exact_exists(routers, color, at, hops);
    let steps = set_int_range(1, least as int + 1);
    let router_of = |left: int| passed(routers, at, least, left as nat);
    assert forall|a: int, b: int|
        steps.contains(a) && steps.contains(b) && #[trigger] router_of(a) == #[trigger] router_of(
            b,
        ) implies a == b by {
        lemma_passed(routers, color, at, least, a as nat);
        lemma_passed(routers, color, at, least, b as nat);
        if a >= 2 && b >= 2 {
            lemma_exact_unique(
                routers,
                color,
                routers[router_of(a)].entry@,
                (a - 1) as nat,
                (b - 1) as nat,
            );
        }
    }
    assert(injective_on(router_of, steps));
    lemma_int_range(1, least as int + 1);
    let visited = steps.map(router_of);
    lemma_map_size(steps, visited, router_of);
    let all = set_int_range(0, routers.len() as int);
    lemma_int_range(0, routers.len() as int);
    assert forall|i: int| visited.contains(i) implies all.contains(i) by {
        let left = choose|left: int| steps.contains(left) && router_of(left) == i;
        lemma_passed(routers, color, at, least, left as nat);
    }
    lemma_len_subset(visited, all);
    lemma_traced_monotone(routers, color, at, least, routers.len());
}

proof fn lemma_not_connected(routers: Seq<Segment>, color: CubeColor, at: Point)
    requires
        !traced(routers, color, at, routers.len()),
    ensures
        !connected(routers, color, at),
{
    if connected(routers, color, at) {
        let hops = choose|hops: nat| traced(routers, color, at, hops);
        lemma_trace_is_bounded(routers, color, at, hops);
    }
}

/// The router that feeds `at`: the index of the first whose exit joins it.
pub fn find_feeder(routers: &Vec<Segment>, at: WorldPos) -> (found: Option<usize>)
    ensures
        match found {
            Some(i) => feeder(routers@, at@) == Some(i as int) && i < routers@.len(),
            None => feeder(routers@, at@) is None,
        },
{
    let mut i: usize = 0;
    while i < routers.len()
        invariant
            i <= routers@.len(),
            feeder(routers@, at@) == feeder_from(routers@, at@, i as int),
        decreases routers@.len() - i,
    {
        if routers[i].exit.within(&at, JOIN_LIMIT_SQ) {
            return Some(i);
        }
        i += 1;
    }
    None
}

/// The router that takes up a loose cube at `at`: the index of the first
/// whose entry lies close enough, `None` if the cube is lost.
pub fn route_cube(routers: &Vec<Segment>, at: WorldPos) -> (found: Option<usize>)
    ensures
        match found {
            Some(i) => taker_from(routers@, at@, 0) == Some(i as int) && i < routers@.len(),
            None => taker_from(routers@, at@, 0) is None,
        },
{
    let mut i: usize = 0;
    while i < routers.len()
        invariant
            i <= routers@.len(),
            taker_from(routers@, at@, 0) == taker_from(routers@, at@, i as int),
        decreases routers@.len() - i,
    {
        if routers[i].entry.within(&at, PICKUP_LIMIT_SQ) {
            return Some(i);
        }
        i += 1;
    }
    None
}

/// Whether the point `at` is fed, through a chain of routers, by an input of
/// `color`. A chain that leads round in a circle feeds nothing.
pub fn trace(routers: &Vec<Segment>, color: CubeColor, at: WorldPos) -> (ok: bool)
    ensures
        ok == connected(routers@, color, at@),
{
    let mut pos = at;
    let mut hops: usize = routers.len();
    while hops > 0
        invariant
            hops <= routers@.len(),
            traced(routers@, color, at@, routers@.len() as nat) == traced(
                routers@,
                color,
                pos@,
                hops as nat,
            ),
        decreases hops,
    {
        match find_feeder(routers, pos) {
            None => {
                proof {
                    lemma_not_connected(routers@, color, at@);
                }
                return false;
            },
            Some(i) => {
                let router = routers[i];
                if router.emits == Some(color) {
                    assert(traced(routers@, color, at@, routers@.len() as nat));
                    return true;
                }
                pos = router.entry;
                hops -= 1;
            },
        }
    }
    proof {
        lemma_not_connected(routers@, color, at@);
    }
    false
}

/// Whether the level is solved: every output has received at least one cube
/// of its colour, and every output is fed by an input of its colour.
pub fn check_connection(routers: &Vec<Segment>, sinks: &Vec<Sink>) -> (victory: bool)
    ensures
        victory == solved(routers@, sinks@),
{
    let mut j: usize = 0;
    while j < sinks.len()
        invariant
            j <= sinks@.len(),
            forall|k: int| 0 <= k < j ==> (#[trigger] sinks@[k]).processor.count > 0,
        decreases sinks@.len() - j,
    {
        if sinks[j].processor.count == 0 {
            return false;
        }
        j += 1;
    }
    let mut j: usize = 0;
    while j < sinks.len()
        invariant
            j <= sinks@.len(),
            forall|k: int| 0 <= k < sinks@.len() ==> (#[trigger] sinks@[k]).processor.count > 0,
            forall|k: int|
                0 <= k < j ==> connected(
                    routers@,
                    (#[trigger] sinks@[k]).processor.color,
                    sinks@[k].entry@,
                ),
        decreases sinks@.len() - j,
    {
        if !trace(routers, sinks[j].processor.color, sinks[j].entry) {
            return false;
        }
        j += 1;
    }
    true
}

} // verus!
