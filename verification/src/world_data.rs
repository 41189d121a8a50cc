//! Immutable reference data: airports with runways, waypoints, aircraft
//! models and scheduled flights, shared read-only by the whole simulation.

use std::collections::VecDeque;

use vstd::prelude::*;

use crate::num::{abs_i, sqrt_floor, tdiv, tdiv128};
use crate::pos::{dist2, Pos2, Pos2Angle, Pos3, COORD_LIMIT};
use crate::ray::Ray;

verus! {

/// Velocities stay within this many micro-units per second.
pub const VEL_LIMIT: i64 = 1_000_000_000_000;

/// Accelerations stay within this many micro-units per second squared.
pub const ACC_LIMIT: i64 = 1_000_000_000;

/// Turning radii stay within this many micro-units.
pub const RADIUS_LIMIT: i64 = 1_000_000_000_000;

/// Per-model performance limits: maximum velocity and acceleration for the
/// horizontal (`x`) and vertical (`y`) axes, and the minimum turning radius.
#[derive(Clone, Copy, Debug, PartialEq, Eq, Structural)]
pub struct ModelMotion {
    pub max_v: Pos2,
    pub max_a: Pos2,
    pub turning_radius: i64,
}

impl ModelMotion {
    /// Positive, bounded performance limits.
    pub open spec fn wf(self) -> bool {
        &&& 0 < self.max_v.x <= VEL_LIMIT
        &&& 0 < self.max_v.y <= VEL_LIMIT
        &&& 0 < self.max_a.x <= ACC_LIMIT
        &&& 0 < self.max_a.y <= ACC_LIMIT
        &&& 0 < self.turning_radius <= RADIUS_LIMIT
    }
}

/// A runway: a directed ground segment at a fixed altitude.
#[derive(Clone, Debug)]
pub struct Runway {
    pub name: String,
    pub start: Pos2,
    pub end: Pos2,
    pub altitude: i64,
    pub class: String,
}

impl Runway {
    /// Distinct endpoints within the world, altitude within the world.
    pub open spec fn wf(self) -> bool {
        &&& self.start.in_world()
        &&& self.end.in_world()
        &&& self.start != self.end
        &&& abs_i(self.altitude as int) <= COORD_LIMIT
    }

    /// Runway length, rounded down.
    pub fn len(&self) -> (r: i64)
        requires
            self.wf(),
        ensures
            r == sqrt_floor(dist2(self.start, self.end)),
            crate::num::is_sqrt_floor(dist2(self.start, self.end), r as int),
            r >= 1,
    {
        proof {
            assert(dist2(self.start, self.end) >= 1) by (nonlinear_arith)
                requires
                    self.start != self.end,
            ;
            assert(1 * 1 <= 1int);
        }
        self.start.distance(self.end)
    }

    /// The start point lifted to the runway altitude.
    pub fn start3(&self) -> (r: Pos3)
        ensures
            r == (Pos3 { x: self.start.x, y: self.start.y, z: self.altitude }),
    {
        self.start.extend(self.altitude)
    }

    /// The end point lifted to the runway altitude.
    pub fn end3(&self) -> (r: Pos3)
        ensures
            r == (Pos3 { x: self.end.x, y: self.end.y, z: self.altitude }),
    {
        self.end.extend(self.altitude)
    }

    /// The runway as a ray from start toward end.
    pub fn ray(&self) -> (r: Ray<Pos2>)
        requires
            self.wf(),
        ensures
            r.tail == self.start,
            r.vec == self.end.sub_v(self.start),
    {
        Ray::new(self.start, self.end)
    }
}

/// An airport: a code, a display name and at least one runway.
#[derive(Clone, Debug)]
pub struct AirportData {
    pub name: String,
    pub code: String,
    pub runways: Vec<Runway>,
}

/// Sum of all runway endpoints of a prefix of the runway list.
pub open spec fn endpoint_sum(s: Seq<Runway>, n: int) -> (int, int)
    decreases n,
{
    if n <= 0 {
        (0, 0)
    } else {
        let (px, py) = endpoint_sum(s, n - 1);
        (
            px + s[n - 1].start.x + s[n - 1].end.x,
            py + s[n - 1].start.y + s[n - 1].end.y,
        )
    }
}

impl AirportData {
    /// A valid airport has at least one runway and only valid runways.
    pub open spec fn wf(self) -> bool {
        &&& self.runways@.len() >= 1
        &&& forall|i: int| 0 <= i < self.runways@.len() ==> (#[trigger] self.runways@[i]).wf()
    }

    /// Mean of all runway endpoints: the reference point of the airport.
    pub fn centre(&self) -> (r: Pos2)
        requires
            self.wf(),
        ensures
            ({
                let (sx, sy) = endpoint_sum(self.runways@, self.runways@.len() as int);
                let n = 2 * self.runways@.len() as int;
                r.x == tdiv(sx, n) && r.y == tdiv(sy, n) && r.in_world()
            }),
    {
        let mut sx: i128 = 0;
        let mut sy: i128 = 0;
        let mut i: usize = 0;
        while i < self.runways.len()
            invariant
                0 <= i <= self.runways@.len(),
                self.wf(),
                (sx as int, sy as int) == endpoint_sum(self.runways@, i as int),
                abs_i(sx as int) <= 2 * (i as int) * COORD_LIMIT,
                abs_i(sy as int) <= 2 * (i as int) * COORD_LIMIT,
            decreases self.runways@.len() - i,
        {
            let rw = &self.runways[i];
            sx = sx + rw.start.x as i128 + rw.end.x as i128;
            sy = sy + rw.start.y as i128 + rw.end.y as i128;
            i = i + 1;
            proof {
                assert(2 * (i - 1) * COORD_LIMIT + 2 * COORD_LIMIT == 2 * (i as int)
                    * COORD_LIMIT) by (nonlinear_arith);
            }
        }
        let n: i128 = 2 * (self.runways.len() as i128);
        proof {
            assert(abs_i(sx as int) <= n * COORD_LIMIT && abs_i(sy as int) <= n * COORD_LIMIT)
                by (nonlinear_arith)
                requires
                    n == 2 * (i as int),
                    abs_i(sx as int) <= 2 * (i as int) * COORD_LIMIT,
                    abs_i(sy as int) <= 2 * (i as int) * COORD_LIMIT,
            ;
            crate::num::lemma_tdiv_abs(sx as int, n as int, COORD_LIMIT as int);
            crate::num::lemma_tdiv_abs(sy as int, n as int, COORD_LIMIT as int);
        }
        let cx = tdiv128(sx, n);
        let cy = tdiv128(sy, n);
        Pos2 { x: cx as i64, y: cy as i64 }
    }
}

/// A scheduled connection between two airports, with the models that fly it.
#[derive(Clone, Debug)]
pub struct Flight {
    pub airline: String,
    pub code: String,
    pub from: String,
    pub to: String,
    pub plane: Vec<String>,
}

/// An aircraft model with its performance limits.
#[derive(Clone, Debug)]
pub struct PlaneData {
    pub id: String,
    pub name: String,
    pub manufacturer: String,
    pub class: String,
    pub motion: ModelMotion,
}

/// A named point of the route graph, with its undirected connections.
#[derive(Clone, Debug)]
pub struct Waypoint {
    pub name: String,
    pub pos: Pos2,
    pub connections: Vec<String>,
}

impl Waypoint {
    pub open spec fn wf(self) -> bool {
        self.pos.in_world()
    }
}

/// No airport in the sequence carries the given code.
pub open spec fn no_airport(s: Seq<AirportData>, code: Seq<char>) -> bool {
    forall|i: int| 0 <= i < s.len() ==> (#[trigger] s[i]).code@ != code
}

/// `i` is the position of the first airport carrying the code.
pub open spec fn is_first_airport(s: Seq<AirportData>, code: Seq<char>, i: int) -> bool {
    &&& 0 <= i < s.len()
    &&& s[i].code@ == code
    &&& forall|j: int| 0 <= j < i ==> (#[trigger] s[j]).code@ != code
}

/// The reference point a flight aims for: the mean runway endpoint of the
/// first airport carrying the destination code, or the origin of the world
/// when the code is unknown.
pub open spec fn dest_centre(wd: WorldData, code: Seq<char>) -> Pos2 {
    if exists|i: int| is_first_airport(wd.airports@, code, i) {
        let i = choose|i: int| is_first_airport(wd.airports@, code, i);
        let a = wd.airports@[i];
        let (sx, sy) = endpoint_sum(a.runways@, a.runways@.len() as int);
        let n = 2 * a.runways@.len() as int;
        Pos2 { x: tdiv(sx, n) as i64, y: tdiv(sy, n) as i64 }
    } else {
        Pos2 { x: 0, y: 0 }
    }
}

/// No waypoint in the sequence carries the given name.
pub open spec fn no_waypoint(s: Seq<Waypoint>, name: Seq<char>) -> bool {
    forall|i: int| 0 <= i < s.len() ==> (#[trigger] s[i]).name@ != name
}

/// The sequence holds a string with the given characters.
pub open spec fn contains_str(s: Seq<String>, x: Seq<char>) -> bool {
    exists|i: int| 0 <= i < s.len() && (#[trigger] s[i])@ == x
}

/// `p` is the first position of `x` in the sequence.
pub open spec fn is_first_at(s: Seq<String>, x: Seq<char>, p: int) -> bool {
    &&& 0 <= p < s.len()
    &&& s[p]@ == x
    &&& forall|j: int| 0 <= j < p ==> (#[trigger] s[j])@ != x
}

/// How one runway class ranks against another in a class list.
#[derive(Clone, Copy, Debug, PartialEq, Eq, Structural)]
pub enum ClassCmp {
    Before,
    Same,
    After,
}

/// The immutable world snapshot shared across the whole simulation.
#[derive(Clone, Debug)]
pub struct WorldData {
    pub classes: Vec<Vec<String>>,
    pub airports: Vec<AirportData>,
    pub flights: Option<Vec<Flight>>,
    pub planes: Vec<PlaneData>,
    pub waypoints: Vec<Waypoint>,
}

impl WorldData {
    /// Validated world data: every airport, waypoint and model is valid.
    pub open spec fn wf(self) -> bool {
        &&& forall|i: int|
            0 <= i < self.airports@.len() ==> (#[trigger] self.airports@[i]).wf()
        &&& forall|i: int|
            0 <= i < self.waypoints@.len() ==> (#[trigger] self.waypoints@[i]).wf()
        &&& forall|i: int|
            0 <= i < self.planes@.len() ==> (#[trigger] self.planes@[i]).motion.wf()
    }

    /// An empty world.
    pub fn empty() -> (r: WorldData)
        ensures
            r.wf(),
            r.airports@.len() == 0,
            r.waypoints@.len() == 0,
            r.planes@.len() == 0,
            r.flights is None,
    {
        WorldData {
            classes: Vec::new(),
            airports: Vec::new(),
            flights: None,
            planes: Vec::new(),
            waypoints: Vec::new(),
        }
    }

    /// Looks up an airport by code; the first match wins.
    pub fn airport(&self, code: &String) -> (r: Option<&AirportData>)
        ensures
            match r {
                Some(a) => exists|i: int|
                    #[trigger] is_first_airport(self.airports@, code@, i) && *a
                        == self.airports@[i],
                None => no_airport(self.airports@, code@),
            },
    {
        let mut i: usize = 0;
        while i < self.airports.len()
            invariant
                0 <= i <= self.airports@.len(),
                forall|j: int| 0 <= j < i ==> (#[trigger] self.airports@[j]).code@ != code@,
            decreases self.airports@.len() - i,
        {
            if self.airports[i].code == *code {
                proof {
                    assert(is_first_airport(self.airports@, code@, i as int));
                }
                return Some(&self.airports[i]);
            }
            i = i + 1;
        }
        None
    }

    /// Looks up a waypoint by name; the first match wins.
    pub fn waypoint(&self, name: &String) -> (r: Option<&Waypoint>)
        ensures
            match r {
                Some(w) => exists|i: int|
                    0 <= i < self.waypoints@.len() && *w == self.waypoints@[i] && w.name@
                        == name@,
                None => no_waypoint(self.waypoints@, name@),
            },
    {
        let mut i: usize = 0;
        while i < self.waypoints.len()
            invariant
                0 <= i <= self.waypoints@.len(),
                forall|j: int| 0 <= j < i ==> (#[trigger] self.waypoints@[j]).name@ != name@,
            decreases self.waypoints@.len() - i,
        {
            if self.waypoints[i].name == *name {
                return Some(&self.waypoints[i]);
            }
            i = i + 1;
        }
        None
    }

    /// Ranks two runway classes by their positions within the first class
    /// list that names both; no such list means the classes are unrelated.
    pub fn cmp_class(&self, c1: &String, c2: &String) -> (r: Option<ClassCmp>)
        ensures
            r is Some <==> exists|li: int|
                0 <= li < self.classes@.len() && contains_str(#[trigger] self.classes@[li]@, c1@)
                    && contains_str(self.classes@[li]@, c2@),
            r matches Some(c) ==> exists|li: int|
                {
                    &&& 0 <= li < self.classes@.len()
                    &&& contains_str(#[trigger] self.classes@[li]@, c1@)
                    &&& contains_str(self.classes@[li]@, c2@)
                    &&& forall|mj: int|
                        0 <= mj < li ==> !(contains_str(#[trigger] self.classes@[mj]@, c1@)
                            && contains_str(self.classes@[mj]@, c2@))
                    &&& exists|p1: int, p2: int|
                        is_first_at(self.classes@[li]@, c1@, p1) && is_first_at(
                            self.classes@[li]@,
                            c2@,
                            p2,
                        ) && c == (if p1 < p2 {
                            ClassCmp::Before
                        } else if p1 == p2 {
                            ClassCmp::Same
                        } else {
                            ClassCmp::After
                        })
                },
    {
        let mut i: usize = 0;
        while i < self.classes.len()
            invariant
                0 <= i <= self.classes@.len(),
                forall|mj: int|
                    0 <= mj < i ==> !(contains_str(#[trigger] self.classes@[mj]@, c1@)
                        && contains_str(self.classes@[mj]@, c2@)),
            decreases self.classes@.len() - i,
        {
            let list = &self.classes[i];
            let p1 = find_string(list, c1);
            let p2 = find_string(list, c2);
            match (p1, p2) {
                (Some(a), Some(b)) => {
                    proof {
                        assert(is_first_at(self.classes@[i as int]@, c1@, a as int));
                        assert(is_first_at(self.classes@[i as int]@, c2@, b as int));
                        assert(contains_str(self.classes@[i as int]@, c1@)) by {
                            assert((self.classes@[i as int]@[a as int])@ == c1@);
                        }
                        assert(contains_str(self.classes@[i as int]@, c2@)) by {
                            assert((self.classes@[i as int]@[b as int])@ == c2@);
                        }
                    }
                    return Some(
                        if a < b {
                            ClassCmp::Before
                        } else if a == b {
                            ClassCmp::Same
                        } else {
                            ClassCmp::After
                        },
                    );
                },
                _ => {
                    proof {
                        if contains_str(self.classes@[i as int]@, c1@) && contains_str(
                            self.classes@[i as int]@,
                            c2@,
                        ) {
                            let w1 = choose|w: int|
                                0 <= w < self.classes@[i as int]@.len() && (
                                #[trigger] self.classes@[i as int]@[w])@ == c1@;
                            let w2 = choose|w: int|
                                0 <= w < self.classes@[i as int]@.len() && (
                                #[trigger] self.classes@[i as int]@[w])@ == c2@;
                            assert(false);
                        }
                    }
                },
            }
            i = i + 1;
        }
        None
    }
}

/// Index of the first occurrence of `needle` in `haystack`, if any.
pub fn find_string(haystack: &Vec<String>, needle: &String) -> (r: Option<usize>)
    ensures
        match r {
            Some(i) => i < haystack@.len() && haystack@[i as int]@ == needle@ && forall|j: int|
                0 <= j < i ==> (#[trigger] haystack@[j])@ != needle@,
            None => forall|j: int|
                0 <= j < haystack@.len() ==> (#[trigger] haystack@[j])@ != needle@,
        },
{
    let mut i: usize = 0;
    while i < haystack.len()
        invariant
            0 <= i <= haystack@.len(),
            forall|j: int| 0 <= j < i ==> (#[trigger] haystack@[j])@ != needle@,
        decreases haystack@.len() - i,
    {
        if haystack[i] == *needle {
            return Some(i);
        }
        i = i + 1;
    }
    None
}

/// Selection cost of a waypoint as route entry/exit: the distance to the
/// reference point, five times as much when the waypoint lies away from the
/// direction of travel.
pub open spec fn sel_cost(w: Waypoint, target: Pos2, toward: Pos2) -> int {
    let d = sqrt_floor(dist2(w.pos, target));
    if (w.pos.x - target.x) * (toward.x - target.x) + (w.pos.y - target.y) * (toward.y
        - target.y) > 0 {
        d
    } else {
        5 * d
    }
}

/// Two waypoints carry the same name, position and connections.
pub open spec fn wp_eq(a: Waypoint, b: Waypoint) -> bool {
    a.name == b.name && a.pos == b.pos && a.connections@ == b.connections@
}

/// Waypoint `a` lists `b` among its connections.
pub open spec fn waypoints_linked(a: Waypoint, b: Waypoint) -> bool {
    exists|k: int| 0 <= k < a.connections@.len() && (#[trigger] a.connections@[k])@ == b.name@
}

/// `idx` is the first waypoint of minimal selection cost.
pub open spec fn is_first_nearest(ws: Seq<Waypoint>, target: Pos2, toward: Pos2, idx: int) -> bool {
    &&& 0 <= idx < ws.len()
    &&& forall|j: int| 0 <= j < ws.len() ==> sel_cost(#[trigger] ws[j], target, toward) >= sel_cost(
        ws[idx],
        target,
        toward,
    )
    &&& forall|j: int| 0 <= j < idx ==> sel_cost(#[trigger] ws[j], target, toward) > sel_cost(
        ws[idx],
        target,
        toward,
    )
}

/// Consecutive route waypoints are graph-connected.
pub open spec fn route_linked(r: Seq<Waypoint>) -> bool {
    forall|i: int| 0 <= i < r.len() - 1 ==> waypoints_linked(#[trigger] r[i], r[i + 1])
}

impl WorldData {
    /// The first waypoint of minimal biased distance to `target`, when any
    /// waypoint exists.
    fn nearest_biased(&self, target: Pos2, toward: Pos2) -> (r: Option<usize>)
        requires
            self.wf(),
            target.in_world(),
            toward.in_world(),
        ensures
            match r {
                Some(i) => is_first_nearest(self.waypoints@, target, toward, i as int),
                None => self.waypoints@.len() == 0,
            },
    {
        if self.waypoints.len() == 0 {
            return None;
        }
        let mut best: usize = 0;
        let mut best_cost: i64 = self.waypoint_cost(0, target, toward);
        let mut i: usize = 1;
        while i < self.waypoints.len()
            invariant
                self.wf(),
                target.in_world(),
                toward.in_world(),
                0 < self.waypoints@.len(),
                0 <= best < i <= self.waypoints@.len(),
                best_cost == sel_cost(self.waypoints@[best as int], target, toward),
                forall|j: int|
                    0 <= j < i ==> sel_cost(#[trigger] self.waypoints@[j], target, toward)
                        >= best_cost,
                forall|j: int|
                    0 <= j < best ==> sel_cost(#[trigger] self.waypoints@[j], target, toward)
                        > best_cost,
            decreases self.waypoints@.len() - i,
        {
            let c = self.waypoint_cost(i, target, toward);
            if c < best_cost {
                best = i;
                best_cost = c;
            }
            i = i + 1;
        }
        Some(best)
    }

    /// Biased distance of one waypoint.
    fn waypoint_cost(&self, i: usize, target: Pos2, toward: Pos2) -> (r: i64)
        requires
            self.wf(),
            i < self.waypoints@.len(),
            target.in_world(),
            toward.in_world(),
        ensures
            r == sel_cost(self.waypoints@[i as int], target, toward),
            r >= 0,
    {
        let w = &self.waypoints[i];
        let d = w.pos.distance(target);
        let dv = w.pos.minus(target);
        let tv = toward.minus(target);
        let dp = dv.dot(tv);
        proof {
            assert(dist2(self.waypoints@[i as int].pos, target) <= 8 * ((COORD_LIMIT as int) * (
            COORD_LIMIT as int))) by (nonlinear_arith)
                requires
                    abs_i(self.waypoints@[i as int].pos.x as int) <= COORD_LIMIT,
                    abs_i(self.waypoints@[i as int].pos.y as int) <= COORD_LIMIT,
                    abs_i(target.x as int) <= COORD_LIMIT,
                    abs_i(target.y as int) <= COORD_LIMIT,
            ;
            assert(d <= 4_000_000_000_000_000int) by (nonlinear_arith)
                requires
                    (d as int) * (d as int) <= dist2(self.waypoints@[i as int].pos, target),
                    0 <= d,
                    dist2(self.waypoints@[i as int].pos, target) <= 8 * ((COORD_LIMIT as int) * (
                    COORD_LIMIT as int)),
            ;
        }
        if dp > 0 {
            d
        } else {
            5 * d
        }
    }

    /// Shortest-path route through the waypoint graph: enters at the biased
    /// nearest waypoint to `from`, leaves at the biased nearest to `to`, and
    /// connects them by lowest total distance; an unreachable exit yields an
    /// empty route.
    ///
    /// The contract pins the endpoints and the link-by-link connectedness of
    /// any returned route.  Two things it deliberately does not claim: that
    /// a route is found whenever one exists, and that its total length is
    /// minimal.  Distances here are floored integers, so the
    /// distance-to-goal estimate can overestimate an exact edge sum by a
    /// unit and the search may settle on a route a few micro-units longer
    /// than the best one; the search is best-first over those floored costs,
    /// not a proven-optimal one.
    #[verifier::loop_isolation(false)]
    pub fn find_waypoint_route(&self, from: Pos2Angle, to: Pos2) -> (r: VecDeque<Waypoint>)
        requires
            self.wf(),
            from.0.in_world(),
            to.in_world(),
        ensures
            crate::plane_pos::route_wf(r@),
            r@.len() == 0 || (route_linked(r@) && exists|e: int|
                is_first_nearest(self.waypoints@, to, from.0, e) && wp_eq(
                    r@[r@.len() - 1],
                    self.waypoints@[e],
                )),
            r@.len() == 0 || (exists|s: int|
                is_first_nearest(self.waypoints@, from.0, to, s) && wp_eq(
                    r@[0],
                    self.waypoints@[s],
                )),
    {
        let n = self.waypoints.len();
        let from_idx = match self.nearest_biased(from.0, to) {
            Some(i) => i,
            None => {
                return VecDeque::new();
            },
        };
        let to_idx = match self.nearest_biased(to, from.0) {
            Some(i) => i,
            None => {
                return VecDeque::new();
            },
        };
        let exit_pos = self.waypoints[to_idx].pos;
        let gmax: i128 = 1_000_000_000_000_000_000_000_000_000_000;
        let mut g: Vec<i128> = Vec::new();
        let mut f: Vec<i128> = Vec::new();
        let mut came_from: Vec<usize> = Vec::new();
        let mut in_open: Vec<bool> = Vec::new();
        let mut visited: Vec<bool> = Vec::new();
        let mut k: usize = 0;
        while k < n
            invariant
                g@.len() == k,
                f@.len() == k,
                came_from@.len() == k,
                in_open@.len() == k,
                visited@.len() == k,
                0 <= k <= n,
                forall|i: int| 0 <= i < k ==> !(#[trigger] in_open@[i]),
                forall|i: int| 0 <= i < k ==> !(#[trigger] visited@[i]),
                forall|i: int| 0 <= i < k ==> (#[trigger] came_from@[i]) as int == n,
                forall|i: int| 0 <= i < k ==> (#[trigger] g@[i]) == gmax,
                forall|i: int| 0 <= i < k ==> (#[trigger] f@[i]) == gmax,
            decreases n - k,
        {
            g.push(gmax);
            f.push(gmax);
            came_from.push(n);
            in_open.push(false);
            visited.push(false);
            k = k + 1;
        }
        g[from_idx] = 0;
        f[from_idx] = self.heuristic(from_idx, exit_pos) as i128;
        in_open[from_idx] = true;
        loop
            invariant
                g@.len() == n,
                f@.len() == n,
                came_from@.len() == n,
                in_open@.len() == n,
                visited@.len() == n,
                forall|i: int| 0 <= i < n ==> 0 <= (#[trigger] g@[i]) <= gmax,
                g@[from_idx as int] == 0,
                forall|i: int|
                    0 <= i < n && (#[trigger] came_from@[i]) as int != n ==> came_from@[i] < n
                        && waypoints_linked(
                        self.waypoints@[came_from@[i] as int],
                        self.waypoints@[i],
                    ),
                forall|i: int| 0 <= i < n ==> !((#[trigger] in_open@[i]) && visited@[i]),
                came_from@[from_idx as int] as int == n,
                forall|i: int|
                    0 <= i < n && (#[trigger] came_from@[i]) as int != n ==> (came_from@[i]
                        == from_idx || came_from@[came_from@[i] as int] as int != n),
                forall|i: int|
                    0 <= i < n && (#[trigger] in_open@[i]) ==> (i == from_idx || came_from@[i]
                        as int != n),
            decreases count_unvisited(visited@),
        {
            let mut cur: usize = n;
            let mut cur_f: i128 = 0;
            let mut i: usize = 0;
            while i < n
                invariant
                    0 <= i <= n,
                    cur as int == n || (cur < n && in_open@[cur as int]),
                decreases n - i,
            {
                if in_open[i] {
                    if cur == n || f[i] < cur_f {
                        cur = i;
                        cur_f = f[i];
                    }
                }
                i = i + 1;
            }
            if cur == n {
                return VecDeque::new();
            }
            if cur == to_idx {
                proof {
                    assert(is_first_nearest(self.waypoints@, to, from.0, to_idx as int));
                    assert(is_first_nearest(self.waypoints@, from.0, to, from_idx as int));
                    assert(cur == from_idx || came_from@[cur as int] as int != n);
                }
                return self.reconstruct(&came_from, to_idx, from_idx);
            }
            in_open[cur] = false;
            proof {
                lemma_count_unvisited_set(visited@, cur as int);
            }
            visited[cur] = true;
            let ghost pre_visited = visited@;
            let conns = self.waypoints[cur].connections.len();
            let mut ci: usize = 0;
            while ci < conns
                invariant
                    g@.len() == n,
                    f@.len() == n,
                    came_from@.len() == n,
                    in_open@.len() == n,
                    visited@.len() == n,
                    visited@ == pre_visited,
                    0 <= ci <= conns,
                    forall|i: int| 0 <= i < n ==> 0 <= (#[trigger] g@[i]) <= gmax,
                    g@[from_idx as int] == 0,
                    forall|i: int|
                        0 <= i < n && (#[trigger] came_from@[i]) as int != n ==> came_from@[i] < n
                            && waypoints_linked(
                            self.waypoints@[came_from@[i] as int],
                            self.waypoints@[i],
                        ),
                    forall|i: int| 0 <= i < n ==> !((#[trigger] in_open@[i]) && visited@[i]),
                    came_from@[from_idx as int] as int == n,
                    cur == from_idx || came_from@[cur as int] as int != n,
                    forall|i: int|
                        0 <= i < n && (#[trigger] came_from@[i]) as int != n ==> (came_from@[i]
                            == from_idx || came_from@[came_from@[i] as int] as int != n),
                    forall|i: int|
                        0 <= i < n && (#[trigger] in_open@[i]) ==> (i == from_idx || came_from@[i]
                            as int != n),
                decreases conns - ci,
            {
                let name = &self.waypoints[cur].connections[ci];
                match self.waypoint_index(name) {
                    Some(nb) => {
                        if !visited[nb] {
                            let step = self.edge_len(cur, nb);
                            let tent_raw: i128 = g[cur] + (step as i128);
                            let tent: i128 = if tent_raw > gmax {
                                gmax
                            } else {
                                tent_raw
                            };
                            if tent < g[nb] {
                                g[nb] = tent;
                                came_from[nb] = cur;
                                f[nb] = tent + (self.heuristic(nb, exit_pos) as i128);
                                in_open[nb] = true;
                                proof {
                                    assert(waypoints_linked(
                                        self.waypoints@[cur as int],
                                        self.waypoints@[nb as int],
                                    )) by {
                                        assert((self.waypoints@[cur as int].connections@[
                                            ci as int])@ == self.waypoints@[nb as int].name@);
                                    }
                                }
                            }
                        }
                    },
                    None => {},
                }
                ci = ci + 1;
            }
        }
    }

    /// Index of the waypoint carrying the given name, if any.
    fn waypoint_index(&self, name: &String) -> (r: Option<usize>)
        ensures
            match r {
                Some(i) => i < self.waypoints@.len() && self.waypoints@[i as int].name@ == name@,
                None => no_waypoint(self.waypoints@, name@),
            },
    {
        let mut i: usize = 0;
        while i < self.waypoints.len()
            invariant
                0 <= i <= self.waypoints@.len(),
                forall|j: int| 0 <= j < i ==> (#[trigger] self.waypoints@[j]).name@ != name@,
            decreases self.waypoints@.len() - i,
        {
            if self.waypoints[i].name == *name {
                return Some(i);
            }
            i = i + 1;
        }
        None
    }

    /// Euclidean distance between two waypoints of the graph.
    fn edge_len(&self, a: usize, b: usize) -> (r: i64)
        requires
            self.wf(),
            a < self.waypoints@.len(),
            b < self.waypoints@.len(),
        ensures
            r >= 0,
    {
        self.waypoints[a].pos.distance(self.waypoints[b].pos)
    }

    /// Euclidean distance from a waypoint to the exit position.
    fn heuristic(&self, i: usize, exit_pos: Pos2) -> (r: i64)
        requires
            self.wf(),
            i < self.waypoints@.len(),
            exit_pos.in_world(),
        ensures
            r >= 0,
    {
        self.waypoints[i].pos.distance(exit_pos)
    }

    /// Walks the predecessor chain back from the exit; gives up (with an
    /// empty route) if the chain would exceed the waypoint count.
    fn reconstruct(&self, came_from: &Vec<usize>, to_idx: usize, from_idx: usize) -> (r:
        VecDeque<Waypoint>)
        requires
            self.wf(),
            came_from@.len() == self.waypoints@.len(),
            to_idx < self.waypoints@.len(),
            from_idx < self.waypoints@.len(),
            forall|i: int|
                0 <= i < came_from@.len() && (#[trigger] came_from@[i]) as int
                    != came_from@.len() ==> came_from@[i] < came_from@.len() && waypoints_linked(
                    self.waypoints@[came_from@[i] as int],
                    self.waypoints@[i],
                ),
            forall|i: int|
                0 <= i < came_from@.len() && (#[trigger] came_from@[i]) as int
                    != came_from@.len() ==> (came_from@[i] == from_idx || came_from@[came_from@[i]
                    as int] as int != came_from@.len()),
            to_idx == from_idx || came_from@[to_idx as int] as int != came_from@.len(),
        ensures
            crate::plane_pos::route_wf(r@),
            r@.len() == 0 || (route_linked(r@) && wp_eq(r@[r@.len() - 1], self.waypoints@[
                to_idx as int])),
            r@.len() == 0 || wp_eq(r@[0], self.waypoints@[from_idx as int]),
    {
        let n = self.waypoints.len();
        let mut out: VecDeque<Waypoint> = VecDeque::new();
        let mut cur: usize = to_idx;
        out.push_front(self.waypoints[to_idx].clone_wp());
        let mut steps: usize = 0;
        while came_from[cur] != n && steps < n
            invariant
                self.wf(),
                n == self.waypoints@.len(),
                came_from@.len() == n,
                cur < n,
                0 <= steps <= n,
                out@.len() == steps + 1,
                wp_eq(out@[0], self.waypoints@[cur as int]),
                wp_eq(out@[out@.len() - 1], self.waypoints@[to_idx as int]),
                route_linked(out@),
                crate::plane_pos::route_wf(out@),
                forall|i: int|
                    0 <= i < n && (#[trigger] came_from@[i]) as int != n ==> came_from@[i] < n
                        && waypoints_linked(
                        self.waypoints@[came_from@[i] as int],
                        self.waypoints@[i],
                    ),
                forall|i: int|
                    0 <= i < n && (#[trigger] came_from@[i]) as int != n ==> (came_from@[i]
                        == from_idx || came_from@[came_from@[i] as int] as int != n),
                cur == from_idx || came_from@[cur as int] as int != n,
            decreases n - steps,
        {
            let ghost pre_out = out@;
            let prev = came_from[cur];
            out.push_front(self.waypoints[prev].clone_wp());
            proof {
                assert(route_linked(out@)) by {
                    assert(forall|i: int|
                        1 <= i < out@.len() ==> #[trigger] out@[i] == pre_out[i - 1]);
                    assert(wp_eq(out@[0], self.waypoints@[prev as int]));
                    assert(waypoints_linked(
                        self.waypoints@[prev as int],
                        self.waypoints@[cur as int],
                    ));
                    assert(waypoints_linked(out@[0], out@[1]));
                }
                assert(crate::plane_pos::route_wf(out@)) by {
                    assert(forall|i: int|
                        1 <= i < out@.len() ==> #[trigger] out@[i] == pre_out[i - 1]);
                }
            }
            cur = prev;
            steps = steps + 1;
        }
        if came_from[cur] != n {
            return VecDeque::new();
        }
        out
    }
}

impl Waypoint {
    /// A copy of the waypoint, equal in name, position and connections.
    pub fn clone_wp(&self) -> (r: Waypoint)
        ensures
            wp_eq(r, *self),
            r.wf() <==> self.wf(),
    {
        let mut conns: Vec<String> = Vec::new();
        let mut i: usize = 0;
        while i < self.connections.len()
            invariant
                0 <= i <= self.connections@.len(),
                conns@.len() == i,
                forall|j: int| 0 <= j < i ==> #[trigger] conns@[j] == self.connections@[j],
            decreases self.connections@.len() - i,
        {
            conns.push(self.connections[i].clone());
            i = i + 1;
        }
        proof {
            assert(conns@ =~= self.connections@);
        }
        Waypoint { name: self.name.clone(), pos: self.pos, connections: conns }
    }
}

/// A reference-data lookup that failed: the named entity is missing.
#[derive(Clone, Debug, PartialEq, Eq, Structural)]
pub enum WorldError {
    UnknownAirport,
    UnknownPlaneModel,
}

impl Flight {
    /// The origin airport of the flight, or an error when the world does
    /// not know its code.
    pub fn from<'a>(&self, wd: &'a WorldData) -> (r: Result<&'a AirportData, WorldError>)
        ensures
            match r {
                Ok(a) => exists|i: int|
                    0 <= i < wd.airports@.len() && *a == wd.airports@[i] && a.code@
                        == self.from@,
                Err(e) => e == WorldError::UnknownAirport && no_airport(
                    wd.airports@,
                    self.from@,
                ),
            },
    {
        match wd.airport(&self.from) {
            Some(a) => Ok(a),
            None => Err(WorldError::UnknownAirport),
        }
    }

    /// The destination airport of the flight, or an error when the world
    /// does not know its code.
    pub fn to<'a>(&self, wd: &'a WorldData) -> (r: Result<&'a AirportData, WorldError>)
        ensures
            match r {
                Ok(a) => exists|i: int|
                    0 <= i < wd.airports@.len() && *a == wd.airports@[i] && a.code@ == self.to@,
                Err(e) => e == WorldError::UnknownAirport && no_airport(wd.airports@, self.to@),
            },
    {
        match wd.airport(&self.to) {
            Some(a) => Ok(a),
            None => Err(WorldError::UnknownAirport),
        }
    }

    /// The models allowed on the flight, in order, or an error as soon as
    /// one is unknown to the world.
    pub fn plane<'a>(&self, wd: &'a WorldData) -> (r: Result<Vec<&'a PlaneData>, WorldError>)
        ensures
            match r {
                Ok(ms) => ms@.len() == self.plane@.len() && forall|i: int|
                    0 <= i < ms@.len() ==> (#[trigger] ms@[i]).id@ == self.plane@[i]@,
                Err(e) => e == WorldError::UnknownPlaneModel,
            },
    {
        let mut out: Vec<&PlaneData> = Vec::new();
        let mut i: usize = 0;
        while i < self.plane.len()
            invariant
                0 <= i <= self.plane@.len(),
                out@.len() == i,
                forall|k: int| 0 <= k < i ==> (#[trigger] out@[k]).id@ == self.plane@[k]@,
            decreases self.plane@.len() - i,
        {
            match wd.plane_model(&self.plane[i]) {
                Some(m) => out.push(m),
                None => {
                    return Err(WorldError::UnknownPlaneModel);
                },
            }
            i = i + 1;
        }
        Ok(out)
    }
}

impl WorldData {
    /// Looks up an aircraft model by identifier; the first match wins.
    pub fn plane_model(&self, id: &String) -> (r: Option<&PlaneData>)
        ensures
            match r {
                Some(m) => exists|i: int|
                    0 <= i < self.planes@.len() && *m == self.planes@[i] && m.id@ == id@,
                None => forall|i: int|
                    0 <= i < self.planes@.len() ==> (#[trigger] self.planes@[i]).id@ != id@,
            },
    {
        let mut i: usize = 0;
        while i < self.planes.len()
            invariant
                0 <= i <= self.planes@.len(),
                forall|j: int| 0 <= j < i ==> (#[trigger] self.planes@[j]).id@ != id@,
            decreases self.planes@.len() - i,
        {
            if self.planes[i].id == *id {
                return Some(&self.planes[i]);
            }
            i = i + 1;
        }
        None
    }
}

/// The number of unvisited entries of the closed-set map.
pub closed spec fn count_unvisited(v: Seq<bool>) -> int
    decreases v.len(),
{
    if v.len() == 0 {
        0
    } else {
        count_unvisited(v.drop_last()) + if v.last() {
            0int
        } else {
            1int
        }
    }
}

proof fn lemma_count_unvisited_set(v: Seq<bool>, i: int)
    requires
        0 <= i < v.len(),
        !v[i],
    ensures
        count_unvisited(v.update(i, true)) == count_unvisited(v) - 1,
        count_unvisited(v) >= 1,
    decreases v.len(),
{
    if i == v.len() - 1 {
        assert(v.update(i, true).drop_last() =~= v.drop_last());
        lemma_count_unvisited_nonneg(v.drop_last());
    } else {
        assert(v.update(i, true).drop_last() =~= v.drop_last().update(i, true));
        lemma_count_unvisited_set(v.drop_last(), i);
    }
}

proof fn lemma_count_unvisited_nonneg(v: Seq<bool>)
    ensures
        count_unvisited(v) >= 0,
    decreases v.len(),
{
    if v.len() > 0 {
        lemma_count_unvisited_nonneg(v.drop_last());
    }
}

} // verus!
