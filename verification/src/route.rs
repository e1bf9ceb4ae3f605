//! Routes: ordered stop sequences realised as geometric segment paths.
//!
//! Route geometry synthesis turns the ordered list of stops into an
//! alternating sequence of straight runs and platform arcs.  Endpoints are
//! snapped through the same angular sampling the arcs use, so consecutive
//! segments share their endpoints exactly and a vehicle never sees a gap.

pub mod handler;
pub mod segment;
pub mod stop;

use vstd::prelude::*;

verus! {

use crate::route::segment::{
    DIST_LIMIT,
    LEN_LIMIT,
    POS_LIMIT,
    RADIUS_LIMIT,
    Segment,
    VehicleState,
    arc_angles_spec,
    arc_center_spec,
    arc_radius_spec,
    ends_sampled,
    lemma_arc_ends_sampled,
    lemma_line_ends_sampled,
    pos_x_spec,
    pos_y_spec,
    rot_spec,
    seg_len_spec,
    seg_wf,
};
use crate::route::stop::Stop;
use crate::station::{STATION_POS_LIMIT, Station, station_wf};
use crate::station::handler::{StationHandler, stations_wf};
use crate::utils::colors::Rgb;
use crate::utils::fixed::{
    ONE,
    PI,
    div_floor,
    fx_mul,
    fx_mul_spec,
    lemma_div_floor_bounds,
    lemma_fx_unit_scale,
    lemma_fx_unit_scale_signed,
};
use crate::utils::trig::{atan2_spec, cos_spec, sin_spec};
use vstd::math::abs;
use crate::utils::vec2::{
    VEC_RANGE,
    Vec2,
    bounded,
    len2_spec,
    lemma_len_le_manhattan,
};
use crate::utils::{angle_between, angle_between_spec, lerp_angle, lerp_angle_spec, norm_spec, normalize_angle};

/// The width a route's track is drawn with: four and a half units, in
/// fixed-point steps.
pub const ROUTE_LINE_WIDTH: i64 = 9216;

/// The width a platform arc is drawn with, in fixed-point steps.
pub const PLATFORM_LINE_WIDTH: i64 = 3 * ONE;

/// The gap kept between parallel tracks at a shared station: half a unit,
/// in fixed-point steps.
pub const PLATFORM_GAP_WIDTH: i64 = 1024;

/// The square root of two, in fixed-point steps.
pub const SQRT_2: i64 = 2896;

/// The largest number of routes a single station can carry; keeps effective
/// radii within range.
pub const COUNT_LIMIT: u32 = 48;

/// Why route geometry synthesis rejected a topology.
#[derive(Clone, Copy, PartialEq, Eq, Structural, Debug)]
pub enum GeometryError {
    /// Two consecutive stops sit at the same position, so the track between
    /// them has no direction.
    CoincidentStations,
    /// A direction vector of zero length would have to be normalised.
    DegenerateDirection,
    /// A synthesised segment would have zero length.
    DegenerateSegment,
}

/// A route: an ordered stop list, its realised segment path, a colour, a
/// loop flag, and a dirty flag set while the path is out of date.
pub struct Route {
    pub id: usize,
    pub stops: Vec<Stop>,
    pub path_nodes: Vec<Segment>,
    pub color: Rgb,
    pub is_looped: bool,
    pub dirty: bool,
}

/// The effective radius of a station carrying `count` routes: base size
/// times fifteen, plus one track width and gap per route.
pub open spec fn radius_spec(size: int, count: int) -> int {
    15 * size + (ROUTE_LINE_WIDTH + PLATFORM_GAP_WIDTH) * count
}

/// The horizontal component of a platform offset snapped onto the station
/// circle: the radius times the cosine of the offset's angle.
#[verifier::opaque]
pub open spec fn snap_x_spec(off: Vec2, r: int) -> int {
    fx_mul_spec(cos_spec(atan2_spec(off.y as int, off.x as int)), r)
}

/// The vertical component of a platform offset snapped onto the station
/// circle.
#[verifier::opaque]
pub open spec fn snap_y_spec(off: Vec2, r: int) -> int {
    fx_mul_spec(sin_spec(atan2_spec(off.y as int, off.x as int)), r)
}

/// Consecutive segments share endpoints exactly.
pub open spec fn chained(path: Seq<Segment>) -> bool {
    forall|i: int| 0 <= i < path.len() - 1 ==> (#[trigger] path[i]).end_pos == path[i + 1].begin_pos
}

/// A fully valid realised path: every segment well formed with its stored
/// endpoints equal to its boundary samples, and consecutive segments
/// chained.
pub open spec fn route_geometry_wf(path: Seq<Segment>) -> bool {
    &&& forall|i: int| 0 <= i < path.len() ==> seg_wf(#[trigger] path[i])
    &&& forall|i: int| 0 <= i < path.len() ==> ends_sampled(#[trigger] path[i])
    &&& chained(path)
}

/// Terminal tagging: a looped path has no terminal segment at all, while an
/// open path is tagged exactly at its two ends, the start as the `-1`
/// terminus and the end as the `1` terminus.
pub open spec fn terminal_marks_ok(path: Seq<Segment>, looped: bool) -> bool {
    if looped {
        forall|i: int| 0 <= i < path.len() ==> !((#[trigger] path[i]).state is LastPlatform)
    } else {
        &&& path.len() >= 2
        &&& path[0].state == VehicleState::LastPlatform(-1i64)
        &&& path[path.len() - 1].state == VehicleState::LastPlatform(1i64)
        &&& forall|i: int|
            0 < i < path.len() - 1 ==> !((#[trigger] path[i]).state is LastPlatform)
    }
}

/// What a successful rebuild guarantees: valid chained geometry, correct
/// terminal tagging, the exact segment count the stop list determines, and
/// for a looped route a path that closes back on its own start.
pub open spec fn built_path_ok(r: Route) -> bool {
    &&& route_geometry_wf(r.path_nodes@)
    &&& terminal_marks_ok(r.path_nodes@, r.is_looped)
    &&& (r.is_looped ==> r.path_nodes@.len() == 4 * r.stops@.len())
    &&& (!r.is_looped ==> r.path_nodes@.len() == 4 * r.stops@.len() - 6)
    &&& (r.is_looped ==> r.path_nodes@.last().end_pos == r.path_nodes@[0].begin_pos)
}

/// The 8-compass angle nearest a vector's own direction: the vector's
/// angle rounded to the closest multiple of an eighth turn.
pub open spec fn quantized_angle_spec(v: Vec2) -> int {
    let oct = (8 * atan2_spec(v.y as int, v.x as int) + PI) / (2 * (PI as int));
    (oct * (PI as int)) / 4
}

/// A direction scaled out to a radius and flipped to the chosen side,
/// component-wise.
pub open spec fn side_offset_spec(dir_x: int, dir_y: int, radius: int, negate: bool) -> (int, int) {
    if negate {
        (-fx_mul_spec(dir_x, radius), -fx_mul_spec(dir_y, radius))
    } else {
        (fx_mul_spec(dir_x, radius), fx_mul_spec(dir_y, radius))
    }
}

/// The unit vector of the quantised inter-station direction, anchored at
/// `bpos` looking toward `epos`.
#[verifier::opaque]
pub open spec fn turn_dir_spec(bpos: Vec2, epos: Vec2) -> (int, int) {
    let qa = quantized_angle_spec(Vec2 { x: (epos.x - bpos.x) as i64, y: (epos.y - bpos.y) as i64 });
    (cos_spec(qa), sin_spec(qa))
}

/// The platform exit offset at the anchor station: perpendicular to the
/// quantised direction, scaled to the anchor's effective radius, signed by
/// the mirrored side.
#[verifier::opaque]
pub open spec fn turn_exit_spec(bpos: Vec2, epos: Vec2, br: int, bneg: bool) -> (int, int) {
    let (dx, dy) = turn_dir_spec(bpos, epos);
    side_offset_spec(dy, -dx, br, bneg)
}

/// The pivot's reference point: from the anchor's exit point, along the
/// quantised direction, by the exit-to-station distance scaled by the
/// turning angle's cosine-minus-sine.
#[verifier::opaque]
pub open spec fn turn_center_spec(bpos: Vec2, epos: Vec2, br: int, bneg: bool) -> (int, int) {
    let (dx, dy) = turn_dir_spec(bpos, epos);
    let (pex, pey) = turn_exit_spec(bpos, epos, br, bneg);
    let pvx = bpos.x + pex;
    let pvy = bpos.y + pey;
    let ex = epos.x - pvx;
    let ey = epos.y - pvy;
    let ta = angle_between_spec(atan2_spec(ey, ex), atan2_spec(dy, dx));
    let reach = fx_mul_spec(len2_spec(ex, ey), cos_spec(ta) - sin_spec(ta));
    (pvx + fx_mul_spec(dx, reach), pvy + fx_mul_spec(dy, reach))
}

/// Whether the pivot construction degenerates: the vector from the
/// pivot's reference point to the far station has zero length and no
/// direction.
#[verifier::opaque]
pub open spec fn turn_degenerate_spec(bpos: Vec2, epos: Vec2, br: int, bneg: bool) -> bool {
    let (cx, cy) = turn_center_spec(bpos, epos, br, bneg);
    epos.x - cx == 0 && epos.y - cy == 0
}

/// The platform entrance offset at the far station: perpendicular to the
/// direction from the pivot's reference point, scaled to the far
/// station's effective radius, signed by the mirrored side.
#[verifier::opaque]
pub open spec fn turn_entrance_spec(
    bpos: Vec2,
    epos: Vec2,
    br: int,
    er: int,
    bneg: bool,
    eneg: bool,
) -> (int, int) {
    let (cx, cy) = turn_center_spec(bpos, epos, br, bneg);
    let tx = epos.x - cx;
    let ty = epos.y - cy;
    let l = len2_spec(tx, ty);
    let nx = (tx * ONE) / l;
    let ny = (ty * ONE) / l;
    side_offset_spec(ny, -nx, er, eneg)
}

/// The pivot itself: the reference point pushed along the quantised
/// direction by the far radius times the square root of two, toward the
/// entrance offset's side.
#[verifier::opaque]
pub open spec fn turn_pivot_spec(
    bpos: Vec2,
    epos: Vec2,
    br: int,
    er: int,
    bneg: bool,
    eneg: bool,
) -> (int, int) {
    let (dx, dy) = turn_dir_spec(bpos, epos);
    let (cx, cy) = turn_center_spec(bpos, epos, br, bneg);
    let (nex, ney) = turn_entrance_spec(bpos, epos, br, er, bneg, eneg);
    let d = dx * nex + dy * ney;
    let half = fx_mul_spec(er, SQRT_2 as int);
    let sd = if d >= 0 {
        half
    } else {
        -half
    };
    (cx + fx_mul_spec(dx, sd), cy + fx_mul_spec(dy, sd))
}

/// The anchor orientation of a stop pair: the construction starts at the
/// pair's larger-radius station, and when that reverses the pair the side
/// signs are mirrored.  Returns the anchored positions, radii and side
/// flips, and whether the pair was reversed.
pub open spec fn turn_frame_spec(
    stations: StationHandler,
    counts: Seq<u32>,
    curr: Stop,
    next: Stop,
) -> (Vec2, Vec2, int, int, bool, bool, bool) {
    let rc = stop_radius_spec(stations, counts, curr);
    let rn = stop_radius_spec(stations, counts, next);
    let reversed = rc < rn;
    let bpos = if reversed {
        stop_pos_spec(stations, next)
    } else {
        stop_pos_spec(stations, curr)
    };
    let epos = if reversed {
        stop_pos_spec(stations, curr)
    } else {
        stop_pos_spec(stations, next)
    };
    let br = if reversed {
        rn
    } else {
        rc
    };
    let er = if reversed {
        rc
    } else {
        rn
    };
    let bneg = (if reversed {
        -crate::route::stop::side_factor_spec(curr.side)
    } else {
        crate::route::stop::side_factor_spec(curr.side)
    }) < 0;
    let eneg = (if reversed {
        -crate::route::stop::side_factor_spec(next.side)
    } else {
        crate::route::stop::side_factor_spec(next.side)
    }) < 0;
    (bpos, epos, br, er, bneg, eneg, reversed)
}

/// Whether the pivot construction for a stop pair degenerates.
#[verifier::opaque]
pub open spec fn turning_degenerate_spec(
    stations: StationHandler,
    counts: Seq<u32>,
    curr: Stop,
    next: Stop,
) -> bool {
    let (bpos, epos, br, er, bneg, eneg, reversed) = turn_frame_spec(stations, counts, curr, next);
    turn_degenerate_spec(bpos, epos, br, bneg)
}

/// The full result of the pivot construction for a stop pair, in the
/// caller's (current, next) orientation: the exit offset at the current
/// station, the pivot, and the entrance offset at the next station, each
/// as a coordinate pair.
#[verifier::opaque]
pub open spec fn turning_triple_spec(
    stations: StationHandler,
    counts: Seq<u32>,
    curr: Stop,
    next: Stop,
) -> ((int, int), (int, int), (int, int)) {
    let (bpos, epos, br, er, bneg, eneg, reversed) = turn_frame_spec(stations, counts, curr, next);
    let pe = turn_exit_spec(bpos, epos, br, bneg);
    let tp = turn_pivot_spec(bpos, epos, br, er, bneg, eneg);
    let ne = turn_entrance_spec(bpos, epos, br, er, bneg, eneg);
    if reversed {
        (ne, tp, pe)
    } else {
        (pe, tp, ne)
    }
}

/// Pair-order mirror: for stations of unequal effective radius, the
/// construction anchors at the larger one and mirrors the side signs, so
/// naming the pair in the other order — with the side carried by each
/// argument position flipped — yields the very same pivot with the exit
/// and entrance offsets exchanged.  At equal radii the anchor falls back
/// to argument order; that tie is left open by design.
pub proof fn lemma_turning_pair_mirror(
    stations: StationHandler,
    counts: Seq<u32>,
    curr: Stop,
    next: Stop,
)
    requires
        stop_radius_spec(stations, counts, curr) > stop_radius_spec(stations, counts, next),
    ensures
        ({
            let swapped_curr = Stop {
                index: next.index,
                side: crate::route::stop::opposite_side_spec(curr.side),
            };
            let swapped_next = Stop {
                index: curr.index,
                side: crate::route::stop::opposite_side_spec(next.side),
            };
            let t = turning_triple_spec(stations, counts, curr, next);
            let u = turning_triple_spec(stations, counts, swapped_curr, swapped_next);
            &&& u.0 == t.2
            &&& u.1 == t.1
            &&& u.2 == t.0
            &&& turning_degenerate_spec(stations, counts, swapped_curr, swapped_next)
                == turning_degenerate_spec(stations, counts, curr, next)
        }),
{
    reveal(turning_triple_spec);
    reveal(turning_degenerate_spec);
}

/// A vector from a spec coordinate pair.
pub open spec fn vec_of_spec(p: (int, int)) -> Vec2 {
    Vec2 { x: p.0 as i64, y: p.1 as i64 }
}

/// The pivot construction of the consecutive stop pair starting at `idx`,
/// wrapping past the last stop.
#[verifier::opaque]
pub open spec fn triple_at_spec(
    stations: StationHandler,
    counts: Seq<u32>,
    stops: Seq<Stop>,
    idx: int,
) -> ((int, int), (int, int), (int, int)) {
    turning_triple_spec(stations, counts, stops[idx], stops[(idx + 1) % (stops.len() as int)])
}

/// Why building one consecutive stop pair is rejected, over the inputs
/// alone: the stations coincide, the pivot construction degenerates, the
/// platform arc pair into the current station would be shorter than a
/// step, or one of the two straight runs would be.
#[verifier::opaque]
pub open spec fn pair_rejected_spec(
    stations: StationHandler,
    counts: Seq<u32>,
    curr: Stop,
    next: Stop,
    entrance: Vec2,
    with_arcs: bool,
) -> bool {
    let cpos = stop_pos_spec(stations, curr);
    let npos = stop_pos_spec(stations, next);
    let rc = stop_radius_spec(stations, counts, curr);
    let rn = stop_radius_spec(stations, counts, next);
    let t = turning_triple_spec(stations, counts, curr, next);
    let pe = vec_of_spec(t.0);
    let ne = vec_of_spec(t.2);
    let x1 = cpos.x + snap_x_spec(pe, rc);
    let y1 = cpos.y + snap_y_spec(pe, rc);
    let x2 = npos.x + snap_x_spec(ne, rn);
    let y2 = npos.y + snap_y_spec(ne, rn);
    ||| cpos == npos
    ||| turning_degenerate_spec(stations, counts, curr, next)
    ||| (with_arcs && arc_pair_degenerate_spec(
        Vec2 { x: (npos.x - cpos.x) as i64, y: (npos.y - cpos.y) as i64 },
        entrance,
        pe,
        rc,
    ))
    ||| len2_spec(t.1.0 - x1, t.1.1 - y1) < 1
    ||| len2_spec(x2 - t.1.0, y2 - t.1.1) < 1
}

/// The entrance offset carried into the pair starting at `idx`: the
/// previous pair's entrance offset, or the zero offset for the first
/// pair, which has no platform arcs.
#[verifier::opaque]
pub open spec fn entrance_at_spec(
    stations: StationHandler,
    counts: Seq<u32>,
    stops: Seq<Stop>,
    idx: int,
) -> Vec2 {
    if idx == 0 {
        Vec2 { x: 0, y: 0 }
    } else {
        vec_of_spec(triple_at_spec(stations, counts, stops, idx - 1).2)
    }
}

/// Why building the consecutive stop pair starting at `idx` is rejected.
#[verifier::opaque]
pub open spec fn pair_rejected_at_spec(
    stations: StationHandler,
    counts: Seq<u32>,
    stops: Seq<Stop>,
    idx: int,
) -> bool {
    pair_rejected_spec(
        stations,
        counts,
        stops[idx],
        stops[(idx + 1) % (stops.len() as int)],
        entrance_at_spec(stations, counts, stops, idx),
        idx > 0,
    )
}

/// Why a whole rebuild is rejected, over the inputs alone: some
/// consecutive pair is rejected, or a looped route's closing arc pair
/// would hold an arc shorter than a step.
#[verifier::opaque]
pub open spec fn synthesis_rejects(
    stations: StationHandler,
    counts: Seq<u32>,
    stops: Seq<Stop>,
    looped: bool,
) -> bool {
    let n = stops.len() as int;
    let m = if looped {
        n
    } else {
        n - 1
    };
    ||| exists|idx: int|
        0 <= idx < m && #[trigger] pair_rejected_at_spec(stations, counts, stops, idx)
    ||| (looped && arc_pair_degenerate_spec(
        Vec2 {
            x: (stop_pos_spec(stations, stops[1]).x - stop_pos_spec(stations, stops[0]).x) as i64,
            y: (stop_pos_spec(stations, stops[1]).y - stop_pos_spec(stations, stops[0]).y) as i64,
        },
        vec_of_spec(triple_at_spec(stations, counts, stops, m - 1).2),
        vec_of_spec(triple_at_spec(stations, counts, stops, 0).0),
        stop_radius_spec(stations, counts, stops[0]),
    ))
}

/// Whether a platform arc pair bridging the given offsets at the given
/// radius would be rejected: one of the two arcs would be shorter than a
/// single step.
#[verifier::opaque]
pub open spec fn arc_pair_degenerate_spec(
    next_station_vect: Vec2,
    platform_entrance: Vec2,
    platform_exit: Vec2,
    radius: int,
) -> bool {
    let ea = atan2_spec(platform_entrance.y as int, platform_entrance.x as int);
    let xa = atan2_spec(platform_exit.y as int, platform_exit.x as int);
    let pick = next_station_vect.x * (platform_exit.x - platform_entrance.x)
        + next_station_vect.y * (platform_exit.y - platform_entrance.y) < 0;
    let ca = norm_spec(lerp_angle_spec(ea, xa, (ONE as int) / 2, pick));
    ||| fx_mul_spec(radius, angle_between_spec(ca, ea)) < 1
    ||| fx_mul_spec(radius, angle_between_spec(xa, ca)) < 1
}

/// What pushing one platform arc pair leaves behind: two new well-formed
/// arc segments at the station, chained to each other, entering along the
/// entrance offset's snapped point and leaving along the exit offset's.
pub open spec fn arc_pair_ok(
    pre: Seq<Segment>,
    post: Seq<Segment>,
    station_id: int,
    next_station_vect: Vec2,
    platform_entrance: Vec2,
    platform_exit: Vec2,
    position: Vec2,
    radius: int,
) -> bool {
    let ea = atan2_spec(platform_entrance.y as int, platform_entrance.x as int);
    let xa = atan2_spec(platform_exit.y as int, platform_exit.x as int);
    let pick = next_station_vect.x * (platform_exit.x - platform_entrance.x)
        + next_station_vect.y * (platform_exit.y - platform_entrance.y) < 0;
    let ca = norm_spec(lerp_angle_spec(ea, xa, (ONE as int) / 2, pick));
    let arrive = post[pre.len() as int];
    let leave = post[pre.len() as int + 1];
    &&& post.len() == pre.len() + 2
    &&& post.subrange(0, pre.len() as int) == pre
    &&& forall|i: int| 0 <= i < pre.len() ==> post[i] == pre[i]
    &&& seg_wf(arrive) && seg_wf(leave)
    &&& ends_sampled(arrive) && ends_sampled(leave)
    &&& arrive.state == VehicleState::ArrivePlatform(
        position,
        radius as i64,
        ea as i64,
        ca as i64,
        xa as i64,
        pick,
    )
    &&& leave.state == VehicleState::LeavePlatform(
        position,
        radius as i64,
        ea as i64,
        ca as i64,
        xa as i64,
        pick,
    )
    &&& arrive.connecting_station == station_id
    &&& leave.connecting_station == station_id
    &&& arrive.begin_pos.x == position.x + snap_x_spec(platform_entrance, radius)
    &&& arrive.begin_pos.y == position.y + snap_y_spec(platform_entrance, radius)
    &&& arrive.end_pos == leave.begin_pos
    &&& leave.end_pos.x == position.x + snap_x_spec(platform_exit, radius)
    &&& leave.end_pos.y == position.y + snap_y_spec(platform_exit, radius)
}

/// A point on a station's platform circle: the station's position pushed
/// out to the effective radius along some angle, through the same
/// fixed-point sampling the arcs use.
#[verifier::opaque]
pub open spec fn on_station_circle_spec(
    p: Vec2,
    stations: StationHandler,
    counts: Seq<u32>,
    station: int,
) -> bool {
    exists|theta: int|
        {
            &&& p.x == stations.stations@[station].position.x + #[trigger] fx_mul_spec(
                cos_spec(theta),
                radius_spec(stations.stations@[station].size as int, counts[station] as int),
            )
            &&& p.y == stations.stations@[station].position.y + fx_mul_spec(
                sin_spec(theta),
                radius_spec(stations.stations@[station].size as int, counts[station] as int),
            )
        }
}

/// An arc segment is anchored: its circle centre is its connecting
/// station's position and its radius that station's effective radius under
/// the given occupancy counts.  Straight runs carry no circle.
#[verifier::opaque]
pub open spec fn seg_anchored(seg: Segment, stations: StationHandler, counts: Seq<u32>) -> bool {
    match seg.state {
        VehicleState::ArrivePlatform(center, radius, _, _, _, _)
            | VehicleState::LeavePlatform(center, radius, _, _, _, _) => {
            let sid = seg.connecting_station as int;
            &&& sid < stations.stations@.len()
            &&& center == stations.stations@[sid].position
            &&& radius == radius_spec(stations.stations@[sid].size as int, counts[sid] as int)
        },
        _ => true,
    }
}

/// A built path is anchored to the station directory it was built from:
/// every platform arc sits on its station's circle at the effective
/// radius, and the path's outer endpoints sit on the platform circles of
/// the route's first and last stops.
#[verifier::opaque]
pub open spec fn path_anchored(
    path: Seq<Segment>,
    stops: Seq<Stop>,
    looped: bool,
    stations: StationHandler,
    counts: Seq<u32>,
) -> bool {
    &&& forall|i: int| 0 <= i < path.len() ==> seg_anchored(#[trigger] path[i], stations, counts)
    &&& path.len() > 0 ==> on_station_circle_spec(
        path[0].begin_pos,
        stations,
        counts,
        stops[0].index as int,
    )
    &&& (!looped && path.len() > 0) ==> on_station_circle_spec(
        path.last().end_pos,
        stations,
        counts,
        stops[stops.len() - 1].index as int,
    )
}

/// The effective radius of the station a stop visits, under the given
/// occupancy counts.
pub open spec fn stop_radius_spec(stations: StationHandler, counts: Seq<u32>, s: Stop) -> int {
    radius_spec(stations.stations@[s.index as int].size as int, counts[s.index as int] as int)
}

/// The position of the station a stop visits.
pub open spec fn stop_pos_spec(stations: StationHandler, s: Stop) -> Vec2 {
    stations.stations@[s.index as int].position
}

/// How many of the stops strictly before position `k`, skipping the first
/// stop, visit station `j`: the occupancy contribution of a route's
/// interior stops.
pub open spec fn uses_below(stops: Seq<Stop>, j: int, k: int) -> int
    decreases k,
{
    if k <= 1 {
        0
    } else {
        uses_below(stops, j, k - 1) + if stops[k - 1].index == j {
            1int
        } else {
            0int
        }
    }
}

/// A path under construction: every segment well formed with sampled
/// endpoints, consecutive segments chained, and no terminal tag yet.
pub open spec fn partial_path_ok(path: Seq<Segment>) -> bool {
    &&& forall|i: int| 0 <= i < path.len() ==> seg_wf(#[trigger] path[i])
    &&& forall|i: int| 0 <= i < path.len() ==> ends_sampled(#[trigger] path[i])
    &&& chained(path)
    &&& forall|i: int| 0 <= i < path.len() ==> !((#[trigger] path[i]).state is LastPlatform)
}

/// The construction cursor: the path ends with a straight run into the
/// given stop's station, at the snapped point of the carried entrance
/// offset.
pub open spec fn cursor_at(
    path: Seq<Segment>,
    stations: StationHandler,
    counts: Seq<u32>,
    s: Stop,
    off: Vec2,
) -> bool {
    let rad = stop_radius_spec(stations, counts, s);
    &&& path.len() > 0
    &&& path.last().end_pos.x == stop_pos_spec(stations, s).x + snap_x_spec(off, rad)
    &&& path.last().end_pos.y == stop_pos_spec(stations, s).y + snap_y_spec(off, rad)
    &&& path.last().state is Moving
}

/// The construction head: the path begins with a straight run out of the
/// given stop's station, at the snapped point of the first exit offset.
pub open spec fn head_at(
    path: Seq<Segment>,
    stations: StationHandler,
    counts: Seq<u32>,
    s: Stop,
    off: Vec2,
    rad0: int,
) -> bool {
    let rad = stop_radius_spec(stations, counts, s);
    &&& path.len() > 0
    &&& rad0 == rad
    &&& path[0].begin_pos.x == stop_pos_spec(stations, s).x + snap_x_spec(off, rad)
    &&& path[0].begin_pos.y == stop_pos_spec(stations, s).y + snap_y_spec(off, rad)
    &&& path[0].state is Moving
}

impl Route {
    /// A route from its stop list; at least two stops are needed for a
    /// meaningful topology.  The path starts out dirty.
    pub fn new(id: usize, stops: Vec<Stop>, color: Rgb, is_looped: bool) -> (r: Route)
        requires
            stops@.len() >= 2,
        ensures
            r.id == id,
            r.stops == stops,
            r.color == color,
            r.is_looped == is_looped,
            r.dirty,
            r.path_nodes@.len() == 0,
    {
        Route { id, stops, path_nodes: Vec::new(), color, is_looped, dirty: true }
    }

    /// The route's id.
    pub fn id(&self) -> (r: usize)
        ensures
            r == self.id,
    {
        self.id
    }

    /// The route's ordered stop list.
    pub fn stops(&self) -> (r: &Vec<Stop>)
        ensures
            r == &self.stops,
    {
        &self.stops
    }

    /// The route's colour.
    pub fn color(&self) -> (r: Rgb)
        ensures
            r == self.color,
    {
        self.color
    }

    /// Whether the route closes back on its first stop.
    pub fn is_looped(&self) -> (r: bool)
        ensures
            r == self.is_looped,
    {
        self.is_looped
    }

    /// The position sampled on one of the route's segments.
    pub fn calculate_position(&self, segment_id: usize, distance: i64) -> (p: Vec2)
        requires
            segment_id < self.path_nodes@.len(),
            seg_wf(self.path_nodes@[segment_id as int]),
            -DIST_LIMIT <= distance <= DIST_LIMIT,
        ensures
            p.x == pos_x_spec(self.path_nodes@[segment_id as int], distance as int),
            p.y == pos_y_spec(self.path_nodes@[segment_id as int], distance as int),
            bounded(p, POS_LIMIT + RADIUS_LIMIT),
    {
        self.path_nodes[segment_id].calculate_position(distance)
    }

    /// The heading sampled on one of the route's segments.
    pub fn calculate_rotation(&self, segment_id: usize, distance: i64) -> (r: i64)
        requires
            segment_id < self.path_nodes@.len(),
            seg_wf(self.path_nodes@[segment_id as int]),
            -DIST_LIMIT <= distance <= DIST_LIMIT,
        ensures
            r == rot_spec(self.path_nodes@[segment_id as int], distance as int),
            -0x2000_0000_0000 <= r <= 0x2000_0000_0000,
    {
        self.path_nodes[segment_id].calculate_rotation(distance)
    }

    /// The segment with the given index.
    pub fn get(&self, segment_id: usize) -> (s: &Segment)
        requires
            segment_id < self.path_nodes@.len(),
        ensures
            s == &self.path_nodes@[segment_id as int],
    {
        &self.path_nodes[segment_id]
    }

    /// How many segments the realised path holds.
    pub fn length(&self) -> (n: usize)
        ensures
            n == self.path_nodes@.len(),
    {
        self.path_nodes.len()
    }

    /// Rebuilds the whole segment path from the stop list: for each
    /// consecutive stop pair a pre-turn and a post-turn straight run, with
    /// a platform arc pair bridging each visited station, a closing arc
    /// pair for a looped route, and terminal tags on the two end segments
    /// of an open one.  The path is replaced wholesale, never patched.
    #[verifier::rlimit(100)]
    #[verifier::spinoff_prover]
    fn update_route_segments(&mut self, stations: &StationHandler, routes_on_station: &Vec<u32>)
        -> (r: Result<(), GeometryError>)
        requires
            stations_wf(*stations),
            old(self).stops@.len() >= 2,
            forall|i: int|
                0 <= i < old(self).stops@.len() ==> (#[trigger] old(self).stops@[i]).index
                    < stations.stations@.len(),
            routes_on_station@.len() == stations.stations@.len(),
            forall|i: int|
                0 <= i < routes_on_station@.len() ==> 1 <= #[trigger] routes_on_station@[i]
                    <= COUNT_LIMIT,
        ensures
            final(self).id == old(self).id,
            final(self).stops == old(self).stops,
            final(self).color == old(self).color,
            final(self).is_looped == old(self).is_looped,
            final(self).dirty == old(self).dirty,
            r is Ok ==> built_path_ok(*final(self)),
            r is Ok ==> path_anchored(
                final(self).path_nodes@,
                final(self).stops@,
                final(self).is_looped,
                *stations,
                routes_on_station@,
            ),
            (r is Err) == synthesis_rejects(
                *stations,
                routes_on_station@,
                old(self).stops@,
                old(self).is_looped,
            ),
    {
        self.path_nodes = Vec::new();
        let n = self.stops.len();
        let m = if self.is_looped {
            n
        } else {
            n - 1
        };
        let mut platform_entrance = Vec2::new(0, 0);
        let mut first_platform_exit = Vec2::new(0, 0);
        let mut first_radius: i64 = 1;
        let mut idx: usize = 0;
        while idx < m
            invariant
                stations_wf(*stations),
                self.stops@.len() == n,
                n >= 2,
                m == if self.is_looped {
                    n as int
                } else {
                    n - 1
                },
                idx <= m,
                forall|i: int|
                    0 <= i < self.stops@.len() ==> (#[trigger] self.stops@[i]).index
                        < stations.stations@.len(),
                routes_on_station@.len() == stations.stations@.len(),
                forall|i: int|
                    0 <= i < routes_on_station@.len() ==> 1 <= #[trigger] routes_on_station@[i]
                        <= COUNT_LIMIT,
                self.id == old(self).id,
                self.stops == old(self).stops,
                self.color == old(self).color,
                self.is_looped == old(self).is_looped,
                self.dirty == old(self).dirty,
                self.path_nodes@.len() == if idx == 0 {
                    0int
                } else {
                    4 * idx - 2
                },
                partial_path_ok(self.path_nodes@),
                idx > 0 ==> cursor_at(
                    self.path_nodes@,
                    *stations,
                    routes_on_station@,
                    self.stops@[(idx as int) % (n as int)],
                    platform_entrance,
                ),
                idx > 0 ==> bounded(platform_entrance, RADIUS_LIMIT as int),
                idx > 0 ==> head_at(
                    self.path_nodes@,
                    *stations,
                    routes_on_station@,
                    self.stops@[0],
                    first_platform_exit,
                    first_radius as int,
                ),
                idx > 0 ==> bounded(first_platform_exit, RADIUS_LIMIT as int),
                idx == 0 ==> platform_entrance == (Vec2 { x: 0, y: 0 }),
                idx > 0 ==> (platform_entrance.x as int, platform_entrance.y as int)
                    == triple_at_spec(
                    *stations,
                    routes_on_station@,
                    self.stops@,
                    idx - 1,
                ).2,
                idx > 0 ==> (first_platform_exit.x as int, first_platform_exit.y as int)
                    == triple_at_spec(*stations, routes_on_station@, self.stops@, 0).0,
                forall|i: int|
                    0 <= i < self.path_nodes@.len() ==> seg_anchored(
                        #[trigger] self.path_nodes@[i],
                        *stations,
                        routes_on_station@,
                    ),
                forall|i: int|
                    0 <= i < idx ==> !#[trigger] pair_rejected_at_spec(
                        *stations,
                        routes_on_station@,
                        self.stops@,
                        i,
                    ),
            decreases m - idx,
        {
            let curr_stop = self.stops[idx];
            let next_idx = if idx + 1 == n {
                0
            } else {
                idx + 1
            };
            let next_stop = self.stops[next_idx];
            proof {
                if idx + 1 < n {
                    vstd::arithmetic::div_mod::lemma_small_mod((idx + 1) as nat, n as nat);
                } else {
                    vstd::arithmetic::div_mod::lemma_mod_self_0(n as int);
                }
                if idx > 0 {
                    vstd::arithmetic::div_mod::lemma_small_mod(idx as nat, n as nat);
                }
            }
            let ghost entr_in = platform_entrance;
            let got = match self.build_pair(
                stations,
                routes_on_station,
                curr_stop,
                next_stop,
                platform_entrance,
            ) {
                Ok(t) => t,
                Err(e) => {
                    proof {
                        reveal(synthesis_rejects);
                        reveal(pair_rejected_at_spec);
                        reveal(entrance_at_spec);
                        reveal(triple_at_spec);
                        assert(platform_entrance == entrance_at_spec(
                            *stations,
                            routes_on_station@,
                            self.stops@,
                            idx as int,
                        ));
                        assert(pair_rejected_at_spec(
                            *stations,
                            routes_on_station@,
                            self.stops@,
                            idx as int,
                        ));
                    }
                    return Err(e);
                },
            };
            if idx == 0 {
                first_platform_exit = got.0;
                first_radius = got.1;
            }
            platform_entrance = got.2;
            proof {
                reveal(triple_at_spec);
                reveal(pair_rejected_at_spec);
                reveal(entrance_at_spec);
                assert(curr_stop == self.stops@[idx as int]);
                assert(next_stop == self.stops@[((idx as int) + 1) % (n as int)]);
                assert(entr_in == entrance_at_spec(
                    *stations,
                    routes_on_station@,
                    self.stops@,
                    idx as int,
                ));
                assert(!pair_rejected_at_spec(
                    *stations,
                    routes_on_station@,
                    self.stops@,
                    idx as int,
                ));
            }
            idx = idx + 1;
        }
        let ghost built_stops = self.stops@;
        if self.is_looped {
            proof {
                vstd::arithmetic::div_mod::lemma_mod_self_0(n as int);
                vstd::arithmetic::div_mod::lemma_small_mod((n - 1) as nat, n as nat);
            }
            let ghost pre_close = self.path_nodes@;
            match self.close_loop(
                stations,
                routes_on_station,
                platform_entrance,
                first_platform_exit,
                first_radius,
            ) {
                Ok(u) => u,
                Err(e) => {
                    proof {
                        reveal(synthesis_rejects);
                        reveal(triple_at_spec);
                    }
                    return Err(e);
                },
            }
            proof {
                reveal(path_anchored);
                reveal(on_station_circle_spec);
                reveal(snap_x_spec);
                reveal(snap_y_spec);
                let post = self.path_nodes@;
                assert forall|i: int| 0 <= i < post.len() implies seg_anchored(
                    #[trigger] post[i],
                    *stations,
                    routes_on_station@,
                ) by {
                    if i < pre_close.len() {
                        assert(post[i] == pre_close[i]);
                    }
                }
                assert(post[0] == pre_close[0]);
                let sid0 = built_stops[0].index as int;
                let rad0 = stop_radius_spec(*stations, routes_on_station@, built_stops[0]);
                let theta0 = atan2_spec(
                    first_platform_exit.y as int,
                    first_platform_exit.x as int,
                );
                assert(post[0].begin_pos.x == stations.stations@[sid0].position.x + fx_mul_spec(
                    cos_spec(theta0),
                    rad0,
                ));
                assert(post[0].begin_pos.y == stations.stations@[sid0].position.y + fx_mul_spec(
                    sin_spec(theta0),
                    rad0,
                ));
                reveal(synthesis_rejects);
                reveal(triple_at_spec);
            }
        } else {
            proof {
                vstd::arithmetic::div_mod::lemma_small_mod(m as nat, n as nat);
                reveal(synthesis_rejects);
            }
            let ghost pre_mark = self.path_nodes@;
            self.mark_terminals();
            proof {
                reveal(path_anchored);
                reveal(on_station_circle_spec);
                reveal(snap_x_spec);
                reveal(snap_y_spec);
                reveal(seg_anchored);
                let post = self.path_nodes@;
                assert forall|i: int| 0 <= i < post.len() implies seg_anchored(
                    #[trigger] post[i],
                    *stations,
                    routes_on_station@,
                ) by {
                    if !(post[i].state is LastPlatform) {
                        assert(post[i] == pre_mark[i]);
                    }
                }
                let sid0 = built_stops[0].index as int;
                let rad0 = stop_radius_spec(*stations, routes_on_station@, built_stops[0]);
                let theta0 = atan2_spec(
                    first_platform_exit.y as int,
                    first_platform_exit.x as int,
                );
                assert(post[0].begin_pos.x == stations.stations@[sid0].position.x + fx_mul_spec(
                    cos_spec(theta0),
                    rad0,
                ));
                assert(post[0].begin_pos.y == stations.stations@[sid0].position.y + fx_mul_spec(
                    sin_spec(theta0),
                    rad0,
                ));
                let lstop = built_stops[m as int];
                let sidl = lstop.index as int;
                let radl = stop_radius_spec(*stations, routes_on_station@, lstop);
                let thetal = atan2_spec(platform_entrance.y as int, platform_entrance.x as int);
                assert(post[post.len() - 1].end_pos.x == stations.stations@[sidl].position.x
                    + fx_mul_spec(cos_spec(thetal), radl));
                assert(post[post.len() - 1].end_pos.y == stations.stations@[sidl].position.y
                    + fx_mul_spec(sin_spec(thetal), radl));
            }
        }
        Ok(())
    }

    /// Closes a looped route: one final platform arc pair at the first
    /// station, from the carried entrance offset back to the first exit
    /// offset, so the path's end meets its own start.
    #[verifier::rlimit(100)]
    #[verifier::spinoff_prover]
    fn close_loop(
        &mut self,
        stations: &StationHandler,
        routes_on_station: &Vec<u32>,
        platform_entrance: Vec2,
        first_platform_exit: Vec2,
        first_radius: i64,
    ) -> (r: Result<(), GeometryError>)
        requires
            stations_wf(*stations),
            old(self).stops@.len() >= 2,
            forall|i: int|
                0 <= i < old(self).stops@.len() ==> (#[trigger] old(self).stops@[i]).index
                    < stations.stations@.len(),
            routes_on_station@.len() == stations.stations@.len(),
            forall|i: int|
                0 <= i < routes_on_station@.len() ==> 1 <= #[trigger] routes_on_station@[i]
                    <= COUNT_LIMIT,
            partial_path_ok(old(self).path_nodes@),
            cursor_at(
                old(self).path_nodes@,
                *stations,
                routes_on_station@,
                old(self).stops@[0],
                platform_entrance,
            ),
            bounded(platform_entrance, RADIUS_LIMIT as int),
            head_at(
                old(self).path_nodes@,
                *stations,
                routes_on_station@,
                old(self).stops@[0],
                first_platform_exit,
                first_radius as int,
            ),
            bounded(first_platform_exit, RADIUS_LIMIT as int),
        ensures
            final(self).id == old(self).id,
            final(self).stops == old(self).stops,
            final(self).color == old(self).color,
            final(self).is_looped == old(self).is_looped,
            final(self).dirty == old(self).dirty,
            r is Ok ==> {
                let post = final(self).path_nodes@;
                &&& post.len() == old(self).path_nodes@.len() + 2
                &&& route_geometry_wf(post)
                &&& forall|i: int|
                    0 <= i < post.len() ==> !((#[trigger] post[i]).state is LastPlatform)
                &&& post.last().end_pos == post[0].begin_pos
                &&& forall|i: int| 0 <= i < old(self).path_nodes@.len() ==> post[i] == old(
                    self,
                ).path_nodes@[i]
                &&& forall|i: int|
                    old(self).path_nodes@.len() <= i < post.len() ==> seg_anchored(
                        #[trigger] post[i],
                        *stations,
                        routes_on_station@,
                    )
            },
            (r is Err) == arc_pair_degenerate_spec(
                Vec2 {
                    x: (stop_pos_spec(*stations, old(self).stops@[1]).x - stop_pos_spec(
                        *stations,
                        old(self).stops@[0],
                    ).x) as i64,
                    y: (stop_pos_spec(*stations, old(self).stops@[1]).y - stop_pos_spec(
                        *stations,
                        old(self).stops@[0],
                    ).y) as i64,
                },
                platform_entrance,
                first_platform_exit,
                first_radius as int,
            ),
    {
        proof {
            reveal(seg_anchored);
        }
        let stop0 = self.stops[0];
        let stop1 = self.stops[1];
        let station0 = stations.get(stop0.index());
        let station1 = stations.get(stop1.index());
        let ghost pre = self.path_nodes@;
        match self.update_platform_segments(
            stop0.index(),
            station1.position().sub(station0.position()),
            platform_entrance,
            first_platform_exit,
            station0.position(),
            first_radius,
        ) {
            Ok(u) => u,
            Err(e) => {
                return Err(e);
            },
        }
        proof {
            let post = self.path_nodes@;
            assert forall|i: int| 0 <= i < post.len() implies seg_wf(#[trigger] post[i])
                && ends_sampled(post[i]) && !(post[i].state is LastPlatform) by {
                if i < pre.len() {
                    assert(post[i] == pre[i]);
                }
            }
            assert forall|i: int| 0 <= i < post.len() - 1 implies (
            #[trigger] post[i]).end_pos == post[i + 1].begin_pos by {
                if i < pre.len() - 1 {
                    assert(post[i] == pre[i] && post[i + 1] == pre[i + 1]);
                } else if i == pre.len() - 1 {
                    assert(post[i] == pre[i]);
                    assert(pre[i] == pre.last());
                }
            }
            assert(post.last() == post[post.len() - 1]);
            assert(post[0] == pre[0]);
        }
        Ok(())
    }

    /// Tags an open path's two end segments as the route's termini: the
    /// first as the `-1` terminus and the last as the `1` terminus.  Both
    /// are straight runs, so their geometry is untouched.
    fn mark_terminals(&mut self)
        requires
            partial_path_ok(old(self).path_nodes@),
            old(self).path_nodes@.len() >= 2,
            old(self).path_nodes@[0].state is Moving,
            old(self).path_nodes@.last().state is Moving,
        ensures
            final(self).id == old(self).id,
            final(self).stops == old(self).stops,
            final(self).color == old(self).color,
            final(self).is_looped == old(self).is_looped,
            final(self).dirty == old(self).dirty,
            final(self).path_nodes@.len() == old(self).path_nodes@.len(),
            route_geometry_wf(final(self).path_nodes@),
            terminal_marks_ok(final(self).path_nodes@, false),
            forall|i: int|
                0 <= i < final(self).path_nodes@.len() ==> {
                    let post = #[trigger] final(self).path_nodes@[i];
                    let pre = old(self).path_nodes@[i];
                    &&& post.begin_pos == pre.begin_pos
                    &&& post.end_pos == pre.end_pos
                    &&& (post.state is LastPlatform || post == pre)
                },
    {
        let mut head = self.path_nodes[0];
        let ghost head0 = head;
        head.set_state(VehicleState::LastPlatform(-1));
        proof {
            assert(seg_len_spec(head) == seg_len_spec(head0));
            assert(seg_wf(head));
            lemma_line_ends_sampled(head);
        }
        self.path_nodes.set(0, head);
        let last = self.path_nodes.len() - 1;
        let mut tail = self.path_nodes[last];
        let ghost tail0 = tail;
        tail.set_state(VehicleState::LastPlatform(1));
        proof {
            assert(seg_len_spec(tail) == seg_len_spec(tail0));
            assert(seg_wf(tail));
            lemma_line_ends_sampled(tail);
        }
        self.path_nodes.set(last, tail);
        proof {
            let pre = old(self).path_nodes@;
            let post = self.path_nodes@;
            assert forall|i: int| 0 <= i < post.len() - 1 implies (
            #[trigger] post[i]).end_pos == post[i + 1].begin_pos by {
                assert(pre[i].end_pos == pre[i + 1].begin_pos);
            }
        }
    }

    /// Builds the segments of one consecutive stop pair: the platform arc
    /// pair through the current station when the path has already reached
    /// it, then the pre-turn and post-turn straight runs to the next
    /// station's entrance.  Hands back the current exit offset, the current
    /// station's effective radius, and the next entrance offset.
    #[verifier::rlimit(100)]
    #[verifier::spinoff_prover]
    fn build_pair(
        &mut self,
        stations: &StationHandler,
        routes_on_station: &Vec<u32>,
        curr_stop: Stop,
        next_stop: Stop,
        platform_entrance: Vec2,
    ) -> (r: Result<(Vec2, i64, Vec2), GeometryError>)
        requires
            stations_wf(*stations),
            curr_stop.index < stations.stations@.len(),
            next_stop.index < stations.stations@.len(),
            routes_on_station@.len() == stations.stations@.len(),
            forall|i: int|
                0 <= i < routes_on_station@.len() ==> 1 <= #[trigger] routes_on_station@[i]
                    <= COUNT_LIMIT,
            partial_path_ok(old(self).path_nodes@),
            old(self).path_nodes@.len() > 0 ==> cursor_at(
                old(self).path_nodes@,
                *stations,
                routes_on_station@,
                curr_stop,
                platform_entrance,
            ),
            old(self).path_nodes@.len() > 0 ==> bounded(platform_entrance, RADIUS_LIMIT as int),
        ensures
            final(self).id == old(self).id,
            final(self).stops == old(self).stops,
            final(self).color == old(self).color,
            final(self).is_looped == old(self).is_looped,
            final(self).dirty == old(self).dirty,
            r matches Ok(t) ==> {
                let pre = old(self).path_nodes@;
                let post = final(self).path_nodes@;
                &&& post.len() == pre.len() + (if pre.len() == 0 {
                    2int
                } else {
                    4int
                })
                &&& forall|i: int| 0 <= i < pre.len() ==> post[i] == pre[i]
                &&& partial_path_ok(post)
                &&& cursor_at(post, *stations, routes_on_station@, next_stop, t.2)
                &&& bounded(t.0, RADIUS_LIMIT as int)
                &&& bounded(t.2, RADIUS_LIMIT as int)
                &&& t.1 == stop_radius_spec(*stations, routes_on_station@, curr_stop)
                &&& (pre.len() == 0 ==> head_at(
                    post,
                    *stations,
                    routes_on_station@,
                    curr_stop,
                    t.0,
                    t.1 as int,
                ))
                &&& (t.0.x as int, t.0.y as int) == turning_triple_spec(
                    *stations,
                    routes_on_station@,
                    curr_stop,
                    next_stop,
                ).0
                &&& (t.2.x as int, t.2.y as int) == turning_triple_spec(
                    *stations,
                    routes_on_station@,
                    curr_stop,
                    next_stop,
                ).2
                &&& forall|i: int|
                    pre.len() <= i < post.len() ==> seg_anchored(
                        #[trigger] post[i],
                        *stations,
                        routes_on_station@,
                    )
            },
            r is Err ==> pair_rejected_spec(
                *stations,
                routes_on_station@,
                curr_stop,
                next_stop,
                platform_entrance,
                old(self).path_nodes@.len() > 0,
            ),
            r is Ok ==> !pair_rejected_spec(
                *stations,
                routes_on_station@,
                curr_stop,
                next_stop,
                platform_entrance,
                old(self).path_nodes@.len() > 0,
            ),
    {
        proof {
            reveal(pair_rejected_spec);
            reveal(seg_anchored);
        }
        let curr_station = stations.get(curr_stop.index());
        let next_station = stations.get(next_stop.index());
        if curr_station.position() == next_station.position() {
            return Err(GeometryError::CoincidentStations);
        }
        let curr_radius = self.calc_radius(curr_station, routes_on_station[curr_stop.index()]);
        let got = match self.calculate_turning_point(
            stations,
            &curr_stop,
            &next_stop,
            routes_on_station,
        ) {
            Ok(t) => t,
            Err(e) => {
                return Err(e);
            },
        };
        let platform_exit = got.0;
        let turning_point = got.1;
        let next_platform_entrance = got.2;
        let ghost pre = self.path_nodes@;
        if self.path_nodes.len() > 0 {
            match self.update_platform_segments(
                curr_station.id(),
                next_station.position().sub(curr_station.position()),
                platform_entrance,
                platform_exit,
                curr_station.position(),
                curr_radius,
            ) {
                Ok(u) => u,
                Err(e) => {
                    return Err(e);
                },
            }
        }
        let ghost mid = self.path_nodes@;
        let exit_sn = snap_offset(platform_exit, curr_radius);
        let exit_pt = curr_station.position().add(exit_sn);
        let l1 = turning_point.sub(exit_pt).length();
        if l1 < 1 {
            return Err(GeometryError::DegenerateSegment);
        }
        let line1 = Segment::new(VehicleState::Moving, exit_pt, turning_point, curr_station.id());
        proof {
            lemma_len_le_manhattan(
                Vec2 {
                    x: (turning_point.x - exit_pt.x) as i64,
                    y: (turning_point.y - exit_pt.y) as i64,
                },
            );
            assert(seg_wf(line1));
            lemma_line_ends_sampled(line1);
        }
        self.path_nodes.push(line1);
        let next_radius = self.calc_radius(next_station, routes_on_station[next_stop.index()]);
        let entr_sn = snap_offset(next_platform_entrance, next_radius);
        let entr_pt = next_station.position().add(entr_sn);
        let l2 = entr_pt.sub(turning_point).length();
        if l2 < 1 {
            return Err(GeometryError::DegenerateSegment);
        }
        let line2 = Segment::new(VehicleState::Moving, turning_point, entr_pt, next_station.id());
        proof {
            lemma_len_le_manhattan(
                Vec2 {
                    x: (entr_pt.x - turning_point.x) as i64,
                    y: (entr_pt.y - turning_point.y) as i64,
                },
            );
            assert(seg_wf(line2));
            lemma_line_ends_sampled(line2);
        }
        self.path_nodes.push(line2);
        proof {
            let post = self.path_nodes@;
            assert(post == mid.push(line1).push(line2));
            assert forall|i: int| 0 <= i < post.len() implies seg_wf(#[trigger] post[i])
                && ends_sampled(post[i]) && !(post[i].state is LastPlatform) by {
                if i < mid.len() {
                    assert(post[i] == mid[i]);
                    if i < pre.len() {
                        assert(mid[i] == pre[i]);
                    }
                } else if i == mid.len() {
                    assert(post[i] == line1);
                } else {
                    assert(post[i] == line2);
                }
            }
            assert forall|i: int| 0 <= i < post.len() - 1 implies (
            #[trigger] post[i]).end_pos == post[i + 1].begin_pos by {
                if i < mid.len() - 1 {
                    assert(post[i] == mid[i] && post[i + 1] == mid[i + 1]);
                    if i < pre.len() - 1 {
                        assert(mid[i] == pre[i] && mid[i + 1] == pre[i + 1]);
                    } else if pre.len() > 0 && i == pre.len() - 1 {
                        assert(mid[i] == pre[i]);
                        assert(pre[i] == pre.last());
                    }
                } else if i == mid.len() - 1 {
                    assert(post[i] == mid[i]);
                    assert(mid[i] == mid.last());
                } else if i == mid.len() {
                    assert(post[i] == line1 && post[i + 1] == line2);
                }
            }
            assert(post.last() == line2);
        }
        Ok((platform_exit, curr_radius, next_platform_entrance))
    }

    /// Emits the arrive/leave arc pair that carries the route around a
    /// station's platform, from the entrance offset to the exit offset.
    /// The sweep takes the long way around exactly when the straight
    /// continuation would cut through the station.  Zero-length arcs are
    /// rejected.
    fn update_platform_segments(
        &mut self,
        station_id: usize,
        next_station_vect: Vec2,
        platform_entrance: Vec2,
        platform_exit: Vec2,
        position: Vec2,
        radius: i64,
    ) -> (r: Result<(), GeometryError>)
        requires
            bounded(next_station_vect, 8 * STATION_POS_LIMIT as int),
            bounded(platform_entrance, 2 * RADIUS_LIMIT as int),
            bounded(platform_exit, 2 * RADIUS_LIMIT as int),
            bounded(position, STATION_POS_LIMIT as int),
            1 <= radius <= RADIUS_LIMIT,
        ensures
            final(self).id == old(self).id,
            final(self).stops == old(self).stops,
            final(self).color == old(self).color,
            final(self).is_looped == old(self).is_looped,
            final(self).dirty == old(self).dirty,
            (r is Err) == arc_pair_degenerate_spec(
                next_station_vect,
                platform_entrance,
                platform_exit,
                radius as int,
            ),
            r is Err ==> r == Err::<(), GeometryError>(GeometryError::DegenerateSegment),
            r is Err ==> final(self).path_nodes@ == old(self).path_nodes@,
            r is Ok ==> arc_pair_ok(
                old(self).path_nodes@,
                final(self).path_nodes@,
                station_id as int,
                next_station_vect,
                platform_entrance,
                platform_exit,
                position,
                radius as int,
            ),
    {
        proof {
            reveal(arc_pair_degenerate_spec);
            reveal(snap_x_spec);
            reveal(snap_y_spec);
        }
        let entrance_angle = platform_entrance.angle();
        let exit_angle = platform_exit.angle();
        let diff = platform_exit.sub(platform_entrance);
        let pick_larger_angle = next_station_vect.dot(diff) < 0;
        let half: i64 = 1024;
        proof {
            assert((ONE as int) / 2 == 1024);
        }
        let center_angle = normalize_angle(
            lerp_angle(entrance_angle, exit_angle, half, pick_larger_angle),
        );
        let span_arrive = angle_between(center_angle, entrance_angle);
        let span_leave = angle_between(exit_angle, center_angle);
        proof {
            lemma_arc_len_range(radius as int, span_arrive as int);
            lemma_arc_len_range(radius as int, span_leave as int);
        }
        let len_arrive = div_floor(radius * span_arrive, ONE);
        let len_leave = div_floor(radius * span_leave, ONE);
        if len_arrive < 1 || len_leave < 1 {
            return Err(GeometryError::DegenerateSegment);
        }
        let entr_sn = snap_offset(platform_entrance, radius);
        let exit_sn = snap_offset(platform_exit, radius);
        let begin_pt = position.add(entr_sn);
        let center_off = Vec2::from_angle(center_angle).mul_fx(radius);
        proof {
            lemma_fx_unit_scale(cos_spec(center_angle as int), radius as int);
            lemma_fx_unit_scale(sin_spec(center_angle as int), radius as int);
        }
        let center_pt = position.add(center_off);
        let end_pt = position.add(exit_sn);
        let arrive = Segment::new(
            VehicleState::ArrivePlatform(
                position,
                radius,
                entrance_angle,
                center_angle,
                exit_angle,
                pick_larger_angle,
            ),
            begin_pt,
            center_pt,
            station_id,
        );
        let leave = Segment::new(
            VehicleState::LeavePlatform(
                position,
                radius,
                entrance_angle,
                center_angle,
                exit_angle,
                pick_larger_angle,
            ),
            center_pt,
            end_pt,
            station_id,
        );
        proof {
            assert(seg_wf(arrive));
            assert(seg_wf(leave));
            lemma_arc_ends_sampled(arrive);
            lemma_arc_ends_sampled(leave);
        }
        let ghost pre = self.path_nodes@;
        self.path_nodes.push(arrive);
        self.path_nodes.push(leave);
        proof {
            assert(self.path_nodes@.subrange(0, pre.len() as int) =~= pre);
        }
        Ok(())
    }

    /// Computes the platform exit offset at the current station, the pivot
    /// where the quantised straight run turns onto the next station's
    /// entrance, and the next station's platform entrance offset.  The pair
    /// is oriented from the smaller-radius station, and the results are
    /// mirrored back when that reversed the pair, so the construction does
    /// not depend on pair order.
    #[verifier::rlimit(100)]
    #[verifier::spinoff_prover]
    /// Computes the platform exit offset at the current station, the pivot
    /// where the quantised straight run turns onto the next station's
    /// entrance, and the next station's platform entrance offset, exactly
    /// as the pivot construction defines them in the caller's orientation.
    /// Fails exactly when the construction degenerates.
    fn calculate_turning_point(
        &self,
        stations: &StationHandler,
        curr_stop: &Stop,
        next_stop: &Stop,
        routes_on_station: &Vec<u32>,
    ) -> (r: Result<(Vec2, Vec2, Vec2), GeometryError>)
        requires
            stations_wf(*stations),
            curr_stop.index < stations.stations@.len(),
            next_stop.index < stations.stations@.len(),
            routes_on_station@.len() == stations.stations@.len(),
            forall|i: int|
                0 <= i < routes_on_station@.len() ==> 1 <= #[trigger] routes_on_station@[i]
                    <= COUNT_LIMIT,
        ensures
            (r is Err) == turning_degenerate_spec(
                *stations,
                routes_on_station@,
                *curr_stop,
                *next_stop,
            ),
            r is Err ==> r == Err::<(Vec2, Vec2, Vec2), GeometryError>(
                GeometryError::DegenerateDirection,
            ),
            r matches Ok(t) ==> {
                let triple = turning_triple_spec(
                    *stations,
                    routes_on_station@,
                    *curr_stop,
                    *next_stop,
                );
                &&& (t.0.x as int, t.0.y as int) == triple.0
                &&& (t.1.x as int, t.1.y as int) == triple.1
                &&& (t.2.x as int, t.2.y as int) == triple.2
                &&& bounded(t.0, RADIUS_LIMIT as int)
                &&& bounded(t.1, POS_LIMIT as int)
                &&& bounded(t.2, RADIUS_LIMIT as int)
            },
    {
        let mut begin_stop = curr_stop.index();
        let mut end_stop = next_stop.index();
        let mut curr_radius = self.calc_radius(
            stations.get(begin_stop),
            routes_on_station[begin_stop],
        );
        let mut next_radius = self.calc_radius(stations.get(end_stop), routes_on_station[end_stop]);
        let reversed = curr_radius < next_radius;
        if reversed {
            let tmp_r = curr_radius;
            curr_radius = next_radius;
            next_radius = tmp_r;
            let tmp_s = begin_stop;
            begin_stop = end_stop;
            end_stop = tmp_s;
        }
        let bpos = stations.get(begin_stop).position();
        let epos = stations.get(end_stop).position();
        let bneg = (if reversed {
            -curr_stop.side_factor()
        } else {
            curr_stop.side_factor()
        }) < 0;
        let eneg = (if reversed {
            -next_stop.side_factor()
        } else {
            next_stop.side_factor()
        }) < 0;
        proof {
            reveal(turning_triple_spec);
            reveal(turning_degenerate_spec);
            let frame = turn_frame_spec(*stations, routes_on_station@, *curr_stop, *next_stop);
            assert(bpos == frame.0 && epos == frame.1);
            assert(curr_radius == frame.2 && next_radius == frame.3);
            assert(bneg == frame.4 && eneg == frame.5);
            assert(reversed == frame.6);
        }
        let core = Self::turning_construction(bpos, epos, curr_radius, next_radius, bneg, eneg);
        match core {
            Err(e) => Err(e),
            Ok(t) => {
                if reversed {
                    Ok((t.2, t.1, t.0))
                } else {
                    Ok(t)
                }
            },
        }
    }

    /// The pivot construction itself, anchored at the pair's larger-radius
    /// station: the quantised leg leaves the anchor's platform exit, and
    /// the pivot is placed against the far station's entrance circle.
    /// Fails exactly when the direction onto the far station degenerates.
    #[verifier::rlimit(100)]
    #[verifier::spinoff_prover]
    fn turning_construction(
        bpos: Vec2,
        epos: Vec2,
        br: i64,
        er: i64,
        bneg: bool,
        eneg: bool,
    ) -> (r: Result<(Vec2, Vec2, Vec2), GeometryError>)
        requires
            bounded(bpos, STATION_POS_LIMIT as int),
            bounded(epos, STATION_POS_LIMIT as int),
            1 <= br <= RADIUS_LIMIT,
            1 <= er <= RADIUS_LIMIT,
        ensures
            (r is Err) == turn_degenerate_spec(bpos, epos, br as int, bneg),
            r is Err ==> r == Err::<(Vec2, Vec2, Vec2), GeometryError>(
                GeometryError::DegenerateDirection,
            ),
            r matches Ok(t) ==> {
                &&& (t.0.x as int, t.0.y as int) == turn_exit_spec(bpos, epos, br as int, bneg)
                &&& (t.1.x as int, t.1.y as int) == turn_pivot_spec(
                    bpos,
                    epos,
                    br as int,
                    er as int,
                    bneg,
                    eneg,
                )
                &&& (t.2.x as int, t.2.y as int) == turn_entrance_spec(
                    bpos,
                    epos,
                    br as int,
                    er as int,
                    bneg,
                    eneg,
                )
                &&& bounded(t.0, RADIUS_LIMIT as int)
                &&& bounded(t.1, POS_LIMIT as int)
                &&& bounded(t.2, RADIUS_LIMIT as int)
            },
    {
        proof {
            reveal(turn_dir_spec);
            reveal(turn_exit_spec);
            reveal(turn_center_spec);
            reveal(turn_degenerate_spec);
            reveal(turn_entrance_spec);
            reveal(turn_pivot_spec);
        }
        let station_vect = epos.sub(bpos);
        let starting_direction = quantized_direction(station_vect);
        let platform_exit = scaled_side_offset(starting_direction.perp().neg(), br, bneg);
        let platform_exit_vect = bpos.add(platform_exit);

        let exit_to_next_station = epos.sub(platform_exit_vect);
        let turning_angle = angle_between(
            exit_to_next_station.angle(),
            starting_direction.angle(),
        );
        let c = crate::utils::trig::cos_fp(turning_angle);
        let s = crate::utils::trig::sin_fp(turning_angle);
        let e2n_len = exit_to_next_station.length();
        proof {
            lemma_len_le_manhattan(exit_to_next_station);
        }
        let reach = turning_reach(e2n_len, c, s);
        let turning_point_as_center = platform_exit_vect.add(
            dir_step(starting_direction, reach),
        );

        let tocenter = epos.sub(turning_point_as_center);
        if tocenter.x == 0 && tocenter.y == 0 {
            return Err(GeometryError::DegenerateDirection);
        }
        let ndir = tocenter.normalize().perp().neg();
        let next_platform_entrance = scaled_side_offset(ndir, er, eneg);

        let d = starting_direction.dot(next_platform_entrance);
        proof {
            assert(er * SQRT_2 <= 0x4000_0000_0000) by (nonlinear_arith)
                requires
                    0 <= er <= 0x10_0000,
                    SQRT_2 == 2896i64,
            ;
            assert(0 <= er * SQRT_2) by (nonlinear_arith)
                requires
                    0 <= er,
                    SQRT_2 == 2896i64,
            ;
            lemma_fx_double_scale(er as int, SQRT_2 as int, er as int);
        }
        let half_diag = fx_mul(er, SQRT_2);
        let signed_diag = if d >= 0 {
            half_diag
        } else {
            -half_diag
        };
        let turning_point = turning_point_as_center.add(
            dir_step(starting_direction, signed_diag),
        );
        Ok((platform_exit, turning_point, next_platform_entrance))
    }

    /// Recomputes the segment path if the topology changed, then records
    /// this route's interior stops in the per-station occupancy counts, so
    /// routes rebuilt later push their tracks further out.
    #[verifier::rlimit(100)]
    #[verifier::spinoff_prover]
    pub fn update(&mut self, stations: &StationHandler, routes_on_station: &mut Vec<u32>) -> (r:
        Result<(), GeometryError>)
        requires
            stations_wf(*stations),
            2 <= old(self).stops@.len() < 0x10000,
            forall|i: int|
                0 <= i < old(self).stops@.len() ==> (#[trigger] old(self).stops@[i]).index
                    < stations.stations@.len(),
            old(routes_on_station)@.len() == stations.stations@.len(),
            forall|i: int|
                0 <= i < old(routes_on_station)@.len() ==> 1 <= #[trigger] old(
                    routes_on_station,
                )@[i] <= COUNT_LIMIT,
            !old(self).dirty ==> built_path_ok(*old(self)),
        ensures
            final(self).id == old(self).id,
            final(self).stops == old(self).stops,
            final(self).color == old(self).color,
            final(self).is_looped == old(self).is_looped,
            final(routes_on_station)@.len() == old(routes_on_station)@.len(),
            r is Ok ==> !final(self).dirty && built_path_ok(*final(self)),
            !old(self).dirty ==> final(self).path_nodes == old(self).path_nodes,
            !old(self).dirty ==> final(self).dirty == old(self).dirty,
            r is Ok && old(self).dirty ==> path_anchored(
                final(self).path_nodes@,
                final(self).stops@,
                final(self).is_looped,
                *stations,
                old(routes_on_station)@,
            ),
            (r is Err) == (old(self).dirty && synthesis_rejects(
                *stations,
                old(routes_on_station)@,
                old(self).stops@,
                old(self).is_looped,
            )),
            r is Ok ==> forall|j: int|
                0 <= j < old(routes_on_station)@.len() ==> #[trigger] final(routes_on_station)@[j]
                    == old(routes_on_station)@[j] + uses_below(
                    old(self).stops@,
                    j,
                    old(self).stops@.len() - 1,
                ),
            r is Err ==> final(routes_on_station)@ == old(routes_on_station)@,
            r is Err ==> final(self).dirty == old(self).dirty,
    {
        if self.dirty {
            match self.update_route_segments(stations, routes_on_station) {
                Ok(u) => u,
                Err(e) => {
                    return Err(e);
                },
            }
            self.dirty = false;
        }
        let ghost entry_counts = routes_on_station@;
        let mut idx: usize = 1;
        let stop_count = self.stops.len();
        while idx < stop_count - 1
            invariant
                1 <= idx <= stop_count - 1,
                2 <= stop_count < 0x10000,
                stop_count == self.stops@.len(),
                self.id == old(self).id,
                self.stops == old(self).stops,
                self.color == old(self).color,
                self.is_looped == old(self).is_looped,
                !self.dirty,
                built_path_ok(*self),
                entry_counts == old(routes_on_station)@,
                old(self).dirty ==> path_anchored(
                    self.path_nodes@,
                    self.stops@,
                    self.is_looped,
                    *stations,
                    entry_counts,
                ),
                !old(self).dirty ==> self.path_nodes == old(self).path_nodes,
                forall|i: int|
                    0 <= i < self.stops@.len() ==> (#[trigger] self.stops@[i]).index
                        < routes_on_station@.len(),
                routes_on_station@.len() == entry_counts.len(),
                forall|j: int|
                    0 <= j < entry_counts.len() ==> 1 <= #[trigger] entry_counts[j] <= COUNT_LIMIT,
                forall|j: int|
                    0 <= j < routes_on_station@.len() ==> #[trigger] routes_on_station@[j]
                        == entry_counts[j] + uses_below(self.stops@, j, idx as int),
                forall|j: int|
                    0 <= j < routes_on_station@.len() ==> #[trigger] routes_on_station@[j]
                        <= entry_counts[j] + idx - 1,
            decreases stop_count - 1 - idx,
        {
            let i = self.stops[idx].index();
            let c = routes_on_station[i];
            routes_on_station.set(i, c + 1);
            idx = idx + 1;
        }
        Ok(())
    }

    /// The effective radius of a station as this route sees it.
    fn calc_radius(&self, station: &Station, route_count: u32) -> (r: i64)
        requires
            station_wf(*station),
            1 <= route_count <= COUNT_LIMIT,
        ensures
            r == radius_spec(station.size as int, route_count as int),
            1 <= r <= RADIUS_LIMIT,
    {
        proof {
            assert(10240 <= (ROUTE_LINE_WIDTH + PLATFORM_GAP_WIDTH) * (route_count as i64)
                <= 491520) by (nonlinear_arith)
                requires
                    1 <= route_count <= 48,
                    ROUTE_LINE_WIDTH == 9216i64,
                    PLATFORM_GAP_WIDTH == 1024i64,
            ;
        }
        station.size() + (ROUTE_LINE_WIDTH + PLATFORM_GAP_WIDTH) * (route_count as i64)
    }
}

/// What the traversal state machine needs of a path: every segment well
/// formed, terminal tagging correct for the loop flag, and at least two
/// segments.
pub open spec fn path_traversable(r: Route) -> bool {
    &&& forall|i: int| 0 <= i < r.path_nodes@.len() ==> seg_wf(#[trigger] r.path_nodes@[i])
    &&& terminal_marks_ok(r.path_nodes@, r.is_looped)
    &&& r.path_nodes@.len() >= 2
}

/// A fully built route is traversable.
pub proof fn lemma_built_path_traversable(r: Route)
    requires
        built_path_ok(r),
        r.stops@.len() >= 2,
    ensures
        path_traversable(r),
{
}

/// Path continuity: within a built route, every segment's sample at its
/// own full length is exactly the next segment's sample at distance zero.
/// There is no gap and no jump anywhere along the realised path.
pub proof fn lemma_path_continuity(r: Route, i: int)
    requires
        built_path_ok(r),
        0 <= i < r.path_nodes@.len() - 1,
    ensures
        pos_x_spec(r.path_nodes@[i], seg_len_spec(r.path_nodes@[i])) == pos_x_spec(
            r.path_nodes@[i + 1],
            0,
        ),
        pos_y_spec(r.path_nodes@[i], seg_len_spec(r.path_nodes@[i])) == pos_y_spec(
            r.path_nodes@[i + 1],
            0,
        ),
{
    reveal(ends_sampled);
    assert(ends_sampled(r.path_nodes@[i]));
    assert(ends_sampled(r.path_nodes@[i + 1]));
    assert(r.path_nodes@[i].end_pos == r.path_nodes@[i + 1].begin_pos);
}

/// Loop closure: a looped route's final segment samples back onto the very
/// point its first segment starts from.
pub proof fn lemma_loop_closure(r: Route)
    requires
        built_path_ok(r),
        r.is_looped,
        r.path_nodes@.len() > 0,
    ensures
        pos_x_spec(r.path_nodes@.last(), seg_len_spec(r.path_nodes@.last())) == pos_x_spec(
            r.path_nodes@[0],
            0,
        ),
        pos_y_spec(r.path_nodes@.last(), seg_len_spec(r.path_nodes@.last())) == pos_y_spec(
            r.path_nodes@[0],
            0,
        ),
{
    reveal(ends_sampled);
    assert(ends_sampled(r.path_nodes@.last()));
    assert(ends_sampled(r.path_nodes@[0]));
}

/// An in-range radius and an angular span of at most a half turn give an
/// arc length that fits the segment bound.
proof fn lemma_arc_len_range(radius: int, span: int)
    requires
        1 <= radius <= RADIUS_LIMIT,
        0 <= span <= PI,
    ensures
        0 <= radius * span <= RADIUS_LIMIT * (PI as int),
        0 <= (radius * span) / (ONE as int) <= LEN_LIMIT,
{
    assert(0 <= radius * span <= RADIUS_LIMIT * (PI as int)) by (nonlinear_arith)
        requires
            1 <= radius <= RADIUS_LIMIT,
            0 <= span <= PI,
    ;
    vstd::arithmetic::div_mod::lemma_div_pos_is_pos(radius * span, ONE as int);
    vstd::arithmetic::div_mod::lemma_div_is_ordered(
        radius * span,
        RADIUS_LIMIT * (PI as int),
        ONE as int,
    );
    assert(RADIUS_LIMIT * (PI as int) == (ONE as int) * 3294208) by (nonlinear_arith)
        requires
            RADIUS_LIMIT == 0x10_0000i64,
            PI == 6434i64,
            ONE == 2048i64,
    ;
    vstd::arithmetic::div_mod::lemma_div_multiples_vanish(3294208, ONE as int);
}

/// Scaling a bounded value by a factor of magnitude at most two units
/// keeps it within twice the bound, give or take a rounding step.
proof fn lemma_fx_double_scale(s: int, c: int, m: int)
    requires
        -m <= s <= m,
        0 <= m,
        -2 * (ONE as int) <= c <= 2 * (ONE as int),
    ensures
        -(2 * m + 1) <= fx_mul_spec(s, c) <= 2 * m + 1,
{
    assert(-((ONE as int) * (2 * m + 1)) <= s * c <= (ONE as int) * (2 * m + 1))
        by (nonlinear_arith)
        requires
            -m <= s <= m,
            0 <= m,
            -2 * (ONE as int) <= c <= 2 * (ONE as int),
            ONE == 2048i64,
    ;
    vstd::arithmetic::div_mod::lemma_div_is_ordered(
        s * c,
        (ONE as int) * (2 * m + 1),
        ONE as int,
    );
    vstd::arithmetic::div_mod::lemma_div_is_ordered(
        (ONE as int) * (-(2 * m + 1)),
        s * c,
        ONE as int,
    );
    vstd::arithmetic::div_mod::lemma_div_multiples_vanish(2 * m + 1, ONE as int);
    vstd::arithmetic::div_mod::lemma_div_multiples_vanish(-(2 * m + 1), ONE as int);
    assert((ONE as int) * (-(2 * m + 1)) == -((ONE as int) * (2 * m + 1)));
}

/// The compass direction nearest to a vector's own direction, one of the
/// eight multiples of an eighth turn, as a unit vector.
fn quantized_direction(v: Vec2) -> (dir: Vec2)
    requires
        bounded(v, VEC_RANGE as int),
    ensures
        bounded(dir, ONE as int),
        dir.x == cos_spec(quantized_angle_spec(v)),
        dir.y == sin_spec(quantized_angle_spec(v)),
{
    let a = v.angle();
    let oct = div_floor(8 * a + PI, 2 * PI);
    proof {
        lemma_div_floor_bounds(8 * (a as int) + PI, 2 * (PI as int));
        lemma_div_floor_bounds(oct * (PI as int), 4);
    }
    let qa = div_floor(oct * PI, 4);
    Vec2::from_angle(qa)
}

/// A unit direction scaled out to a platform radius, flipped to the chosen
/// side.
fn scaled_side_offset(dir: Vec2, radius: i64, negate: bool) -> (off: Vec2)
    requires
        bounded(dir, ONE as int),
        0 <= radius <= RADIUS_LIMIT,
    ensures
        bounded(off, RADIUS_LIMIT as int),
        (off.x as int, off.y as int) == side_offset_spec(
            dir.x as int,
            dir.y as int,
            radius as int,
            negate,
        ),
{
    let off = dir.mul_fx(radius);
    proof {
        lemma_fx_unit_scale_signed(dir.x as int, radius as int, RADIUS_LIMIT as int);
        lemma_fx_unit_scale_signed(dir.y as int, radius as int, RADIUS_LIMIT as int);
    }
    if negate {
        off.neg()
    } else {
        off
    }
}

/// A step of the given fixed-point magnitude along a unit direction; each
/// component stays within the magnitude.
fn dir_step(dir: Vec2, scale: i64) -> (st: Vec2)
    requires
        bounded(dir, ONE as int),
        -VEC_RANGE <= scale <= VEC_RANGE,
    ensures
        bounded(st, abs(scale as int) as int),
        st.x == fx_mul_spec(dir.x as int, scale as int),
        st.y == fx_mul_spec(dir.y as int, scale as int),
{
    let st = dir.mul_fx(scale);
    proof {
        lemma_fx_unit_scale_signed(dir.x as int, scale as int, abs(scale as int) as int);
        lemma_fx_unit_scale_signed(dir.y as int, scale as int, abs(scale as int) as int);
    }
    st
}

/// How far along the quantised direction the pivot's reference point sits:
/// the straight-line distance to the next station scaled by the difference
/// of the turning angle's cosine and sine.
fn turning_reach(e2n_len: i64, c: i64, s: i64) -> (r: i64)
    requires
        0 <= e2n_len <= 0x4000_0000,
        -(ONE as int) <= c <= ONE as int,
        -(ONE as int) <= s <= ONE as int,
    ensures
        -(2 * (e2n_len as int) + 1) <= r <= 2 * (e2n_len as int) + 1,
        r == fx_mul_spec(e2n_len as int, c as int - s as int),
{
    proof {
        assert(e2n_len * (c - s) <= 0x1000_0000_0000) by (nonlinear_arith)
            requires
                0 <= e2n_len <= 0x4000_0000,
                -2 * 2048 <= c - s <= 2 * 2048,
        ;
        assert(-0x1000_0000_0000 <= e2n_len * (c - s)) by (nonlinear_arith)
            requires
                0 <= e2n_len <= 0x4000_0000,
                -2 * 2048 <= c - s <= 2 * 2048,
        ;
        lemma_fx_double_scale(e2n_len as int, c as int - s as int, e2n_len as int);
    }
    fx_mul(e2n_len, c - s)
}

/// A platform offset snapped onto the station circle: the point at the
/// station's radius in the offset's direction, computed through the same
/// angle sampling arcs use.
fn snap_offset(off: Vec2, radius: i64) -> (s: Vec2)
    requires
        bounded(off, VEC_RANGE as int),
        0 <= radius <= RADIUS_LIMIT,
    ensures
        s.x == snap_x_spec(off, radius as int),
        s.y == snap_y_spec(off, radius as int),
        bounded(s, radius as int),
{
    proof {
        reveal(snap_x_spec);
        reveal(snap_y_spec);
    }
    let a = off.angle();
    let dir = Vec2::from_angle(a);
    let s = dir.mul_fx(radius);
    proof {
        lemma_fx_unit_scale(cos_spec(a as int), radius as int);
        lemma_fx_unit_scale(sin_spec(a as int), radius as int);
    }
    s
}

} // verus!
