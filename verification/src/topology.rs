//! Ground sites, relay paths and link statistics.
//!
//! A link joins two ground sites through each site's currently nearest
//! satellite: ground, first satellite, second satellite, ground — three
//! edges.  Every tick the statistics are recomputed from current state: a
//! ground-to-satellite edge uses the slant range, a satellite-to-satellite
//! edge the straight-line distance in the shared inertial frame, and each
//! edge's latency is its distance over the speed of light.

use vstd::prelude::*;

verus! {

use crate::geodesy::spec_ground_space_distance;
use crate::geodesy::spec_space_space_distance;
use crate::geodesy::ground_space_distance;
use crate::geodesy::space_space_distance;
use crate::geodesy::valid_coord;
use crate::geodesy::valid_position;
use crate::tracker::PositionTracker;
use crate::LIGHT_SPEED_M_PER_S;
use crate::light_travel_ns;

/// A ground station: a fixed identifier and a fixed geodetic coordinate
/// (latitude and longitude in nanodegrees; the altitude is zero).
pub struct GroundStation {
    /// Site identifier.
    pub id: u64,
    /// Geodetic `(latitude, longitude)` in nanodegrees.
    pub coord: (i64, i64),
}

/// The nearest satellite found for a ground site and its slant distance in
/// metres.
#[derive(Clone, Copy, Debug, PartialEq, Eq, Structural)]
pub struct NearestSat {
    /// Catalog number of the nearest satellite.
    pub sat_id: u64,
    /// Slant distance from the site to that satellite, metres.
    pub distance: u64,
}

/// One end of a link edge: a satellite or a ground site, resolved once at
/// path construction.
#[derive(Clone, Copy, Debug, PartialEq, Eq, Structural)]
pub enum LinkEndpoint {
    /// A tracked object, by catalog number.
    Satellite(u64),
    /// A ground station, by site identifier.
    Ground(u64),
}

/// One edge of a relay path.
#[derive(Clone, Copy, Debug, PartialEq, Eq, Structural)]
pub struct DataEdge(pub LinkEndpoint, pub LinkEndpoint);

/// A relay path: the ordered edges joining two ground sites.
pub struct DataLink(pub Vec<DataEdge>);

/// A registered ground-pair link, by the two site identifiers.
#[derive(Clone, Copy, Debug, PartialEq, Eq, Structural)]
pub struct GSDataLink(pub u64, pub u64);

/// Per-edge distances and latencies of one link, recomputed every tick.
pub struct DataLinkStats {
    /// Distance of each edge, metres.
    pub distance: Vec<u64>,
    /// Latency of each edge, nanoseconds.
    pub latencies: Vec<u64>,
    /// Sum of the edge distances, metres.
    pub total_distance_m: u64,
    /// Total latency: the summed distance over the speed of light,
    /// nanoseconds.
    pub total_latency_ns: u64,
}

/// Slant distance from a ground coordinate to one candidate, used by the
/// nearest-satellite scan.  The candidate carries `(id, latitude,
/// longitude, altitude)` with angles in nanodegrees and the altitude in
/// metres.
pub open spec fn spec_cand_distance(ground: (i64, i64), cand: (u64, i64, i64, u64)) -> int {
    spec_ground_space_distance(ground, (cand.1, cand.2, cand.3))
}

/// A candidate row is within the ranges the slant range accepts.
pub open spec fn valid_candidate(cand: (u64, i64, i64, u64)) -> bool {
    valid_coord((cand.1, cand.2)) && cand.3 <= 100_000_000_000u64
}

/// Scans the candidates and returns the one nearest to `ground` by slant
/// distance, ties broken by first-encountered order; `None` exactly when
/// there are no candidates.
pub fn nearest_satellite(ground: (i64, i64), candidates: &Vec<(u64, i64, i64, u64)>) -> (r: Option<
    NearestSat,
>)
    requires
        valid_coord(ground),
        forall|i: int| 0 <= i < candidates@.len() ==> valid_candidate(#[trigger] candidates@[i]),
    ensures
        r is Some <==> candidates@.len() > 0,
        r matches Some(n) ==> exists|i: int|
            {
                &&& 0 <= i < candidates@.len()
                &&& n.sat_id == (#[trigger] candidates@[i]).0
                &&& n.distance == spec_cand_distance(ground, candidates@[i])
                &&& forall|j: int|
                    0 <= j < candidates@.len() ==> spec_cand_distance(
                        ground,
                        #[trigger] candidates@[j],
                    ) >= n.distance
                &&& forall|j: int|
                    0 <= j < i ==> spec_cand_distance(ground, #[trigger] candidates@[j])
                        > n.distance
            },
{
    if candidates.len() == 0 {
        return None;
    }
    let first = candidates[0];
    let mut best_i: usize = 0;
    let mut best = NearestSat {
        sat_id: first.0,
        distance: ground_space_distance(ground, (first.1, first.2, first.3)),
    };
    let mut k: usize = 1;
    while k < candidates.len()
        invariant
            valid_coord(ground),
            forall|i: int|
                0 <= i < candidates@.len() ==> valid_candidate(#[trigger] candidates@[i]),
            1 <= k <= candidates@.len(),
            best_i < k,
            best.sat_id == candidates@[best_i as int].0,
            best.distance == spec_cand_distance(ground, candidates@[best_i as int]),
            forall|j: int|
                0 <= j < k ==> spec_cand_distance(ground, #[trigger] candidates@[j])
                    >= best.distance,
            forall|j: int|
                0 <= j < best_i ==> spec_cand_distance(ground, #[trigger] candidates@[j])
                    > best.distance,
        decreases candidates@.len() - k,
    {
        let c = candidates[k];
        let d = ground_space_distance(ground, (c.1, c.2, c.3));
        if d < best.distance {
            best_i = k;
            best = NearestSat { sat_id: c.0, distance: d };
        }
        k = k + 1;
    }
    proof {
        assert((best_i as int) < candidates@.len() && best.sat_id == candidates@[best_i
            as int].0 && best.distance == spec_cand_distance(ground, candidates@[best_i as int])
            && (forall|j: int|
            0 <= j < candidates@.len() ==> spec_cand_distance(ground, #[trigger] candidates@[j])
                >= best.distance) && (forall|j: int|
            0 <= j < best_i as int ==> spec_cand_distance(ground, #[trigger] candidates@[j])
                > best.distance));
    }
    Some(best)
}

/// The three-edge relay path for a ground pair routed through the two
/// nearest satellites.
pub open spec fn spec_relay_edges(pair: (u64, u64), sat_a: u64, sat_b: u64) -> Seq<DataEdge> {
    seq![
        DataEdge(LinkEndpoint::Ground(pair.0), LinkEndpoint::Satellite(sat_a)),
        DataEdge(LinkEndpoint::Satellite(sat_a), LinkEndpoint::Satellite(sat_b)),
        DataEdge(LinkEndpoint::Satellite(sat_b), LinkEndpoint::Ground(pair.1)),
    ]
}

/// Builds the relay path for a newly registered ground pair.
///
/// Both sites need a nearest satellite; while either has none, no path is
/// established yet.
pub fn init_gslinks(
    link: &GSDataLink,
    nearest_a: Option<&NearestSat>,
    nearest_b: Option<&NearestSat>,
) -> (r: Option<DataLink>)
    ensures
        r is Some <==> (nearest_a is Some && nearest_b is Some),
        r matches Some(d) ==> d.0@ == spec_relay_edges(
            (link.0, link.1),
            nearest_a->0.sat_id,
            nearest_b->0.sat_id,
        ),
{
    match (nearest_a, nearest_b) {
        (Some(na), Some(nb)) => {
            let (a, b) = (link.0, link.1);
            let mut dlink: Vec<DataEdge> = Vec::new();
            dlink.push(DataEdge(LinkEndpoint::Ground(a), LinkEndpoint::Satellite(na.sat_id)));
            dlink.push(DataEdge(LinkEndpoint::Satellite(na.sat_id), LinkEndpoint::Satellite(nb.sat_id)));
            dlink.push(DataEdge(LinkEndpoint::Satellite(nb.sat_id), LinkEndpoint::Ground(b)));
            proof {
                assert(dlink@ =~= spec_relay_edges((link.0, link.1), na.sat_id, nb.sat_id));
            }
            Some(DataLink(dlink))
        },
        _ => None,
    }
}

/// Rebuilds an established relay path from the current nearest satellites.
///
/// While either site has no candidate satellite, the link keeps its
/// previous path rather than being torn down.
pub fn rebuild_gslinks(
    link: &GSDataLink,
    current: &mut DataLink,
    nearest_a: Option<&NearestSat>,
    nearest_b: Option<&NearestSat>,
)
    ensures
        nearest_a is Some && nearest_b is Some ==> final(current).0@ == spec_relay_edges(
            (link.0, link.1),
            nearest_a->0.sat_id,
            nearest_b->0.sat_id,
        ),
        !(nearest_a is Some && nearest_b is Some) ==> final(current).0@ == old(current).0@,
{
    let rebuilt = init_gslinks(link, nearest_a, nearest_b);
    match rebuilt {
        Some(d) => {
            *current = d;
        },
        None => {},
    }
}

/// Looks a ground station up by identifier.
pub fn find_site<'a>(sites: &'a Vec<GroundStation>, id: u64) -> (r: Option<&'a GroundStation>)
    ensures
        r matches Some(g) ==> exists|i: int|
            0 <= i < sites@.len() && (#[trigger] sites@[i]).id == id && *g == sites@[i],
        r is None ==> forall|i: int| 0 <= i < sites@.len() ==> (#[trigger] sites@[i]).id != id,
{
    let mut i: usize = 0;
    while i < sites.len()
        invariant
            i <= sites@.len(),
            forall|k: int| 0 <= k < i ==> (#[trigger] sites@[k]).id != id,
        decreases sites@.len() - i,
    {
        if sites[i].id == id {
            return Some(&sites[i]);
        }
        i = i + 1;
    }
    None
}

/// Ground-station identifiers are unique in a site table.
pub open spec fn sites_wf(sites: Seq<GroundStation>) -> bool {
    forall|i: int, j: int| 0 <= i < j < sites.len() ==> sites[i].id != sites[j].id
}

/// The coordinate registered for site `id`, if any.
#[verifier::opaque]
pub open spec fn site_coord(sites: Seq<GroundStation>, id: u64) -> Option<(i64, i64)> {
    if exists|i: int| 0 <= i < sites.len() && sites[i].id == id {
        Some(sites[choose|i: int| 0 <= i < sites.len() && sites[i].id == id].coord)
    } else {
        None
    }
}

/// Distance of a ground-to-satellite edge: the slant range from the site's
/// coordinate to the satellite's current geodetic coordinate.  Unresolvable
/// when the site is unknown, the satellite is not tracked, it has no
/// geodetic coordinate yet, or a value lies outside the slant range's
/// working envelope (a negative altitude counts as surface level).
pub open spec fn spec_ground_sat_distance(
    g: u64,
    s: u64,
    tracker: PositionTracker,
    sites: Seq<GroundStation>,
) -> Option<int> {
    match site_coord(sites, g) {
        Some(coord) => if tracker.contains_id(s) && tracker.spec_get(s).geodetic is Some {
            let lla = tracker.spec_get(s).geodetic->0;
            let alt = if lla.2 >= 0 { lla.2 } else { 0 };
            if valid_coord(coord) && valid_coord((lla.0, lla.1)) && alt <= 100_000_000_000i64 {
                Some(spec_ground_space_distance(coord, (lla.0, lla.1, alt as u64)))
            } else {
                None
            }
        } else {
            None
        },
        None => None,
    }
}

/// Distance of a satellite-to-satellite edge: the straight-line distance
/// between the two inertial positions.
pub open spec fn spec_sat_sat_distance(s1: u64, s2: u64, tracker: PositionTracker) -> Option<int> {
    if tracker.contains_id(s1) && tracker.contains_id(s2) && tracker.spec_get(s1).position is Some
        && tracker.spec_get(s2).position is Some {
        let p1 = tracker.spec_get(s1).position->0;
        let p2 = tracker.spec_get(s2).position->0;
        if valid_position((p1.0, p1.1, p1.2)) && valid_position((p2.0, p2.1, p2.2)) {
            Some(spec_space_space_distance((p1.0, p1.1, p1.2), (p2.0, p2.1, p2.2)))
        } else {
            None
        }
    } else {
        None
    }
}

/// Distance of one edge, chosen by the endpoint kinds: ground-satellite
/// edges use the slant range, satellite-satellite edges the straight-line
/// distance; a ground-ground edge never occurs in a relay path and does not
/// resolve.
pub open spec fn spec_edge_distance(
    edge: DataEdge,
    tracker: PositionTracker,
    sites: Seq<GroundStation>,
) -> Option<int> {
    match (edge.0, edge.1) {
        (LinkEndpoint::Ground(g), LinkEndpoint::Satellite(s)) => spec_ground_sat_distance(
            g,
            s,
            tracker,
            sites,
        ),
        (LinkEndpoint::Satellite(s), LinkEndpoint::Ground(g)) => spec_ground_sat_distance(
            g,
            s,
            tracker,
            sites,
        ),
        (LinkEndpoint::Satellite(s1), LinkEndpoint::Satellite(s2)) => spec_sat_sat_distance(
            s1,
            s2,
            tracker,
        ),
        (LinkEndpoint::Ground(_), LinkEndpoint::Ground(_)) => None,
    }
}

/// Sum of a sequence of distances.
pub open spec fn sum_dist(s: Seq<int>) -> int
    decreases s.len(),
{
    if s.len() == 0 {
        0
    } else {
        sum_dist(s.drop_last()) + s.last()
    }
}

/// The distances of a link's edges, in order.
pub open spec fn spec_link_distances(
    link: DataLink,
    tracker: PositionTracker,
    sites: Seq<GroundStation>,
) -> Seq<int> {
    Seq::new(link.0@.len(), |i: int| spec_edge_distance(link.0@[i], tracker, sites)->0)
}

/// Executable slant range for a ground-to-satellite edge.
fn ground_sat_distance(
    g: u64,
    s: u64,
    tracker: &PositionTracker,
    sites: &Vec<GroundStation>,
) -> (r: Option<u64>)
    requires
        tracker.wf(),
        sites_wf(sites@),
    ensures
        match r {
            Some(d) => spec_ground_sat_distance(g, s, *tracker, sites@) == Some(d as int) && d
                <= 2_000_000_000_000u64,
            None => spec_ground_sat_distance(g, s, *tracker, sites@) is None,
        },
{
    proof {
        reveal(site_coord);
    }
    let site = find_site(sites, g);
    match site {
        None => {
            proof {
                assert(site_coord(sites@, g) is None);
            }
            None
        },
        Some(gs) => {
            proof {
                let w = choose|i: int| 0 <= i < sites@.len() && sites@[i].id == g;
                let v = choose|i: int|
                    0 <= i < sites@.len() && (#[trigger] sites@[i]).id == g && *gs == sites@[i];
                assert(w == v);
                assert(site_coord(sites@, g) == Some(gs.coord));
            }
            match tracker.get(s) {
                None => None,
                Some(o) => match &o.geodetic {
                    None => None,
                    Some(lla) => {
                        let alt: i64 = if lla.2 >= 0 {
                            lla.2
                        } else {
                            0
                        };
                        let coord = gs.coord;
                        if -90_000_000_000 <= coord.0 && coord.0 <= 90_000_000_000
                            && -180_000_000_000 <= coord.1 && coord.1 <= 180_000_000_000
                            && -90_000_000_000 <= lla.0 && lla.0 <= 90_000_000_000
                            && -180_000_000_000 <= lla.1 && lla.1 <= 180_000_000_000 && alt
                            <= 100_000_000_000i64 {
                            Some(ground_space_distance(coord, (lla.0, lla.1, alt as u64)))
                        } else {
                            None
                        }
                    },
                },
            }
        },
    }
}

/// Executable straight-line distance for a satellite-to-satellite edge.
fn sat_sat_distance(s1: u64, s2: u64, tracker: &PositionTracker) -> (r: Option<u64>)
    requires
        tracker.wf(),
    ensures
        match r {
            Some(d) => spec_sat_sat_distance(s1, s2, *tracker) == Some(d as int) && d
                <= 3_464_101_615_138u64,
            None => spec_sat_sat_distance(s1, s2, *tracker) is None,
        },
{
    let o1 = tracker.get(s1);
    let o2 = tracker.get(s2);
    match (o1, o2) {
        (Some(a), Some(b)) => match (&a.position, &b.position) {
            (Some(p1), Some(p2)) => {
                if -1_000_000_000_000 <= p1.0 && p1.0 <= 1_000_000_000_000 && -1_000_000_000_000
                    <= p1.1 && p1.1 <= 1_000_000_000_000 && -1_000_000_000_000 <= p1.2 && p1.2
                    <= 1_000_000_000_000 && -1_000_000_000_000 <= p2.0 && p2.0
                    <= 1_000_000_000_000 && -1_000_000_000_000 <= p2.1 && p2.1
                    <= 1_000_000_000_000 && -1_000_000_000_000 <= p2.2 && p2.2
                    <= 1_000_000_000_000 {
                    Some(space_space_distance((p1.0, p1.1, p1.2), (p2.0, p2.1, p2.2)))
                } else {
                    None
                }
            },
            _ => None,
        },
        _ => None,
    }
}

/// Executable distance of one edge.
fn edge_distance(
    edge: &DataEdge,
    tracker: &PositionTracker,
    sites: &Vec<GroundStation>,
) -> (r: Option<u64>)
    requires
        tracker.wf(),
        sites_wf(sites@),
    ensures
        match r {
            Some(d) => spec_edge_distance(*edge, *tracker, sites@) == Some(d as int) && d
                <= 3_464_101_615_138u64,
            None => spec_edge_distance(*edge, *tracker, sites@) is None,
        },
{
    match (&edge.0, &edge.1) {
        (LinkEndpoint::Ground(g), LinkEndpoint::Satellite(s)) => ground_sat_distance(
            *g,
            *s,
            tracker,
            sites,
        ),
        (LinkEndpoint::Satellite(s), LinkEndpoint::Ground(g)) => ground_sat_distance(
            *g,
            *s,
            tracker,
            sites,
        ),
        (LinkEndpoint::Satellite(s1), LinkEndpoint::Satellite(s2)) => sat_sat_distance(
            *s1,
            *s2,
            tracker,
        ),
        (LinkEndpoint::Ground(_), LinkEndpoint::Ground(_)) => None,
    }
}

/// Computes a link's per-edge distances and latencies from the current
/// positions.
///
/// Each edge's latency is its distance over the speed of light, and the
/// total latency is the summed distance over the speed of light, recomputed
/// on every call and never cached.  No statistics are produced when some
/// endpoint cannot be resolved to a position this tick, or when the total
/// distance is zero; the link then keeps its previous state until a later
/// tick heals it.
#[verifier::rlimit(60)]
pub fn compute_latency(
    link: &DataLink,
    tracker: &PositionTracker,
    sites: &Vec<GroundStation>,
) -> (r: Option<DataLinkStats>)
    requires
        tracker.wf(),
        sites_wf(sites@),
        link.0@.len() <= 1000,
    ensures
        r is Some <==> ((forall|i: int|
            0 <= i < link.0@.len() ==> spec_edge_distance(
                #[trigger] link.0@[i],
                *tracker,
                sites@,
            ) is Some) && sum_dist(spec_link_distances(*link, *tracker, sites@)) > 0),
        r matches Some(st) ==> {
            let ds = spec_link_distances(*link, *tracker, sites@);
            &&& st.distance@.len() == link.0@.len()
            &&& st.latencies@.len() == link.0@.len()
            &&& forall|i: int|
                0 <= i < link.0@.len() ==> (#[trigger] st.distance@[i]) as int == ds[i]
            &&& forall|i: int|
                0 <= i < link.0@.len() ==> (#[trigger] st.latencies@[i]) as int == ds[i]
                    * 1_000_000_000 / (LIGHT_SPEED_M_PER_S as int)
            &&& st.total_distance_m as int == sum_dist(ds)
            &&& st.total_latency_ns as int == sum_dist(ds) * 1_000_000_000 / (
            LIGHT_SPEED_M_PER_S as int)
        },
{
    let ghost ds = spec_link_distances(*link, *tracker, sites@);
    let mut distance: Vec<u64> = Vec::new();
    let mut latencies: Vec<u64> = Vec::new();
    let mut sum: u64 = 0;
    let mut k: usize = 0;
    while k < link.0.len()
        invariant
            tracker.wf(),
            sites_wf(sites@),
            link.0@.len() <= 1000,
            ds == spec_link_distances(*link, *tracker, sites@),
            k <= link.0@.len(),
            distance@.len() == k,
            latencies@.len() == k,
            forall|i: int|
                0 <= i < k ==> spec_edge_distance(
                    #[trigger] link.0@[i],
                    *tracker,
                    sites@,
                ) is Some,
            forall|i: int| 0 <= i < k ==> (#[trigger] distance@[i]) as int == ds[i],
            forall|i: int| 0 <= i < k ==> (#[trigger] distance@[i]) <= 3_464_101_615_138u64,
            forall|i: int|
                0 <= i < k ==> (#[trigger] latencies@[i]) as int == ds[i] * 1_000_000_000 / (
                LIGHT_SPEED_M_PER_S as int),
            sum as int == sum_dist(ds.take(k as int)),
            sum <= k * 3_464_101_615_138u64,
        decreases link.0@.len() - k,
    {
        let d = edge_distance(&link.0[k], tracker, sites);
        match d {
            None => {
                return None;
            },
            Some(d) => {
                distance.push(d);
                latencies.push(light_travel_ns(d));
                proof {
                    assert(ds[k as int] == d as int);
                    assert(ds.take(k as int + 1).drop_last() =~= ds.take(k as int));
                    assert(ds.take(k as int + 1).last() == ds[k as int]);
                }
                sum = sum + d;
            },
        }
        k = k + 1;
    }
    proof {
        assert(ds.take(link.0@.len() as int) =~= ds);
    }
    if sum == 0 {
        proof {
            assert(sum_dist(ds) == 0);
        }
        None
    } else {
        let total_latency_ns = light_travel_ns(sum);
        Some(
            DataLinkStats {
                distance,
                latencies,
                total_distance_m: sum,
                total_latency_ns,
            },
        )
    }
}

} // verus!
