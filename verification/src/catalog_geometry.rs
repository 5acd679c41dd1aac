//! Fitting 2D geometry to routed catalog sections: exit points on the route
//! grid, orthogonal corridor polylines, their check, and the bounds that
//! enclose the result.

use vstd::prelude::*;

use crate::catalog::GridCell;
use crate::geometry::{Geometry2dArtifact, GeometryCorridor, GeometryPoint, GeometryRoom};
use crate::model::owned;
use crate::text::{int_text, push_int_text, str_eq};

verus! {

/// The geometry route grid, in pixels.
pub const GEOMETRY_ROUTE_GRID: i32 = 8;

/// A catalog exit matched to a required exit, in the piece's own cells.
#[derive(Clone, Debug)]
pub struct MatchedExit {
    pub requirement_exit_id: String,
    pub catalog_exit_id: String,
    pub x: i32,
    pub y: i32,
    pub direction: String,
    pub width: i32,
}

/// The heading of a unit step between two cells.
pub open spec fn direction_between_spec(from: GridCell, to: GridCell) -> Seq<char> {
    let dx = to.x - from.x;
    let dy = to.y - from.y;
    if dx == 0 && dy == -1 {
        "north"@
    } else if dx == 1 && dy == 0 {
        "east"@
    } else if dx == 0 && dy == 1 {
        "south"@
    } else if dx == -1 && dy == 0 {
        "west"@
    } else {
        "unknown"@
    }
}

pub fn direction_between(from: &GridCell, to: &GridCell) -> (r: &'static str)
    ensures
        r@ == direction_between_spec(*from, *to),
{
    let dx: i64 = to.x as i64 - from.x as i64;
    let dy: i64 = to.y as i64 - from.y as i64;
    if dx == 0 && dy == -1 {
        "north"
    } else if dx == 1 && dy == 0 {
        "east"
    } else if dx == 0 && dy == 1 {
        "south"
    } else if dx == -1 && dy == 0 {
        "west"
    } else {
        "unknown"
    }
}

/// Whether a piece kind is a room rather than a connecting piece.
pub open spec fn catalog_room_kind(kind: Seq<char>) -> bool {
    kind != "connector"@ && kind != "corridor"@ && kind != "bend"@ && kind != "junction"@
}

pub fn is_catalog_room_kind(kind: &str) -> (r: bool)
    ensures
        r == catalog_room_kind(kind@),
{
    !(str_eq(kind, "connector") || str_eq(kind, "corridor") || str_eq(kind, "bend") || str_eq(
        kind,
        "junction",
    ))
}

/// The geometry point of a matched exit of a piece placed at `origin`: the
/// exit cell's corner on the route grid, moved one cell for exits that face
/// west or north.
pub open spec fn exit_point_spec(exit: MatchedExit, origin: GridCell) -> (int, int) {
    let x = exit.x + origin.x + (if exit.direction@ == "west"@ {
        1int
    } else {
        0
    });
    let y = exit.y + origin.y + (if exit.direction@ == "north"@ {
        1int
    } else {
        0
    });
    (x * 8, y * 8)
}

pub fn catalog_exit_geometry_point(exit: &MatchedExit, origin: &GridCell) -> (p: GeometryPoint)
    requires
        i32::MIN <= (exit.x + origin.x - 1) * 8,
        (exit.x + origin.x + 1) * 8 <= i32::MAX,
        i32::MIN <= (exit.y + origin.y - 1) * 8,
        (exit.y + origin.y + 1) * 8 <= i32::MAX,
    ensures
        (p.x as int, p.y as int) == exit_point_spec(*exit, *origin),
{
    let mut x: i32 = exit.x + origin.x;
    let mut y: i32 = exit.y + origin.y;
    if str_eq(exit.direction.as_str(), "west") {
        x = x + 1;
    }
    if str_eq(exit.direction.as_str(), "north") {
        y = y + 1;
    }
    GeometryPoint { x: x * GEOMETRY_ROUTE_GRID, y: y * GEOMETRY_ROUTE_GRID }
}

/// A polyline after `point` is appended orthogonally: nothing changes for
/// a repeat of the last point, and a diagonal move gets an elbow at the new
/// x and the old y first.
pub open spec fn orthogonal_append(points: Seq<GeometryPoint>, point: GeometryPoint) -> Seq<
    GeometryPoint,
> {
    if points.len() == 0 {
        seq![point]
    } else {
        let previous = points.last();
        if previous.x == point.x && previous.y == point.y {
            points
        } else if previous.x != point.x && previous.y != point.y {
            points.push(GeometryPoint { x: point.x, y: previous.y }).push(point)
        } else {
            points.push(point)
        }
    }
}

pub fn append_orthogonal_geometry_point(points: &mut Vec<GeometryPoint>, point: GeometryPoint)
    ensures
        final(points)@ == orthogonal_append(old(points)@, point),
{
    let n = points.len();
    if n == 0 {
        points.push(point);
        return;
    }
    let previous = points[n - 1];
    if previous.x == point.x && previous.y == point.y {
        return;
    }
    if previous.x != point.x && previous.y != point.y {
        points.push(GeometryPoint { x: point.x, y: previous.y });
    }
    points.push(point);
}

/// The polyline that appending `ps` point by point, orthogonally, builds.
pub open spec fn orthogonal_path(ps: Seq<GeometryPoint>) -> Seq<GeometryPoint>
    decreases ps.len(),
{
    if ps.len() == 0 {
        Seq::empty()
    } else {
        orthogonal_append(orthogonal_path(ps.drop_last()), ps.last())
    }
}

/// The geometry point of a matched exit of a piece placed at `origin`.
pub open spec fn exit_point(exit: MatchedExit, origin: GridCell) -> GeometryPoint {
    GeometryPoint { x: exit_point_spec(exit, origin).0 as i32, y: exit_point_spec(exit, origin).1 as i32 }
}

/// The route-grid corner of a placement cell.
pub open spec fn cell_point(c: GridCell) -> GeometryPoint {
    GeometryPoint { x: (c.x * 8) as i32, y: (c.y * 8) as i32 }
}

/// The left exit point, the routed cells' corners, then the right exit
/// point.
pub open spec fn section_waypoints(
    cells: Seq<GridCell>,
    left_exit: MatchedExit,
    left_origin: GridCell,
    right_exit: MatchedExit,
    right_origin: GridCell,
) -> Seq<GeometryPoint> {
    seq![exit_point(left_exit, left_origin)] + cells.map_values(|c: GridCell| cell_point(c))
        + seq![exit_point(right_exit, right_origin)]
}

/// Every waypoint of a routed section fits on the route grid in `i32`.
pub open spec fn waypoints_fit(
    cells: Seq<GridCell>,
    left_exit: MatchedExit,
    left_origin: GridCell,
    right_exit: MatchedExit,
    right_origin: GridCell,
) -> bool {
    &&& i32::MIN <= (left_exit.x + left_origin.x - 1) * 8
    &&& (left_exit.x + left_origin.x + 1) * 8 <= i32::MAX
    &&& i32::MIN <= (left_exit.y + left_origin.y - 1) * 8
    &&& (left_exit.y + left_origin.y + 1) * 8 <= i32::MAX
    &&& i32::MIN <= (right_exit.x + right_origin.x - 1) * 8
    &&& (right_exit.x + right_origin.x + 1) * 8 <= i32::MAX
    &&& i32::MIN <= (right_exit.y + right_origin.y - 1) * 8
    &&& (right_exit.y + right_origin.y + 1) * 8 <= i32::MAX
    &&& forall|i: int|
        0 <= i < cells.len() ==> i32::MIN <= #[trigger] cells[i].x * 8 <= i32::MAX && i32::MIN
            <= cells[i].y * 8 <= i32::MAX
}

/// `k` is the first corridor of the physical section `section`.
pub open spec fn first_section_corridor(cs: Seq<GeometryCorridor>, section: Seq<char>, k: int) -> bool {
    &&& 0 <= k < cs.len()
    &&& cs[k].physical_section@ == section
    &&& forall|m: int| 0 <= m < k ==> (#[trigger] cs[m]).physical_section@ != section
}

/// Two corridors that differ at most in their points.
pub open spec fn same_but_points(a: GeometryCorridor, b: GeometryCorridor) -> bool {
    &&& a.id == b.id
    &&& a.physical_section == b.physical_section
    &&& a.source_connector == b.source_connector
    &&& a.source_edge == b.source_edge
    &&& a.source_connectors == b.source_connectors
    &&& a.source_edges == b.source_edges
    &&& a.traversal_refs == b.traversal_refs
    &&& a.from_room == b.from_room
    &&& a.to_room == b.to_room
    &&& a.traversal_hint == b.traversal_hint
    &&& a.semantic_tags == b.semantic_tags
    &&& a.width == b.width
    &&& a.from_port == b.from_port
    &&& a.to_port == b.to_port
}

/// Two artifacts that differ at most in their corridors.
pub open spec fn same_but_corridors(a: Geometry2dArtifact, b: Geometry2dArtifact) -> bool {
    &&& a.kind == b.kind
    &&& a.schema_version == b.schema_version
    &&& a.geometry_id == b.geometry_id
    &&& a.candidate_id == b.candidate_id
    &&& a.seed == b.seed
    &&& a.source_candidate_ref == b.source_candidate_ref
    &&& a.source_intermediate_ref == b.source_intermediate_ref
    &&& a.source_connection_plan_ref == b.source_connection_plan_ref
    &&& a.connection_plan_id == b.connection_plan_id
    &&& a.layout_policy == b.layout_policy
    &&& a.layout_search == b.layout_search
    &&& a.bounds == b.bounds
    &&& a.rooms == b.rooms
    &&& a.contents == b.contents
    &&& a.skipped_connectors == b.skipped_connectors
}

fn section_corridor_index(cs: &Vec<GeometryCorridor>, section: &str) -> (r: Option<usize>)
    ensures
        match r {
            Some(k) => first_section_corridor(cs@, section@, k as int),
            None => forall|m: int| 0 <= m < cs@.len() ==> (#[trigger] cs@[m]).physical_section@ != section@,
        },
{
    let mut k: usize = 0;
    while k < cs.len()
        invariant
            k <= cs@.len(),
            forall|m: int| 0 <= m < k ==> (#[trigger] cs@[m]).physical_section@ != section@,
        decreases cs@.len() - k,
    {
        if str_eq(cs[k].physical_section.as_str(), section) {
            return Some(k);
        }
        k = k + 1;
    }
    None
}

/// Redraws the first corridor of the physical section `section` along its
/// routed catalog cells: from the left exit point through each cell's
/// route-grid corner to the right exit point, with orthogonal elbows. An
/// artifact without such a corridor is left as it is.
pub fn align_geometry_corridor_to_catalog(
    geometry: &mut Geometry2dArtifact,
    section: &str,
    cells: &Vec<GridCell>,
    left_origin: &GridCell,
    left_exit: &MatchedExit,
    right_origin: &GridCell,
    right_exit: &MatchedExit,
)
    requires
        (exists|m: int|
            0 <= m < old(geometry).corridors@.len()
                && (#[trigger] old(geometry).corridors@[m]).physical_section@ == section@)
            ==> waypoints_fit(cells@, *left_exit, *left_origin, *right_exit, *right_origin),
    ensures
        same_but_corridors(*final(geometry), *old(geometry)),
        (forall|m: int|
            0 <= m < old(geometry).corridors@.len()
                ==> (#[trigger] old(geometry).corridors@[m]).physical_section@ != section@)
            ==> final(geometry).corridors@ == old(geometry).corridors@,
        forall|k: int|
            first_section_corridor(old(geometry).corridors@, section@, k) ==> {
                &&& final(geometry).corridors@ == old(geometry).corridors@.update(
                    k,
                    final(geometry).corridors@[k],
                )
                &&& same_but_points(final(geometry).corridors@[k], old(geometry).corridors@[k])
                &&& final(geometry).corridors@[k].points@ == orthogonal_path(
                    section_waypoints(cells@, *left_exit, *left_origin, *right_exit, *right_origin),
                )
            },
{
    let k = match section_corridor_index(&geometry.corridors, section) {
        None => return ,
        Some(k) => k,
    };
    let ghost wp = section_waypoints(cells@, *left_exit, *left_origin, *right_exit, *right_origin);
    assert(geometry.corridors@[k as int].physical_section@ == section@);
    let mut points: Vec<GeometryPoint> = Vec::new();
    let first = catalog_exit_geometry_point(left_exit, left_origin);
    append_orthogonal_geometry_point(&mut points, first);
    proof {
        let t = wp.take(1);
        assert(t.drop_last() =~= Seq::<GeometryPoint>::empty());
        assert(wp[0] == first);
        assert(t.last() == first);
        assert(orthogonal_path(t.drop_last()) == Seq::<GeometryPoint>::empty());
        assert(orthogonal_path(t) == orthogonal_append(Seq::<GeometryPoint>::empty(), first));
    }
    let mut i: usize = 0;
    while i < cells.len()
        invariant
            i <= cells@.len(),
            wp == section_waypoints(cells@, *left_exit, *left_origin, *right_exit, *right_origin),
            waypoints_fit(cells@, *left_exit, *left_origin, *right_exit, *right_origin),
            points@ == orthogonal_path(wp.take(i + 1)),
        decreases cells@.len() - i,
    {
        let c = cells[i];
        assert(i32::MIN <= cells@[i as int].x * 8 <= i32::MAX);
        let p = GeometryPoint { x: c.x * GEOMETRY_ROUTE_GRID, y: c.y * GEOMETRY_ROUTE_GRID };
        append_orthogonal_geometry_point(&mut points, p);
        proof {
            assert(wp[i + 1] == cell_point(cells@[i as int]));
            assert(wp.take(i + 2).drop_last() =~= wp.take(i + 1));
        }
        i = i + 1;
    }
    let last = catalog_exit_geometry_point(right_exit, right_origin);
    append_orthogonal_geometry_point(&mut points, last);
    proof {
        let n = cells@.len() as int;
        assert(wp.len() == n + 2);
        assert(wp[n + 1] == last);
        assert(wp.take(n + 2).drop_last() =~= wp.take(n + 1));
        assert(wp.take(n + 2) =~= wp);
    }
    let ghost before = geometry.corridors@;
    let mut corridor = geometry.corridors.remove(k);
    corridor.points = points;
    geometry.corridors.insert(k, corridor);
    proof {
        assert(geometry.corridors@ =~= before.update(k as int, geometry.corridors@[k as int]));
        assert forall|j: int| first_section_corridor(before, section@, j) implies j == k by {
            if j < k {
                assert(before[j].physical_section@ != section@);
            }
            if j > k {
                assert(before[k as int].physical_section@ != section@);
            }
        }
    }
}

// ---------------------------------------------------------------------
// Checking corridor segments
// ---------------------------------------------------------------------

/// A segment that is diagonal or leaves the route grid.
pub open spec fn bad_segment(a: GeometryPoint, b: GeometryPoint) -> bool {
    let dx = b.x - a.x;
    let dy = b.y - a.y;
    (dx != 0 && dy != 0) || dx % 8 != 0 || dy % 8 != 0
}

/// The first bad segment of a polyline, by its first index.
pub open spec fn first_bad_segment(ps: Seq<GeometryPoint>) -> Option<int>
    decreases ps.len(),
{
    if ps.len() < 2 {
        None
    } else {
        match first_bad_segment(ps.drop_last()) {
            Some(k) => Some(k),
            None => if bad_segment(ps[ps.len() - 2], ps[ps.len() - 1]) {
                Some(ps.len() - 2)
            } else {
                None
            },
        }
    }
}

pub open spec fn segment_message(c: GeometryCorridor, k: int) -> Seq<char> {
    let a = c.points@[k];
    let b = c.points@[k + 1];
    "Catalog corridor "@ + c.id@ + " contains a non-orthogonal grid segment "@ + int_text(a.x as int)
        + ","@ + int_text(a.y as int) + " -> "@ + int_text(b.x as int) + ","@ + int_text(
        b.y as int,
    ) + "."@
}

/// The message for the first corridor, in order, with a bad segment.
pub open spec fn segments_check(cs: Seq<GeometryCorridor>) -> Result<(), Seq<char>>
    decreases cs.len(),
{
    if cs.len() == 0 {
        Ok(())
    } else {
        match segments_check(cs.drop_last()) {
            Err(m) => Err(m),
            Ok(()) => match first_bad_segment(cs.last().points@) {
                Some(k) => Err(segment_message(cs.last(), k)),
                None => Ok(()),
            },
        }
    }
}

proof fn lemma_first_bad_prefix(ps: Seq<GeometryPoint>, i: int)
    requires
        1 <= i < ps.len(),
        first_bad_segment(ps.take(i)) is None,
        !bad_segment(ps[i - 1], ps[i]),
    ensures
        first_bad_segment(ps.take(i + 1)) is None,
{
    assert(ps.take(i + 1).drop_last() =~= ps.take(i));
}

proof fn lemma_first_bad_found(ps: Seq<GeometryPoint>, i: int, n: int)
    requires
        1 <= i < n <= ps.len(),
        first_bad_segment(ps.take(i)) is None,
        bad_segment(ps[i - 1], ps[i]),
    ensures
        first_bad_segment(ps.take(n)) == Some(i - 1),
    decreases n - i,
{
    if n == i + 1 {
        assert(ps.take(i + 1).drop_last() =~= ps.take(i));
    } else {
        lemma_first_bad_found(ps, i, n - 1);
        assert(ps.take(n).drop_last() =~= ps.take(n - 1));
    }
}

/// The first bad segment of one corridor's polyline.
fn corridor_bad_segment(c: &GeometryCorridor) -> (r: Option<usize>)
    ensures
        match r {
            Some(k) => first_bad_segment(c.points@) == Some(k as int) && k + 1 < c.points@.len(),
            None => first_bad_segment(c.points@) is None,
        },
{
    let ps = &c.points;
    let n = ps.len();
    if n < 2 {
        return None;
    }
    let mut i: usize = 1;
    assert(first_bad_segment(ps@.take(1)) is None);
    while i < n
        invariant
            ps@ == c.points@,
            n == ps@.len(),
            1 <= i <= n,
            first_bad_segment(ps@.take(i as int)) is None,
        decreases n - i,
    {
        let a = ps[i - 1];
        let b = ps[i];
        let dx: i64 = b.x as i64 - a.x as i64;
        let dy: i64 = b.y as i64 - a.y as i64;
        let ax: i64 = if dx < 0 {
            -dx
        } else {
            dx
        };
        let ay: i64 = if dy < 0 {
            -dy
        } else {
            dy
        };
        proof {
            assert((dx as int) % 8 == 0 <==> (ax as int) % 8 == 0);
            assert((dy as int) % 8 == 0 <==> (ay as int) % 8 == 0);
        }
        if (dx != 0 && dy != 0) || ax % 8 != 0 || ay % 8 != 0 {
            proof {
                assert(bad_segment(ps@[i - 1], ps@[i as int]));
                lemma_first_bad_found(ps@, i as int, n as int);
                assert(ps@.take(n as int) =~= ps@);
                assert(first_bad_segment(c.points@) == Some((i - 1) as int));
            }
            return Some(i - 1);
        }
        proof {
            assert(!bad_segment(ps@[i - 1], ps@[i as int]));
            lemma_first_bad_prefix(ps@, i as int);
        }
        i = i + 1;
    }
    assert(ps@.take(n as int) =~= ps@);
    None
}

/// Checks that every corridor runs in orthogonal steps on the route grid.
pub fn validate_catalog_geometry_segments(geometry: &Geometry2dArtifact) -> (r: Result<(), String>)
    ensures
        match r {
            Ok(()) => segments_check(geometry.corridors@) is Ok,
            Err(m) => segments_check(geometry.corridors@) == Err::<(), Seq<char>>(m@),
        },
{
    let cs = &geometry.corridors;
    let mut i: usize = 0;
    assert(cs@.take(0) =~= Seq::<GeometryCorridor>::empty());
    while i < cs.len()
        invariant
            cs@ == geometry.corridors@,
            i <= cs@.len(),
            segments_check(cs@.take(i as int)) is Ok,
        decreases cs@.len() - i,
    {
        let c = &cs[i];
        assert(cs@.take(i + 1).drop_last() =~= cs@.take(i as int));
        match corridor_bad_segment(c) {
            Some(k) => {
                let np = c.points.len();
                assert(k + 1 < np);
                let a = c.points[k];
                let b = c.points[k + 1];
                let mut m = owned("Catalog corridor ");
                m.append(c.id.as_str());
                m.append(" contains a non-orthogonal grid segment ");
                push_int_text(&mut m, a.x as i64);
                m.append(",");
                push_int_text(&mut m, a.y as i64);
                m.append(" -> ");
                push_int_text(&mut m, b.x as i64);
                m.append(",");
                push_int_text(&mut m, b.y as i64);
                m.append(".");
                proof {
                    lemma_check_err_extends(cs@, i as int + 1, segment_message(cs@[i as int], k as int));
                }
                return Err(m);
            },
            None => {},
        }
        i = i + 1;
    }
    assert(cs@.take(cs@.len() as int) =~= cs@);
    Ok(())
}

proof fn lemma_check_err_extends(cs: Seq<GeometryCorridor>, i: int, m: Seq<char>)
    requires
        1 <= i <= cs.len(),
        segments_check(cs.take(i)) == Err::<(), Seq<char>>(m),
    ensures
        segments_check(cs) == Err::<(), Seq<char>>(m),
    decreases cs.len() - i,
{
    if i == cs.len() {
        assert(cs.take(i) =~= cs);
    } else {
        assert(cs.take(i + 1).drop_last() =~= cs.take(i));
        lemma_check_err_extends(cs, i + 1, m);
    }
}

// ---------------------------------------------------------------------
// Bounds that enclose the catalog geometry
// ---------------------------------------------------------------------

/// The right edges of the rooms.
pub open spec fn room_right_edges(rooms: Seq<GeometryRoom>) -> Seq<int> {
    Seq::new(rooms.len(), |i: int| rooms[i].rect.x + rooms[i].rect.width)
}

/// The bottom edges of the rooms.
pub open spec fn room_bottom_edges(rooms: Seq<GeometryRoom>) -> Seq<int> {
    Seq::new(rooms.len(), |i: int| rooms[i].rect.y + rooms[i].rect.height)
}

/// The x coordinates of the corridor points, corridor by corridor.
pub open spec fn corridor_xs(cs: Seq<GeometryCorridor>) -> Seq<int>
    decreases cs.len(),
{
    if cs.len() == 0 {
        Seq::empty()
    } else {
        corridor_xs(cs.drop_last()) + Seq::new(
            cs.last().points@.len(),
            |j: int| cs.last().points@[j].x as int,
        )
    }
}

/// The y coordinates of the corridor points, corridor by corridor.
pub open spec fn corridor_ys(cs: Seq<GeometryCorridor>) -> Seq<int>
    decreases cs.len(),
{
    if cs.len() == 0 {
        Seq::empty()
    } else {
        corridor_ys(cs.drop_last()) + Seq::new(
            cs.last().points@.len(),
            |j: int| cs.last().points@[j].y as int,
        )
    }
}

/// The largest value of a sequence, if it has one.
pub open spec fn max_of(s: Seq<int>) -> Option<int>
    decreases s.len(),
{
    if s.len() == 0 {
        None
    } else {
        match max_of(s.drop_last()) {
            Some(m) => Some(if m > s.last() {
                m
            } else {
                s.last()
            }),
            None => Some(s.last()),
        }
    }
}

/// The farthest right and bottom extents of the rooms and corridor points,
/// or the current bounds where there are none.
pub open spec fn extent_x(g: Geometry2dArtifact) -> int {
    match max_of(room_right_edges(g.rooms@) + corridor_xs(g.corridors@)) {
        Some(m) => m,
        None => g.bounds.width as int,
    }
}

pub open spec fn extent_y(g: Geometry2dArtifact) -> int {
    match max_of(room_bottom_edges(g.rooms@) + corridor_ys(g.corridors@)) {
        Some(m) => m,
        None => g.bounds.height as int,
    }
}

/// `v` rounded up to the route grid, with Rust's division toward zero.
pub open spec fn align_up(v: int) -> int {
    let a = v + 7;
    (if a >= 0 {
        a / 8
    } else {
        -((-a) / 8)
    }) * 8
}

/// Whether the room edges fit in `i32` and the new bounds can be computed.
pub open spec fn catalog_bounds_computable(g: Geometry2dArtifact) -> bool {
    &&& forall|i: int|
        0 <= i < g.rooms@.len() ==> i32::MIN <= (#[trigger] g.rooms@[i]).rect.x
            + g.rooms@[i].rect.width <= i32::MAX && i32::MIN <= g.rooms@[i].rect.y
            + g.rooms@[i].rect.height <= i32::MAX
    &&& extent_x(g) + 39 <= i32::MAX
    &&& extent_y(g) + 39 <= i32::MAX
}

pub open spec fn opt_int(o: Option<i64>) -> Option<int> {
    match o {
        Some(v) => Some(v as int),
        None => None,
    }
}

/// Adding one value to a sequence keeps the larger of its old largest
/// value and the new one.
proof fn lemma_max_of_push(s: Seq<int>, x: int)
    ensures
        max_of(s.push(x)) == (match max_of(s) {
            Some(m) => Some(if m > x {
                m
            } else {
                x
            }),
            None => Some(x),
        }),
{
    assert(s.push(x).drop_last() =~= s);
}

/// The points of a corridor along one axis.
pub open spec fn line_of(c: GeometryCorridor, horizontal: bool) -> Seq<int> {
    Seq::new(
        c.points@.len(),
        |j: int| if horizontal {
            c.points@[j].x as int
        } else {
            c.points@[j].y as int
        },
    )
}

pub open spec fn axis_values(g: Geometry2dArtifact, horizontal: bool) -> Seq<int> {
    if horizontal {
        room_right_edges(g.rooms@) + corridor_xs(g.corridors@)
    } else {
        room_bottom_edges(g.rooms@) + corridor_ys(g.corridors@)
    }
}

/// The largest extent of rooms and corridor points along one axis.
fn extent_max(g: &Geometry2dArtifact, horizontal: bool) -> (r: Option<i64>)
    requires
        forall|i: int|
            0 <= i < g.rooms@.len() ==> i32::MIN <= (#[trigger] g.rooms@[i]).rect.x
                + g.rooms@[i].rect.width <= i32::MAX && i32::MIN <= g.rooms@[i].rect.y
                + g.rooms@[i].rect.height <= i32::MAX,
    ensures
        opt_int(r) == max_of(axis_values(*g, horizontal)),
{
    let ghost rooms = if horizontal {
        room_right_edges(g.rooms@)
    } else {
        room_bottom_edges(g.rooms@)
    };
    let mut best: Option<i64> = None;
    let mut i: usize = 0;
    assert(rooms.take(0) =~= Seq::<int>::empty());
    while i < g.rooms.len()
        invariant
            i <= g.rooms@.len(),
            rooms == (if horizontal {
                room_right_edges(g.rooms@)
            } else {
                room_bottom_edges(g.rooms@)
            }),
            forall|i: int|
                0 <= i < g.rooms@.len() ==> i32::MIN <= (#[trigger] g.rooms@[i]).rect.x
                    + g.rooms@[i].rect.width <= i32::MAX && i32::MIN <= g.rooms@[i].rect.y
                    + g.rooms@[i].rect.height <= i32::MAX,
            opt_int(best) == max_of(rooms.take(i as int)),
        decreases g.rooms@.len() - i,
    {
        let r = &g.rooms[i];
        let e: i64 = if horizontal {
            r.rect.x as i64 + r.rect.width as i64
        } else {
            r.rect.y as i64 + r.rect.height as i64
        };
        proof {
            assert(rooms.take(i + 1) =~= rooms.take(i as int).push(e as int));
            lemma_max_of_push(rooms.take(i as int), e as int);
        }
        best = match best {
            Some(m) => Some(if m > e {
                m
            } else {
                e
            }),
            None => Some(e),
        };
        i = i + 1;
    }
    assert(rooms.take(g.rooms@.len() as int) =~= rooms);
    let mut ci: usize = 0;
    assert(g.corridors@.take(0) =~= Seq::<GeometryCorridor>::empty());
    assert(rooms + corridor_xs(g.corridors@.take(0)) =~= rooms);
    assert(rooms + corridor_ys(g.corridors@.take(0)) =~= rooms);
    while ci < g.corridors.len()
        invariant
            ci <= g.corridors@.len(),
            rooms == (if horizontal {
                room_right_edges(g.rooms@)
            } else {
                room_bottom_edges(g.rooms@)
            }),
            opt_int(best) == max_of(
                rooms + (if horizontal {
                    corridor_xs(g.corridors@.take(ci as int))
                } else {
                    corridor_ys(g.corridors@.take(ci as int))
                }),
            ),
        decreases g.corridors@.len() - ci,
    {
        let c = &g.corridors[ci];
        let ghost done = rooms + (if horizontal {
            corridor_xs(g.corridors@.take(ci as int))
        } else {
            corridor_ys(g.corridors@.take(ci as int))
        });
        let ghost line = line_of(*c, horizontal);
        let mut j: usize = 0;
        assert(done + line.take(0) =~= done);
        while j < c.points.len()
            invariant
                j <= c.points@.len(),
                line == line_of(*c, horizontal),
                opt_int(best) == max_of(done + line.take(j as int)),
            decreases c.points@.len() - j,
        {
            let p = c.points[j];
            let e: i64 = if horizontal {
                p.x as i64
            } else {
                p.y as i64
            };
            proof {
                assert(line[j as int] == e as int);
                assert(done + line.take(j + 1) =~= (done + line.take(j as int)).push(e as int));
                lemma_max_of_push(done + line.take(j as int), e as int);
            }
            best = match best {
                Some(m) => Some(if m > e {
                    m
                } else {
                    e
                }),
                None => Some(e),
            };
            j = j + 1;
        }
        proof {
            assert(line.take(c.points@.len() as int) =~= line);
            assert(g.corridors@.take(ci + 1).drop_last() =~= g.corridors@.take(ci as int));
            assert(g.corridors@.take(ci + 1).last() == g.corridors@[ci as int]);
            if horizontal {
                assert(corridor_xs(g.corridors@.take(ci + 1)) == corridor_xs(g.corridors@.take(ci as int))
                    + line);
                assert(rooms + corridor_xs(g.corridors@.take(ci + 1)) =~= done + line);
            } else {
                assert(corridor_ys(g.corridors@.take(ci + 1)) == corridor_ys(g.corridors@.take(ci as int))
                    + line);
                assert(rooms + corridor_ys(g.corridors@.take(ci + 1)) =~= done + line);
            }
        }
        ci = ci + 1;
    }
    assert(g.corridors@.take(g.corridors@.len() as int) =~= g.corridors@);
    best
}

/// The largest value of values within a range is within it.
proof fn lemma_max_of_within(s: Seq<int>, lo: int, hi: int)
    requires
        forall|k: int| 0 <= k < s.len() ==> lo <= #[trigger] s[k] <= hi,
    ensures
        match max_of(s) {
            Some(m) => lo <= m <= hi,
            None => true,
        },
    decreases s.len(),
{
    if s.len() > 0 {
        lemma_max_of_within(s.drop_last(), lo, hi);
        assert(lo <= s[s.len() - 1] <= hi);
    }
}

/// Corridor coordinates are `i32` values.
proof fn lemma_corridor_values_within(cs: Seq<GeometryCorridor>)
    ensures
        forall|k: int| 0 <= k < corridor_xs(cs).len() ==> i32::MIN <= #[trigger] corridor_xs(cs)[k] <= i32::MAX,
        forall|k: int| 0 <= k < corridor_ys(cs).len() ==> i32::MIN <= #[trigger] corridor_ys(cs)[k] <= i32::MAX,
    decreases cs.len(),
{
    if cs.len() > 0 {
        lemma_corridor_values_within(cs.drop_last());
        let px = corridor_xs(cs.drop_last());
        let py = corridor_ys(cs.drop_last());
        let lx = Seq::new(cs.last().points@.len(), |j: int| cs.last().points@[j].x as int);
        let ly = Seq::new(cs.last().points@.len(), |j: int| cs.last().points@[j].y as int);
        assert(corridor_xs(cs) == px + lx);
        assert(corridor_ys(cs) == py + ly);
        assert forall|k: int| 0 <= k < corridor_xs(cs).len() implies i32::MIN <= #[trigger] corridor_xs(cs)[k]
            <= i32::MAX by {
            if k >= px.len() {
                assert(corridor_xs(cs)[k] == lx[k - px.len()]);
            } else {
                assert(corridor_xs(cs)[k] == px[k]);
            }
        }
        assert forall|k: int| 0 <= k < corridor_ys(cs).len() implies i32::MIN <= #[trigger] corridor_ys(cs)[k]
            <= i32::MAX by {
            if k >= py.len() {
                assert(corridor_ys(cs)[k] == ly[k - py.len()]);
            } else {
                assert(corridor_ys(cs)[k] == py[k]);
            }
        }
    }
}

/// The axis values of geometry whose room edges fit in `i32` fit in it.
proof fn lemma_axis_values_within(g: Geometry2dArtifact, horizontal: bool)
    requires
        forall|i: int|
            0 <= i < g.rooms@.len() ==> i32::MIN <= (#[trigger] g.rooms@[i]).rect.x
                + g.rooms@[i].rect.width <= i32::MAX && i32::MIN <= g.rooms@[i].rect.y
                + g.rooms@[i].rect.height <= i32::MAX,
    ensures
        match max_of(axis_values(g, horizontal)) {
            Some(m) => i32::MIN <= m <= i32::MAX,
            None => true,
        },
{
    lemma_corridor_values_within(g.corridors@);
    let s = axis_values(g, horizontal);
    let r = if horizontal {
        room_right_edges(g.rooms@)
    } else {
        room_bottom_edges(g.rooms@)
    };
    let c = if horizontal {
        corridor_xs(g.corridors@)
    } else {
        corridor_ys(g.corridors@)
    };
    assert(s == r + c);
    assert forall|k: int| 0 <= k < s.len() implies i32::MIN <= #[trigger] s[k] <= i32::MAX by {
        if k < r.len() {
            assert(s[k] == r[k]);
            assert(i32::MIN <= g.rooms@[k].rect.x + g.rooms@[k].rect.width <= i32::MAX);
        } else {
            assert(s[k] == c[k - r.len()]);
        }
    }
    lemma_max_of_within(s, i32::MIN as int, i32::MAX as int);
}

fn align_up_exec(v: i64) -> (r: i64)
    requires
        i32::MIN <= v <= i32::MAX - 7,
    ensures
        r == align_up(v as int),
{
    let a = v + 7;
    if a >= 0 {
        a / 8 * 8
    } else {
        -((-a) / 8) * 8
    }
}

/// Widens the geometry bounds to enclose the rooms and corridor points
/// with a 32-pixel margin, rounded up to the route grid.
pub fn normalize_catalog_geometry_bounds(geometry: &mut Geometry2dArtifact)
    requires
        catalog_bounds_computable(*old(geometry)),
    ensures
        final(geometry).bounds.width == align_up(extent_x(*old(geometry)) + 32),
        final(geometry).bounds.height == align_up(extent_y(*old(geometry)) + 32),
        final(geometry).bounds.grid == old(geometry).bounds.grid,
        final(geometry).rooms == old(geometry).rooms,
        final(geometry).corridors == old(geometry).corridors,
        *final(geometry) == (Geometry2dArtifact { bounds: final(geometry).bounds, ..*old(geometry) }),
{
    let max_x: i64 = match extent_max(geometry, true) {
        Some(m) => m,
        None => geometry.bounds.width as i64,
    };
    let max_y: i64 = match extent_max(geometry, false) {
        Some(m) => m,
        None => geometry.bounds.height as i64,
    };
    proof {
        lemma_axis_values_within(*geometry, true);
        lemma_axis_values_within(*geometry, false);
        assert(max_x == extent_x(*geometry));
        assert(max_y == extent_y(*geometry));
    }
    let width = align_up_exec(max_x + 32);
    let height = align_up_exec(max_y + 32);
    assert(i32::MIN <= width <= i32::MAX);
    assert(i32::MIN <= height <= i32::MAX);
    geometry.bounds.width = width as i32;
    geometry.bounds.height = height as i32;
}

} // verus!
