//! The checks a 2D geometry artifact must pass: its header and layout
//! evidence, rooms inside the bounds without overlap and with their doorway
//! ports on the room boundary, corridors that keep their source refs and
//! attach to their rooms, physical sections that keep apart, content
//! anchored in rooms, a goal reachable from a start, and compactness
//! evidence that matches the layout.

use vstd::prelude::*;
use vstd::string::*;

use crate::connection_plan::{PhysicalTraversalRef, TraversalRefView};
use crate::geometry::{
    ContentView, CorridorView, GeometryBounds, GeometryCorridor, GeometryPoint, GeometryRect, GeometryRoom,
    Geometry2dArtifact, PortView, RoomView, SkippedView,
};
use crate::intermediate_validation::{any_text, has_text};
use crate::text_set::{dedupe_strings, sorted_texts, text_less, text_lt};
use crate::geometry_policy::{
    geometry_spacing_for_tier, policy_check, spacing_for_tier, validate_geometry_layout_policy,
    GEOMETRY_ROUTE_ORDER_COUNT,
};
use crate::geometry::{geometry_json, hash_geometry};
use crate::graph::{diagnostic_views, Diagnostic, DiagnosticView};
use crate::intermediate::ValidationReport;
use crate::json::hash_of;
use crate::catalog::append_texts;
use crate::model::{opt_text, owned, texts, Severity};
use crate::sorting::views;
use crate::text::{int_text, push_int_text, str_eq};

verus! {

/// The port orders tried per room order.
pub const GEOMETRY_PORT_ORDER_COUNT: u32 = 2;

/// A fatal diagnostic with the given detail text.
pub open spec fn fatal_text(
    code: &str,
    node: Option<Seq<char>>,
    edge: Option<Seq<char>>,
    detail: Seq<char>,
) -> DiagnosticView {
    DiagnosticView { code: code@, severity: Severity::Fatal, node, edge, detail, repair_hint: None }
}

/// `d` if `c` holds, else nothing.
pub open spec fn when(c: bool, d: DiagnosticView) -> Seq<DiagnosticView> {
    if c {
        seq![d]
    } else {
        Seq::empty()
    }
}

/// The first entry of a list, if any.
pub open spec fn first_text(vs: Seq<Seq<char>>) -> Option<Seq<char>> {
    if vs.len() > 0 {
        Some(vs[0])
    } else {
        None
    }
}

pub fn fatal_diag(code: &str, node: Option<String>, edge: Option<String>, detail: String) -> (d:
    Diagnostic)
    ensures
        d@ == fatal_text(code, opt_text(node), opt_text(edge), detail@),
{
    Diagnostic {
        code: owned(code),
        severity: Severity::Fatal,
        node,
        edge,
        detail,
        repair_hint: None,
    }
}

fn first_of(vs: &Vec<String>) -> (r: Option<String>)
    ensures
        opt_text(r) == first_text(texts(vs@)),
{
    if vs.len() > 0 {
        Some(owned(vs[0].as_str()))
    } else {
        None
    }
}

fn some_text(s: &String) -> (r: Option<String>)
    ensures
        opt_text(r) == Some(s@),
{
    Some(owned(s.as_str()))
}

fn push_diag(out: &mut Vec<Diagnostic>, d: Diagnostic)
    ensures
        diagnostic_views(final(out)@) == diagnostic_views(old(out)@).push(d@),
{
    out.push(d);
    assert(diagnostic_views(out@) =~= diagnostic_views(old(out)@).push(d@));
}

/// Text made of literal pieces and values.
fn text2(a: &str, b: &str) -> (r: String)
    ensures
        r@ == a@ + b@,
{
    let mut r = owned(a);
    r.append(b);
    r
}

fn text3(a: &str, b: &str, c: &str) -> (r: String)
    ensures
        r@ == a@ + b@ + c@,
{
    let mut r = text2(a, b);
    r.append(c);
    r
}

fn text5(a: &str, b: &str, c: &str, d: &str, e: &str) -> (r: String)
    ensures
        r@ == a@ + b@ + c@ + d@ + e@,
{
    let mut r = text3(a, b, c);
    r.append(d);
    r.append(e);
    r
}

// ---------------------------------------------------------------------
// Header and layout evidence
// ---------------------------------------------------------------------

pub open spec fn search_out_of_policy(g: Geometry2dArtifact) -> bool {
    let s = g.layout_search;
    let p = g.layout_policy;
    s.spacing_tier >= p.max_spacing_tiers || s.room_order_attempt >= p.room_order_attempts_per_tier
        || s.port_order_attempt >= GEOMETRY_PORT_ORDER_COUNT || s.route_order_attempt
        >= GEOMETRY_ROUTE_ORDER_COUNT || s.search_attempts == 0 || s.search_attempts
        > p.max_search_attempts
}

pub open spec fn policy_diags(g: Geometry2dArtifact) -> Seq<DiagnosticView> {
    match policy_check(g.layout_policy) {
        Err(e) => seq![fatal_text("geometry_layout_policy_invalid", None, None, e)],
        Ok(()) => if search_out_of_policy(g) {
            seq![
                fatal_text(
                    "geometry_layout_search_evidence_invalid",
                    None,
                    None,
                    "Geometry layout search evidence exceeds its policy tier, ordering, or attempt bounds."@,
                ),
            ]
        } else {
            match spacing_for_tier(g.layout_policy, g.layout_search.spacing_tier) {
                Ok(expected) => when(
                    expected != g.layout_search.effective_spacing,
                    fatal_text(
                        "geometry_layout_search_spacing_mismatch",
                        None,
                        None,
                        "Geometry effective spacing does not match its recorded policy tier."@,
                    ),
                ),
                Err(_) => Seq::empty(),
            }
        },
    }
}

/// The checks of the artifact header and its layout evidence.
pub open spec fn header_diags(g: Geometry2dArtifact) -> Seq<DiagnosticView> {
    when(
        g.kind@ != "rusty_procgen.geometry_2d.v1"@,
        fatal_text(
            "geometry_kind_invalid",
            None,
            None,
            "Geometry artifact kind must be rusty_procgen.geometry_2d.v1."@,
        ),
    ) + when(
        g.bounds.width <= 0 || g.bounds.height <= 0 || g.bounds.grid <= 0,
        fatal_text(
            "geometry_bounds_invalid",
            None,
            None,
            "Geometry bounds width, height, and grid must be positive."@,
        ),
    ) + when(
        g.source_connection_plan_ref@.len() == 0 || g.connection_plan_id@.len() == 0,
        fatal_text(
            "geometry_connection_plan_ref_missing",
            None,
            None,
            "Geometry must identify the exact physical connection plan it projects."@,
        ),
    ) + policy_diags(g)
}

fn check_header(g: &Geometry2dArtifact, out: &mut Vec<Diagnostic>)
    ensures
        diagnostic_views(final(out)@) == diagnostic_views(old(out)@) + header_diags(*g),
{
    let ghost start = diagnostic_views(out@);
    if !str_eq(g.kind.as_str(), "rusty_procgen.geometry_2d.v1") {
        push_diag(
            out,
            fatal_diag(
                "geometry_kind_invalid",
                None,
                None,
                owned("Geometry artifact kind must be rusty_procgen.geometry_2d.v1."),
            ),
        );
    }
    if g.bounds.width <= 0 || g.bounds.height <= 0 || g.bounds.grid <= 0 {
        push_diag(
            out,
            fatal_diag(
                "geometry_bounds_invalid",
                None,
                None,
                owned("Geometry bounds width, height, and grid must be positive."),
            ),
        );
    }
    if g.source_connection_plan_ref.unicode_len() == 0 || g.connection_plan_id.unicode_len() == 0 {
        push_diag(
            out,
            fatal_diag(
                "geometry_connection_plan_ref_missing",
                None,
                None,
                owned("Geometry must identify the exact physical connection plan it projects."),
            ),
        );
    }
    let ghost mid = diagnostic_views(out@);
    match validate_geometry_layout_policy(&g.layout_policy) {
        Err(error) => {
            push_diag(out, fatal_diag("geometry_layout_policy_invalid", None, None, error));
        },
        Ok(()) => {
            let s = &g.layout_search;
            if s.spacing_tier >= g.layout_policy.max_spacing_tiers || s.room_order_attempt
                >= g.layout_policy.room_order_attempts_per_tier || s.port_order_attempt
                >= GEOMETRY_PORT_ORDER_COUNT || s.route_order_attempt
                >= GEOMETRY_ROUTE_ORDER_COUNT || s.search_attempts == 0 || s.search_attempts
                > g.layout_policy.max_search_attempts {
                push_diag(
                    out,
                    fatal_diag(
                        "geometry_layout_search_evidence_invalid",
                        None,
                        None,
                        owned(
                            "Geometry layout search evidence exceeds its policy tier, ordering, or attempt bounds.",
                        ),
                    ),
                );
            } else {
                match geometry_spacing_for_tier(&g.layout_policy, s.spacing_tier) {
                    Ok(expected) => {
                        if expected != s.effective_spacing {
                            push_diag(
                                out,
                                fatal_diag(
                                    "geometry_layout_search_spacing_mismatch",
                                    None,
                                    None,
                                    owned(
                                        "Geometry effective spacing does not match its recorded policy tier.",
                                    ),
                                ),
                            );
                        }
                    },
                    Err(_) => {},
                }
            }
        },
    }
    assert(diagnostic_views(out@) =~= start + header_diags(*g));
}

// ---------------------------------------------------------------------
// Rooms
// ---------------------------------------------------------------------

/// A point on the boundary of a rectangle.
pub open spec fn on_rect_boundary(p: GeometryPoint, r: GeometryRect) -> bool {
    let on_vertical = (p.x == r.x || p.x == r.x + r.width) && p.y >= r.y && p.y <= r.y + r.height;
    let on_horizontal = (p.y == r.y || p.y == r.y + r.height) && p.x >= r.x && p.x <= r.x
        + r.width;
    on_vertical || on_horizontal
}

/// The far corner of the rectangle fits the integer range.
pub open spec fn rect_in_range(r: GeometryRect) -> bool {
    i32::MIN <= r.x + r.width <= i32::MAX && i32::MIN <= r.y + r.height <= i32::MAX
}

fn point_on_rect_boundary(p: &GeometryPoint, r: &GeometryRect) -> (b: bool)
    requires
        rect_in_range(*r),
    ensures
        b == on_rect_boundary(*p, *r),
{
    let right = r.x + r.width;
    let bottom = r.y + r.height;
    let on_vertical = (p.x == r.x || p.x == right) && p.y >= r.y && p.y <= bottom;
    let on_horizontal = (p.y == r.y || p.y == bottom) && p.x >= r.x && p.x <= right;
    on_vertical || on_horizontal
}

pub open spec fn port_diags(r: RoomView, prev: Seq<PortView>, p: PortView) -> Seq<DiagnosticView> {
    let node = first_text(r.source_nodes);
    when(
        !on_rect_boundary(p.point, r.rect),
        fatal_text(
            "geometry_room_port_detached",
            node,
            None,
            "Room port "@ + p.id + " is not on room "@ + r.id + " boundary."@,
        ),
    ) + when(
        exists|q: int| 0 <= q < prev.len() && #[trigger] prev[q].point == p.point,
        fatal_text(
            "geometry_room_port_span_reused",
            node,
            None,
            "Room "@ + r.id + " reuses doorway position "@ + int_text(p.point.x as int) + ","@
                + int_text(p.point.y as int) + "."@,
        ),
    ) + when(
        exists|q: int| 0 <= q < prev.len() && #[trigger] prev[q].section_id == p.section_id,
        fatal_text(
            "geometry_room_port_section_duplicate",
            node,
            None,
            "Room "@ + r.id + " has duplicate ports for section "@ + p.section_id + "."@,
        ),
    )
}

pub open spec fn ports_diags(r: RoomView, ps: Seq<PortView>) -> Seq<DiagnosticView>
    decreases ps.len(),
{
    if ps.len() == 0 {
        Seq::empty()
    } else {
        ports_diags(r, ps.drop_last()) + port_diags(r, ps.drop_last(), ps.last())
    }
}

pub open spec fn room_diags(prev: Seq<RoomView>, r: RoomView, b: GeometryBounds) -> Seq<
    DiagnosticView,
> {
    let node = first_text(r.source_nodes);
    if r.id.len() == 0 {
        seq![fatal_text("geometry_room_id_missing", node, None, "Room id must not be empty."@)]
    } else {
        when(
            exists|j: int| 0 <= j < prev.len() && #[trigger] prev[j].id == r.id,
            fatal_text(
                "geometry_room_duplicate",
                node,
                None,
                "Room id "@ + r.id + " appears more than once."@,
            ),
        ) + ports_diags(r, r.ports) + when(
            r.rect.width <= 0 || r.rect.height <= 0,
            fatal_text(
                "geometry_room_rect_invalid",
                node,
                None,
                "Room "@ + r.id + " has a non-positive rectangle."@,
            ),
        ) + when(
            r.rect.x < 0 || r.rect.y < 0 || r.rect.x + r.rect.width > b.width || r.rect.y
                + r.rect.height > b.height,
            fatal_text(
                "geometry_room_out_of_bounds",
                node,
                None,
                "Room "@ + r.id + " extends outside geometry bounds."@,
            ),
        )
    }
}

/// The checks of each room, in room order.
pub open spec fn rooms_diags(rs: Seq<RoomView>, b: GeometryBounds) -> Seq<DiagnosticView>
    decreases rs.len(),
{
    if rs.len() == 0 {
        Seq::empty()
    } else {
        rooms_diags(rs.drop_last(), b) + room_diags(rs.drop_last(), rs.last(), b)
    }
}

fn check_ports(room: &GeometryRoom, out: &mut Vec<Diagnostic>)
    requires
        rect_in_range(room.rect),
    ensures
        diagnostic_views(final(out)@) == diagnostic_views(old(out)@) + ports_diags(
            room@,
            room@.ports,
        ),
{
    let ghost r = room@;
    let ghost ps = r.ports;
    let ghost start = diagnostic_views(out@);
    let n = room.ports.len();
    let mut i: usize = 0;
    assert(ps.take(0) =~= Seq::<PortView>::empty());
    while i < n
        invariant
            n == room.ports@.len(),
            r == room@,
            ps == r.ports,
            rect_in_range(room.rect),
            i <= n,
            diagnostic_views(out@) == start + ports_diags(r, ps.take(i as int)),
        decreases n - i,
    {
        let p = &room.ports[i];
        let ghost prev = ps.take(i as int);
        proof {
            assert(ps.take(i + 1).drop_last() =~= prev);
            assert(ps.take(i + 1).last() == p@);
        }
        let ghost before = diagnostic_views(out@);
        if !point_on_rect_boundary(&p.point, &room.rect) {
            let mut d = text2("Room port ", p.id.as_str());
            d.append(" is not on room ");
            d.append(room.id.as_str());
            d.append(" boundary.");
            push_diag(
                out,
                fatal_diag("geometry_room_port_detached", first_of(&room.source_nodes), None, d),
            );
        }
        let mut reused = false;
        let mut dup_section = false;
        let mut q: usize = 0;
        while q < i
            invariant
                q <= i,
                i < n,
                n == room.ports@.len(),
                ps == room@.ports,
                prev == ps.take(i as int),
                p@ == ps[i as int],
                reused == exists|k: int| 0 <= k < q && #[trigger] prev[k].point == p@.point,
                dup_section == exists|k: int|
                    0 <= k < q && #[trigger] prev[k].section_id == p@.section_id,
            decreases i - q,
        {
            let other = &room.ports[q];
            assert(prev[q as int] == other@);
            if other.point == p.point {
                reused = true;
                assert(prev[q as int].point == p@.point);
            } else {
                assert(prev[q as int].point != p@.point);
            }
            if str_eq(other.section_id.as_str(), p.section_id.as_str()) {
                dup_section = true;
                assert(prev[q as int].section_id == p@.section_id);
            } else {
                assert(prev[q as int].section_id != p@.section_id);
            }
            q = q + 1;
        }
        if reused {
            let mut d = text3("Room ", room.id.as_str(), " reuses doorway position ");
            push_int_text(&mut d, p.point.x as i64);
            d.append(",");
            push_int_text(&mut d, p.point.y as i64);
            d.append(".");
            push_diag(
                out,
                fatal_diag("geometry_room_port_span_reused", first_of(&room.source_nodes), None, d),
            );
        }
        if dup_section {
            let mut d = text3("Room ", room.id.as_str(), " has duplicate ports for section ");
            d.append(p.section_id.as_str());
            d.append(".");
            push_diag(
                out,
                fatal_diag(
                    "geometry_room_port_section_duplicate",
                    first_of(&room.source_nodes),
                    None,
                    d,
                ),
            );
        }
        assert(diagnostic_views(out@) =~= before + port_diags(r, prev, p@));
        i = i + 1;
    }
    assert(ps.take(n as int) =~= ps);
}

/// Every room rectangle has its far corner in the integer range.
pub open spec fn rooms_in_range(rs: Seq<RoomView>) -> bool {
    forall|i: int| 0 <= i < rs.len() ==> rect_in_range(#[trigger] rs[i].rect)
}

fn check_room(g: &Geometry2dArtifact, i: usize, out: &mut Vec<Diagnostic>)
    requires
        i < g.rooms@.len(),
        rect_in_range(g.rooms@[i as int].rect),
    ensures
        diagnostic_views(final(out)@) == diagnostic_views(old(out)@) + room_diags(
            views(g.rooms@).take(i as int),
            g.rooms@[i as int]@,
            g.bounds,
        ),
{
    let ghost rs = views(g.rooms@);
    let ghost prev = rs.take(i as int);
    let n = g.rooms.len();
    let room = &g.rooms[i];
    assert(rs[i as int] == room@);
    let ghost before = diagnostic_views(out@);
    if room.id.unicode_len() == 0 {
        push_diag(
            out,
            fatal_diag(
                "geometry_room_id_missing",
                first_of(&room.source_nodes),
                None,
                owned("Room id must not be empty."),
            ),
        );
    } else {
        let mut dup = false;
        let mut j: usize = 0;
        while j < i
            invariant
                j <= i,
                i < n,
                n == g.rooms@.len(),
                rs == views(g.rooms@),
                prev == rs.take(i as int),
                room@ == rs[i as int],
                dup == exists|k: int| 0 <= k < j && #[trigger] prev[k].id == room@.id,
            decreases i - j,
        {
            assert(prev[j as int] == g.rooms@[j as int]@);
            if str_eq(g.rooms[j].id.as_str(), room.id.as_str()) {
                dup = true;
                assert(prev[j as int].id == room@.id);
            } else {
                assert(prev[j as int].id != room@.id);
            }
            j = j + 1;
        }
        if dup {
            let d = text3("Room id ", room.id.as_str(), " appears more than once.");
            push_diag(
                out,
                fatal_diag("geometry_room_duplicate", first_of(&room.source_nodes), None, d),
            );
        }
        check_ports(room, out);
        if room.rect.width <= 0 || room.rect.height <= 0 {
            let d = text3("Room ", room.id.as_str(), " has a non-positive rectangle.");
            push_diag(
                out,
                fatal_diag("geometry_room_rect_invalid", first_of(&room.source_nodes), None, d),
            );
        }
        if room.rect.x < 0 || room.rect.y < 0 || room.rect.x + room.rect.width > g.bounds.width
            || room.rect.y + room.rect.height > g.bounds.height {
            let d = text3("Room ", room.id.as_str(), " extends outside geometry bounds.");
            push_diag(
                out,
                fatal_diag("geometry_room_out_of_bounds", first_of(&room.source_nodes), None, d),
            );
        }
    }
    assert(diagnostic_views(out@) =~= before + room_diags(prev, room@, g.bounds));
}

fn check_rooms(g: &Geometry2dArtifact, out: &mut Vec<Diagnostic>)
    requires
        rooms_in_range(views(g.rooms@)),
    ensures
        diagnostic_views(final(out)@) == diagnostic_views(old(out)@) + rooms_diags(
            views(g.rooms@),
            g.bounds,
        ),
{
    let ghost rs = views(g.rooms@);
    let ghost start = diagnostic_views(out@);
    let n = g.rooms.len();
    let mut i: usize = 0;
    assert(rs.take(0) =~= Seq::<RoomView>::empty());
    while i < n
        invariant
            n == g.rooms@.len(),
            rs == views(g.rooms@),
            rooms_in_range(rs),
            i <= n,
            diagnostic_views(out@) == start + rooms_diags(rs.take(i as int), g.bounds),
        decreases n - i,
    {
        let room = &g.rooms[i];
        let ghost prev = rs.take(i as int);
        proof {
            assert(rs.take(i + 1).drop_last() =~= prev);
            assert(rs.take(i + 1).last() == room@);
            assert(rs[i as int] == room@);
            assert(rect_in_range(rs[i as int].rect));
        }
        check_room(g, i, out);
        i = i + 1;
    }
    assert(rs.take(n as int) =~= rs);
}

// ---------------------------------------------------------------------
// Room overlap
// ---------------------------------------------------------------------

pub open spec fn rects_overlap(a: GeometryRect, b: GeometryRect) -> bool {
    a.x < b.x + b.width && a.x + a.width > b.x && a.y < b.y + b.height && a.y + a.height > b.y
}

pub open spec fn overlaps_with(left: RoomView, rights: Seq<RoomView>) -> Seq<DiagnosticView>
    decreases rights.len(),
{
    if rights.len() == 0 {
        Seq::empty()
    } else {
        overlaps_with(left, rights.drop_last()) + when(
            rects_overlap(left.rect, rights.last().rect),
            fatal_text(
                "geometry_room_overlap",
                first_text(left.source_nodes),
                None,
                "Room "@ + left.id + " overlaps "@ + rights.last().id + "."@,
            ),
        )
    }
}

/// Every pair of rooms that overlap, each pair once, in room order.
pub open spec fn overlap_diags_upto(rs: Seq<RoomView>, n: int) -> Seq<DiagnosticView>
    decreases n,
{
    if n <= 0 {
        Seq::empty()
    } else {
        overlap_diags_upto(rs, n - 1) + overlaps_with(rs[n - 1], rs.skip(n))
    }
}

fn check_overlaps(g: &Geometry2dArtifact, out: &mut Vec<Diagnostic>)
    requires
        rooms_in_range(views(g.rooms@)),
    ensures
        diagnostic_views(final(out)@) == diagnostic_views(old(out)@) + overlap_diags_upto(
            views(g.rooms@),
            g.rooms@.len() as int,
        ),
{
    let ghost rs = views(g.rooms@);
    let ghost start = diagnostic_views(out@);
    let n = g.rooms.len();
    let mut i: usize = 0;
    while i < n
        invariant
            n == g.rooms@.len(),
            rs == views(g.rooms@),
            rooms_in_range(rs),
            i <= n,
            diagnostic_views(out@) == start + overlap_diags_upto(rs, i as int),
        decreases n - i,
    {
        let left = &g.rooms[i];
        let ghost base = diagnostic_views(out@);
        let ghost rights = rs.skip(i + 1);
        let mut j: usize = i + 1;
        assert(rights.take(0) =~= Seq::<RoomView>::empty());
        assert(rs[i as int] == left@);
        assert(rect_in_range(rs[i as int].rect));
        while j < n
            invariant
                i < n,
                i + 1 <= j <= n,
                n == g.rooms@.len(),
                rs == views(g.rooms@),
                rooms_in_range(rs),
                left@ == rs[i as int],
                rect_in_range(left.rect),
                rights == rs.skip(i + 1),
                diagnostic_views(out@) == base + overlaps_with(left@, rights.take(j - i - 1)),
            decreases n - j,
        {
            let right = &g.rooms[j];
            proof {
                assert(rs[j as int] == right@);
                assert(rect_in_range(rs[j as int].rect));
                assert(rights.take(j - i).drop_last() =~= rights.take(j - i - 1));
                assert(rights.take(j - i).last() == right@);
            }
            let ghost before = diagnostic_views(out@);
            let overlap = left.rect.x < right.rect.x + right.rect.width && left.rect.x
                + left.rect.width > right.rect.x && left.rect.y < right.rect.y + right.rect.height
                && left.rect.y + left.rect.height > right.rect.y;
            if overlap {
                let mut d = text3("Room ", left.id.as_str(), " overlaps ");
                d.append(right.id.as_str());
                d.append(".");
                push_diag(
                    out,
                    fatal_diag("geometry_room_overlap", first_of(&left.source_nodes), None, d),
                );
            }
            j = j + 1;
        }
        proof {
            assert(rights.take(n - i - 1) =~= rights);
        }
        i = i + 1;
    }
}

// ---------------------------------------------------------------------
// Corridors
// ---------------------------------------------------------------------

/// The last room with a non-empty id equal to `id` (the one a map of rooms
/// by id keeps).
pub open spec fn room_by_id(rs: Seq<RoomView>, id: Seq<char>) -> Option<RoomView>
    decreases rs.len(),
{
    if rs.len() == 0 {
        None
    } else if rs.last().id.len() > 0 && rs.last().id == id {
        Some(rs.last())
    } else {
        room_by_id(rs.drop_last(), id)
    }
}

/// The last room with a non-empty id whose source region is `region`.
pub open spec fn room_by_region(rs: Seq<RoomView>, region: Seq<char>) -> Option<RoomView>
    decreases rs.len(),
{
    if rs.len() == 0 {
        None
    } else if rs.last().id.len() > 0 && rs.last().source_region == region {
        Some(rs.last())
    } else {
        room_by_region(rs.drop_last(), region)
    }
}

fn find_room_by_id(rooms: &Vec<GeometryRoom>, id: &str) -> (r: Option<usize>)
    ensures
        match r {
            Some(i) => i < rooms@.len() && room_by_id(views(rooms@), id@) == Some(rooms@[i as int]@),
            None => room_by_id(views(rooms@), id@) is None,
        },
{
    let ghost all = views(rooms@);
    let mut j: usize = rooms.len();
    assert(all.take(j as int) =~= all);
    while j > 0
        invariant
            j <= rooms@.len(),
            all == views(rooms@),
            room_by_id(all, id@) == room_by_id(all.take(j as int), id@),
        decreases j,
    {
        let ghost pre = all.take(j as int);
        proof {
            assert(pre.drop_last() =~= all.take(j - 1));
            assert(pre.last() == rooms@[j - 1]@);
        }
        if rooms[j - 1].id.unicode_len() > 0 && str_eq(rooms[j - 1].id.as_str(), id) {
            return Some(j - 1);
        }
        j = j - 1;
    }
    None
}

fn find_room_by_region(rooms: &Vec<GeometryRoom>, region: &str) -> (r: Option<usize>)
    ensures
        match r {
            Some(i) => i < rooms@.len() && room_by_region(views(rooms@), region@) == Some(
                rooms@[i as int]@,
            ),
            None => room_by_region(views(rooms@), region@) is None,
        },
{
    let ghost all = views(rooms@);
    let mut j: usize = rooms.len();
    assert(all.take(j as int) =~= all);
    while j > 0
        invariant
            j <= rooms@.len(),
            all == views(rooms@),
            room_by_region(all, region@) == room_by_region(all.take(j as int), region@),
        decreases j,
    {
        let ghost pre = all.take(j as int);
        proof {
            assert(pre.drop_last() =~= all.take(j - 1));
            assert(pre.last() == rooms@[j - 1]@);
        }
        if rooms[j - 1].id.unicode_len() > 0 && str_eq(
            rooms[j - 1].source_region.as_str(),
            region,
        ) {
            return Some(j - 1);
        }
        j = j - 1;
    }
    None
}

/// The corridor keeps its section, source connectors, source edges and
/// traversal refs.
pub open spec fn complete_sources(c: CorridorView) -> bool {
    c.physical_section.len() > 0 && c.source_connectors.len() > 0 && c.source_edges.len() > 0
        && c.traversal_refs.len() > 0
}

/// The source connectors of the corridors that keep their sources.
pub open spec fn seen_connectors(cs: Seq<CorridorView>) -> Seq<Seq<char>>
    decreases cs.len(),
{
    if cs.len() == 0 {
        Seq::empty()
    } else if complete_sources(cs.last()) {
        seen_connectors(cs.drop_last()) + cs.last().source_connectors
    } else {
        seen_connectors(cs.drop_last())
    }
}

/// The source edges of the corridors that keep their sources.
pub open spec fn seen_edges(cs: Seq<CorridorView>) -> Seq<Seq<char>>
    decreases cs.len(),
{
    if cs.len() == 0 {
        Seq::empty()
    } else if complete_sources(cs.last()) {
        seen_edges(cs.drop_last()) + cs.last().source_edges
    } else {
        seen_edges(cs.drop_last())
    }
}

pub open spec fn connector_dup_diags(seen: Seq<Seq<char>>, l: Seq<Seq<char>>, cid: Seq<char>) -> Seq<
    DiagnosticView,
>
    decreases l.len(),
{
    if l.len() == 0 {
        Seq::empty()
    } else {
        connector_dup_diags(seen, l.drop_last(), cid) + when(
            seen.contains(l.last()) || l.drop_last().contains(l.last()),
            fatal_text(
                "geometry_corridor_duplicate_connector",
                None,
                Some(cid),
                "Connector "@ + l.last() + " is represented by more than one physical section."@,
            ),
        )
    }
}

pub open spec fn edge_dup_diags(seen: Seq<Seq<char>>, l: Seq<Seq<char>>, cid: Seq<char>) -> Seq<
    DiagnosticView,
>
    decreases l.len(),
{
    if l.len() == 0 {
        Seq::empty()
    } else {
        edge_dup_diags(seen, l.drop_last(), cid) + when(
            seen.contains(l.last()) || l.drop_last().contains(l.last()),
            fatal_text(
                "geometry_corridor_duplicate_edge",
                None,
                Some(cid),
                "Source edge "@ + l.last() + " is mapped to more than one physical section."@,
            ),
        )
    }
}

pub open spec fn ref_edge_ids(refs: Seq<TraversalRefView>) -> Seq<Seq<char>> {
    refs.map_values(|t: TraversalRefView| t.edge_id)
}

pub open spec fn ref_connector_ids(refs: Seq<TraversalRefView>) -> Seq<Seq<char>> {
    refs.map_values(|t: TraversalRefView| t.connector_id)
}

pub open spec fn same_members(a: Seq<Seq<char>>, b: Seq<Seq<char>>) -> bool {
    forall|x: Seq<char>| a.contains(x) <==> b.contains(x)
}

/// The traversal refs cover exactly the source connectors and edges.
pub open spec fn mapping_matches(c: CorridorView) -> bool {
    same_members(ref_edge_ids(c.traversal_refs), c.source_edges) && same_members(
        ref_connector_ids(c.traversal_refs),
        c.source_connectors,
    )
}

pub open spec fn source_diags(prev: Seq<CorridorView>, c: CorridorView) -> Seq<DiagnosticView> {
    if !complete_sources(c) {
        seq![
            fatal_text(
                "geometry_corridor_source_missing",
                None,
                Some(c.id),
                "Corridor must preserve source connector and source edge refs."@,
            ),
        ]
    } else {
        connector_dup_diags(seen_connectors(prev), c.source_connectors, c.id) + edge_dup_diags(
            seen_edges(prev),
            c.source_edges,
            c.id,
        ) + when(
            !mapping_matches(c),
            fatal_text(
                "geometry_corridor_traversal_mapping_mismatch",
                None,
                Some(c.id),
                "Corridor traversal refs must exactly cover its source connectors and edges."@,
            ),
        )
    }
}

/// The two rooms a corridor joins, when both exist and it has points.
pub open spec fn attached(c: CorridorView, rs: Seq<RoomView>) -> Option<(RoomView, RoomView)> {
    match (room_by_id(rs, c.from_room), room_by_id(rs, c.to_room)) {
        (Some(f), Some(t)) => if c.points.len() > 0 {
            Some((f, t))
        } else {
            None
        },
        _ => None,
    }
}

pub open spec fn has_port(r: RoomView, port: Seq<char>, section: Seq<char>) -> bool {
    exists|q: int|
        0 <= q < r.ports.len() && #[trigger] r.ports[q].id == port && r.ports[q].section_id
            == section
}

/// Two texts, the smaller first.
pub open spec fn sorted_pair(a: Seq<char>, b: Seq<char>) -> (Seq<char>, Seq<char>) {
    if text_lt(b, a) {
        (b, a)
    } else {
        (a, b)
    }
}

pub open spec fn terminal_diags(refs: Seq<TraversalRefView>, f: RoomView, t: RoomView) -> Seq<
    DiagnosticView,
>
    decreases refs.len(),
{
    if refs.len() == 0 {
        Seq::empty()
    } else {
        let r = refs.last();
        terminal_diags(refs.drop_last(), f, t) + when(
            sorted_pair(r.from_region, r.to_region) != sorted_pair(f.source_region, t.source_region),
            fatal_text(
                "geometry_corridor_terminal_mapping_mismatch",
                None,
                Some(r.edge_id),
                "Traversal "@ + r.edge_id + " does not terminate at corridor rooms "@
                    + f.source_region + " and "@ + t.source_region + "."@,
            ),
        )
    }
}

pub open spec fn attach_diags(c: CorridorView, rs: Seq<RoomView>) -> Seq<DiagnosticView> {
    match attached(c, rs) {
        None => Seq::empty(),
        Some((f, t)) => when(
            !on_rect_boundary(c.points[0], f.rect) || !on_rect_boundary(c.points.last(), t.rect),
            fatal_text(
                "geometry_corridor_endpoint_detached",
                None,
                Some(c.id),
                "Corridor "@ + c.id + " endpoints must attach to source and target room bounds."@,
            ),
        ) + when(
            !has_port(f, c.from_port, c.physical_section) || !has_port(
                t,
                c.to_port,
                c.physical_section,
            ),
            fatal_text(
                "geometry_corridor_port_mismatch",
                None,
                Some(c.id),
                "Corridor "@ + c.id + " does not identify its planned terminal ports."@,
            ),
        ) + terminal_diags(c.traversal_refs, f, t),
    }
}

pub open spec fn any_traversal(refs: Seq<TraversalRefView>, kind: &str) -> bool {
    exists|k: int| 0 <= k < refs.len() && #[trigger] refs[k].traversal == kind@
}

pub open spec fn semantics_diags(c: CorridorView) -> Seq<DiagnosticView> {
    when(
        any_traversal(c.traversal_refs, "locked") && !has_text(c.semantic_tags, "locked_threshold"),
        fatal_text(
            "geometry_locked_semantics_missing",
            None,
            Some(c.id),
            "Locked corridors must preserve locked_threshold semantics."@,
        ),
    ) + when(
        any_traversal(c.traversal_refs, "hidden") && !(has_text(c.semantic_tags, "hidden_route")
            || has_text(c.semantic_tags, "hidden_passage")),
        fatal_text(
            "geometry_hidden_semantics_missing",
            None,
            Some(c.id),
            "Hidden corridors must preserve hidden route semantics."@,
        ),
    ) + when(
        has_text(c.semantic_tags, "shortcut_link") && c.source_edge.len() == 0,
        fatal_text(
            "geometry_shortcut_source_missing",
            None,
            Some(c.id),
            "Shortcut corridors must preserve source edge refs."@,
        ),
    )
}

/// The checks of one corridor, given the corridors before it.
pub open spec fn corridor_diags(prev: Seq<CorridorView>, c: CorridorView, rs: Seq<RoomView>) -> Seq<
    DiagnosticView,
> {
    when(
        exists|k: int| 0 <= k < prev.len() && #[trigger] prev[k].physical_section == c.physical_section,
        fatal_text(
            "geometry_physical_section_duplicate",
            None,
            Some(c.id),
            "Physical section "@ + c.physical_section + " is represented by more than one corridor."@,
        ),
    ) + source_diags(prev, c) + when(
        room_by_id(rs, c.from_room) is None || room_by_id(rs, c.to_room) is None,
        fatal_text(
            "geometry_corridor_room_missing",
            None,
            Some(c.id),
            "Corridor "@ + c.id + " references a missing room endpoint."@,
        ),
    ) + when(
        c.points.len() < 2,
        fatal_text(
            "geometry_corridor_points_missing",
            None,
            Some(c.id),
            "Corridor "@ + c.id + " must have at least two points."@,
        ),
    ) + attach_diags(c, rs) + semantics_diags(c)
}

/// The checks of each corridor, in corridor order.
pub open spec fn corridors_diags(cs: Seq<CorridorView>, rs: Seq<RoomView>) -> Seq<DiagnosticView>
    decreases cs.len(),
{
    if cs.len() == 0 {
        Seq::empty()
    } else {
        corridors_diags(cs.drop_last(), rs) + corridor_diags(cs.drop_last(), cs.last(), rs)
    }
}

/// The room-to-room moves the traversal refs of an attached corridor allow.
pub open spec fn refs_adjacency(refs: Seq<TraversalRefView>, rs: Seq<RoomView>) -> Seq<
    (Seq<char>, Seq<char>),
>
    decreases refs.len(),
{
    if refs.len() == 0 {
        Seq::empty()
    } else {
        let r = refs.last();
        refs_adjacency(refs.drop_last(), rs) + match (
            room_by_region(rs, r.from_region),
            room_by_region(rs, r.to_region),
        ) {
            (Some(a), Some(b)) => seq![(a.id, b.id)],
            _ => Seq::empty(),
        }
    }
}

/// The directed room-to-room moves of all corridors.
pub open spec fn adjacency_edges(cs: Seq<CorridorView>, rs: Seq<RoomView>) -> Seq<
    (Seq<char>, Seq<char>),
>
    decreases cs.len(),
{
    if cs.len() == 0 {
        Seq::empty()
    } else {
        let c = cs.last();
        adjacency_edges(cs.drop_last(), rs) + if attached(c, rs) is Some {
            refs_adjacency(c.traversal_refs, rs)
        } else {
            Seq::empty()
        }
    }
}

pub fn contains_text(v: &Vec<String>, s: &str) -> (r: bool)
    ensures
        r == texts(v@).contains(s@),
{
    let r = any_text(v, s);
    proof {
        if r {
            let k = choose|k: int| 0 <= k < texts(v@).len() && #[trigger] texts(v@)[k] == s@;
            assert(texts(v@)[k] == s@);
        }
    }
    r
}

fn prefix_contains(v: &Vec<String>, q: usize, s: &str) -> (r: bool)
    requires
        q <= v@.len(),
    ensures
        r == texts(v@).take(q as int).contains(s@),
{
    let mut k: usize = 0;
    while k < q
        invariant
            k <= q,
            q <= v@.len(),
            forall|m: int| 0 <= m < k ==> #[trigger] texts(v@)[m] != s@,
        decreases q - k,
    {
        if str_eq(v[k].as_str(), s) {
            assert(texts(v@).take(q as int)[k as int] == s@);
            return true;
        }
        k = k + 1;
    }
    proof {
        if texts(v@).take(q as int).contains(s@) {
            let m = choose|m: int|
                0 <= m < texts(v@).take(q as int).len() && texts(v@).take(q as int)[m] == s@;
            assert(texts(v@)[m] == s@);
        }
    }
    false
}

fn all_in(a: &Vec<String>, b: &Vec<String>) -> (r: bool)
    ensures
        r == (forall|x: Seq<char>| texts(a@).contains(x) ==> texts(b@).contains(x)),
{
    let mut i: usize = 0;
    while i < a.len()
        invariant
            i <= a@.len(),
            forall|m: int| 0 <= m < i ==> texts(b@).contains(#[trigger] texts(a@)[m]),
        decreases a@.len() - i,
    {
        if !contains_text(b, a[i].as_str()) {
            assert(texts(a@).contains(texts(a@)[i as int]));
            return false;
        }
        i = i + 1;
    }
    proof {
        assert forall|x: Seq<char>| texts(a@).contains(x) implies texts(b@).contains(x) by {
            let m = choose|m: int| 0 <= m < texts(a@).len() && texts(a@)[m] == x;
            assert(texts(b@).contains(texts(a@)[m]));
        }
    }
    true
}

fn same_texts(a: &Vec<String>, b: &Vec<String>) -> (r: bool)
    ensures
        r == same_members(texts(a@), texts(b@)),
{
    all_in(a, b) && all_in(b, a)
}

fn any_traversal_kind(refs: &Vec<PhysicalTraversalRef>, kind: &str) -> (r: bool)
    ensures
        r == any_traversal(views(refs@), kind),
{
    let mut k: usize = 0;
    while k < refs.len()
        invariant
            k <= refs@.len(),
            forall|m: int| 0 <= m < k ==> #[trigger] views(refs@)[m].traversal != kind@,
        decreases refs@.len() - k,
    {
        if str_eq(refs[k].traversal.as_str(), kind) {
            assert(views(refs@)[k as int].traversal == kind@);
            return true;
        }
        k = k + 1;
    }
    false
}

fn room_has_port(room: &GeometryRoom, port: &str, section: &str) -> (r: bool)
    ensures
        r == has_port(room@, port@, section@),
{
    let mut q: usize = 0;
    while q < room.ports.len()
        invariant
            q <= room.ports@.len(),
            forall|m: int|
                0 <= m < q ==> !(#[trigger] room@.ports[m].id == port@ && room@.ports[m].section_id
                    == section@),
        decreases room.ports@.len() - q,
    {
        let p = &room.ports[q];
        assert(room@.ports[q as int] == p@);
        if str_eq(p.id.as_str(), port) && str_eq(p.section_id.as_str(), section) {
            assert(room@.ports[q as int].id == port@ && room@.ports[q as int].section_id
                == section@);
            return true;
        }
        q = q + 1;
    }
    false
}

fn ref_ids(refs: &Vec<PhysicalTraversalRef>) -> (r: (Vec<String>, Vec<String>))
    ensures
        texts(r.0@) == ref_edge_ids(views(refs@)),
        texts(r.1@) == ref_connector_ids(views(refs@)),
{
    let mut edges: Vec<String> = Vec::new();
    let mut conns: Vec<String> = Vec::new();
    let mut k: usize = 0;
    while k < refs.len()
        invariant
            k <= refs@.len(),
            texts(edges@) == ref_edge_ids(views(refs@)).take(k as int),
            texts(conns@) == ref_connector_ids(views(refs@)).take(k as int),
        decreases refs@.len() - k,
    {
        let ghost e0 = texts(edges@);
        let ghost c0 = texts(conns@);
        assert(views(refs@)[k as int] == refs@[k as int]@);
        edges.push(owned(refs[k].edge_id.as_str()));
        conns.push(owned(refs[k].connector_id.as_str()));
        assert(texts(edges@) =~= e0.push(refs@[k as int]@.edge_id));
        assert(texts(conns@) =~= c0.push(refs@[k as int]@.connector_id));
        k = k + 1;
        assert(texts(edges@) =~= ref_edge_ids(views(refs@)).take(k as int));
        assert(texts(conns@) =~= ref_connector_ids(views(refs@)).take(k as int));
    }
    assert(ref_edge_ids(views(refs@)).take(k as int) =~= ref_edge_ids(views(refs@)));
    assert(ref_connector_ids(views(refs@)).take(k as int) =~= ref_connector_ids(views(refs@)));
    (edges, conns)
}

/// Pairs of texts, position by position.
pub open spec fn zip_texts(a: Seq<String>, b: Seq<String>) -> Seq<(Seq<char>, Seq<char>)> {
    Seq::new(a.len(), |k: int| (a[k]@, b[k]@))
}

fn pair_sorted<'a>(a: &'a str, b: &'a str) -> (r: (&'a str, &'a str))
    ensures
        (r.0@, r.1@) == sorted_pair(a@, b@),
{
    if text_less(b, a) {
        (b, a)
    } else {
        (a, b)
    }
}

fn check_sources(
    g: &Geometry2dArtifact,
    i: usize,
    seen_conns: &mut Vec<String>,
    seen_edge_ids: &mut Vec<String>,
    out: &mut Vec<Diagnostic>,
)
    requires
        i < g.corridors@.len(),
        texts(old(seen_conns)@) == seen_connectors(views(g.corridors@).take(i as int)),
        texts(old(seen_edge_ids)@) == seen_edges(views(g.corridors@).take(i as int)),
    ensures
        diagnostic_views(final(out)@) == diagnostic_views(old(out)@) + source_diags(
            views(g.corridors@).take(i as int),
            g.corridors@[i as int]@,
        ),
        texts(final(seen_conns)@) == seen_connectors(views(g.corridors@).take(i + 1)),
        texts(final(seen_edge_ids)@) == seen_edges(views(g.corridors@).take(i + 1)),
{
    let ghost cs = views(g.corridors@);
    let c = &g.corridors[i];
    let ghost cv = c@;
    proof {
        assert(cs[i as int] == cv);
        assert(cs.take(i + 1).drop_last() =~= cs.take(i as int));
        assert(cs.take(i + 1).last() == cv);
    }
    let ghost start = diagnostic_views(out@);
    let complete = c.physical_section.unicode_len() > 0 && c.source_connectors.len() > 0
        && c.source_edges.len() > 0 && c.traversal_refs.len() > 0;
    if !complete {
        push_diag(
            out,
            fatal_diag(
                "geometry_corridor_source_missing",
                None,
                some_text(&c.id),
                owned("Corridor must preserve source connector and source edge refs."),
            ),
        );
        return;
    }
    let ghost seen_c = texts(seen_conns@);
    let ghost seen_e = texts(seen_edge_ids@);
    let ghost lc = cv.source_connectors;
    let mut q: usize = 0;
    assert(lc.take(0) =~= Seq::<Seq<char>>::empty());
    while q < c.source_connectors.len()
        invariant
            q <= c.source_connectors@.len(),
            lc == texts(c.source_connectors@),
            seen_c == texts(seen_conns@),
            cv == c@,
            diagnostic_views(out@) == start + connector_dup_diags(seen_c, lc.take(q as int), cv.id),
        decreases c.source_connectors@.len() - q,
    {
        let x = c.source_connectors[q].as_str();
        proof {
            assert(lc.take(q + 1).drop_last() =~= lc.take(q as int));
            assert(lc.take(q + 1).last() == x@);
        }
        if contains_text(seen_conns, x) || prefix_contains(&c.source_connectors, q, x) {
            let d = text3("Connector ", x, " is represented by more than one physical section.");
            push_diag(out, fatal_diag("geometry_corridor_duplicate_connector", None, some_text(&c.id), d));
        }
        q = q + 1;
    }
    assert(lc.take(q as int) =~= lc);
    let ghost mid = diagnostic_views(out@);
    let ghost le = cv.source_edges;
    let mut q: usize = 0;
    assert(le.take(0) =~= Seq::<Seq<char>>::empty());
    while q < c.source_edges.len()
        invariant
            q <= c.source_edges@.len(),
            le == texts(c.source_edges@),
            seen_e == texts(seen_edge_ids@),
            cv == c@,
            diagnostic_views(out@) == mid + edge_dup_diags(seen_e, le.take(q as int), cv.id),
        decreases c.source_edges@.len() - q,
    {
        let x = c.source_edges[q].as_str();
        proof {
            assert(le.take(q + 1).drop_last() =~= le.take(q as int));
            assert(le.take(q + 1).last() == x@);
        }
        if contains_text(seen_edge_ids, x) || prefix_contains(&c.source_edges, q, x) {
            let d = text3("Source edge ", x, " is mapped to more than one physical section.");
            push_diag(out, fatal_diag("geometry_corridor_duplicate_edge", None, some_text(&c.id), d));
        }
        q = q + 1;
    }
    assert(le.take(q as int) =~= le);
    let (edge_ids, conn_ids) = ref_ids(&c.traversal_refs);
    if !(same_texts(&edge_ids, &c.source_edges) && same_texts(&conn_ids, &c.source_connectors)) {
        push_diag(
            out,
            fatal_diag(
                "geometry_corridor_traversal_mapping_mismatch",
                None,
                some_text(&c.id),
                owned("Corridor traversal refs must exactly cover its source connectors and edges."),
            ),
        );
    }
    append_texts(seen_conns, &c.source_connectors);
    append_texts(seen_edge_ids, &c.source_edges);
    assert(diagnostic_views(out@) =~= start + source_diags(cs.take(i as int), cv));
}

fn check_attachment(
    g: &Geometry2dArtifact,
    i: usize,
    fi: usize,
    ti: usize,
    adj_from: &mut Vec<String>,
    adj_to: &mut Vec<String>,
    out: &mut Vec<Diagnostic>,
)
    requires
        i < g.corridors@.len(),
        fi < g.rooms@.len(),
        ti < g.rooms@.len(),
        rooms_in_range(views(g.rooms@)),
        attached(g.corridors@[i as int]@, views(g.rooms@)) == Some(
            (g.rooms@[fi as int]@, g.rooms@[ti as int]@),
        ),
        old(adj_from)@.len() == old(adj_to)@.len(),
    ensures
        diagnostic_views(final(out)@) == diagnostic_views(old(out)@) + attach_diags(
            g.corridors@[i as int]@,
            views(g.rooms@),
        ),
        final(adj_from)@.len() == final(adj_to)@.len(),
        zip_texts(final(adj_from)@, final(adj_to)@) == zip_texts(old(adj_from)@, old(adj_to)@)
            + refs_adjacency(g.corridors@[i as int]@.traversal_refs, views(g.rooms@)),
{
    let ghost rs = views(g.rooms@);
    let c = &g.corridors[i];
    let from = &g.rooms[fi];
    let to = &g.rooms[ti];
    let ghost f = from@;
    let ghost t = to@;
    proof {
        assert(rs[fi as int] == f);
        assert(rs[ti as int] == t);
        assert(rect_in_range(rs[fi as int].rect));
        assert(rect_in_range(rs[ti as int].rect));
    }
    let ghost start = diagnostic_views(out@);
    let first = &c.points[0];
    let last = &c.points[c.points.len() - 1];
    if !point_on_rect_boundary(first, &from.rect) || !point_on_rect_boundary(last, &to.rect) {
        let d = text3("Corridor ", c.id.as_str(), " endpoints must attach to source and target room bounds.");
        push_diag(out, fatal_diag("geometry_corridor_endpoint_detached", None, some_text(&c.id), d));
    }
    if !room_has_port(from, c.from_port.as_str(), c.physical_section.as_str()) || !room_has_port(
        to,
        c.to_port.as_str(),
        c.physical_section.as_str(),
    ) {
        let d = text3("Corridor ", c.id.as_str(), " does not identify its planned terminal ports.");
        push_diag(out, fatal_diag("geometry_corridor_port_mismatch", None, some_text(&c.id), d));
    }
    let ghost mid = diagnostic_views(out@);
    let ghost refs = c@.traversal_refs;
    let ghost adj0 = zip_texts(adj_from@, adj_to@);
    let room_pair = pair_sorted(from.source_region.as_str(), to.source_region.as_str());
    let mut k: usize = 0;
    assert(refs.take(0) =~= Seq::<TraversalRefView>::empty());
    assert(zip_texts(adj_from@, adj_to@) =~= adj0 + refs_adjacency(refs.take(0), rs));
    while k < c.traversal_refs.len()
        invariant
            k <= c.traversal_refs@.len(),
            refs == views(c.traversal_refs@),
            rs == views(g.rooms@),
            f == from@,
            t == to@,
            (room_pair.0@, room_pair.1@) == sorted_pair(f.source_region, t.source_region),
            adj_from@.len() == adj_to@.len(),
            diagnostic_views(out@) == mid + terminal_diags(refs.take(k as int), f, t),
            zip_texts(adj_from@, adj_to@) == adj0 + refs_adjacency(refs.take(k as int), rs),
        decreases c.traversal_refs@.len() - k,
    {
        let r = &c.traversal_refs[k];
        proof {
            assert(refs.take(k + 1).drop_last() =~= refs.take(k as int));
            assert(refs.take(k + 1).last() == r@);
        }
        let pair = pair_sorted(r.from_region.as_str(), r.to_region.as_str());
        if !(str_eq(pair.0, room_pair.0) && str_eq(pair.1, room_pair.1)) {
            let mut d = text3("Traversal ", r.edge_id.as_str(), " does not terminate at corridor rooms ");
            d.append(from.source_region.as_str());
            d.append(" and ");
            d.append(to.source_region.as_str());
            d.append(".");
            push_diag(
                out,
                fatal_diag("geometry_corridor_terminal_mapping_mismatch", None, some_text(&r.edge_id), d),
            );
        }
        let ghost z0 = zip_texts(adj_from@, adj_to@);
        match (find_room_by_region(&g.rooms, r.from_region.as_str()), find_room_by_region(&g.rooms, r.to_region.as_str())) {
            (Some(a), Some(b)) => {
                adj_from.push(owned(g.rooms[a].id.as_str()));
                adj_to.push(owned(g.rooms[b].id.as_str()));
                assert(zip_texts(adj_from@, adj_to@) =~= z0 + seq![(g.rooms@[a as int]@.id, g.rooms@[b as int]@.id)]);
            },
            _ => {},
        }
        k = k + 1;
    }
    assert(refs.take(k as int) =~= refs);
    assert(diagnostic_views(out@) =~= start + attach_diags(c@, rs));
}

fn check_semantics(c: &GeometryCorridor, out: &mut Vec<Diagnostic>)
    ensures
        diagnostic_views(final(out)@) == diagnostic_views(old(out)@) + semantics_diags(c@),
{
    let ghost start = diagnostic_views(out@);
    if any_traversal_kind(&c.traversal_refs, "locked") && !any_text(&c.semantic_tags, "locked_threshold") {
        push_diag(
            out,
            fatal_diag(
                "geometry_locked_semantics_missing",
                None,
                some_text(&c.id),
                owned("Locked corridors must preserve locked_threshold semantics."),
            ),
        );
    }
    if any_traversal_kind(&c.traversal_refs, "hidden") && !(any_text(&c.semantic_tags, "hidden_route")
        || any_text(&c.semantic_tags, "hidden_passage")) {
        push_diag(
            out,
            fatal_diag(
                "geometry_hidden_semantics_missing",
                None,
                some_text(&c.id),
                owned("Hidden corridors must preserve hidden route semantics."),
            ),
        );
    }
    if any_text(&c.semantic_tags, "shortcut_link") && c.source_edge.unicode_len() == 0 {
        push_diag(
            out,
            fatal_diag(
                "geometry_shortcut_source_missing",
                None,
                some_text(&c.id),
                owned("Shortcut corridors must preserve source edge refs."),
            ),
        );
    }
    assert(diagnostic_views(out@) =~= start + semantics_diags(c@));
}

fn section_seen_before(g: &Geometry2dArtifact, i: usize) -> (dup: bool)
    requires
        i < g.corridors@.len(),
    ensures
        dup == exists|k: int|
            0 <= k < i && #[trigger] views(g.corridors@).take(i as int)[k].physical_section
                == g.corridors@[i as int]@.physical_section,
{
    let ghost cs = views(g.corridors@);
    let ghost prev = cs.take(i as int);
    let c = &g.corridors[i];
    let mut dup = false;
    let mut j: usize = 0;
    while j < i
        invariant
            j <= i,
            i < g.corridors@.len(),
            cs == views(g.corridors@),
            prev == cs.take(i as int),
            c@ == g.corridors@[i as int]@,
            dup == exists|k: int| 0 <= k < j && #[trigger] prev[k].physical_section == c@.physical_section,
        decreases i - j,
    {
        assert(prev[j as int] == g.corridors@[j as int]@);
        if str_eq(g.corridors[j].physical_section.as_str(), c.physical_section.as_str()) {
            dup = true;
            assert(prev[j as int].physical_section == c@.physical_section);
        } else {
            assert(prev[j as int].physical_section != c@.physical_section);
        }
        j = j + 1;
    }
    dup
}

#[verifier::rlimit(60)]
fn check_corridor(
    g: &Geometry2dArtifact,
    i: usize,
    seen_conns: &mut Vec<String>,
    seen_edge_ids: &mut Vec<String>,
    adj_from: &mut Vec<String>,
    adj_to: &mut Vec<String>,
    out: &mut Vec<Diagnostic>,
)
    requires
        i < g.corridors@.len(),
        rooms_in_range(views(g.rooms@)),
        texts(old(seen_conns)@) == seen_connectors(views(g.corridors@).take(i as int)),
        texts(old(seen_edge_ids)@) == seen_edges(views(g.corridors@).take(i as int)),
        old(adj_from)@.len() == old(adj_to)@.len(),
    ensures
        diagnostic_views(final(out)@) == diagnostic_views(old(out)@) + corridor_diags(
            views(g.corridors@).take(i as int),
            g.corridors@[i as int]@,
            views(g.rooms@),
        ),
        texts(final(seen_conns)@) == seen_connectors(views(g.corridors@).take(i + 1)),
        texts(final(seen_edge_ids)@) == seen_edges(views(g.corridors@).take(i + 1)),
        final(adj_from)@.len() == final(adj_to)@.len(),
        zip_texts(final(adj_from)@, final(adj_to)@) == zip_texts(old(adj_from)@, old(adj_to)@)
            + if attached(g.corridors@[i as int]@, views(g.rooms@)) is Some {
            refs_adjacency(g.corridors@[i as int]@.traversal_refs, views(g.rooms@))
        } else {
            Seq::empty()
        },
{
    let ghost cs = views(g.corridors@);
    let ghost rs = views(g.rooms@);
    let ghost prev = cs.take(i as int);
    let c = &g.corridors[i];
    assert(cs[i as int] == c@);
    let ghost start = diagnostic_views(out@);
    let dup = section_seen_before(g, i);
    if dup {
        let d = text3("Physical section ", c.physical_section.as_str(), " is represented by more than one corridor.");
        push_diag(out, fatal_diag("geometry_physical_section_duplicate", None, some_text(&c.id), d));
    }
    let ghost d1 = diagnostic_views(out@);
    check_sources(g, i, seen_conns, seen_edge_ids, out);
    let ghost d2 = diagnostic_views(out@);
    let from = find_room_by_id(&g.rooms, c.from_room.as_str());
    let to = find_room_by_id(&g.rooms, c.to_room.as_str());
    if from.is_none() || to.is_none() {
        let d = text3("Corridor ", c.id.as_str(), " references a missing room endpoint.");
        push_diag(out, fatal_diag("geometry_corridor_room_missing", None, some_text(&c.id), d));
    }
    if c.points.len() < 2 {
        let d = text3("Corridor ", c.id.as_str(), " must have at least two points.");
        push_diag(out, fatal_diag("geometry_corridor_points_missing", None, some_text(&c.id), d));
    }
    let ghost d4 = diagnostic_views(out@);
    let ghost adj0 = zip_texts(adj_from@, adj_to@);
    match (from, to) {
        (Some(fi), Some(ti)) => {
            if c.points.len() > 0 {
                check_attachment(g, i, fi, ti, adj_from, adj_to, out);
            } else {
                assert(zip_texts(adj_from@, adj_to@) =~= adj0 + Seq::<(Seq<char>, Seq<char>)>::empty());
            }
        },
        _ => {
            assert(zip_texts(adj_from@, adj_to@) =~= adj0 + Seq::<(Seq<char>, Seq<char>)>::empty());
        },
    }
    let ghost d5 = diagnostic_views(out@);
    assert(d5 == d4 + attach_diags(c@, rs));
    check_semantics(c, out);
    assert(diagnostic_views(out@) =~= start + corridor_diags(prev, c@, rs));
}

fn check_corridors(
    g: &Geometry2dArtifact,
    adj_from: &mut Vec<String>,
    adj_to: &mut Vec<String>,
    out: &mut Vec<Diagnostic>,
) -> (seen: Vec<String>)
    requires
        rooms_in_range(views(g.rooms@)),
        old(adj_from)@.len() == 0,
        old(adj_to)@.len() == 0,
    ensures
        diagnostic_views(final(out)@) == diagnostic_views(old(out)@) + corridors_diags(
            views(g.corridors@),
            views(g.rooms@),
        ),
        final(adj_from)@.len() == final(adj_to)@.len(),
        zip_texts(final(adj_from)@, final(adj_to)@) == adjacency_edges(
            views(g.corridors@),
            views(g.rooms@),
        ),
        texts(seen@) == seen_connectors(views(g.corridors@)),
{
    let ghost cs = views(g.corridors@);
    let ghost rs = views(g.rooms@);
    let ghost start = diagnostic_views(out@);
    let mut seen_conns: Vec<String> = Vec::new();
    let mut seen_edge_ids: Vec<String> = Vec::new();
    let n = g.corridors.len();
    let mut i: usize = 0;
    assert(cs.take(0) =~= Seq::<CorridorView>::empty());
    assert(texts(seen_conns@) =~= Seq::<Seq<char>>::empty());
    assert(texts(seen_edge_ids@) =~= Seq::<Seq<char>>::empty());
    assert(zip_texts(adj_from@, adj_to@) =~= Seq::<(Seq<char>, Seq<char>)>::empty());
    while i < n
        invariant
            n == g.corridors@.len(),
            i <= n,
            cs == views(g.corridors@),
            rs == views(g.rooms@),
            rooms_in_range(rs),
            texts(seen_conns@) == seen_connectors(cs.take(i as int)),
            texts(seen_edge_ids@) == seen_edges(cs.take(i as int)),
            adj_from@.len() == adj_to@.len(),
            zip_texts(adj_from@, adj_to@) == adjacency_edges(cs.take(i as int), rs),
            diagnostic_views(out@) == start + corridors_diags(cs.take(i as int), rs),
        decreases n - i,
    {
        proof {
            assert(cs.take(i + 1).drop_last() =~= cs.take(i as int));
            assert(cs.take(i + 1).last() == cs[i as int]);
            assert(cs[i as int] == g.corridors@[i as int]@);
        }
        check_corridor(g, i, &mut seen_conns, &mut seen_edge_ids, adj_from, adj_to, out);
        i = i + 1;
    }
    assert(cs.take(n as int) =~= cs);
    seen_conns
}

// ---------------------------------------------------------------------
// Rasterized corridors and exclusive routes
// ---------------------------------------------------------------------

pub open spec fn abs_int(v: int) -> int {
    if v < 0 {
        -v
    } else {
        v
    }
}

/// One grid step (8 units) from `v` toward `to`.
pub open spec fn step_toward(v: int, to: int) -> int {
    if to > v {
        8
    } else if to < v {
        -8
    } else {
        0
    }
}

/// A segment that grid steps walk: both offsets multiples of the grid,
/// and the segment straight or diagonal.
pub open spec fn reachable(a: GeometryPoint, b: GeometryPoint) -> bool {
    let ax = abs_int(b.x - a.x);
    let ay = abs_int(b.y - a.y);
    ax % 8 == 0 && ay % 8 == 0 && (ax == 0 || ay == 0 || ax == ay)
}

pub open spec fn steps(a: GeometryPoint, b: GeometryPoint) -> nat {
    let ax = abs_int(b.x - a.x);
    let ay = abs_int(b.y - a.y);
    (if ax > ay {
        ax / 8
    } else {
        ay / 8
    }) as nat
}

pub open spec fn toward(a: GeometryPoint, b: GeometryPoint) -> GeometryPoint {
    GeometryPoint {
        x: (a.x + step_toward(a.x as int, b.x as int)) as i32,
        y: (a.y + step_toward(a.y as int, b.y as int)) as i32,
    }
}

/// A grid step toward the end of a walkable segment keeps it walkable and
/// leaves one step fewer.
pub proof fn lemma_toward(a: GeometryPoint, b: GeometryPoint)
    requires
        reachable(a, b),
        a != b,
    ensures
        reachable(toward(a, b), b),
        steps(toward(a, b), b) + 1 == steps(a, b),
        toward(a, b).x == a.x + step_toward(a.x as int, b.x as int),
        toward(a, b).y == a.y + step_toward(a.y as int, b.y as int),
{
}

/// The grid cells of a segment, both ends included.
pub open spec fn walk(a: GeometryPoint, b: GeometryPoint) -> Seq<GeometryPoint>
    decreases steps(a, b),
    when reachable(a, b)
{
    if a == b {
        seq![a]
    } else {
        proof {
            lemma_toward(a, b);
        }
        seq![a] + walk(toward(a, b), b)
    }
}

/// The grid cells of every segment of a polyline, segment by segment.
pub open spec fn raw_cells(pts: Seq<GeometryPoint>) -> Seq<GeometryPoint>
    decreases pts.len(),
{
    if pts.len() < 2 {
        Seq::empty()
    } else {
        raw_cells(pts.drop_last()) + walk(pts[pts.len() - 2], pts.last())
    }
}

/// The points without a point equal to the one before it.
pub open spec fn dedup_points(s: Seq<GeometryPoint>) -> Seq<GeometryPoint>
    decreases s.len(),
{
    if s.len() == 0 {
        s
    } else {
        let d = dedup_points(s.drop_last());
        if d.len() > 0 && d.last() == s.last() {
            d
        } else {
            d.push(s.last())
        }
    }
}

/// The grid cells a corridor polyline covers.
pub open spec fn raster(pts: Seq<GeometryPoint>) -> Seq<GeometryPoint> {
    dedup_points(raw_cells(pts))
}

/// Every segment of the polyline is walkable in grid steps.
pub open spec fn polyline_reachable(pts: Seq<GeometryPoint>) -> bool {
    forall|i: int| 0 <= i < pts.len() - 1 ==> #[trigger] reachable(pts[i], pts[i + 1])
}

pub open spec fn corridors_reachable(cs: Seq<CorridorView>) -> bool {
    forall|k: int| 0 <= k < cs.len() ==> polyline_reachable(#[trigger] cs[k].points)
}

fn push_walk(out: &mut Vec<GeometryPoint>, a: GeometryPoint, b: GeometryPoint)
    requires
        reachable(a, b),
    ensures
        final(out)@ == old(out)@ + walk(a, b),
{
    let ghost target = old(out)@ + walk(a, b);
    let mut cursor = a;
    out.push(a);
    proof {
        if a == b {
            assert(walk(a, b) == seq![a]);
        } else {
            lemma_toward(a, b);
            assert(walk(a, b) == seq![a] + walk(toward(a, b), b));
        }
        assert(out@ + walk(a, b).skip(1) =~= target);
    }
    while cursor != b
        invariant
            reachable(cursor, b),
            out@ + walk(cursor, b).skip(1) == target,
        decreases steps(cursor, b),
    {
        proof {
            lemma_toward(cursor, b);
        }
        let sx: i32 = if b.x > cursor.x {
            8
        } else if b.x < cursor.x {
            -8
        } else {
            0
        };
        let sy: i32 = if b.y > cursor.y {
            8
        } else if b.y < cursor.y {
            -8
        } else {
            0
        };
        let next = GeometryPoint { x: cursor.x + sx, y: cursor.y + sy };
        proof {
            assert(next == toward(cursor, b));
            assert(walk(cursor, b) == seq![cursor] + walk(next, b));
            assert(walk(cursor, b).skip(1) =~= walk(next, b));
            if next == b {
                assert(walk(next, b) == seq![next]);
            } else {
                lemma_toward(next, b);
                assert(walk(next, b) == seq![next] + walk(toward(next, b), b));
            }
            assert(walk(next, b) =~= seq![next] + walk(next, b).skip(1));
        }
        out.push(next);
        cursor = next;
        assert(out@ + walk(cursor, b).skip(1) =~= target);
    }
    proof {
        assert(walk(cursor, b) == seq![cursor]);
        assert(walk(cursor, b).skip(1) =~= Seq::<GeometryPoint>::empty());
        assert(out@ =~= target);
    }
}

fn dedupe_points(points: Vec<GeometryPoint>) -> (r: Vec<GeometryPoint>)
    ensures
        r@ == dedup_points(points@),
{
    let mut r: Vec<GeometryPoint> = Vec::new();
    let mut i: usize = 0;
    assert(points@.take(0) =~= Seq::<GeometryPoint>::empty());
    while i < points.len()
        invariant
            i <= points@.len(),
            r@ == dedup_points(points@.take(i as int)),
        decreases points@.len() - i,
    {
        let p = points[i];
        proof {
            assert(points@.take(i + 1).drop_last() =~= points@.take(i as int));
            assert(points@.take(i + 1).last() == p);
        }
        if !(r.len() > 0 && r[r.len() - 1] == p) {
            r.push(p);
        }
        i = i + 1;
    }
    assert(points@.take(i as int) =~= points@);
    r
}

/// The grid cells of a corridor polyline.
pub fn rasterize_corridor(c: &GeometryCorridor) -> (r: Vec<GeometryPoint>)
    requires
        polyline_reachable(c.points@),
    ensures
        r@ == raster(c.points@),
{
    let pts = &c.points;
    let mut raw: Vec<GeometryPoint> = Vec::new();
    if pts.len() >= 2 {
        let mut i: usize = 1;
        assert(pts@.take(1).len() < 2);
        assert(raw@ =~= raw_cells(pts@.take(1)));
        while i < pts.len()
            invariant
                1 <= i <= pts@.len(),
                polyline_reachable(pts@),
                raw@ == raw_cells(pts@.take(i as int)),
            decreases pts@.len() - i,
        {
            proof {
                let t = pts@.take(i + 1);
                assert(t.drop_last() =~= pts@.take(i as int));
                assert(t[t.len() - 2] == pts@[i - 1]);
                assert(t.last() == pts@[i as int]);
                assert(reachable(pts@[i - 1], pts@[(i - 1) + 1]));
            }
            push_walk(&mut raw, pts[i - 1], pts[i]);
            i = i + 1;
        }
        assert(pts@.take(i as int) =~= pts@);
    } else {
        assert(raw@ =~= raw_cells(pts@));
    }
    dedupe_points(raw)
}

/// A covered grid cell: its position, the physical section that covers it,
/// and that section's corridor width.
pub type RouteCell = (GeometryPoint, Seq<char>, i32);

pub open spec fn cells_of(c: CorridorView, pts: Seq<GeometryPoint>) -> Seq<RouteCell> {
    pts.map_values(|p: GeometryPoint| (p, c.physical_section, c.width))
}

/// Every cell every corridor covers, corridor by corridor.
pub open spec fn route_cells(cs: Seq<CorridorView>) -> Seq<RouteCell>
    decreases cs.len(),
{
    if cs.len() == 0 {
        Seq::empty()
    } else {
        route_cells(cs.drop_last()) + cells_of(cs.last(), raster(cs.last().points))
    }
}

/// The section and width of the last cell at a position (the owner a map
/// of cells by position keeps).
pub open spec fn owner_at(rc: Seq<RouteCell>, x: int, y: int) -> Option<(Seq<char>, i32)>
    decreases rc.len(),
{
    if rc.len() == 0 {
        None
    } else if rc.last().0.x == x && rc.last().0.y == y {
        Some((rc.last().1, rc.last().2))
    } else {
        owner_at(rc.drop_last(), x, y)
    }
}

pub open spec fn intrusion_diags(c: CorridorView, p: GeometryPoint, rs: Seq<RoomView>) -> Seq<
    DiagnosticView,
>
    decreases rs.len(),
{
    if rs.len() == 0 {
        Seq::empty()
    } else {
        let r = rs.last();
        intrusion_diags(c, p, rs.drop_last()) + when(
            r.id != c.from_room && r.id != c.to_room && p.x > r.rect.x && p.x < r.rect.x
                + r.rect.width && p.y > r.rect.y && p.y < r.rect.y + r.rect.height,
            fatal_text(
                "geometry_corridor_room_intrusion",
                first_text(r.source_nodes),
                Some(c.id),
                "Physical section "@ + c.physical_section + " enters unrelated room "@ + r.id
                    + "."@,
            ),
        )
    }
}

pub open spec fn point_diags(
    c: CorridorView,
    p: GeometryPoint,
    before: Seq<RouteCell>,
    rs: Seq<RoomView>,
) -> Seq<DiagnosticView> {
    intrusion_diags(c, p, rs) + match owner_at(before, p.x as int, p.y as int) {
        Some((other, _)) => when(
            other != c.physical_section,
            fatal_text(
                "geometry_physical_section_overlap",
                None,
                Some(c.id),
                "Physical sections "@ + other + " and "@ + c.physical_section + " overlap at "@
                    + int_text(p.x as int) + ","@ + int_text(p.y as int) + "."@,
            ),
        ),
        None => Seq::empty(),
    }
}

pub open spec fn points_diags(
    c: CorridorView,
    pts: Seq<GeometryPoint>,
    before: Seq<RouteCell>,
    rs: Seq<RoomView>,
) -> Seq<DiagnosticView>
    decreases pts.len(),
{
    if pts.len() == 0 {
        Seq::empty()
    } else {
        points_diags(c, pts.drop_last(), before, rs) + point_diags(
            c,
            pts.last(),
            before + cells_of(c, pts.drop_last()),
            rs,
        )
    }
}

/// The intrusion and overlap checks of every covered cell, in order.
pub open spec fn routes_diags(cs: Seq<CorridorView>, rs: Seq<RoomView>) -> Seq<DiagnosticView>
    decreases cs.len(),
{
    if cs.len() == 0 {
        Seq::empty()
    } else {
        routes_diags(cs.drop_last(), rs) + points_diags(
            cs.last(),
            raster(cs.last().points),
            route_cells(cs.drop_last()),
            rs,
        )
    }
}

fn find_owner(pts: &Vec<GeometryPoint>, upto: usize, x: i64, y: i64) -> (r: Option<usize>)
    requires
        upto <= pts@.len(),
    ensures
        match r {
            Some(k) => k < upto && pts@[k as int].x == x && pts@[k as int].y == y && forall|m: int|
                k < m < upto ==> !(#[trigger] pts@[m].x == x && pts@[m].y == y),
            None => forall|m: int| 0 <= m < upto ==> !(#[trigger] pts@[m].x == x && pts@[m].y == y),
        },
{
    let mut k: usize = upto;
    while k > 0
        invariant
            k <= upto,
            upto <= pts@.len(),
            forall|m: int| k <= m < upto ==> !(#[trigger] pts@[m].x == x && pts@[m].y == y),
        decreases k,
    {
        if pts[k - 1].x as i64 == x && pts[k - 1].y as i64 == y {
            return Some(k - 1);
        }
        k = k - 1;
    }
    None
}

/// The cells built so far, as positions with the corridor that covers each.
pub open spec fn cells_view(
    pts: Seq<GeometryPoint>,
    owners: Seq<usize>,
    cs: Seq<CorridorView>,
) -> Seq<RouteCell> {
    Seq::new(
        pts.len(),
        |k: int| (pts[k], cs[owners[k] as int].physical_section, cs[owners[k] as int].width),
    )
}

proof fn lemma_owner_last(rc: Seq<RouteCell>, x: int, y: int, k: int)
    requires
        0 <= k < rc.len(),
        rc[k].0.x == x && rc[k].0.y == y,
        forall|m: int| k < m < rc.len() ==> !(#[trigger] rc[m].0.x == x && rc[m].0.y == y),
    ensures
        owner_at(rc, x, y) == Some((rc[k].1, rc[k].2)),
    decreases rc.len(),
{
    if k < rc.len() - 1 {
        let d = rc.drop_last();
        assert forall|m: int| k < m < d.len() implies !(#[trigger] d[m].0.x == x && d[m].0.y == y) by {
            assert(d[m] == rc[m]);
        }
        lemma_owner_last(d, x, y, k);
    }
}

proof fn lemma_owner_none(rc: Seq<RouteCell>, x: int, y: int)
    requires
        forall|m: int| 0 <= m < rc.len() ==> !(#[trigger] rc[m].0.x == x && rc[m].0.y == y),
    ensures
        owner_at(rc, x, y) is None,
    decreases rc.len(),
{
    if rc.len() > 0 {
        let d = rc.drop_last();
        assert forall|m: int| 0 <= m < d.len() implies !(#[trigger] d[m].0.x == x && d[m].0.y == y) by {
            assert(d[m] == rc[m]);
        }
        lemma_owner_none(d, x, y);
    }
}

fn check_intrusions(g: &Geometry2dArtifact, c: &GeometryCorridor, p: GeometryPoint, out: &mut Vec<
    Diagnostic,
>)
    requires
        rooms_in_range(views(g.rooms@)),
    ensures
        diagnostic_views(final(out)@) == diagnostic_views(old(out)@) + intrusion_diags(
            c@,
            p,
            views(g.rooms@),
        ),
{
    let ghost rs = views(g.rooms@);
    let ghost start = diagnostic_views(out@);
    let mut j: usize = 0;
    assert(rs.take(0) =~= Seq::<RoomView>::empty());
    while j < g.rooms.len()
        invariant
            j <= g.rooms@.len(),
            rs == views(g.rooms@),
            rooms_in_range(rs),
            diagnostic_views(out@) == start + intrusion_diags(c@, p, rs.take(j as int)),
        decreases g.rooms@.len() - j,
    {
        let room = &g.rooms[j];
        proof {
            assert(rs.take(j + 1).drop_last() =~= rs.take(j as int));
            assert(rs.take(j + 1).last() == room@);
            assert(rs[j as int] == room@);
            assert(rect_in_range(rs[j as int].rect));
        }
        if !str_eq(room.id.as_str(), c.from_room.as_str()) && !str_eq(
            room.id.as_str(),
            c.to_room.as_str(),
        ) && p.x > room.rect.x && p.x < room.rect.x + room.rect.width && p.y > room.rect.y && p.y
            < room.rect.y + room.rect.height {
            let mut d = text3("Physical section ", c.physical_section.as_str(), " enters unrelated room ");
            d.append(room.id.as_str());
            d.append(".");
            push_diag(
                out,
                fatal_diag("geometry_corridor_room_intrusion", first_of(&room.source_nodes), some_text(&c.id), d),
            );
        }
        j = j + 1;
    }
    assert(rs.take(j as int) =~= rs);
}

fn route_point(
    g: &Geometry2dArtifact,
    i: usize,
    p: GeometryPoint,
    pts: &mut Vec<GeometryPoint>,
    owners: &mut Vec<usize>,
    out: &mut Vec<Diagnostic>,
)
    requires
        i < g.corridors@.len(),
        rooms_in_range(views(g.rooms@)),
        old(pts)@.len() == old(owners)@.len(),
        forall|k: int| 0 <= k < old(owners)@.len() ==> #[trigger] old(owners)@[k] < g.corridors@.len(),
    ensures
        final(pts)@.len() == final(owners)@.len(),
        forall|k: int| 0 <= k < final(owners)@.len() ==> #[trigger] final(owners)@[k] < g.corridors@.len(),
        cells_view(final(pts)@, final(owners)@, views(g.corridors@)) == cells_view(
            old(pts)@,
            old(owners)@,
            views(g.corridors@),
        ).push((p, g.corridors@[i as int]@.physical_section, g.corridors@[i as int]@.width)),
        diagnostic_views(final(out)@) == diagnostic_views(old(out)@) + point_diags(
            g.corridors@[i as int]@,
            p,
            cells_view(old(pts)@, old(owners)@, views(g.corridors@)),
            views(g.rooms@),
        ),
{
    let ghost cs = views(g.corridors@);
    let ghost before = cells_view(pts@, owners@, cs);
    let c = &g.corridors[i];
    assert(cs[i as int] == c@);
    let ghost start = diagnostic_views(out@);
    check_intrusions(g, c, p, out);
    let ghost mid = diagnostic_views(out@);
    match find_owner(pts, pts.len(), p.x as i64, p.y as i64) {
        Some(k) => {
            let o = owners[k];
            proof {
                assert(before[k as int].0 == pts@[k as int]);
                assert forall|m: int| k < m < before.len() implies !(#[trigger] before[m].0.x
                    == p.x && before[m].0.y == p.y) by {
                    assert(before[m].0 == pts@[m]);
                }
                lemma_owner_last(before, p.x as int, p.y as int, k as int);
                assert(cs[o as int] == g.corridors@[o as int]@);
            }
            if !str_eq(g.corridors[o].physical_section.as_str(), c.physical_section.as_str()) {
                let mut d = text3(
                    "Physical sections ",
                    g.corridors[o].physical_section.as_str(),
                    " and ",
                );
                d.append(c.physical_section.as_str());
                d.append(" overlap at ");
                push_int_text(&mut d, p.x as i64);
                d.append(",");
                push_int_text(&mut d, p.y as i64);
                d.append(".");
                push_diag(out, fatal_diag("geometry_physical_section_overlap", None, some_text(&c.id), d));
            }
        },
        None => {
            proof {
                assert forall|m: int| 0 <= m < before.len() implies !(#[trigger] before[m].0.x
                    == p.x && before[m].0.y == p.y) by {
                    assert(before[m].0 == pts@[m]);
                }
                lemma_owner_none(before, p.x as int, p.y as int);
            }
        },
    }
    assert(diagnostic_views(out@) =~= start + point_diags(c@, p, before, views(g.rooms@)));
    pts.push(p);
    owners.push(i);
    assert(cells_view(pts@, owners@, cs) =~= before.push((p, c@.physical_section, c@.width)));
}

fn route_corridor(
    g: &Geometry2dArtifact,
    i: usize,
    pts: &mut Vec<GeometryPoint>,
    owners: &mut Vec<usize>,
    out: &mut Vec<Diagnostic>,
)
    requires
        i < g.corridors@.len(),
        rooms_in_range(views(g.rooms@)),
        corridors_reachable(views(g.corridors@)),
        old(pts)@.len() == old(owners)@.len(),
        forall|k: int| 0 <= k < old(owners)@.len() ==> #[trigger] old(owners)@[k] < g.corridors@.len(),
    ensures
        final(pts)@.len() == final(owners)@.len(),
        forall|k: int| 0 <= k < final(owners)@.len() ==> #[trigger] final(owners)@[k] < g.corridors@.len(),
        cells_view(final(pts)@, final(owners)@, views(g.corridors@)) == cells_view(
            old(pts)@,
            old(owners)@,
            views(g.corridors@),
        ) + cells_of(g.corridors@[i as int]@, raster(g.corridors@[i as int]@.points)),
        diagnostic_views(final(out)@) == diagnostic_views(old(out)@) + points_diags(
            g.corridors@[i as int]@,
            raster(g.corridors@[i as int]@.points),
            cells_view(old(pts)@, old(owners)@, views(g.corridors@)),
            views(g.rooms@),
        ),
{
    let ghost cs = views(g.corridors@);
    let ghost base = cells_view(pts@, owners@, cs);
    let ghost start = diagnostic_views(out@);
    let c = &g.corridors[i];
    proof {
        assert(cs[i as int] == c@);
        assert(polyline_reachable(cs[i as int].points));
    }
    let cells = rasterize_corridor(c);
    let ghost cv = c@;
    let mut t: usize = 0;
    assert(cells@.take(0) =~= Seq::<GeometryPoint>::empty());
    assert(cells_view(pts@, owners@, cs) =~= base + cells_of(cv, cells@.take(0)));
    while t < cells.len()
        invariant
            t <= cells@.len(),
            i < g.corridors@.len(),
            cs == views(g.corridors@),
            cv == g.corridors@[i as int]@,
            rooms_in_range(views(g.rooms@)),
            pts@.len() == owners@.len(),
            forall|k: int| 0 <= k < owners@.len() ==> #[trigger] owners@[k] < g.corridors@.len(),
            cells_view(pts@, owners@, cs) == base + cells_of(cv, cells@.take(t as int)),
            diagnostic_views(out@) == start + points_diags(cv, cells@.take(t as int), base, views(g.rooms@)),
        decreases cells@.len() - t,
    {
        let p = cells[t];
        proof {
            assert(cells@.take(t + 1).drop_last() =~= cells@.take(t as int));
            assert(cells@.take(t + 1).last() == p);
        }
        route_point(g, i, p, pts, owners, out);
        t = t + 1;
        assert(cells_of(cv, cells@.take(t as int)) =~= cells_of(cv, cells@.take(t - 1)).push(
            (p, cv.physical_section, cv.width),
        ));
        assert(cells_view(pts@, owners@, cs) =~= base + cells_of(cv, cells@.take(t as int)));
    }
    assert(cells@.take(t as int) =~= cells@);
}

fn check_routes(g: &Geometry2dArtifact, out: &mut Vec<Diagnostic>) -> (r: (
    Vec<GeometryPoint>,
    Vec<usize>,
))
    requires
        rooms_in_range(views(g.rooms@)),
        corridors_reachable(views(g.corridors@)),
    ensures
        r.0@.len() == r.1@.len(),
        forall|k: int| 0 <= k < r.1@.len() ==> #[trigger] r.1@[k] < g.corridors@.len(),
        cells_view(r.0@, r.1@, views(g.corridors@)) == route_cells(views(g.corridors@)),
        diagnostic_views(final(out)@) == diagnostic_views(old(out)@) + routes_diags(
            views(g.corridors@),
            views(g.rooms@),
        ),
{
    let ghost cs = views(g.corridors@);
    let ghost start = diagnostic_views(out@);
    let mut pts: Vec<GeometryPoint> = Vec::new();
    let mut owners: Vec<usize> = Vec::new();
    let mut i: usize = 0;
    assert(cs.take(0) =~= Seq::<CorridorView>::empty());
    assert(cells_view(pts@, owners@, cs) =~= Seq::<RouteCell>::empty());
    while i < g.corridors.len()
        invariant
            i <= g.corridors@.len(),
            cs == views(g.corridors@),
            rooms_in_range(views(g.rooms@)),
            corridors_reachable(cs),
            pts@.len() == owners@.len(),
            forall|k: int| 0 <= k < owners@.len() ==> #[trigger] owners@[k] < g.corridors@.len(),
            cells_view(pts@, owners@, cs) == route_cells(cs.take(i as int)),
            diagnostic_views(out@) == start + routes_diags(cs.take(i as int), views(g.rooms@)),
        decreases g.corridors@.len() - i,
    {
        proof {
            assert(cs.take(i + 1).drop_last() =~= cs.take(i as int));
            assert(cs.take(i + 1).last() == g.corridors@[i as int]@);
        }
        route_corridor(g, i, &mut pts, &mut owners, out);
        i = i + 1;
    }
    assert(cs.take(i as int) =~= cs);
    (pts, owners)
}

/// Integer division by two, rounding toward zero.
pub open spec fn half(w: int) -> int {
    if w >= 0 {
        w / 2
    } else {
        -((-w) / 2)
    }
}

/// Integer division by eight, rounding toward zero.
pub open spec fn tdiv8(v: int) -> int {
    if v >= 0 {
        v / 8
    } else {
        -((-v) / 8)
    }
}

/// How many grid steps around a cell the separation check looks: half the
/// corridor width plus the widest corridor half-width and the separation,
/// rounded up to the grid.
pub open spec fn contact_radius(w: i32) -> int {
    tdiv8(tdiv8(half(w as int) + 25) * 8)
}

/// The number of offsets from `-r` through `r`.
pub open spec fn span(r: int) -> nat {
    if r >= 0 {
        (2 * r + 1) as nat
    } else {
        0
    }
}

pub type SectionPair = (Seq<char>, Seq<char>);

/// The check of one neighbour of a cell, given the section pairs already
/// reported.
pub open spec fn probe(
    rc: Seq<RouteCell>,
    cell: RouteCell,
    dy: int,
    dx: int,
    rep: Seq<SectionPair>,
) -> (Seq<DiagnosticView>, Seq<SectionPair>) {
    match owner_at(rc, cell.0.x + dx * 8, cell.0.y + dy * 8) {
        Some((os, ow)) => if os != cell.1 && (abs_int(dx) + abs_int(dy)) * 8 < half(cell.2 as int)
            + half(ow as int) + 8 {
            let pair = sorted_pair(cell.1, os);
            if rep.contains(pair) {
                (Seq::empty(), rep)
            } else {
                (
                    seq![
                        fatal_text(
                            "geometry_physical_section_contact",
                            None,
                            None,
                            "Unrelated physical sections "@ + pair.0 + " and "@ + pair.1
                                + " violate separation."@,
                        ),
                    ],
                    rep.push(pair),
                )
            }
        } else {
            (Seq::empty(), rep)
        },
        None => (Seq::empty(), rep),
    }
}

/// The first `n` neighbours of a cell in the row `dy`, from `dx == -r` up.
pub open spec fn probe_row(
    rc: Seq<RouteCell>,
    cell: RouteCell,
    dy: int,
    r: int,
    n: nat,
    rep: Seq<SectionPair>,
) -> (Seq<DiagnosticView>, Seq<SectionPair>)
    decreases n,
{
    if n == 0 {
        (Seq::empty(), rep)
    } else {
        let (d, rp) = probe_row(rc, cell, dy, r, (n - 1) as nat, rep);
        let (d2, rp2) = probe(rc, cell, dy, -r + n - 1, rp);
        (d + d2, rp2)
    }
}

/// The first `n` rows of neighbours of a cell, from `dy == -r` up.
pub open spec fn probe_rows(
    rc: Seq<RouteCell>,
    cell: RouteCell,
    r: int,
    n: nat,
    rep: Seq<SectionPair>,
) -> (Seq<DiagnosticView>, Seq<SectionPair>)
    decreases n,
{
    if n == 0 {
        (Seq::empty(), rep)
    } else {
        let (d, rp) = probe_rows(rc, cell, r, (n - 1) as nat, rep);
        let (d2, rp2) = probe_row(rc, cell, -r + n - 1, r, span(r), rp);
        (d + d2, rp2)
    }
}

/// The separation checks of the cells in `cells`, in order.
pub open spec fn contacts(rc: Seq<RouteCell>, cells: Seq<RouteCell>, rep: Seq<SectionPair>) -> (
    Seq<DiagnosticView>,
    Seq<SectionPair>,
)
    decreases cells.len(),
{
    if cells.len() == 0 {
        (Seq::empty(), rep)
    } else {
        let (d, rp) = contacts(rc, cells.drop_last(), rep);
        let c = cells.last();
        let r = contact_radius(c.2);
        let (d2, rp2) = probe_rows(rc, c, r, span(r), rp);
        (d + d2, rp2)
    }
}

/// Each pair of unrelated physical sections that come too close, reported
/// once.
pub open spec fn contact_diags(rc: Seq<RouteCell>) -> Seq<DiagnosticView> {
    contacts(rc, rc, Seq::empty()).0
}

fn half_i64(w: i64) -> (r: i64)
    requires
        w > i64::MIN,
    ensures
        r == half(w as int),
{
    if w >= 0 {
        w / 2
    } else {
        -((-w) / 2)
    }
}

fn tdiv8_i64(v: i64) -> (r: i64)
    requires
        v > i64::MIN,
    ensures
        r == tdiv8(v as int),
{
    if v >= 0 {
        v / 8
    } else {
        -((-v) / 8)
    }
}

fn pair_reported(ra: &Vec<String>, rb: &Vec<String>, a: &str, b: &str) -> (r: bool)
    requires
        ra@.len() == rb@.len(),
    ensures
        r == zip_texts(ra@, rb@).contains((a@, b@)),
{
    let ghost z = zip_texts(ra@, rb@);
    let mut k: usize = 0;
    while k < ra.len()
        invariant
            k <= ra@.len(),
            ra@.len() == rb@.len(),
            z == zip_texts(ra@, rb@),
            forall|m: int| 0 <= m < k ==> #[trigger] z[m] != (a@, b@),
        decreases ra@.len() - k,
    {
        if str_eq(ra[k].as_str(), a) && str_eq(rb[k].as_str(), b) {
            assert(z[k as int] == (a@, b@));
            return true;
        }
        assert(z[k as int] == (ra@[k as int]@, rb@[k as int]@));
        k = k + 1;
    }
    false
}

fn check_probe(
    g: &Geometry2dArtifact,
    pts: &Vec<GeometryPoint>,
    owners: &Vec<usize>,
    t: usize,
    dy: i64,
    dx: i64,
    rep_a: &mut Vec<String>,
    rep_b: &mut Vec<String>,
    out: &mut Vec<Diagnostic>,
)
    requires
        pts@.len() == owners@.len(),
        t < pts@.len(),
        forall|k: int| 0 <= k < owners@.len() ==> #[trigger] owners@[k] < g.corridors@.len(),
        -0x1000_0000_0000 <= dy <= 0x1000_0000_0000,
        -0x1000_0000_0000 <= dx <= 0x1000_0000_0000,
        old(rep_a)@.len() == old(rep_b)@.len(),
    ensures
        final(rep_a)@.len() == final(rep_b)@.len(),
        ({
            let rc = cells_view(pts@, owners@, views(g.corridors@));
            let res = probe(rc, rc[t as int], dy as int, dx as int, zip_texts(old(rep_a)@, old(rep_b)@));
            &&& diagnostic_views(final(out)@) == diagnostic_views(old(out)@) + res.0
            &&& zip_texts(final(rep_a)@, final(rep_b)@) == res.1
        }),
{
    let ghost cs = views(g.corridors@);
    let ghost rc = cells_view(pts@, owners@, cs);
    let ghost rep0 = zip_texts(rep_a@, rep_b@);
    let ghost start = diagnostic_views(out@);
    let ci = owners[t];
    let c = &g.corridors[ci];
    proof {
        assert(cs[ci as int] == c@);
        assert(rc[t as int] == (pts@[t as int], c@.physical_section, c@.width));
    }
    let qx: i64 = pts[t].x as i64 + dx * 8;
    let qy: i64 = pts[t].y as i64 + dy * 8;
    match find_owner(pts, pts.len(), qx, qy) {
        Some(k) => {
            let o = &g.corridors[owners[k]];
            proof {
                assert(rc[k as int].0 == pts@[k as int]);
                assert forall|m: int| k < m < rc.len() implies !(#[trigger] rc[m].0.x == qx
                    && rc[m].0.y == qy) by {
                    assert(rc[m].0 == pts@[m]);
                }
                lemma_owner_last(rc, qx as int, qy as int, k as int);
                assert(cs[owners@[k as int] as int] == o@);
            }
            if !str_eq(o.physical_section.as_str(), c.physical_section.as_str()) {
                let adx: i64 = if dx < 0 {
                    -dx
                } else {
                    dx
                };
                let ady: i64 = if dy < 0 {
                    -dy
                } else {
                    dy
                };
                let distance: i64 = (adx + ady) * 8;
                let required: i64 = half_i64(c.width as i64) + half_i64(o.width as i64) + 8;
                if distance < required {
                    let pair = pair_sorted(c.physical_section.as_str(), o.physical_section.as_str());
                    if !pair_reported(rep_a, rep_b, pair.0, pair.1) {
                        let mut d = text3("Unrelated physical sections ", pair.0, " and ");
                        d.append(pair.1);
                        d.append(" violate separation.");
                        push_diag(out, fatal_diag("geometry_physical_section_contact", None, None, d));
                        rep_a.push(owned(pair.0));
                        rep_b.push(owned(pair.1));
                        assert(zip_texts(rep_a@, rep_b@) =~= rep0.push((pair.0@, pair.1@)));
                    }
                }
            }
        },
        None => {
            proof {
                assert forall|m: int| 0 <= m < rc.len() implies !(#[trigger] rc[m].0.x == qx
                    && rc[m].0.y == qy) by {
                    assert(rc[m].0 == pts@[m]);
                }
                lemma_owner_none(rc, qx as int, qy as int);
            }
        },
    }
}

fn check_contacts(g: &Geometry2dArtifact, pts: &Vec<GeometryPoint>, owners: &Vec<usize>, out: &mut Vec<
    Diagnostic,
>)
    requires
        pts@.len() == owners@.len(),
        forall|k: int| 0 <= k < owners@.len() ==> #[trigger] owners@[k] < g.corridors@.len(),
    ensures
        diagnostic_views(final(out)@) == diagnostic_views(old(out)@) + contact_diags(
            cells_view(pts@, owners@, views(g.corridors@)),
        ),
{
    let ghost cs = views(g.corridors@);
    let ghost rc = cells_view(pts@, owners@, cs);
    let ghost start = diagnostic_views(out@);
    let mut rep_a: Vec<String> = Vec::new();
    let mut rep_b: Vec<String> = Vec::new();
    let mut t: usize = 0;
    assert(rc.take(0) =~= Seq::<RouteCell>::empty());
    assert(zip_texts(rep_a@, rep_b@) =~= Seq::<SectionPair>::empty());
    while t < pts.len()
        invariant
            t <= pts@.len(),
            pts@.len() == owners@.len(),
            forall|k: int| 0 <= k < owners@.len() ==> #[trigger] owners@[k] < g.corridors@.len(),
            cs == views(g.corridors@),
            rc == cells_view(pts@, owners@, cs),
            rep_a@.len() == rep_b@.len(),
            diagnostic_views(out@) == start + contacts(rc, rc.take(t as int), Seq::empty()).0,
            zip_texts(rep_a@, rep_b@) == contacts(rc, rc.take(t as int), Seq::empty()).1,
        decreases pts@.len() - t,
    {
        let ghost cell = rc[t as int];
        proof {
            assert(rc.take(t + 1).drop_last() =~= rc.take(t as int));
            assert(rc.take(t + 1).last() == cell);
        }
        let c = &g.corridors[owners[t]];
        assert(cs[owners@[t as int] as int] == c@);
        let r: i64 = tdiv8_i64(tdiv8_i64(half_i64(c.width as i64) + 25) * 8);
        assert(r == contact_radius(cell.2));
        let width: i64 = if r >= 0 {
            2 * r + 1
        } else {
            0
        };
        let ghost d0 = diagnostic_views(out@);
        let ghost p0 = zip_texts(rep_a@, rep_b@);
        let mut row: i64 = 0;
        while row < width
            invariant
                0 <= row <= width,
                width == span(r as int),
                r == contact_radius(cell.2),
                -0x1000_0000 <= r <= 0x1000_0000,
                t < pts@.len(),
                pts@.len() == owners@.len(),
                forall|k: int| 0 <= k < owners@.len() ==> #[trigger] owners@[k] < g.corridors@.len(),
                cs == views(g.corridors@),
                rc == cells_view(pts@, owners@, cs),
                cell == rc[t as int],
                rep_a@.len() == rep_b@.len(),
                diagnostic_views(out@) == d0 + probe_rows(rc, cell, r as int, row as nat, p0).0,
                zip_texts(rep_a@, rep_b@) == probe_rows(rc, cell, r as int, row as nat, p0).1,
            decreases width - row,
        {
            let dy: i64 = -r + row;
            let ghost d1 = diagnostic_views(out@);
            let ghost p1 = zip_texts(rep_a@, rep_b@);
            let mut col: i64 = 0;
            while col < width
                invariant
                    0 <= col <= width,
                    0 <= row < width,
                    width == span(r as int),
                    -0x1000_0000 <= r <= 0x1000_0000,
                    dy == -r + row,
                    t < pts@.len(),
                    pts@.len() == owners@.len(),
                    forall|k: int| 0 <= k < owners@.len() ==> #[trigger] owners@[k] < g.corridors@.len(),
                    cs == views(g.corridors@),
                    rc == cells_view(pts@, owners@, cs),
                    cell == rc[t as int],
                    rep_a@.len() == rep_b@.len(),
                    diagnostic_views(out@) == d1 + probe_row(rc, cell, dy as int, r as int, col as nat, p1).0,
                    zip_texts(rep_a@, rep_b@) == probe_row(rc, cell, dy as int, r as int, col as nat, p1).1,
                decreases width - col,
            {
                let dx: i64 = -r + col;
                check_probe(g, pts, owners, t, dy, dx, &mut rep_a, &mut rep_b, out);
                col = col + 1;
            }
            row = row + 1;
        }
        t = t + 1;
    }
    assert(rc.take(t as int) =~= rc);
}

// ---------------------------------------------------------------------
// Skipped connectors and content anchors
// ---------------------------------------------------------------------

pub open spec fn valid_skipped(s: SkippedView) -> bool {
    s.source_connector.len() > 0 && s.reason.len() > 0
}

pub open spec fn skipped_one(prev: Seq<SkippedView>, s: SkippedView, routed: Seq<Seq<char>>) -> Seq<
    DiagnosticView,
> {
    let sc = s.source_connector;
    (if !valid_skipped(s) {
        seq![
            fatal_text(
                "geometry_skipped_connector_invalid",
                None,
                None,
                "Skipped connectors must include source connector and reason."@,
            ),
        ]
    } else {
        when(
            exists|k: int|
                0 <= k < prev.len() && valid_skipped(prev[k]) && #[trigger] prev[k].source_connector
                    == sc,
            fatal_text(
                "geometry_skipped_connector_duplicate",
                None,
                Some(sc),
                "Skipped connector "@ + sc + " appears more than once."@,
            ),
        )
    }) + when(
        routed.contains(sc),
        fatal_text(
            "geometry_connector_represented_and_skipped",
            None,
            Some(sc),
            "Connector "@ + sc + " is both routed and skipped."@,
        ),
    )
}

/// The checks of each skipped connector, against the routed connectors.
pub open spec fn skipped_diags(ss: Seq<SkippedView>, routed: Seq<Seq<char>>) -> Seq<DiagnosticView>
    decreases ss.len(),
{
    if ss.len() == 0 {
        Seq::empty()
    } else {
        skipped_diags(ss.drop_last(), routed) + skipped_one(ss.drop_last(), ss.last(), routed)
    }
}

fn check_skipped(g: &Geometry2dArtifact, routed: &Vec<String>, out: &mut Vec<Diagnostic>)
    ensures
        diagnostic_views(final(out)@) == diagnostic_views(old(out)@) + skipped_diags(
            views(g.skipped_connectors@),
            texts(routed@),
        ),
{
    let ghost ss = views(g.skipped_connectors@);
    let ghost start = diagnostic_views(out@);
    let n = g.skipped_connectors.len();
    let mut i: usize = 0;
    assert(ss.take(0) =~= Seq::<SkippedView>::empty());
    while i < n
        invariant
            i <= n,
            n == g.skipped_connectors@.len(),
            ss == views(g.skipped_connectors@),
            diagnostic_views(out@) == start + skipped_diags(ss.take(i as int), texts(routed@)),
        decreases n - i,
    {
        let sk = &g.skipped_connectors[i];
        let ghost prev = ss.take(i as int);
        proof {
            assert(ss.take(i + 1).drop_last() =~= prev);
            assert(ss.take(i + 1).last() == sk@);
            assert(ss[i as int] == sk@);
        }
        let ghost before = diagnostic_views(out@);
        if sk.source_connector.unicode_len() == 0 || sk.reason.unicode_len() == 0 {
            push_diag(
                out,
                fatal_diag(
                    "geometry_skipped_connector_invalid",
                    None,
                    None,
                    owned("Skipped connectors must include source connector and reason."),
                ),
            );
        } else {
            let mut dup = false;
            let mut j: usize = 0;
            while j < i
                invariant
                    j <= i,
                    i < n,
                    n == g.skipped_connectors@.len(),
                    ss == views(g.skipped_connectors@),
                    prev == ss.take(i as int),
                    sk@ == ss[i as int],
                    dup == exists|k: int|
                        0 <= k < j && valid_skipped(prev[k]) && #[trigger] prev[k].source_connector
                            == sk@.source_connector,
                decreases i - j,
            {
                let other = &g.skipped_connectors[j];
                assert(prev[j as int] == other@);
                if other.source_connector.unicode_len() > 0 && other.reason.unicode_len() > 0
                    && str_eq(other.source_connector.as_str(), sk.source_connector.as_str()) {
                    dup = true;
                    assert(valid_skipped(prev[j as int]) && prev[j as int].source_connector
                        == sk@.source_connector);
                } else {
                    assert(!(valid_skipped(prev[j as int]) && prev[j as int].source_connector
                        == sk@.source_connector));
                }
                j = j + 1;
            }
            if dup {
                let d = text3("Skipped connector ", sk.source_connector.as_str(), " appears more than once.");
                push_diag(
                    out,
                    fatal_diag("geometry_skipped_connector_duplicate", None, some_text(&sk.source_connector), d),
                );
            }
        }
        if contains_text(routed, sk.source_connector.as_str()) {
            let d = text3("Connector ", sk.source_connector.as_str(), " is both routed and skipped.");
            push_diag(
                out,
                fatal_diag("geometry_connector_represented_and_skipped", None, some_text(&sk.source_connector), d),
            );
        }
        assert(diagnostic_views(out@) =~= before + skipped_one(prev, sk@, texts(routed@)));
        i = i + 1;
    }
    assert(ss.take(n as int) =~= ss);
}

pub open spec fn valid_content(c: ContentView) -> bool {
    c.id.len() > 0 && c.kind.len() > 0 && c.label.len() > 0 && c.source_ref.len() > 0
}

pub open spec fn content_one(prev: Seq<ContentView>, c: ContentView, rs: Seq<RoomView>) -> Seq<
    DiagnosticView,
> {
    (if !valid_content(c) {
        seq![
            fatal_text(
                "geometry_content_metadata_missing",
                None,
                None,
                "Content annotations must include id, kind, label, and source ref."@,
            ),
        ]
    } else {
        when(
            exists|k: int| 0 <= k < prev.len() && valid_content(prev[k]) && #[trigger] prev[k].id == c.id,
            fatal_text(
                "geometry_content_duplicate",
                None,
                None,
                "Content id "@ + c.id + " appears more than once."@,
            ),
        )
    }) + when(
        room_by_id(rs, c.room_id) is None,
        fatal_text(
            "geometry_content_room_missing",
            None,
            None,
            "Content "@ + c.id + " references missing room "@ + c.room_id + "."@,
        ),
    )
}

/// The checks of each content anchor.
pub open spec fn contents_diags(cs: Seq<ContentView>, rs: Seq<RoomView>) -> Seq<DiagnosticView>
    decreases cs.len(),
{
    if cs.len() == 0 {
        Seq::empty()
    } else {
        contents_diags(cs.drop_last(), rs) + content_one(cs.drop_last(), cs.last(), rs)
    }
}

fn check_contents(g: &Geometry2dArtifact, out: &mut Vec<Diagnostic>)
    ensures
        diagnostic_views(final(out)@) == diagnostic_views(old(out)@) + contents_diags(
            views(g.contents@),
            views(g.rooms@),
        ),
{
    let ghost cs = views(g.contents@);
    let ghost start = diagnostic_views(out@);
    let n = g.contents.len();
    let mut i: usize = 0;
    assert(cs.take(0) =~= Seq::<ContentView>::empty());
    while i < n
        invariant
            i <= n,
            n == g.contents@.len(),
            cs == views(g.contents@),
            diagnostic_views(out@) == start + contents_diags(cs.take(i as int), views(g.rooms@)),
        decreases n - i,
    {
        let c = &g.contents[i];
        let ghost prev = cs.take(i as int);
        proof {
            assert(cs.take(i + 1).drop_last() =~= prev);
            assert(cs.take(i + 1).last() == c@);
            assert(cs[i as int] == c@);
        }
        let ghost before = diagnostic_views(out@);
        if c.id.unicode_len() == 0 || c.kind.unicode_len() == 0 || c.label.unicode_len() == 0
            || c.source_ref.unicode_len() == 0 {
            push_diag(
                out,
                fatal_diag(
                    "geometry_content_metadata_missing",
                    None,
                    None,
                    owned("Content annotations must include id, kind, label, and source ref."),
                ),
            );
        } else {
            let mut dup = false;
            let mut j: usize = 0;
            while j < i
                invariant
                    j <= i,
                    i < n,
                    n == g.contents@.len(),
                    cs == views(g.contents@),
                    prev == cs.take(i as int),
                    c@ == cs[i as int],
                    dup == exists|k: int|
                        0 <= k < j && valid_content(prev[k]) && #[trigger] prev[k].id == c@.id,
                decreases i - j,
            {
                let other = &g.contents[j];
                assert(prev[j as int] == other@);
                if other.id.unicode_len() > 0 && other.kind.unicode_len() > 0
                    && other.label.unicode_len() > 0 && other.source_ref.unicode_len() > 0
                    && str_eq(other.id.as_str(), c.id.as_str()) {
                    dup = true;
                    assert(valid_content(prev[j as int]) && prev[j as int].id == c@.id);
                } else {
                    assert(!(valid_content(prev[j as int]) && prev[j as int].id == c@.id));
                }
                j = j + 1;
            }
            if dup {
                let d = text3("Content id ", c.id.as_str(), " appears more than once.");
                push_diag(out, fatal_diag("geometry_content_duplicate", None, None, d));
            }
        }
        if find_room_by_id(&g.rooms, c.room_id.as_str()).is_none() {
            let mut d = text3("Content ", c.id.as_str(), " references missing room ");
            d.append(c.room_id.as_str());
            d.append(".");
            push_diag(out, fatal_diag("geometry_content_room_missing", None, None, d));
        }
        assert(diagnostic_views(out@) =~= before + content_one(prev, c@, views(g.rooms@)));
        i = i + 1;
    }
    assert(cs.take(n as int) =~= cs);
}

// ---------------------------------------------------------------------
// Reachability of a goal room
// ---------------------------------------------------------------------

/// The ids of the start rooms, in room order.
pub open spec fn start_ids(rs: Seq<RoomView>) -> Seq<Seq<char>>
    decreases rs.len(),
{
    if rs.len() == 0 {
        Seq::empty()
    } else if rs.last().role == "start"@ {
        start_ids(rs.drop_last()).push(rs.last().id)
    } else {
        start_ids(rs.drop_last())
    }
}

pub open spec fn has_goal(rs: Seq<RoomView>) -> bool {
    exists|i: int| 0 <= i < rs.len() && #[trigger] rs[i].role == "goal"@
}

pub open spec fn is_goal_id(rs: Seq<RoomView>, x: Seq<char>) -> bool {
    exists|i: int| 0 <= i < rs.len() && #[trigger] rs[i].role == "goal"@ && rs[i].id == x
}

/// A sequence of rooms in which each next room is one move away.
pub open spec fn is_walk(edges: Seq<(Seq<char>, Seq<char>)>, p: Seq<Seq<char>>) -> bool {
    p.len() >= 1 && forall|i: int| 0 <= i < p.len() - 1 ==> edges.contains((#[trigger] p[i], p[i + 1]))
}

/// Some walk leads from a start to `x`.
pub open spec fn reaches(edges: Seq<(Seq<char>, Seq<char>)>, starts: Seq<Seq<char>>, x: Seq<char>) -> bool {
    exists|p: Seq<Seq<char>>| #[trigger] is_walk(edges, p) && starts.contains(p[0]) && p.last() == x
}

pub open spec fn goal_reachable(rs: Seq<RoomView>, edges: Seq<(Seq<char>, Seq<char>)>) -> bool {
    exists|x: Seq<char>| #[trigger] is_goal_id(rs, x) && reaches(edges, start_ids(rs), x)
}

/// The start and goal checks: a start room, a goal room, and a goal that
/// directed corridor moves reach from a start.
pub open spec fn reach_diags(rs: Seq<RoomView>, edges: Seq<(Seq<char>, Seq<char>)>) -> Seq<
    DiagnosticView,
> {
    let starts = start_ids(rs);
    when(
        starts.len() == 0,
        fatal_text("geometry_start_missing", Some("start"@), None, "Geometry must include a start room."@),
    ) + when(
        !has_goal(rs),
        fatal_text("geometry_goal_missing", Some("goal"@), None, "Geometry must include a goal room."@),
    ) + if starts.len() == 0 || !has_goal(rs) {
        Seq::empty()
    } else {
        when(
            !goal_reachable(rs, edges),
            fatal_text(
                "geometry_goal_unreachable",
                Some("goal"@),
                None,
                "Goal room is not reachable from start through directed corridors."@,
            ),
        )
    }
}

proof fn lemma_distinct_bound(vis: Seq<Seq<char>>, u: Seq<Seq<char>>)
    requires
        vis.no_duplicates(),
        forall|x: Seq<char>| vis.contains(x) ==> u.contains(x),
    ensures
        vis.len() <= u.len(),
{
    broadcast use vstd::seq_lib::seq_to_set_is_finite;

    vis.unique_seq_to_set();
    u.lemma_cardinality_of_set();
    assert(vis.to_set().subset_of(u.to_set()));
    vstd::set_lib::lemma_len_subset(vis.to_set(), u.to_set());
}

/// A set of rooms that holds every start and every move's target from its
/// own rooms holds every room a walk from a start reaches.
proof fn lemma_closed_reach(
    edges: Seq<(Seq<char>, Seq<char>)>,
    starts: Seq<Seq<char>>,
    vis: Seq<Seq<char>>,
    p: Seq<Seq<char>>,
)
    requires
        is_walk(edges, p),
        starts.contains(p[0]),
        forall|x: Seq<char>| starts.contains(x) ==> vis.contains(x),
        forall|k: int| 0 <= k < edges.len() && vis.contains(#[trigger] edges[k].0) ==> vis.contains(edges[k].1),
    ensures
        vis.contains(p.last()),
    decreases p.len(),
{
    if p.len() > 1 {
        let q = p.drop_last();
        assert forall|i: int| 0 <= i < q.len() - 1 implies edges.contains((#[trigger] q[i], q[i + 1])) by {
            assert(q[i] == p[i] && q[i + 1] == p[i + 1]);
            assert(edges.contains((p[i], p[i + 1])));
        }
        lemma_closed_reach(edges, starts, vis, q);
        let i = p.len() - 2;
        assert(edges.contains((p[i], p[i + 1])));
        let k = choose|k: int| 0 <= k < edges.len() && edges[k] == (p[i], p[i + 1]);
        assert(vis.contains(edges[k].0));
    }
}

fn collect_starts(rooms: &Vec<GeometryRoom>) -> (r: Vec<String>)
    ensures
        texts(r@) == start_ids(views(rooms@)),
{
    let ghost rs = views(rooms@);
    let mut r: Vec<String> = Vec::new();
    let mut i: usize = 0;
    assert(rs.take(0) =~= Seq::<RoomView>::empty());
    while i < rooms.len()
        invariant
            i <= rooms@.len(),
            rs == views(rooms@),
            texts(r@) == start_ids(rs.take(i as int)),
        decreases rooms@.len() - i,
    {
        proof {
            assert(rs.take(i + 1).drop_last() =~= rs.take(i as int));
            assert(rs.take(i + 1).last() == rooms@[i as int]@);
        }
        if str_eq(rooms[i].role.as_str(), "start") {
            let ghost r0 = texts(r@);
            r.push(owned(rooms[i].id.as_str()));
            assert(texts(r@) =~= r0.push(rooms@[i as int]@.id));
        }
        i = i + 1;
    }
    assert(rs.take(i as int) =~= rs);
    r
}

/// The starts and the targets of every move.
pub open spec fn bfs_universe(edges: Seq<(Seq<char>, Seq<char>)>, sv: Seq<Seq<char>>) -> Seq<
    Seq<char>,
> {
    sv + edges.map_values(|e: (Seq<char>, Seq<char>)| e.1)
}

/// Every visited room is distinct, drawn from the starts and move targets,
/// and reached by a walk from a start.
pub open spec fn bfs_sound(
    edges: Seq<(Seq<char>, Seq<char>)>,
    sv: Seq<Seq<char>>,
    vis: Seq<Seq<char>>,
) -> bool {
    &&& vis.no_duplicates()
    &&& forall|x: Seq<char>| #[trigger] vis.contains(x) ==> bfs_universe(edges, sv).contains(x) && reaches(edges, sv, x)
}

proof fn lemma_push_visited(
    edges: Seq<(Seq<char>, Seq<char>)>,
    sv: Seq<Seq<char>>,
    v0: Seq<Seq<char>>,
    y: Seq<char>,
)
    requires
        bfs_sound(edges, sv, v0),
        !v0.contains(y),
        bfs_universe(edges, sv).contains(y),
        reaches(edges, sv, y),
    ensures
        bfs_sound(edges, sv, v0.push(y)),
        forall|x: Seq<char>| v0.contains(x) ==> v0.push(y).contains(x),
        v0.push(y).contains(y),
{
    let v1 = v0.push(y);
    assert(v1[v0.len() as int] == y);
    assert forall|a: int, b: int| 0 <= a < b < v1.len() implies v1[a] != v1[b] by {
        if b == v0.len() {
            assert(v0.contains(v0[a]));
        } else {
            assert(v1[a] == v0[a] && v1[b] == v0[b]);
        }
    }
    assert forall|x: Seq<char>| v0.contains(x) implies v1.contains(x) by {
        let q = choose|q: int| 0 <= q < v0.len() && v0[q] == x;
        assert(v1[q] == x);
    }
    assert forall|x: Seq<char>| #[trigger] v1.contains(x) implies bfs_universe(edges, sv).contains(x)
        && reaches(edges, sv, x) by {
        let q = choose|q: int| 0 <= q < v1.len() && v1[q] == x;
        if q < v0.len() {
            assert(v0[q] == x);
            assert(v0.contains(x));
        } else {
            assert(x == y);
        }
    }
}

proof fn lemma_extend_walk(edges: Seq<(Seq<char>, Seq<char>)>, sv: Seq<Seq<char>>, a: Seq<char>, b: Seq<char>)
    requires
        reaches(edges, sv, a),
        edges.contains((a, b)),
    ensures
        reaches(edges, sv, b),
{
    let pw = choose|pw: Seq<Seq<char>>| #[trigger] is_walk(edges, pw) && sv.contains(pw[0]) && pw.last() == a;
    let pw2 = pw.push(b);
    assert forall|i: int| 0 <= i < pw2.len() - 1 implies edges.contains((#[trigger] pw2[i], pw2[i + 1])) by {
        if i < pw.len() - 1 {
            assert(pw2[i] == pw[i] && pw2[i + 1] == pw[i + 1]);
        } else {
            assert(pw2[i] == pw[pw.len() - 1]);
            assert(pw2[i + 1] == b);
        }
    }
    assert(pw2[0] == pw[0]);
    assert(is_walk(edges, pw2) && sv.contains(pw2[0]) && pw2.last() == b);
}

fn seed_visited(starts: &Vec<String>, Ghost(edges): Ghost<Seq<(Seq<char>, Seq<char>)>>) -> (vis: Vec<String>)
    ensures
        bfs_sound(edges, texts(starts@), texts(vis@)),
        forall|m: int| 0 <= m < starts@.len() ==> texts(vis@).contains(#[trigger] texts(starts@)[m]),
{
    let ghost sv = texts(starts@);
    let mut visited: Vec<String> = Vec::new();
    let mut k: usize = 0;
    assert(texts(visited@) =~= Seq::<Seq<char>>::empty());
    while k < starts.len()
        invariant
            k <= starts@.len(),
            sv == texts(starts@),
            bfs_sound(edges, sv, texts(visited@)),
            forall|m: int| 0 <= m < k ==> texts(visited@).contains(#[trigger] sv[m]),
        decreases starts@.len() - k,
    {
        let ghost v0 = texts(visited@);
        let x = starts[k].as_str();
        proof {
            assert(sv[k as int] == x@);
            let w = seq![x@];
            assert(is_walk(edges, w));
            assert(sv.contains(w[0]));
            assert(reaches(edges, sv, x@));
            assert(bfs_universe(edges, sv)[k as int] == x@);
        }
        if !contains_text(&visited, x) {
            visited.push(owned(x));
            proof {
                assert(texts(visited@) =~= v0.push(x@));
                lemma_push_visited(edges, sv, v0, x@);
            }
        }
        assert(texts(visited@).contains(sv[k as int]));
        k = k + 1;
    }
    visited
}

proof fn lemma_expand_step(
    edges: Seq<(Seq<char>, Seq<char>)>,
    sv: Seq<Seq<char>>,
    start: Seq<Seq<char>>,
    v0: Seq<Seq<char>>,
    h: int,
    e: int,
    y: Seq<char>,
)
    requires
        0 <= e < edges.len(),
        0 <= h < start.len() <= v0.len(),
        v0.take(start.len() as int) == start,
        bfs_sound(edges, sv, v0),
        edges[e] == (start[h], y),
        !v0.contains(y),
        forall|x: Seq<char>| start.contains(x) ==> v0.contains(x),
        forall|f: int| 0 <= f < e && #[trigger] edges[f].0 == start[h] ==> v0.contains(edges[f].1),
    ensures
        bfs_sound(edges, sv, v0.push(y)),
        v0.push(y).take(start.len() as int) == start,
        forall|x: Seq<char>| start.contains(x) ==> v0.push(y).contains(x),
        forall|f: int| 0 <= f < e + 1 && #[trigger] edges[f].0 == start[h] ==> v0.push(y).contains(edges[f].1),
{
    let vh = start[h];
    assert(v0[h] == v0.take(start.len() as int)[h]);
    assert(v0.contains(vh));
    assert(edges.contains((vh, y)));
    lemma_extend_walk(edges, sv, vh, y);
    let me = edges.map_values(|e: (Seq<char>, Seq<char>)| e.1);
    assert(me[e] == y);
    assert(bfs_universe(edges, sv)[sv.len() + e] == y);
    lemma_push_visited(edges, sv, v0, y);
    assert(v0.push(y).take(start.len() as int) =~= v0.take(start.len() as int));
}

/// Visits the targets of the moves out of `visited[h]`.
fn expand_visited(
    adj_from: &Vec<String>,
    adj_to: &Vec<String>,
    visited: &mut Vec<String>,
    h: usize,
    Ghost(sv): Ghost<Seq<Seq<char>>>,
)
    requires
        adj_from@.len() == adj_to@.len(),
        h < old(visited)@.len(),
        bfs_sound(zip_texts(adj_from@, adj_to@), sv, texts(old(visited)@)),
    ensures
        bfs_sound(zip_texts(adj_from@, adj_to@), sv, texts(final(visited)@)),
        final(visited)@.len() >= old(visited)@.len(),
        texts(final(visited)@).take(old(visited)@.len() as int) == texts(old(visited)@),
        forall|x: Seq<char>| texts(old(visited)@).contains(x) ==> texts(final(visited)@).contains(x),
        forall|f: int|
            0 <= f < adj_from@.len() && #[trigger] zip_texts(adj_from@, adj_to@)[f].0 == texts(old(visited)@)[h as int]
                ==> texts(final(visited)@).contains(zip_texts(adj_from@, adj_to@)[f].1),
{
    let ghost edges = zip_texts(adj_from@, adj_to@);
    let ghost start = texts(visited@);
    let mut e: usize = 0;
    assert(texts(visited@).take(start.len() as int) =~= start);
    while e < adj_from.len()
        invariant
            e <= adj_from@.len(),
            adj_from@.len() == adj_to@.len(),
            edges == zip_texts(adj_from@, adj_to@),
            h < start.len() <= visited@.len(),
            texts(visited@).take(start.len() as int) == start,
            bfs_sound(edges, sv, texts(visited@)),
            forall|x: Seq<char>| start.contains(x) ==> texts(visited@).contains(x),
            forall|f: int| 0 <= f < e && #[trigger] edges[f].0 == start[h as int] ==> texts(visited@).contains(edges[f].1),
        decreases adj_from@.len() - e,
    {
        let ghost v0 = texts(visited@);
        proof {
            assert(edges[e as int] == (adj_from@[e as int]@, adj_to@[e as int]@));
            assert(v0[h as int] == v0.take(start.len() as int)[h as int]);
        }
        if str_eq(adj_from[e].as_str(), visited[h].as_str()) {
            if contains_text(visited, adj_to[e].as_str()) {
                assert(v0.contains(edges[e as int].1));
            } else {
                let y = adj_to[e].as_str();
                visited.push(owned(y));
                proof {
                    assert(texts(visited@) =~= v0.push(y@));
                    lemma_expand_step(edges, sv, start, v0, h as int, e as int, y@);
                }
            }
        }
        e = e + 1;
    }
}

proof fn lemma_closure_step(
    edges: Seq<(Seq<char>, Seq<char>)>,
    sv: Seq<Seq<char>>,
    v0: Seq<Seq<char>>,
    v1: Seq<Seq<char>>,
    h: int,
)
    requires
        0 <= h < v0.len() <= v1.len(),
        v1.take(v0.len() as int) == v0,
        forall|x: Seq<char>| v0.contains(x) ==> v1.contains(x),
        forall|m: int| 0 <= m < sv.len() ==> v0.contains(#[trigger] sv[m]),
        forall|f: int|
            0 <= f < edges.len() && v0.take(h).contains(#[trigger] edges[f].0) ==> v0.contains(edges[f].1),
        forall|f: int| 0 <= f < edges.len() && #[trigger] edges[f].0 == v0[h] ==> v1.contains(edges[f].1),
    ensures
        forall|m: int| 0 <= m < sv.len() ==> v1.contains(#[trigger] sv[m]),
        forall|f: int|
            0 <= f < edges.len() && v1.take(h + 1).contains(#[trigger] edges[f].0) ==> v1.contains(edges[f].1),
{
    assert forall|q: int| 0 <= q < h + 1 implies v1[q] == v0[q] by {
        assert(v1.take(v0.len() as int)[q] == v1[q]);
    }
    assert(v1.take(h + 1) =~= v0.take(h + 1));
    assert forall|m: int| 0 <= m < sv.len() implies v1.contains(#[trigger] sv[m]) by {
        assert(v0.contains(sv[m]));
    }
    assert forall|f: int|
        0 <= f < edges.len() && v1.take(h + 1).contains(#[trigger] edges[f].0)
            implies v1.contains(edges[f].1) by {
        let q = choose|q: int| 0 <= q < h + 1 && #[trigger] v1.take(h + 1)[q] == edges[f].0;
        if q < h {
            assert(v0.take(h)[q] == edges[f].0);
            assert(v0.take(h).contains(edges[f].0));
            assert(v0.contains(edges[f].1));
        } else {
            assert(v0.take(h + 1)[q] == v0[h]);
            assert(edges[f].0 == v0[h]);
        }
    }
}

proof fn lemma_complete(edges: Seq<(Seq<char>, Seq<char>)>, sv: Seq<Seq<char>>, v: Seq<Seq<char>>)
    requires
        forall|m: int| 0 <= m < sv.len() ==> v.contains(#[trigger] sv[m]),
        forall|f: int|
            0 <= f < edges.len() && v.take(v.len() as int).contains(#[trigger] edges[f].0) ==> v.contains(edges[f].1),
    ensures
        forall|x: Seq<char>| reaches(edges, sv, x) ==> v.contains(x),
{
    assert(v.take(v.len() as int) =~= v);
    assert forall|x: Seq<char>| reaches(edges, sv, x) implies v.contains(x) by {
        let p = choose|p: Seq<Seq<char>>| #[trigger] is_walk(edges, p) && sv.contains(p[0]) && p.last() == x;
        assert forall|y: Seq<char>| sv.contains(y) implies v.contains(y) by {
            let m = choose|m: int| 0 <= m < sv.len() && sv[m] == y;
            assert(v.contains(sv[m]));
        }
        lemma_closed_reach(edges, sv, v, p);
    }
}

fn search_from_starts(
    adj_from: &Vec<String>,
    adj_to: &Vec<String>,
    starts: &Vec<String>,
) -> (vis: Vec<String>)
    requires
        adj_from@.len() == adj_to@.len(),
    ensures
        forall|x: Seq<char>| texts(vis@).contains(x) <==> reaches(zip_texts(adj_from@, adj_to@), texts(starts@), x),
{
    let ghost edges = zip_texts(adj_from@, adj_to@);
    let ghost sv = texts(starts@);
    let ghost universe = bfs_universe(edges, sv);
    let mut visited = seed_visited(starts, Ghost(edges));
    let mut h: usize = 0;
    assert(texts(visited@).take(0) =~= Seq::<Seq<char>>::empty());
    while h < visited.len()
        invariant
            h <= visited@.len(),
            adj_from@.len() == adj_to@.len(),
            edges == zip_texts(adj_from@, adj_to@),
            sv == texts(starts@),
            universe == bfs_universe(edges, sv),
            bfs_sound(edges, sv, texts(visited@)),
            forall|m: int| 0 <= m < sv.len() ==> texts(visited@).contains(#[trigger] sv[m]),
            forall|f: int|
                0 <= f < edges.len() && texts(visited@).take(h as int).contains(#[trigger] edges[f].0)
                    ==> texts(visited@).contains(edges[f].1),
        decreases universe.len() - h,
    {
        proof {
            lemma_distinct_bound(texts(visited@), universe);
        }
        let ghost v0 = texts(visited@);
        expand_visited(adj_from, adj_to, &mut visited, h, Ghost(sv));
        proof {
            lemma_closure_step(edges, sv, v0, texts(visited@), h as int);
        }
        h = h + 1;
    }
    proof {
        lemma_complete(edges, sv, texts(visited@));
    }
    visited
}

fn check_reachability(
    g: &Geometry2dArtifact,
    adj_from: &Vec<String>,
    adj_to: &Vec<String>,
    out: &mut Vec<Diagnostic>,
)
    requires
        adj_from@.len() == adj_to@.len(),
    ensures
        diagnostic_views(final(out)@) == diagnostic_views(old(out)@) + reach_diags(
            views(g.rooms@),
            zip_texts(adj_from@, adj_to@),
        ),
{
    let ghost rs = views(g.rooms@);
    let ghost edges = zip_texts(adj_from@, adj_to@);
    let ghost start = diagnostic_views(out@);
    let starts = collect_starts(&g.rooms);
    let ghost sv = texts(starts@);
    let mut goal_found = false;
    let mut i: usize = 0;
    while i < g.rooms.len()
        invariant
            i <= g.rooms@.len(),
            rs == views(g.rooms@),
            goal_found == exists|k: int| 0 <= k < i && #[trigger] rs[k].role == "goal"@,
        decreases g.rooms@.len() - i,
    {
        assert(rs[i as int] == g.rooms@[i as int]@);
        if str_eq(g.rooms[i].role.as_str(), "goal") {
            goal_found = true;
            assert(rs[i as int].role == "goal"@);
        } else {
            assert(rs[i as int].role != "goal"@);
        }
        i = i + 1;
    }
    if starts.len() == 0 {
        push_diag(
            out,
            fatal_diag("geometry_start_missing", Some(owned("start")), None, owned("Geometry must include a start room.")),
        );
    }
    if !goal_found {
        push_diag(
            out,
            fatal_diag("geometry_goal_missing", Some(owned("goal")), None, owned("Geometry must include a goal room.")),
        );
    }
    if starts.len() == 0 || !goal_found {
        assert(diagnostic_views(out@) =~= start + reach_diags(rs, edges));
        return;
    }
    let visited = search_from_starts(adj_from, adj_to, &starts);
    let mut reached = false;
    let mut i: usize = 0;
    while i < g.rooms.len()
        invariant
            i <= g.rooms@.len(),
            rs == views(g.rooms@),
            reached == exists|k: int|
                0 <= k < i && #[trigger] rs[k].role == "goal"@ && texts(visited@).contains(rs[k].id),
        decreases g.rooms@.len() - i,
    {
        assert(rs[i as int] == g.rooms@[i as int]@);
        if str_eq(g.rooms[i].role.as_str(), "goal") && contains_text(&visited, g.rooms[i].id.as_str()) {
            reached = true;
            assert(rs[i as int].role == "goal"@ && texts(visited@).contains(rs[i as int].id));
        } else {
            assert(!(rs[i as int].role == "goal"@ && texts(visited@).contains(rs[i as int].id)));
        }
        i = i + 1;
    }
    proof {
        if reached {
            let k = choose|k: int|
                0 <= k < rs.len() && #[trigger] rs[k].role == "goal"@ && texts(visited@).contains(rs[k].id);
            assert(is_goal_id(rs, rs[k].id));
            assert(reaches(edges, sv, rs[k].id));
        } else {
            assert forall|x: Seq<char>| #[trigger] is_goal_id(rs, x) implies !reaches(edges, sv, x) by {
                if reaches(edges, sv, x) {
                    let k = choose|k: int| 0 <= k < rs.len() && #[trigger] rs[k].role == "goal"@ && rs[k].id == x;
                    assert(rs[k].role == "goal"@ && texts(visited@).contains(rs[k].id));
                }
            }
        }
    }
    if !reached {
        push_diag(
            out,
            fatal_diag(
                "geometry_goal_unreachable",
                Some(owned("goal")),
                None,
                owned("Goal room is not reachable from start through directed corridors."),
            ),
        );
    }
    assert(diagnostic_views(out@) =~= start + reach_diags(rs, edges));
}

// ---------------------------------------------------------------------
// Compactness evidence
// ---------------------------------------------------------------------

pub open spec fn seg_len(a: GeometryPoint, b: GeometryPoint) -> int {
    abs_int(b.x - a.x) + abs_int(b.y - a.y)
}

/// The length of a polyline along its segments.
pub open spec fn path_len(pts: Seq<GeometryPoint>) -> int
    decreases pts.len(),
{
    if pts.len() < 2 {
        0
    } else {
        path_len(pts.drop_last()) + seg_len(pts[pts.len() - 2], pts.last())
    }
}

pub open spec fn wide(w: i32) -> int {
    if w < 1 {
        1
    } else {
        w as int
    }
}

/// The summed centerline length of the corridors.
pub open spec fn centerline_total(cs: Seq<CorridorView>) -> int
    decreases cs.len(),
{
    if cs.len() == 0 {
        0
    } else {
        centerline_total(cs.drop_last()) + path_len(cs.last().points)
    }
}

/// The summed corridor length times corridor width (at least 1).
pub open spec fn shell_total(cs: Seq<CorridorView>) -> int
    decreases cs.len(),
{
    if cs.len() == 0 {
        0
    } else {
        shell_total(cs.drop_last()) + path_len(cs.last().points) * wide(cs.last().width)
    }
}

/// The summed bends: points beyond the two ends of each corridor.
pub open spec fn bend_total(cs: Seq<CorridorView>) -> int
    decreases cs.len(),
{
    if cs.len() == 0 {
        0
    } else {
        bend_total(cs.drop_last()) + if cs.last().points.len() >= 2 {
            cs.last().points.len() - 2
        } else {
            0
        }
    }
}

pub open spec fn cap_i64(v: int) -> int {
    if v > i64::MAX {
        i64::MAX as int
    } else {
        v
    }
}

pub open spec fn cap_u32(v: int) -> int {
    if v > u32::MAX {
        u32::MAX as int
    } else {
        v
    }
}

/// The number of ports on a side.
pub open spec fn count_side(ps: Seq<PortView>, side: Seq<char>) -> nat
    decreases ps.len(),
{
    if ps.len() == 0 {
        0
    } else {
        count_side(ps.drop_last(), side) + if ps.last().side == side {
            1nat
        } else {
            0nat
        }
    }
}

pub open spec fn side_list(ps: Seq<PortView>) -> Seq<Seq<char>> {
    ps.map_values(|p: PortView| p.side)
}

/// The sides of `ss` that hold two ports or more, in order.
pub open spec fn keep_multi(ss: Seq<Seq<char>>, ps: Seq<PortView>) -> Seq<Seq<char>>
    decreases ss.len(),
{
    if ss.len() == 0 {
        ss
    } else if count_side(ps, ss.last()) >= 2 {
        keep_multi(ss.drop_last(), ps).push(ss.last())
    } else {
        keep_multi(ss.drop_last(), ps)
    }
}

pub open spec fn opposite(a: Seq<char>, b: Seq<char>) -> bool {
    (a == "north"@ && b == "south"@) || (a == "south"@ && b == "north"@) || (a == "east"@ && b
        == "west"@) || (a == "west"@ && b == "east"@)
}

/// The entries of `prefix` that are not opposite `x`.
pub open spec fn non_opposite(prefix: Seq<Seq<char>>, x: Seq<char>) -> nat
    decreases prefix.len(),
{
    if prefix.len() == 0 {
        0
    } else {
        non_opposite(prefix.drop_last(), x) + if !opposite(prefix.last(), x) {
            1nat
        } else {
            0nat
        }
    }
}

/// The pairs of entries that are not opposite sides.
pub open spec fn pair_count(ms: Seq<Seq<char>>) -> nat
    decreases ms.len(),
{
    if ms.len() == 0 {
        0
    } else {
        pair_count(ms.drop_last()) + non_opposite(ms.drop_last(), ms.last())
    }
}

/// A room with three ports or more on one side is penalised once for each
/// pair of its crowded sides (two ports or more) that are not opposite.
pub open spec fn room_penalty(ps: Seq<PortView>) -> int {
    if exists|i: int| 0 <= i < ps.len() && count_side(ps, #[trigger] ps[i].side) >= 3 {
        cap_u32(pair_count(keep_multi(sorted_texts(side_list(ps).to_set()), ps)) as int)
    } else {
        0
    }
}

/// The saturated sum of the room penalties.
pub open spec fn portal_penalty(rs: Seq<RoomView>) -> int
    decreases rs.len(),
{
    if rs.len() == 0 {
        0
    } else {
        cap_u32(portal_penalty(rs.drop_last()) + room_penalty(rs.last().ports))
    }
}

pub open spec fn compactness_matches(g: Geometry2dArtifact) -> bool {
    let s = g.layout_search;
    let rs = views(g.rooms@);
    let cs = views(g.corridors@);
    &&& s.valid_layout_candidates != 0
    &&& s.compactness_portal_capacity_penalty == portal_penalty(rs)
    &&& s.compactness_envelope_area == g.bounds.width * g.bounds.height
    &&& s.compactness_corridor_centerline_length == cap_i64(centerline_total(cs))
    &&& s.compactness_routed_shell_cost == cap_i64(shell_total(cs))
    &&& s.compactness_bend_count == cap_u32(bend_total(cs))
}

pub open spec fn compactness_diags(g: Geometry2dArtifact) -> Seq<DiagnosticView> {
    when(
        !compactness_matches(g),
        fatal_text(
            "geometry_compactness_evidence_invalid",
            None,
            None,
            "Geometry compactness evidence must match the selected valid layout."@,
        ),
    )
}

fn sat_add_i64(a: i64, b: i64) -> (r: i64)
    requires
        a >= 0,
        b >= 0,
    ensures
        r == cap_i64(a + b),
{
    if a > i64::MAX - b {
        i64::MAX
    } else {
        a + b
    }
}

fn corridor_length(pts: &Vec<GeometryPoint>) -> (r: i64)
    ensures
        r == cap_i64(path_len(pts@)),
        r >= 0,
{
    let mut acc: i64 = 0;
    let mut i: usize = 1;
    if pts.len() < 2 {
        return 0;
    }
    assert(path_len(pts@.take(1)) == 0);
    while i < pts.len()
        invariant
            1 <= i <= pts@.len(),
            acc == cap_i64(path_len(pts@.take(i as int))),
            acc >= 0,
            path_len(pts@.take(i as int)) >= 0,
        decreases pts@.len() - i,
    {
        let a = pts[i - 1];
        let b = pts[i];
        let dx: i64 = b.x as i64 - a.x as i64;
        let dy: i64 = b.y as i64 - a.y as i64;
        let ax: i64 = if dx < 0 {
            -dx
        } else {
            dx
        };
        let ay: i64 = if dy < 0 {
            -dy
        } else {
            dy
        };
        proof {
            let t = pts@.take(i + 1);
            assert(t.drop_last() =~= pts@.take(i as int));
            assert(t[t.len() - 2] == a);
            assert(t.last() == b);
        }
        acc = sat_add_i64(acc, ax + ay);
        i = i + 1;
    }
    assert(pts@.take(i as int) =~= pts@);
    acc
}

proof fn lemma_cap_mul(l: int, w: int)
    requires
        l >= 0,
        w >= 1,
    ensures
        cap_i64(cap_i64(l) * w) == cap_i64(l * w),
{
    if l > i64::MAX {
        assert(l * w >= l) by (nonlinear_arith)
            requires
                l >= 0,
                w >= 1,
        ;
        assert(i64::MAX * w >= i64::MAX) by (nonlinear_arith)
            requires
                w >= 1,
        ;
    }
}

fn check_compactness_totals(g: &Geometry2dArtifact) -> (r: (i64, i64, u32))
    ensures
        r.0 == cap_i64(centerline_total(views(g.corridors@))),
        r.1 == cap_i64(shell_total(views(g.corridors@))),
        r.2 == cap_u32(bend_total(views(g.corridors@))),
{
    let ghost cs = views(g.corridors@);
    let mut centerline: i64 = 0;
    let mut shell: i64 = 0;
    let mut bends: u64 = 0;
    let mut i: usize = 0;
    assert(cs.take(0) =~= Seq::<CorridorView>::empty());
    while i < g.corridors.len()
        invariant
            i <= g.corridors@.len(),
            cs == views(g.corridors@),
            centerline == cap_i64(centerline_total(cs.take(i as int))),
            shell == cap_i64(shell_total(cs.take(i as int))),
            bends == (if bend_total(cs.take(i as int)) > u64::MAX { u64::MAX as int } else {
                bend_total(cs.take(i as int))
            }),
            centerline_total(cs.take(i as int)) >= 0,
            shell_total(cs.take(i as int)) >= 0,
            bend_total(cs.take(i as int)) >= 0,
        decreases g.corridors@.len() - i,
    {
        let c = &g.corridors[i];
        proof {
            assert(cs.take(i + 1).drop_last() =~= cs.take(i as int));
            assert(cs.take(i + 1).last() == c@);
        }
        let len = corridor_length(&c.points);
        let ghost l = path_len(c@.points);
        proof {
            if l < 0 {
                assert(cap_i64(l) == l);
            }
        }
        assert(l >= 0) by {
            lemma_path_len_nonneg(c@.points);
        }
        centerline = sat_add_i64(centerline, len);
        let w: i64 = if c.width < 1 {
            1
        } else {
            c.width as i64
        };
        let product: i64 = if len > i64::MAX / w {
            i64::MAX
        } else {
            assert(len * w <= i64::MAX) by (nonlinear_arith)
                requires
                    len <= i64::MAX / w,
                    w >= 1,
                    len >= 0,
            ;
            len * w
        };
        proof {
            assert(w == wide(c@.width));
            if len > i64::MAX / w {
                assert(len * w > i64::MAX) by (nonlinear_arith)
                    requires
                        len > i64::MAX / w,
                        w >= 1,
                ;
            } else {
                assert(len * w <= i64::MAX) by (nonlinear_arith)
                    requires
                        len <= i64::MAX / w,
                        w >= 1,
                        len >= 0,
                ;
            }
            assert(product == cap_i64(len * w));
            lemma_cap_mul(l, w as int);
            assert(l * w >= 0) by (nonlinear_arith)
                requires
                    l >= 0,
                    w >= 1,
            ;
        }
        shell = sat_add_i64(shell, product);
        let extra: u64 = if c.points.len() >= 2 {
            (c.points.len() - 2) as u64
        } else {
            0
        };
        bends = bends.saturating_add(extra);
        i = i + 1;
    }
    assert(cs.take(i as int) =~= cs);
    let bend_count: u32 = if bends > u32::MAX as u64 {
        u32::MAX
    } else {
        bends as u32
    };
    (centerline, shell, bend_count)
}

proof fn lemma_path_len_nonneg(pts: Seq<GeometryPoint>)
    ensures
        path_len(pts) >= 0,
    decreases pts.len(),
{
    if pts.len() >= 2 {
        lemma_path_len_nonneg(pts.drop_last());
    }
}

fn side_count(ports: &Vec<crate::geometry::GeometryRoomPort>, side: &str) -> (n: usize)
    ensures
        n == count_side(views(ports@), side@),
{
    let ghost ps = views(ports@);
    let mut n: usize = 0;
    let mut i: usize = 0;
    assert(ps.take(0) =~= Seq::<PortView>::empty());
    while i < ports.len()
        invariant
            i <= ports@.len(),
            ps == views(ports@),
            n == count_side(ps.take(i as int), side@),
            n <= i,
        decreases ports@.len() - i,
    {
        proof {
            assert(ps.take(i + 1).drop_last() =~= ps.take(i as int));
            assert(ps.take(i + 1).last() == ports@[i as int]@);
        }
        if str_eq(ports[i].side.as_str(), side) {
            n = n + 1;
        }
        i = i + 1;
    }
    assert(ps.take(i as int) =~= ps);
    n
}

fn is_opposite(a: &str, b: &str) -> (r: bool)
    ensures
        r == opposite(a@, b@),
{
    (str_eq(a, "north") && str_eq(b, "south")) || (str_eq(a, "south") && str_eq(b, "north"))
        || (str_eq(a, "east") && str_eq(b, "west")) || (str_eq(a, "west") && str_eq(b, "east"))
}

fn room_portal_penalty(room: &GeometryRoom) -> (r: u32)
    ensures
        r == room_penalty(room@.ports),
{
    let ghost ps = room@.ports;
    let ports = &room.ports;
    let mut crowded = false;
    let mut i: usize = 0;
    while i < ports.len()
        invariant
            i <= ports@.len(),
            ps == views(ports@),
            crowded == exists|k: int| 0 <= k < i && count_side(ps, #[trigger] ps[k].side) >= 3,
        decreases ports@.len() - i,
    {
        assert(ps[i as int] == ports@[i as int]@);
        if side_count(ports, ports[i].side.as_str()) >= 3 {
            crowded = true;
            assert(count_side(ps, ps[i as int].side) >= 3);
        } else {
            assert(!(count_side(ps, ps[i as int].side) >= 3));
        }
        i = i + 1;
    }
    if !crowded {
        return 0;
    }
    let mut sides: Vec<String> = Vec::new();
    let mut i: usize = 0;
    while i < ports.len()
        invariant
            i <= ports@.len(),
            ps == views(ports@),
            texts(sides@) == side_list(ps).take(i as int),
        decreases ports@.len() - i,
    {
        let ghost s0 = texts(sides@);
        sides.push(owned(ports[i].side.as_str()));
        assert(texts(sides@) =~= s0.push(ps[i as int].side));
        i = i + 1;
        assert(texts(sides@) =~= side_list(ps).take(i as int));
    }
    assert(side_list(ps).take(i as int) =~= side_list(ps));
    let distinct = dedupe_strings(sides);
    let ghost dv = texts(distinct@);
    let mut multi: Vec<String> = Vec::new();
    let mut k: usize = 0;
    assert(dv.take(0) =~= Seq::<Seq<char>>::empty());
    while k < distinct.len()
        invariant
            k <= distinct@.len(),
            dv == texts(distinct@),
            ps == views(ports@),
            texts(multi@) == keep_multi(dv.take(k as int), ps),
        decreases distinct@.len() - k,
    {
        proof {
            assert(dv.take(k + 1).drop_last() =~= dv.take(k as int));
            assert(dv.take(k + 1).last() == distinct@[k as int]@);
        }
        if side_count(ports, distinct[k].as_str()) >= 2 {
            let ghost m0 = texts(multi@);
            multi.push(owned(distinct[k].as_str()));
            assert(texts(multi@) =~= m0.push(distinct@[k as int]@));
        }
        k = k + 1;
    }
    assert(dv.take(k as int) =~= dv);
    let ghost ms = texts(multi@);
    let mut acc: u32 = 0;
    let mut j: usize = 0;
    assert(ms.take(0) =~= Seq::<Seq<char>>::empty());
    while j < multi.len()
        invariant
            j <= multi@.len(),
            ms == texts(multi@),
            acc == cap_u32(pair_count(ms.take(j as int)) as int),
        decreases multi@.len() - j,
    {
        let ghost pre = ms.take(j as int);
        proof {
            assert(ms.take(j + 1).drop_last() =~= pre);
            assert(ms.take(j + 1).last() == ms[j as int]);
        }
        let mut i: usize = 0;
        assert(pre.take(0) =~= Seq::<Seq<char>>::empty());
        while i < j
            invariant
                i <= j,
                j < multi@.len(),
                ms == texts(multi@),
                pre == ms.take(j as int),
                acc == cap_u32((pair_count(pre) + non_opposite(pre.take(i as int), ms[j as int])) as int),
            decreases j - i,
        {
            proof {
                assert(pre.take(i + 1).drop_last() =~= pre.take(i as int));
                assert(pre.take(i + 1).last() == ms[i as int]);
            }
            if !is_opposite(multi[i].as_str(), multi[j].as_str()) {
                acc = acc.saturating_add(1);
            }
            i = i + 1;
        }
        assert(pre.take(j as int) =~= pre);
        j = j + 1;
    }
    assert(ms.take(j as int) =~= ms);
    acc
}

fn geometry_portal_penalty(rooms: &Vec<GeometryRoom>) -> (r: u32)
    ensures
        r == portal_penalty(views(rooms@)),
{
    let ghost rs = views(rooms@);
    let mut acc: u32 = 0;
    let mut i: usize = 0;
    assert(rs.take(0) =~= Seq::<RoomView>::empty());
    while i < rooms.len()
        invariant
            i <= rooms@.len(),
            rs == views(rooms@),
            acc == portal_penalty(rs.take(i as int)),
        decreases rooms@.len() - i,
    {
        proof {
            assert(rs.take(i + 1).drop_last() =~= rs.take(i as int));
            assert(rs.take(i + 1).last() == rooms@[i as int]@);
        }
        let p = room_portal_penalty(&rooms[i]);
        acc = acc.saturating_add(p);
        i = i + 1;
    }
    assert(rs.take(i as int) =~= rs);
    acc
}

fn check_compactness(g: &Geometry2dArtifact, out: &mut Vec<Diagnostic>)
    ensures
        diagnostic_views(final(out)@) == diagnostic_views(old(out)@) + compactness_diags(*g),
{
    let ghost start = diagnostic_views(out@);
    let (centerline, shell, bends) = check_compactness_totals(g);
    let penalty = geometry_portal_penalty(&g.rooms);
    let bw = g.bounds.width as i64;
    let bh = g.bounds.height as i64;
    assert(-0x8000_0000 <= bw < 0x8000_0000 && -0x8000_0000 <= bh < 0x8000_0000);
    assert(-0x4000_0000_0000_0000 <= bw * bh <= 0x4000_0000_0000_0000) by (nonlinear_arith)
        requires
            -0x8000_0000 <= bw < 0x8000_0000,
            -0x8000_0000 <= bh < 0x8000_0000,
    ;
    let area: i64 = bw * bh;
    let s = &g.layout_search;
    if s.valid_layout_candidates == 0 || s.compactness_portal_capacity_penalty != penalty
        || s.compactness_envelope_area != area || s.compactness_corridor_centerline_length
        != centerline || s.compactness_routed_shell_cost != shell || s.compactness_bend_count
        != bends {
        push_diag(
            out,
            fatal_diag(
                "geometry_compactness_evidence_invalid",
                None,
                None,
                owned("Geometry compactness evidence must match the selected valid layout."),
            ),
        );
    }
    assert(diagnostic_views(out@) =~= start + compactness_diags(*g));
}

// ---------------------------------------------------------------------
// The whole report
// ---------------------------------------------------------------------

pub open spec fn coverage_diags(g: Geometry2dArtifact) -> Seq<DiagnosticView> {
    when(
        g.rooms@.len() > 1 && g.corridors@.len() == 0 && g.skipped_connectors@.len() == 0,
        fatal_text(
            "geometry_connector_coverage_missing",
            None,
            None,
            "Multi-room geometry must include routed corridors or explicit skipped connectors."@,
        ),
    )
}

/// The artifacts the checks can run on: room corners in the integer range
/// and corridor polylines whose segments grid steps walk.
pub open spec fn geometry_checkable(g: Geometry2dArtifact) -> bool {
    rooms_in_range(views(g.rooms@)) && corridors_reachable(views(g.corridors@))
}

/// Every diagnostic of a geometry artifact, in check order.
pub open spec fn geometry_diagnostics(g: Geometry2dArtifact) -> Seq<DiagnosticView> {
    let rs = views(g.rooms@);
    let cs = views(g.corridors@);
    header_diags(g) + rooms_diags(rs, g.bounds) + overlap_diags_upto(rs, rs.len() as int)
        + coverage_diags(g) + corridors_diags(cs, rs) + routes_diags(cs, rs) + contact_diags(
        route_cells(cs),
    ) + skipped_diags(views(g.skipped_connectors@), seen_connectors(cs)) + contents_diags(
        views(g.contents@),
        rs,
    ) + reach_diags(rs, adjacency_edges(cs, rs)) + compactness_diags(g)
}

/// Whether the checks can run on a geometry artifact.
pub fn geometry_is_checkable(g: &Geometry2dArtifact) -> (r: bool)
    ensures
        r == geometry_checkable(*g),
{
    let ghost rs = views(g.rooms@);
    let ghost cs = views(g.corridors@);
    let mut i: usize = 0;
    while i < g.rooms.len()
        invariant
            i <= g.rooms@.len(),
            rs == views(g.rooms@),
            forall|k: int| 0 <= k < i ==> rect_in_range(#[trigger] rs[k].rect),
        decreases g.rooms@.len() - i,
    {
        let r = g.rooms[i].rect;
        assert(rs[i as int].rect == r);
        if (r.x as i64) + (r.width as i64) > i32::MAX as i64 || (r.x as i64) + (r.width as i64) < i32::MIN as i64
            || (r.y as i64) + (r.height as i64) > i32::MAX as i64 || (r.y as i64) + (r.height as i64) < i32::MIN as i64 {
            assert(!rect_in_range(rs[i as int].rect));
            return false;
        }
        i = i + 1;
    }
    let mut c: usize = 0;
    while c < g.corridors.len()
        invariant
            c <= g.corridors@.len(),
            cs == views(g.corridors@),
            rooms_in_range(rs),
            forall|k: int| 0 <= k < c ==> polyline_reachable(#[trigger] cs[k].points),
        decreases g.corridors@.len() - c,
    {
        let pts = &g.corridors[c].points;
        assert(cs[c as int].points == pts@);
        let mut j: usize = 1;
        while j < pts.len()
            invariant
                1 <= j,
                j <= pts@.len() || pts@.len() == 0,
                c < g.corridors@.len(),
                cs == views(g.corridors@),
                cs[c as int].points == pts@,
                rooms_in_range(rs),
                forall|m: int| 0 <= m < j - 1 && m < pts@.len() - 1 ==> #[trigger] reachable(pts@[m], pts@[m + 1]),
            decreases pts@.len() - j,
        {
            let a = pts[j - 1];
            let b = pts[j];
            let dx: i64 = b.x as i64 - a.x as i64;
            let dy: i64 = b.y as i64 - a.y as i64;
            let ax: i64 = if dx < 0 {
                -dx
            } else {
                dx
            };
            let ay: i64 = if dy < 0 {
                -dy
            } else {
                dy
            };
            if !(ax % 8 == 0 && ay % 8 == 0 && (ax == 0 || ay == 0 || ax == ay)) {
                assert(!reachable(pts@[j - 1], pts@[(j - 1) + 1]));
                assert(!polyline_reachable(cs[c as int].points));
                assert(!corridors_reachable(cs));
                return false;
            }
            assert(reachable(pts@[j - 1], pts@[(j - 1) + 1]));
            j = j + 1;
        }
        assert(polyline_reachable(cs[c as int].points));
        c = c + 1;
    }
    true
}

/// The validation report of a geometry artifact: every check, in order, and
/// the artifact's state hash.
pub fn validate_geometry_2d(geometry: &Geometry2dArtifact) -> (r: ValidationReport)
    requires
        geometry_checkable(*geometry),
    ensures
        r.kind@ == "rusty_procgen.validation.geometry_2d.v1"@,
        r.schema_version == 1,
        r.state_hash@ == hash_of(geometry_json(*geometry)),
        diagnostic_views(r.diagnostics@) == geometry_diagnostics(*geometry),
        r.fatal_count == r.diagnostics@.len(),
        r.ok == (r.fatal_count == 0),
{
    let g = geometry;
    let ghost rs = views(g.rooms@);
    let ghost cs = views(g.corridors@);
    let mut out: Vec<Diagnostic> = Vec::new();
    assert(diagnostic_views(out@) =~= Seq::<DiagnosticView>::empty());
    check_header(g, &mut out);
    let ghost d1 = diagnostic_views(out@);
    check_rooms(g, &mut out);
    let ghost d2 = diagnostic_views(out@);
    check_overlaps(g, &mut out);
    let ghost d3 = diagnostic_views(out@);
    if g.rooms.len() > 1 && g.corridors.len() == 0 && g.skipped_connectors.len() == 0 {
        push_diag(
            &mut out,
            fatal_diag(
                "geometry_connector_coverage_missing",
                None,
                None,
                owned("Multi-room geometry must include routed corridors or explicit skipped connectors."),
            ),
        );
    }
    let ghost d4 = diagnostic_views(out@);
    assert(d4 == d3 + coverage_diags(*g));
    let mut adj_from: Vec<String> = Vec::new();
    let mut adj_to: Vec<String> = Vec::new();
    let routed = check_corridors(g, &mut adj_from, &mut adj_to, &mut out);
    let ghost d5 = diagnostic_views(out@);
    let (pts, owners) = check_routes(g, &mut out);
    let ghost d6 = diagnostic_views(out@);
    check_contacts(g, &pts, &owners, &mut out);
    let ghost d7 = diagnostic_views(out@);
    check_skipped(g, &routed, &mut out);
    let ghost d8 = diagnostic_views(out@);
    check_contents(g, &mut out);
    let ghost d9 = diagnostic_views(out@);
    check_reachability(g, &adj_from, &adj_to, &mut out);
    let ghost d10 = diagnostic_views(out@);
    check_compactness(g, &mut out);
    assert(diagnostic_views(out@) =~= geometry_diagnostics(*g));
    let fatal_count = out.len();
    ValidationReport {
        kind: owned("rusty_procgen.validation.geometry_2d.v1"),
        schema_version: 1,
        state_hash: hash_geometry(g),
        ok: fatal_count == 0,
        fatal_count,
        diagnostics: out,
    }
}


/// Two room rectangles overlap exactly when they intersect as open boxes:
/// each starts before the other ends on both axes. The test is symmetric.
pub proof fn lemma_rect_overlap_is_open_intersection(a: GeometryRect, b: GeometryRect)
    ensures
        rects_overlap(a, b) == (a.x < b.x + b.width && b.x < a.x + a.width && a.y < b.y + b.height && b.y
            < a.y + a.height),
        rects_overlap(a, b) == rects_overlap(b, a),
{
}

proof fn lemma_overlaps_with_has(left: RoomView, rights: Seq<RoomView>, m: int) -> (k: int)
    requires
        0 <= m < rights.len(),
        rects_overlap(left.rect, rights[m].rect),
    ensures
        0 <= k < overlaps_with(left, rights).len(),
        overlaps_with(left, rights)[k] == fatal_text(
            "geometry_room_overlap",
            first_text(left.source_nodes),
            None,
            "Room "@ + left.id + " overlaps "@ + rights[m].id + "."@,
        ),
    decreases rights.len(),
{
    let prefix = overlaps_with(left, rights.drop_last());
    if m == rights.len() - 1 {
        prefix.len() as int
    } else {
        assert(rights.drop_last()[m] == rights[m]);
        let k = lemma_overlaps_with_has(left, rights.drop_last(), m);
        k
    }
}

proof fn lemma_overlap_upto_has(rs: Seq<RoomView>, n: int, i: int, k0: int) -> (k: int)
    requires
        0 <= i < n <= rs.len(),
        0 <= k0 < overlaps_with(rs[i], rs.skip(i + 1)).len(),
    ensures
        0 <= k < overlap_diags_upto(rs, n).len(),
        overlap_diags_upto(rs, n)[k] == overlaps_with(rs[i], rs.skip(i + 1))[k0],
    decreases n,
{
    let prev = overlap_diags_upto(rs, n - 1);
    if n - 1 == i {
        prev.len() + k0
    } else {
        let k = lemma_overlap_upto_has(rs, n - 1, i, k0);
        k
    }
}

/// Every pair of rooms whose rectangles intersect as open boxes is
/// reported: the geometry's diagnostics hold a fatal
/// `geometry_room_overlap` naming the earlier room and then the later one,
/// so the validation does not pass.
pub proof fn lemma_overlapping_rooms_reported(g: Geometry2dArtifact, i: int, j: int)
    requires
        0 <= i < j < g.rooms@.len(),
        ({
            let a = g.rooms@[i].rect;
            let b = g.rooms@[j].rect;
            a.x < b.x + b.width && b.x < a.x + a.width && a.y < b.y + b.height && b.y < a.y + a.height
        }),
    ensures
        exists|k: int|
            0 <= k < geometry_diagnostics(g).len() && {
                let d = #[trigger] geometry_diagnostics(g)[k];
                &&& d.code == "geometry_room_overlap"@
                &&& d.severity == Severity::Fatal
                &&& d.detail == "Room "@ + g.rooms@[i].id@ + " overlaps "@ + g.rooms@[j].id@ + "."@
            },
        geometry_diagnostics(g).len() > 0,
{
    let rs = views(g.rooms@);
    let cs = views(g.corridors@);
    assert(rs[i] == g.rooms@[i]@);
    assert(rs[j] == g.rooms@[j]@);
    let rights = rs.skip(i + 1);
    let m = j - i - 1;
    assert(rights[m] == rs[j]);
    let k0 = lemma_overlaps_with_has(rs[i], rights, m);
    let k1 = lemma_overlap_upto_has(rs, rs.len() as int, i, k0);
    let a = header_diags(g) + rooms_diags(rs, g.bounds);
    let o = overlap_diags_upto(rs, rs.len() as int);
    let k = a.len() + k1;
    let rest1 = coverage_diags(g) + corridors_diags(cs, rs);
    assert((a + o)[k] == o[k1]);
    let all = geometry_diagnostics(g);
    assert(all == a + o + coverage_diags(g) + corridors_diags(cs, rs) + routes_diags(cs, rs) + contact_diags(
        route_cells(cs),
    ) + skipped_diags(views(g.skipped_connectors@), seen_connectors(cs)) + contents_diags(
        views(g.contents@),
        rs,
    ) + reach_diags(rs, adjacency_edges(cs, rs)) + compactness_diags(g));
    assert(all[k] == o[k1]);
    assert(all[k].detail == "Room "@ + g.rooms@[i].id@ + " overlaps "@ + g.rooms@[j].id@ + "."@);
}

} // verus!
