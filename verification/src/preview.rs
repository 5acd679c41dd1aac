//! A standalone HTML preview of a 2D geometry artifact and its validation
//! report: the floor plan as SVG beside the validation status, the inputs,
//! a legend and the diagnostics.

use vstd::prelude::*;

use crate::candidate::{char_string, slugify_label, slugify_spec};
use crate::geometry::{Geometry2dArtifact, GeometryContent, GeometryCorridor, GeometryPoint, GeometryRoom};
use crate::geometry::hash_geometry;
use crate::graph::Diagnostic;
use crate::intermediate::ValidationReport;
use crate::json::hash_of;
use crate::geometry::geometry_json;
use crate::model::{owned, Severity};
use crate::text::{dec_text, int_text, push_dec_text, push_int_text, str_eq};

verus! {

// ---------------------------------------------------------------------
// Text escapes and tokens
// ---------------------------------------------------------------------

/// How a character is written: escaped for HTML text (mode 0), for an
/// attribute value (mode 1), or with `_` turned into `-` (mode 2).
pub open spec fn char_out(c: char, mode: int) -> Seq<char> {
    if mode == 2 {
        if c == '_' {
            seq!['-']
        } else {
            seq![c]
        }
    } else if c == '&' {
        "&amp;"@
    } else if c == '<' {
        "&lt;"@
    } else if c == '>' {
        "&gt;"@
    } else if mode == 1 && c == '"' {
        "&quot;"@
    } else {
        seq![c]
    }
}

pub open spec fn text_out(s: Seq<char>, mode: int) -> Seq<char>
    decreases s.len(),
{
    if s.len() == 0 {
        Seq::empty()
    } else {
        text_out(s.drop_last(), mode) + char_out(s.last(), mode)
    }
}

pub open spec fn escape_html_spec(s: Seq<char>) -> Seq<char> {
    text_out(s, 0)
}

pub open spec fn escape_attr_spec(s: Seq<char>) -> Seq<char> {
    text_out(s, 1)
}

/// A CSS class token: the slug of a value with `-` for `_`.
pub open spec fn css_token_spec(v: Seq<char>) -> Seq<char> {
    let t = text_out(slugify_spec(v), 2);
    if t.len() == 0 {
        "unknown"@
    } else {
        t
    }
}

fn push_char_out(out: &mut String, c: char, mode: u8)
    requires
        mode <= 2,
    ensures
        final(out)@ == old(out)@ + char_out(c, mode as int),
{
    if mode == 2 {
        if c == '_' {
            out.append("-");
        } else {
            let t = char_string(c);
            out.append(t.as_str());
        }
    } else if c == '&' {
        out.append("&amp;");
    } else if c == '<' {
        out.append("&lt;");
    } else if c == '>' {
        out.append("&gt;");
    } else if mode == 1 && c == '"' {
        out.append("&quot;");
    } else {
        let t = char_string(c);
        out.append(t.as_str());
    }
    proof {
        reveal_strlit("-");
    }
}

/// Writes `s` in the given mode.
fn push_text_out(out: &mut String, s: &str, mode: u8)
    requires
        mode <= 2,
    ensures
        final(out)@ == old(out)@ + text_out(s@, mode as int),
{
    let n = s.unicode_len();
    let ghost start = out@;
    let mut i: usize = 0;
    assert(s@.take(0) =~= Seq::<char>::empty());
    while i < n
        invariant
            n == s@.len(),
            i <= n,
            mode <= 2,
            out@ == start + text_out(s@.take(i as int), mode as int),
        decreases n - i,
    {
        let c = s.get_char(i);
        proof {
            assert(s@.take(i + 1).drop_last() =~= s@.take(i as int));
            assert(s@.take(i + 1).last() == c);
        }
        push_char_out(out, c, mode);
        i = i + 1;
    }
    assert(s@.take(n as int) =~= s@);
}

pub fn escape_html(value: &str) -> (r: String)
    ensures
        r@ == escape_html_spec(value@),
{
    let mut out = String::new();
    push_text_out(&mut out, value, 0);
    out
}

pub fn escape_attr(value: &str) -> (r: String)
    ensures
        r@ == escape_attr_spec(value@),
{
    let mut out = String::new();
    push_text_out(&mut out, value, 1);
    out
}

pub fn css_token(value: &str) -> (r: String)
    ensures
        r@ == css_token_spec(value@),
{
    let slug = slugify_label(value);
    let mut out = String::new();
    push_text_out(&mut out, slug.as_str(), 2);
    if out.unicode_len() == 0 {
        owned("unknown")
    } else {
        out
    }
}

pub open spec fn severity_text_spec(s: Severity) -> Seq<char> {
    match s {
        Severity::Info => "info"@,
        Severity::Warning => "warning"@,
        Severity::Fatal => "fatal"@,
    }
}

pub fn severity_label(severity: Severity) -> (r: &'static str)
    ensures
        r@ == severity_text_spec(severity),
{
    match severity {
        Severity::Info => "info",
        Severity::Warning => "warning",
        Severity::Fatal => "fatal",
    }
}

/// A room's label: its role, with its geometry role where that differs.
pub open spec fn room_label_spec(r: GeometryRoom) -> Seq<char> {
    if r.role@ == r.geometry_role@ {
        r.role@
    } else {
        r.role@ + " / "@ + r.geometry_role@
    }
}

pub fn room_label(room: &GeometryRoom) -> (r: String)
    ensures
        r@ == room_label_spec(*room),
{
    if str_eq(room.role.as_str(), room.geometry_role.as_str()) {
        owned(room.role.as_str())
    } else {
        let mut s = owned(room.role.as_str());
        s.append(" / ");
        s.append(room.geometry_role.as_str());
        s
    }
}

/// Whether `pat` occurs in `s`.
pub open spec fn contains_text(s: Seq<char>, pat: Seq<char>) -> bool {
    exists|i: int| 0 <= i && i + pat.len() <= s.len() && #[trigger] s.subrange(i, i + pat.len()) == pat
}

fn text_contains(s: &str, pat: &str) -> (r: bool)
    ensures
        r == contains_text(s@, pat@),
{
    let n = s.unicode_len();
    let m = pat.unicode_len();
    if m > n {
        proof {
            assert forall|i: int| 0 <= i && i + pat@.len() <= s@.len() implies #[trigger] s@.subrange(
                i,
                i + pat@.len(),
            ) != pat@ by {}
        }
        return false;
    }
    let mut i: usize = 0;
    while i <= n - m
        invariant
            n == s@.len(),
            m == pat@.len(),
            m <= n,
            i <= n - m + 1,
            forall|k: int| 0 <= k < i ==> #[trigger] s@.subrange(k, k + m) != pat@,
        decreases n - m + 1 - i,
    {
        let mut j: usize = 0;
        let mut same = true;
        while j < m
            invariant
                n == s@.len(),
                m == pat@.len(),
                i + m <= n,
                j <= m,
                same == (forall|t: int| 0 <= t < j ==> s@[i + t] == pat@[t]),
            decreases m - j,
        {
            if s.get_char(i + j) != pat.get_char(j) {
                same = false;
            }
            j = j + 1;
        }
        if same {
            assert(s@.subrange(i as int, i + m) =~= pat@);
            return true;
        }
        assert(s@.subrange(i as int, i + m) != pat@) by {
            let t = choose|t: int| 0 <= t < m && s@[i + t] != pat@[t];
            assert(s@.subrange(i as int, i + m)[t] == s@[i + t]);
        }
        i = i + 1;
    }
    proof {
        assert forall|k: int| 0 <= k && k + pat@.len() <= s@.len() implies #[trigger] s@.subrange(
            k,
            k + pat@.len(),
        ) != pat@ by {
            assert(k < i);
        }
    }
    false
}

/// A room's fill colour, by its role.
pub open spec fn room_fill_spec(r: GeometryRoom) -> Seq<char> {
    let role = r.role@;
    if role == "start"@ || role == "goal"@ {
        "#1f5f89"@
    } else if role == "gate"@ || role == "boss_gate"@ {
        "#725124"@
    } else if role == "pressure"@ {
        "#733238"@
    } else if role == "reward"@ {
        "#245a38"@
    } else if role == "landmark_hub"@ {
        "#394762"@
    } else if contains_text(r.geometry_role@, "secret"@) || contains_text(
        r.geometry_role@,
        "shortcut"@,
    ) {
        "#563d72"@
    } else {
        "#2d3a47"@
    }
}

pub fn room_fill(room: &GeometryRoom) -> (r: &'static str)
    ensures
        r@ == room_fill_spec(*room),
{
    let role = room.role.as_str();
    if str_eq(role, "start") || str_eq(role, "goal") {
        "#1f5f89"
    } else if str_eq(role, "gate") || str_eq(role, "boss_gate") {
        "#725124"
    } else if str_eq(role, "pressure") {
        "#733238"
    } else if str_eq(role, "reward") {
        "#245a38"
    } else if str_eq(role, "landmark_hub") {
        "#394762"
    } else if text_contains(room.geometry_role.as_str(), "secret") || text_contains(
        room.geometry_role.as_str(),
        "shortcut",
    ) {
        "#563d72"
    } else {
        "#2d3a47"
    }
}

// ---------------------------------------------------------------------
// The page
// ---------------------------------------------------------------------

/// The page up to the SVG's minimum width.
pub const PREVIEW_HEAD: &'static str = "<!doctype html>\n<html lang=\"en\">\n<head>\n<meta charset=\"utf-8\">\n<meta name=\"viewport\" content=\"width=device-width, initial-scale=1\">\n<title>Rusty Procgen Dungeon Preview</title>\n<style>\n:root { color-scheme: dark; font-family: Inter, ui-sans-serif, system-ui, sans-serif; background: #0b0d10; color: #e8edf2; }\nbody { margin: 0; background: #0b0d10; }\nmain { min-height: 100vh; display: grid; grid-template-columns: minmax(0, 1fr) 320px; gap: 0; }\n.stage { overflow: auto; padding: 24px; background: #0f1318; }\n.panel { border-left: 1px solid #2b3440; padding: 20px; background: #121820; }\nh1 { margin: 0 0 12px; font-size: 20px; }\nh2 { margin: 20px 0 8px; font-size: 14px; color: #b7c4d3; text-transform: uppercase; }\np, li { color: #c7d1dc; font-size: 13px; line-height: 1.45; }\ncode { color: #f8d67a; overflow-wrap: anywhere; }\nsvg { display: block; min-width: ";

/// The style rules after the SVG's minimum height, up to the artifact kind.
pub const PREVIEW_STYLE_TAIL: &'static str = "px; background: #151b22; border: 1px solid #2d3743; }\n.corridor { fill: none; stroke: #6e7f93; stroke-linecap: round; stroke-linejoin: round; opacity: 0.82; }\n.corridor-locked { stroke: #f0b35f; }\n.corridor-hidden { stroke: #c792ea; stroke-dasharray: 10 8; }\n.corridor-one-way-return { stroke: #5fb3ff; stroke-dasharray: 16 6; }\n.room rect { stroke: #d3deea; stroke-width: 1.5; }\n.room-label { fill: #f4f8fb; font-size: 13px; font-weight: 700; }\n.content-label { fill: #d6e0eb; font-size: 11px; }\n.legend { list-style: none; padding: 0; margin: 0; }\n.legend li { display: flex; align-items: center; gap: 8px; margin: 6px 0; }\n.legend span { display: inline-block; width: 12px; height: 12px; border-radius: 2px; }\n.status-ok { color: #7bd88f; }\n.status-bad { color: #ff6b6b; }\n@media (max-width: 900px) { main { grid-template-columns: 1fr; } .panel { border-left: 0; border-top: 1px solid #2b3440; } }\n</style>\n</head>\n<body data-preview-kind=\"rusty_procgen.html_preview.v1\" data-kind=\"";

/// The legend's items.
pub const PREVIEW_LEGEND: &'static str = "<li><span style=\"background:#5fb3ff\"></span>Start/Goal</li>\n<li><span style=\"background:#f0b35f\"></span>Gate/Boss</li>\n<li><span style=\"background:#ff6b6b\"></span>Hazard</li>\n<li><span style=\"background:#7bd88f\"></span>Reward/Key</li>\n<li><span style=\"background:#c792ea\"></span>Secret/Shortcut</li>\n<li><span style=\"background:#94a3b8\"></span>Standard</li>";

/// The bigger of two integers.
pub open spec fn larger(a: int, b: int) -> int {
    if a > b {
        a
    } else {
        b
    }
}

/// A point as `x,y`.
pub open spec fn point_text(p: GeometryPoint) -> Seq<char> {
    int_text(p.x as int) + ","@ + int_text(p.y as int)
}

/// The points of a polyline, separated by spaces.
pub open spec fn points_text(ps: Seq<GeometryPoint>) -> Seq<char>
    decreases ps.len(),
{
    if ps.len() == 0 {
        Seq::empty()
    } else if ps.len() == 1 {
        point_text(ps[0])
    } else {
        points_text(ps.drop_last()) + " "@ + point_text(ps.last())
    }
}

/// A corridor's polyline element.
pub open spec fn corridor_line(c: GeometryCorridor) -> Seq<char> {
    "<polyline class=\"corridor corridor-"@ + css_token_spec(c.traversal_hint@)
        + "\" data-source-edge=\""@ + escape_attr_spec(c.source_edge@) + "\" points=\""@
        + escape_attr_spec(points_text(c.points@)) + "\" stroke-width=\""@ + int_text(
        larger(c.width as int, 2),
    ) + "\" />\n"@
}

pub open spec fn corridors_text(cs: Seq<GeometryCorridor>) -> Seq<char>
    decreases cs.len(),
{
    if cs.len() == 0 {
        Seq::empty()
    } else {
        corridors_text(cs.drop_last()) + corridor_line(cs.last())
    }
}

/// A content label, the `n`th of its room.
pub open spec fn content_line(r: GeometryRoom, c: GeometryContent, n: int) -> Seq<char> {
    "  <text class=\"content-label content-"@ + css_token_spec(c.kind@) + "\" x=\""@ + int_text(
        r.rect.x + 10,
    ) + "\" y=\""@ + int_text(r.rect.y + 38 + n * 14) + "\">"@ + escape_html_spec(c.label@)
        + "</text>\n"@
}

/// The content labels of a room and how many there are.
pub open spec fn content_lines(cs: Seq<GeometryContent>, r: GeometryRoom) -> (Seq<char>, int)
    decreases cs.len(),
{
    if cs.len() == 0 {
        (Seq::empty(), 0)
    } else {
        let (t, n) = content_lines(cs.drop_last(), r);
        if cs.last().room_id@ == r.id@ {
            (t + content_line(r, cs.last(), n), n + 1)
        } else {
            (t, n)
        }
    }
}

/// The opening tag of a room's group.
pub open spec fn room_open(r: GeometryRoom) -> Seq<char> {
    "<g class=\"room room-"@ + css_token_spec(r.role@) + "\" data-room-id=\""@ + escape_attr_spec(
        r.id@,
    ) + "\" data-role=\""@ + escape_attr_spec(r.role@) + "\">\n"@
}

/// A room's rectangle.
pub open spec fn room_rect(r: GeometryRoom) -> Seq<char> {
    "  <rect x=\""@ + int_text(r.rect.x as int) + "\" y=\""@ + int_text(r.rect.y as int)
        + "\" width=\""@ + int_text(r.rect.width as int) + "\" height=\""@ + int_text(
        r.rect.height as int,
    ) + "\" rx=\"6\" fill=\""@ + room_fill_spec(r) + "\" />\n"@
}

/// A room's label.
pub open spec fn room_label_line(r: GeometryRoom) -> Seq<char> {
    "  <text class=\"room-label\" x=\""@ + int_text(r.rect.x + 10) + "\" y=\""@ + int_text(
        r.rect.y + 20,
    ) + "\">"@ + escape_html_spec(room_label_spec(r)) + "</text>\n"@
}

/// The opening of a room's group: its classes, its rectangle and its label.
pub open spec fn room_head(r: GeometryRoom) -> Seq<char> {
    room_open(r) + room_rect(r) + room_label_line(r)
}

/// A room's group: its rectangle, its label and its content labels.
pub open spec fn room_block(r: GeometryRoom, cs: Seq<GeometryContent>) -> Seq<char> {
    room_head(r) + content_lines(cs, r).0 + "</g>\n"@
}

pub open spec fn rooms_text(rs: Seq<GeometryRoom>, cs: Seq<GeometryContent>) -> Seq<char>
    decreases rs.len(),
{
    if rs.len() == 0 {
        Seq::empty()
    } else {
        rooms_text(rs.drop_last(), cs) + room_block(rs.last(), cs)
    }
}

pub open spec fn diagnostic_line(d: Diagnostic) -> Seq<char> {
    "<li><strong>"@ + escape_html_spec(d.code@) + "</strong> ["@ + escape_html_spec(
        severity_text_spec(d.severity),
    ) + "] "@ + escape_html_spec(d.detail@) + "</li>"@
}

/// The diagnostics, one line each.
pub open spec fn diagnostic_lines(ds: Seq<Diagnostic>) -> Seq<char>
    decreases ds.len(),
{
    if ds.len() == 0 {
        Seq::empty()
    } else if ds.len() == 1 {
        diagnostic_line(ds[0])
    } else {
        diagnostic_lines(ds.drop_last()) + "\n"@ + diagnostic_line(ds.last())
    }
}

pub open spec fn diagnostics_text(ds: Seq<Diagnostic>) -> Seq<char> {
    if ds.len() == 0 {
        "<li>No diagnostics.</li>"@
    } else {
        diagnostic_lines(ds)
    }
}

/// The page up to the corridors: the style, sized to the geometry, and
/// the SVG's opening.
pub open spec fn page_head(g: Geometry2dArtifact) -> Seq<char> {
    let w = int_text(larger(g.bounds.width as int, 320));
    let h = int_text(larger(g.bounds.height as int, 240));
    PREVIEW_HEAD@ + w + "px; min-height: "@ + h + PREVIEW_STYLE_TAIL@ + escape_attr_spec(g.kind@)
        + "\">\n<main>\n<section class=\"stage\" aria-label=\"Dungeon floor plan\">\n<svg xmlns=\"http://www.w3.org/2000/svg\" role=\"img\" aria-labelledby=\"preview-title\" viewBox=\"0 0 "@
        + w + " "@ + h
        + "\">\n<title id=\"preview-title\">Generated dungeon preview for "@ + escape_html_spec(
        g.geometry_id@,
    ) + "</title>\n<g class=\"corridors\">\n"@
}

/// The panel's status and input lines.
pub open spec fn page_status(ok: bool, geometry_ref: Seq<char>, validation_ref: Seq<char>) -> Seq<char> {
    "</g>\n</svg>\n</section>\n<aside class=\"panel\">\n<h1>Dungeon Preview</h1>\n<p class=\""@ + (if ok {
        "status-ok"@
    } else {
        "status-bad"@
    }) + "\">Validation: "@ + (if ok {
        "ok"@
    } else {
        "invalid"@
    }) + "</p>\n<p>Geometry: <code>"@ + escape_html_spec(geometry_ref)
        + "</code></p>\n<p>Validation: <code>"@ + escape_html_spec(validation_ref) + "</code></p>\n"@
}

/// The panel's counts and legend.
pub open spec fn page_counts(g: Geometry2dArtifact) -> Seq<char> {
    "<p>Rooms: "@ + dec_text(g.rooms@.len()) + " \u{b7} Corridors: "@ + dec_text(g.corridors@.len())
        + " \u{b7} Contents: "@ + dec_text(g.contents@.len())
        + "</p>\n<h2>Legend</h2>\n<ul class=\"legend\">\n"@ + PREVIEW_LEGEND@
        + "\n</ul>\n<h2>Diagnostics</h2>\n<ul>\n"@
}

/// The preview page of a geometry artifact and its validation report.
pub open spec fn preview_html_spec(
    g: Geometry2dArtifact,
    ok: bool,
    diagnostics: Seq<Diagnostic>,
    geometry_ref: Seq<char>,
    validation_ref: Seq<char>,
) -> Seq<char> {
    page_head(g) + corridors_text(g.corridors@) + "</g>\n<g class=\"rooms\">\n"@ + rooms_text(
        g.rooms@,
        g.contents@,
    ) + page_status(ok, geometry_ref, validation_ref) + page_counts(g) + diagnostics_text(
        diagnostics,
    ) + "\n</ul>\n</aside>\n</main>\n</body>\n</html>\n"@
}

/// The number of contents of room `r`.
pub open spec fn room_content_count(cs: Seq<GeometryContent>, r: GeometryRoom) -> int {
    content_lines(cs, r).1
}

/// Whether every label position of the page fits in `i32`.
pub open spec fn preview_positions_fit(g: Geometry2dArtifact) -> bool {
    forall|i: int|
        0 <= i < g.rooms@.len() ==> {
            &&& (#[trigger] g.rooms@[i]).rect.x + 10 <= i32::MAX
            &&& g.rooms@[i].rect.y + 20 <= i32::MAX
            &&& room_content_count(g.contents@, g.rooms@[i]) > 0 ==> g.rooms@[i].rect.y + 38 + 14 * (
                room_content_count(g.contents@, g.rooms@[i]) - 1) <= i32::MAX && 14 * (
                room_content_count(g.contents@, g.rooms@[i]) - 1) <= i32::MAX
        }
}

fn push_i32_text(out: &mut String, v: i32)
    ensures
        final(out)@ == old(out)@ + int_text(v as int),
{
    push_int_text(out, v as i64);
}

fn points_string(ps: &Vec<GeometryPoint>) -> (r: String)
    ensures
        r@ == points_text(ps@),
{
    let mut out = String::new();
    let mut i: usize = 0;
    assert(ps@.take(0) =~= Seq::<GeometryPoint>::empty());
    while i < ps.len()
        invariant
            i <= ps@.len(),
            out@ == points_text(ps@.take(i as int)),
        decreases ps@.len() - i,
    {
        assert(ps@.take(i + 1).drop_last() =~= ps@.take(i as int));
        if i > 0 {
            out.append(" ");
        }
        push_i32_text(&mut out, ps[i].x);
        out.append(",");
        push_i32_text(&mut out, ps[i].y);
        i = i + 1;
    }
    assert(ps@.take(ps@.len() as int) =~= ps@);
    out
}

fn push_corridor_line(out: &mut String, c: &GeometryCorridor)
    ensures
        final(out)@ == old(out)@ + corridor_line(*c),
{
    out.append("<polyline class=\"corridor corridor-");
    let t = css_token(c.traversal_hint.as_str());
    out.append(t.as_str());
    out.append("\" data-source-edge=\"");
    push_text_out(out, c.source_edge.as_str(), 1);
    out.append("\" points=\"");
    let pts = points_string(&c.points);
    push_text_out(out, pts.as_str(), 1);
    out.append("\" stroke-width=\"");
    push_i32_text(out, if c.width > 2 {
        c.width
    } else {
        2
    });
    out.append("\" />\n");
}

fn push_content_lines(out: &mut String, cs: &Vec<GeometryContent>, r: &GeometryRoom)
    requires
        room_content_count(cs@, *r) > 0 ==> r.rect.y + 38 + 14 * (room_content_count(cs@, *r) - 1)
            <= i32::MAX && 14 * (room_content_count(cs@, *r) - 1) <= i32::MAX,
        r.rect.x + 10 <= i32::MAX,
    ensures
        final(out)@ == old(out)@ + content_lines(cs@, *r).0,
{
    let ghost start = out@;
    let mut n: i32 = 0;
    let mut i: usize = 0;
    assert(cs@.take(0) =~= Seq::<GeometryContent>::empty());
    proof {
        lemma_content_count_prefix(cs@, *r, 0);
    }
    while i < cs.len()
        invariant
            i <= cs@.len(),
            out@ == start + content_lines(cs@.take(i as int), *r).0,
            n == content_lines(cs@.take(i as int), *r).1,
            content_lines(cs@.take(i as int), *r).1 <= room_content_count(cs@, *r),
            room_content_count(cs@, *r) > 0 ==> r.rect.y + 38 + 14 * (room_content_count(cs@, *r) - 1)
                <= i32::MAX && 14 * (room_content_count(cs@, *r) - 1) <= i32::MAX,
            0 <= n,
            r.rect.x + 10 <= i32::MAX,
        decreases cs@.len() - i,
    {
        assert(cs@.take(i + 1).drop_last() =~= cs@.take(i as int));
        proof {
            lemma_content_count_prefix(cs@, *r, i as int + 1);
        }
        let c = &cs[i];
        assert(cs@.take(i + 1).last() == cs@[i as int]);
        if str_eq(c.room_id.as_str(), r.id.as_str()) {
            assert(content_lines(cs@.take(i + 1), *r).1 == n + 1);
            assert(n + 1 <= room_content_count(cs@, *r));
            assert(room_content_count(cs@, *r) > 0);
            assert(r.rect.y + 38 + 14 * (room_content_count(cs@, *r) - 1) <= i32::MAX);
            assert(r.rect.y + 38 + 14 * n <= i32::MAX);
            out.append("  <text class=\"content-label content-");
            let t = css_token(c.kind.as_str());
            out.append(t.as_str());
            out.append("\" x=\"");
            push_i32_text(out, r.rect.x + 10);
            out.append("\" y=\"");
            push_i32_text(out, r.rect.y + 38 + n * 14);
            out.append("\">");
            push_text_out(out, c.label.as_str(), 0);
            out.append("</text>\n");
            n = n + 1;
        }
        i = i + 1;
    }
    assert(cs@.take(cs@.len() as int) =~= cs@);
}

/// A prefix of the contents holds no more of a room's contents than all.
proof fn lemma_content_count_prefix(cs: Seq<GeometryContent>, r: GeometryRoom, i: int)
    requires
        0 <= i <= cs.len(),
    ensures
        0 <= content_lines(cs.take(i), r).1 <= content_lines(cs, r).1,
    decreases cs.len() - i,
{
    if i < cs.len() {
        lemma_content_count_prefix(cs, r, i + 1);
        assert(cs.take(i + 1).drop_last() =~= cs.take(i));
        lemma_content_count_nonneg(cs.take(i), r);
    } else {
        assert(cs.take(i) =~= cs);
        lemma_content_count_nonneg(cs, r);
    }
}

proof fn lemma_content_count_nonneg(cs: Seq<GeometryContent>, r: GeometryRoom)
    ensures
        0 <= content_lines(cs, r).1,
    decreases cs.len(),
{
    if cs.len() > 0 {
        lemma_content_count_nonneg(cs.drop_last(), r);
    }
}

fn push_room_open(out: &mut String, r: &GeometryRoom)
    ensures
        final(out)@ == old(out)@ + room_open(*r),
{
    out.append("<g class=\"room room-");
    let t = css_token(r.role.as_str());
    out.append(t.as_str());
    out.append("\" data-room-id=\"");
    push_text_out(out, r.id.as_str(), 1);
    out.append("\" data-role=\"");
    push_text_out(out, r.role.as_str(), 1);
    out.append("\">\n");
}

fn push_room_rect(out: &mut String, r: &GeometryRoom)
    ensures
        final(out)@ == old(out)@ + room_rect(*r),
{
    out.append("  <rect x=\"");
    push_i32_text(out, r.rect.x);
    out.append("\" y=\"");
    push_i32_text(out, r.rect.y);
    out.append("\" width=\"");
    push_i32_text(out, r.rect.width);
    out.append("\" height=\"");
    push_i32_text(out, r.rect.height);
    out.append("\" rx=\"6\" fill=\"");
    out.append(room_fill(r));
    out.append("\" />\n");
}

fn push_room_label(out: &mut String, r: &GeometryRoom)
    requires
        r.rect.x + 10 <= i32::MAX,
        r.rect.y + 20 <= i32::MAX,
    ensures
        final(out)@ == old(out)@ + room_label_line(*r),
{
    out.append("  <text class=\"room-label\" x=\"");
    push_i32_text(out, r.rect.x + 10);
    out.append("\" y=\"");
    push_i32_text(out, r.rect.y + 20);
    out.append("\">");
    let label = room_label(r);
    push_text_out(out, label.as_str(), 0);
    out.append("</text>\n");
}

fn push_room_head(out: &mut String, r: &GeometryRoom)
    requires
        r.rect.x + 10 <= i32::MAX,
        r.rect.y + 20 <= i32::MAX,
    ensures
        final(out)@ == old(out)@ + room_head(*r),
{
    push_room_open(out, r);
    push_room_rect(out, r);
    push_room_label(out, r);
}

fn push_room_block(out: &mut String, r: &GeometryRoom, cs: &Vec<GeometryContent>)
    requires
        r.rect.x + 10 <= i32::MAX,
        r.rect.y + 20 <= i32::MAX,
        room_content_count(cs@, *r) > 0 ==> r.rect.y + 38 + 14 * (room_content_count(cs@, *r) - 1)
            <= i32::MAX && 14 * (room_content_count(cs@, *r) - 1) <= i32::MAX,
    ensures
        final(out)@ == old(out)@ + room_block(*r, cs@),
{
    push_room_head(out, r);
    push_content_lines(out, cs, r);
    out.append("</g>\n");
}

fn push_diagnostic_line(out: &mut String, d: &Diagnostic)
    ensures
        final(out)@ == old(out)@ + diagnostic_line(*d),
{
    out.append("<li><strong>");
    push_text_out(out, d.code.as_str(), 0);
    out.append("</strong> [");
    push_text_out(out, severity_label(d.severity), 0);
    out.append("] ");
    push_text_out(out, d.detail.as_str(), 0);
    out.append("</li>");
}

fn push_page_head(out: &mut String, geometry: &Geometry2dArtifact)
    ensures
        final(out)@ == old(out)@ + page_head(*geometry),
{
    let w: i32 = if geometry.bounds.width > 320 {
        geometry.bounds.width
    } else {
        320
    };
    let h: i32 = if geometry.bounds.height > 240 {
        geometry.bounds.height
    } else {
        240
    };
    out.append(PREVIEW_HEAD);
    push_i32_text(out, w);
    out.append("px; min-height: ");
    push_i32_text(out, h);
    out.append(PREVIEW_STYLE_TAIL);
    push_text_out(out, geometry.kind.as_str(), 1);
    out.append(
        "\">\n<main>\n<section class=\"stage\" aria-label=\"Dungeon floor plan\">\n<svg xmlns=\"http://www.w3.org/2000/svg\" role=\"img\" aria-labelledby=\"preview-title\" viewBox=\"0 0 ",
    );
    push_i32_text(out, w);
    out.append(" ");
    push_i32_text(out, h);
    out.append("\">\n<title id=\"preview-title\">Generated dungeon preview for ");
    push_text_out(out, geometry.geometry_id.as_str(), 0);
    out.append("</title>\n<g class=\"corridors\">\n");
}

fn push_page_status(out: &mut String, ok: bool, geometry_ref: &str, validation_ref: &str)
    ensures
        final(out)@ == old(out)@ + page_status(ok, geometry_ref@, validation_ref@),
{
    out.append(
        "</g>\n</svg>\n</section>\n<aside class=\"panel\">\n<h1>Dungeon Preview</h1>\n<p class=\"",
    );
    out.append(if ok {
        "status-ok"
    } else {
        "status-bad"
    });
    out.append("\">Validation: ");
    out.append(if ok {
        "ok"
    } else {
        "invalid"
    });
    out.append("</p>\n<p>Geometry: <code>");
    push_text_out(out, geometry_ref, 0);
    out.append("</code></p>\n<p>Validation: <code>");
    push_text_out(out, validation_ref, 0);
    out.append("</code></p>\n");
}

fn push_page_counts(out: &mut String, geometry: &Geometry2dArtifact)
    ensures
        final(out)@ == old(out)@ + page_counts(*geometry),
{
    out.append("<p>Rooms: ");
    push_dec_text(out, geometry.rooms.len() as u64);
    out.append(" \u{b7} Corridors: ");
    push_dec_text(out, geometry.corridors.len() as u64);
    out.append(" \u{b7} Contents: ");
    push_dec_text(out, geometry.contents.len() as u64);
    out.append("</p>\n<h2>Legend</h2>\n<ul class=\"legend\">\n");
    out.append(PREVIEW_LEGEND);
    out.append("\n</ul>\n<h2>Diagnostics</h2>\n<ul>\n");
}

fn push_corridors(out: &mut String, cs: &Vec<GeometryCorridor>)
    ensures
        final(out)@ == old(out)@ + corridors_text(cs@),
{
    let ghost start = out@;
    let mut i: usize = 0;
    assert(cs@.take(0) =~= Seq::<GeometryCorridor>::empty());
    while i < cs.len()
        invariant
            i <= cs@.len(),
            out@ == start + corridors_text(cs@.take(i as int)),
        decreases cs@.len() - i,
    {
        assert(cs@.take(i + 1).drop_last() =~= cs@.take(i as int));
        push_corridor_line(out, &cs[i]);
        i = i + 1;
    }
    assert(cs@.take(cs@.len() as int) =~= cs@);
}

fn push_rooms(out: &mut String, geometry: &Geometry2dArtifact)
    requires
        preview_positions_fit(*geometry),
    ensures
        final(out)@ == old(out)@ + rooms_text(geometry.rooms@, geometry.contents@),
{
    let ghost start = out@;
    let rs = &geometry.rooms;
    let mut j: usize = 0;
    assert(rs@.take(0) =~= Seq::<GeometryRoom>::empty());
    while j < rs.len()
        invariant
            j <= rs@.len(),
            rs@ == geometry.rooms@,
            preview_positions_fit(*geometry),
            out@ == start + rooms_text(rs@.take(j as int), geometry.contents@),
        decreases rs@.len() - j,
    {
        assert(rs@.take(j + 1).drop_last() =~= rs@.take(j as int));
        assert(rs@[j as int] == geometry.rooms@[j as int]);
        push_room_block(out, &rs[j], &geometry.contents);
        j = j + 1;
    }
    assert(rs@.take(rs@.len() as int) =~= rs@);
}

fn push_diagnostics(out: &mut String, diagnostics: &Vec<Diagnostic>)
    ensures
        final(out)@ == old(out)@ + diagnostics_text(diagnostics@),
{
    if diagnostics.len() == 0 {
        out.append("<li>No diagnostics.</li>");
        return;
    }
    let ghost start = out@;
    let mut k: usize = 0;
    assert(diagnostics@.take(0) =~= Seq::<Diagnostic>::empty());
    while k < diagnostics.len()
        invariant
            k <= diagnostics@.len(),
            out@ == start + diagnostic_lines(diagnostics@.take(k as int)),
        decreases diagnostics@.len() - k,
    {
        assert(diagnostics@.take(k + 1).drop_last() =~= diagnostics@.take(k as int));
        if k > 0 {
            out.append("\n");
        }
        push_diagnostic_line(out, &diagnostics[k]);
        k = k + 1;
    }
    assert(diagnostics@.take(diagnostics@.len() as int) =~= diagnostics@);
}

/// Renders the preview page of a geometry artifact and its validation
/// report (see `preview_html_spec`).
pub fn render_geometry_preview_html(
    geometry: &Geometry2dArtifact,
    validation: &ValidationReport,
    geometry_ref: &str,
    validation_ref: &str,
) -> (html: String)
    requires
        preview_positions_fit(*geometry),
    ensures
        html@ == preview_html_spec(
            *geometry,
            validation.ok,
            validation.diagnostics@,
            geometry_ref@,
            validation_ref@,
        ),
{
    let ok = validation.ok;
    let diagnostics = &validation.diagnostics;
    let mut out = String::new();
    push_page_head(&mut out, geometry);
    push_corridors(&mut out, &geometry.corridors);
    out.append("</g>\n<g class=\"rooms\">\n");
    push_rooms(&mut out, geometry);
    push_page_status(&mut out, ok, geometry_ref, validation_ref);
    push_page_counts(&mut out, geometry);
    push_diagnostics(&mut out, diagnostics);
    out.append("\n</ul>\n</aside>\n</main>\n</body>\n</html>\n");
    out
}

/// The number of contents of a room.
fn room_contents_count(cs: &Vec<GeometryContent>, r: &GeometryRoom) -> (n: u64)
    ensures
        n == room_content_count(cs@, *r),
{
    let mut n: u64 = 0;
    let mut i: usize = 0;
    assert(cs@.take(0) =~= Seq::<GeometryContent>::empty());
    while i < cs.len()
        invariant
            i <= cs@.len(),
            n == content_lines(cs@.take(i as int), *r).1,
            n <= i,
        decreases cs@.len() - i,
    {
        assert(cs@.take(i + 1).drop_last() =~= cs@.take(i as int));
        assert(cs@.take(i + 1).last() == cs@[i as int]);
        if str_eq(cs[i].room_id.as_str(), r.id.as_str()) {
            n = n + 1;
        }
        i = i + 1;
    }
    assert(cs@.take(cs@.len() as int) =~= cs@);
    n
}

/// Whether every label position of the page fits in `i32` (see
/// `preview_positions_fit`).
pub fn preview_positions_ok(geometry: &Geometry2dArtifact) -> (r: bool)
    ensures
        r == preview_positions_fit(*geometry),
{
    let rs = &geometry.rooms;
    let mut i: usize = 0;
    while i < rs.len()
        invariant
            i <= rs@.len(),
            rs@ == geometry.rooms@,
            forall|k: int|
                0 <= k < i ==> {
                    &&& (#[trigger] geometry.rooms@[k]).rect.x + 10 <= i32::MAX
                    &&& geometry.rooms@[k].rect.y + 20 <= i32::MAX
                    &&& room_content_count(geometry.contents@, geometry.rooms@[k]) > 0
                        ==> geometry.rooms@[k].rect.y + 38 + 14 * (room_content_count(
                        geometry.contents@,
                        geometry.rooms@[k],
                    ) - 1) <= i32::MAX && 14 * (room_content_count(
                        geometry.contents@,
                        geometry.rooms@[k],
                    ) - 1) <= i32::MAX
                },
        decreases rs@.len() - i,
    {
        let r = &rs[i];
        let count = room_contents_count(&geometry.contents, r);
        let x = r.rect.x as i64;
        let y = r.rect.y as i64;
        if x + 10 > 0x7fff_ffff || y + 20 > 0x7fff_ffff {
            return false;
        }
        if count > 0 {
            if count - 1 > 0x7fff_ffff / 14 {
                return false;
            }
            let step: i64 = (count as i64 - 1) * 14;
            if y + 38 + step > 0x7fff_ffff {
                return false;
            }
        }
        i = i + 1;
    }
    true
}

pub open spec fn preview_inputs_check(
    g: Geometry2dArtifact,
    v: ValidationReport,
    allow_invalid: bool,
) -> Result<(), Seq<char>> {
    if v.kind@ != "rusty_procgen.validation.geometry_2d.v1"@ {
        Err(
            "preview html requires geometry validation kind rusty_procgen.validation.geometry_2d.v1, got "@
                + v.kind@,
        )
    } else if v.state_hash@ != hash_of(geometry_json(g)) {
        Err("preview html validation hash does not match geometry input"@)
    } else if !v.ok && !allow_invalid {
        Err(
            "preview html refused invalid geometry with "@ + dec_text(v.fatal_count as nat)
                + " fatal diagnostic(s); pass --allow-invalid to render diagnostics"@,
        )
    } else {
        Ok(())
    }
}

/// Checks that a validation report belongs to the geometry and, unless
/// invalid geometry is allowed, that it passed.
pub fn validate_preview_inputs(
    geometry: &Geometry2dArtifact,
    validation: &ValidationReport,
    allow_invalid: bool,
) -> (r: Result<(), String>)
    ensures
        match r {
            Ok(()) => preview_inputs_check(*geometry, *validation, allow_invalid) is Ok,
            Err(m) => preview_inputs_check(*geometry, *validation, allow_invalid) == Err::<
                (),
                Seq<char>,
            >(m@),
        },
{
    if !str_eq(validation.kind.as_str(), "rusty_procgen.validation.geometry_2d.v1") {
        let mut m = owned(
            "preview html requires geometry validation kind rusty_procgen.validation.geometry_2d.v1, got ",
        );
        m.append(validation.kind.as_str());
        return Err(m);
    }
    let h = hash_geometry(geometry);
    if !str_eq(validation.state_hash.as_str(), h.as_str()) {
        return Err(owned("preview html validation hash does not match geometry input"));
    }
    if !validation.ok && !allow_invalid {
        let mut m = owned("preview html refused invalid geometry with ");
        push_dec_text(&mut m, validation.fatal_count as u64);
        m.append(" fatal diagnostic(s); pass --allow-invalid to render diagnostics");
        return Err(m);
    }
    Ok(())
}

} // verus!
