//! The geometry layout policy: its defaults, the bounds it must respect, and
//! the spacing it yields at each tier of the layout search.

use vstd::prelude::*;
use vstd::string::*;

use crate::text::{dec_text, push_dec_text, str_eq};

verus! {

/// The grid that rooms and corridors snap to.
pub const GEOMETRY_ROUTE_GRID: i32 = 8;

/// The route orders tried per room order.
pub const GEOMETRY_ROUTE_ORDER_COUNT: u32 = 4;

pub const GEOMETRY_LAYOUT_POLICY_KIND: &'static str = "rusty_procgen.geometry_layout_policy.v1";

#[derive(Clone, Debug, PartialEq, Eq)]
pub struct GeometryLayoutPolicy {
    pub kind: String,
    pub schema_version: u32,
    pub initial_room_margin: i32,
    pub initial_column_gap: i32,
    pub initial_row_gap: i32,
    pub room_margin_growth: i32,
    pub column_gap_growth: i32,
    pub row_gap_growth: i32,
    pub max_spacing_tiers: u32,
    pub room_order_attempts_per_tier: u32,
    pub max_search_attempts: u32,
}

#[derive(Clone, Copy, Debug, PartialEq, Eq, Structural)]
pub struct GeometrySpacing {
    pub room_margin: i32,
    pub column_gap: i32,
    pub row_gap: i32,
}

/// The default layout policy.
pub fn default_geometry_layout_policy() -> (p: GeometryLayoutPolicy)
    ensures
        p.kind@ == GEOMETRY_LAYOUT_POLICY_KIND@,
        p.schema_version == 1,
        p.initial_room_margin == 96,
        p.initial_column_gap == 144,
        p.initial_row_gap == 64,
        p.room_margin_growth == 48,
        p.column_gap_growth == 72,
        p.row_gap_growth == 40,
        p.max_spacing_tiers == 5,
        p.room_order_attempts_per_tier == 4,
        p.max_search_attempts == 80,
{
    GeometryLayoutPolicy {
        kind: String::from_str(GEOMETRY_LAYOUT_POLICY_KIND),
        schema_version: 1,
        initial_room_margin: 96,
        initial_column_gap: 144,
        initial_row_gap: 64,
        room_margin_growth: 48,
        column_gap_growth: 72,
        row_gap_growth: 40,
        max_spacing_tiers: 5,
        room_order_attempts_per_tier: 4,
        max_search_attempts: 80,
    }
}

/// A value on the route grid within `[lo, hi]`.
pub open spec fn on_grid_within(v: i32, lo: i32, hi: i32) -> bool {
    lo <= v <= hi && v % GEOMETRY_ROUTE_GRID == 0
}

/// The layout attempts a policy's tiers and room orders allow.
pub open spec fn available_attempts(p: GeometryLayoutPolicy) -> int {
    p.max_spacing_tiers * p.room_order_attempts_per_tier * GEOMETRY_ROUTE_ORDER_COUNT
}

/// A spacing at the final tier: the initial value grown once per tier.
pub open spec fn final_tier_value(initial: i32, growth: i32, tiers: u32) -> int {
    initial + growth * (tiers - 1)
}

/// What checking a layout policy answers: its identity, each spacing value
/// in order, the tier and attempt counts, then the final-tier spacings.
pub open spec fn policy_check(p: GeometryLayoutPolicy) -> Result<(), Seq<char>> {
    if p.kind@ != GEOMETRY_LAYOUT_POLICY_KIND@ || p.schema_version != 1 {
        Err(
            "unsupported geometry layout policy; expected rusty_procgen.geometry_layout_policy.v1"@,
        )
    } else if !on_grid_within(p.initial_room_margin, 32, 1024) {
        Err("geometry layout policy initialRoomMargin must be a multiple of 8 from 32 through 1024"@)
    } else if !on_grid_within(p.initial_column_gap, 32, 1024) {
        Err("geometry layout policy initialColumnGap must be a multiple of 8 from 32 through 1024"@)
    } else if !on_grid_within(p.initial_row_gap, 32, 1024) {
        Err("geometry layout policy initialRowGap must be a multiple of 8 from 32 through 1024"@)
    } else if !on_grid_within(p.room_margin_growth, 0, 512) {
        Err("geometry layout policy roomMarginGrowth must be a multiple of 8 from 0 through 512"@)
    } else if !on_grid_within(p.column_gap_growth, 0, 512) {
        Err("geometry layout policy columnGapGrowth must be a multiple of 8 from 0 through 512"@)
    } else if !on_grid_within(p.row_gap_growth, 0, 512) {
        Err("geometry layout policy rowGapGrowth must be a multiple of 8 from 0 through 512"@)
    } else if p.max_spacing_tiers == 0 || p.max_spacing_tiers > 8 {
        Err("geometry layout policy maxSpacingTiers must be from 1 through 8"@)
    } else if p.room_order_attempts_per_tier == 0 || p.room_order_attempts_per_tier > 32 {
        Err("geometry layout policy roomOrderAttemptsPerTier must be from 1 through 32"@)
    } else if p.max_search_attempts == 0 || p.max_search_attempts > available_attempts(p) {
        Err(
            "geometry layout policy maxSearchAttempts must be from 1 through "@ + dec_text(
                available_attempts(p) as nat,
            ),
        )
    } else if final_tier_value(p.initial_room_margin, p.room_margin_growth, p.max_spacing_tiers)
        > 2048 {
        Err("geometry layout policy roomMargin exceeds 2048 units at the final tier"@)
    } else if final_tier_value(p.initial_column_gap, p.column_gap_growth, p.max_spacing_tiers)
        > 2048 {
        Err("geometry layout policy columnGap exceeds 2048 units at the final tier"@)
    } else if final_tier_value(p.initial_row_gap, p.row_gap_growth, p.max_spacing_tiers) > 2048 {
        Err("geometry layout policy rowGap exceeds 2048 units at the final tier"@)
    } else {
        Ok(())
    }
}

fn grid_ok(v: i32, lo: i32, hi: i32) -> (r: bool)
    ensures
        r == on_grid_within(v, lo, hi),
{
    !(v < lo || v > hi || v % GEOMETRY_ROUTE_GRID != 0)
}

fn refuse(message: &str) -> (r: Result<(), String>)
    ensures
        r matches Err(m) && m@ == message@,
{
    Err(String::from_str(message))
}

/// Checks a layout policy (see `policy_check`).
pub fn validate_geometry_layout_policy(policy: &GeometryLayoutPolicy) -> (r: Result<(), String>)
    ensures
        match r {
            Ok(()) => policy_check(*policy) is Ok,
            Err(m) => policy_check(*policy) == Err::<(), Seq<char>>(m@),
        },
{
    if !str_eq(policy.kind.as_str(), GEOMETRY_LAYOUT_POLICY_KIND) || policy.schema_version != 1 {
        return refuse(
            "unsupported geometry layout policy; expected rusty_procgen.geometry_layout_policy.v1",
        );
    }
    if !grid_ok(policy.initial_room_margin, 32, 1024) {
        return refuse(
            "geometry layout policy initialRoomMargin must be a multiple of 8 from 32 through 1024",
        );
    }
    if !grid_ok(policy.initial_column_gap, 32, 1024) {
        return refuse(
            "geometry layout policy initialColumnGap must be a multiple of 8 from 32 through 1024",
        );
    }
    if !grid_ok(policy.initial_row_gap, 32, 1024) {
        return refuse(
            "geometry layout policy initialRowGap must be a multiple of 8 from 32 through 1024",
        );
    }
    if !grid_ok(policy.room_margin_growth, 0, 512) {
        return refuse(
            "geometry layout policy roomMarginGrowth must be a multiple of 8 from 0 through 512",
        );
    }
    if !grid_ok(policy.column_gap_growth, 0, 512) {
        return refuse(
            "geometry layout policy columnGapGrowth must be a multiple of 8 from 0 through 512",
        );
    }
    if !grid_ok(policy.row_gap_growth, 0, 512) {
        return refuse("geometry layout policy rowGapGrowth must be a multiple of 8 from 0 through 512");
    }
    if policy.max_spacing_tiers == 0 || policy.max_spacing_tiers > 8 {
        return refuse("geometry layout policy maxSpacingTiers must be from 1 through 8");
    }
    if policy.room_order_attempts_per_tier == 0 || policy.room_order_attempts_per_tier > 32 {
        return refuse("geometry layout policy roomOrderAttemptsPerTier must be from 1 through 32");
    }
    assert(policy.max_spacing_tiers * policy.room_order_attempts_per_tier <= 256) by (nonlinear_arith)
        requires
            policy.max_spacing_tiers <= 8,
            policy.room_order_attempts_per_tier <= 32,
    ;
    let available = policy.max_spacing_tiers * policy.room_order_attempts_per_tier
        * GEOMETRY_ROUTE_ORDER_COUNT;
    if policy.max_search_attempts == 0 || policy.max_search_attempts > available {
        let mut message = String::from_str(
            "geometry layout policy maxSearchAttempts must be from 1 through ",
        );
        push_dec_text(&mut message, available as u64);
        return Err(message);
    }
    let final_tier = (policy.max_spacing_tiers - 1) as i32;
    assert(policy.room_margin_growth * final_tier <= 512 * 7) by (nonlinear_arith)
        requires
            0 <= policy.room_margin_growth <= 512,
            0 <= final_tier <= 7,
    ;
    assert(policy.column_gap_growth * final_tier <= 512 * 7) by (nonlinear_arith)
        requires
            0 <= policy.column_gap_growth <= 512,
            0 <= final_tier <= 7,
    ;
    assert(policy.row_gap_growth * final_tier <= 512 * 7) by (nonlinear_arith)
        requires
            0 <= policy.row_gap_growth <= 512,
            0 <= final_tier <= 7,
    ;
    assert(policy.room_margin_growth * final_tier >= 0) by (nonlinear_arith)
        requires
            0 <= policy.room_margin_growth,
            0 <= final_tier,
    ;
    assert(policy.column_gap_growth * final_tier >= 0) by (nonlinear_arith)
        requires
            0 <= policy.column_gap_growth,
            0 <= final_tier,
    ;
    assert(policy.row_gap_growth * final_tier >= 0) by (nonlinear_arith)
        requires
            0 <= policy.row_gap_growth,
            0 <= final_tier,
    ;
    if policy.initial_room_margin + policy.room_margin_growth * final_tier > 2048 {
        return refuse("geometry layout policy roomMargin exceeds 2048 units at the final tier");
    }
    if policy.initial_column_gap + policy.column_gap_growth * final_tier > 2048 {
        return refuse("geometry layout policy columnGap exceeds 2048 units at the final tier");
    }
    if policy.initial_row_gap + policy.row_gap_growth * final_tier > 2048 {
        return refuse("geometry layout policy rowGap exceeds 2048 units at the final tier");
    }
    Ok(())
}

/// `initial + per_tier * tier`, if it fits in an `i32`.
pub open spec fn grown(initial: i32, per_tier: i32, tier: u32) -> Option<i32> {
    let tier_i32: int = if tier <= i32::MAX {
        tier as int
    } else {
        i32::MAX as int
    };
    let step: int = if i32::MIN <= per_tier * tier_i32 <= i32::MAX {
        per_tier * tier_i32
    } else {
        i32::MAX as int
    };
    if i32::MIN <= initial + step <= i32::MAX {
        Some((initial + step) as i32)
    } else {
        None
    }
}

fn grow(initial: i32, per_tier: i32, tier: u32) -> (r: Option<i32>)
    ensures
        r == grown(initial, per_tier, tier),
{
    let tier_i32: i32 = if tier <= 0x7fff_ffff {
        tier as i32
    } else {
        i32::MAX
    };
    let step: i32 = match per_tier.checked_mul(tier_i32) {
        Some(v) => v,
        None => i32::MAX,
    };
    initial.checked_add(step)
}

/// The spacing at `tier`, or why it cannot be used.
pub open spec fn spacing_for_tier(p: GeometryLayoutPolicy, tier: u32) -> Result<
    GeometrySpacing,
    Seq<char>,
> {
    match grown(p.initial_room_margin, p.room_margin_growth, tier) {
        None => Err("geometry layout policy room margin overflowed"@),
        Some(room_margin) => match grown(p.initial_column_gap, p.column_gap_growth, tier) {
            None => Err("geometry layout policy column gap overflowed"@),
            Some(column_gap) => match grown(p.initial_row_gap, p.row_gap_growth, tier) {
                None => Err("geometry layout policy row gap overflowed"@),
                Some(row_gap) => if room_margin > 2048 || column_gap > 2048 || row_gap > 2048 {
                    Err("geometry layout policy effective spacing exceeds 2048 units"@)
                } else {
                    Ok(GeometrySpacing { room_margin, column_gap, row_gap })
                },
            },
        },
    }
}

/// The room margin and gaps at a tier of the layout search.
pub fn geometry_spacing_for_tier(policy: &GeometryLayoutPolicy, tier: u32) -> (r: Result<
    GeometrySpacing,
    String,
>)
    ensures
        match r {
            Ok(s) => spacing_for_tier(*policy, tier) == Ok::<GeometrySpacing, Seq<char>>(s),
            Err(m) => spacing_for_tier(*policy, tier) == Err::<GeometrySpacing, Seq<char>>(m@),
        },
{
    let room_margin = match grow(policy.initial_room_margin, policy.room_margin_growth, tier) {
        Some(v) => v,
        None => return Err(String::from_str("geometry layout policy room margin overflowed")),
    };
    let column_gap = match grow(policy.initial_column_gap, policy.column_gap_growth, tier) {
        Some(v) => v,
        None => return Err(String::from_str("geometry layout policy column gap overflowed")),
    };
    let row_gap = match grow(policy.initial_row_gap, policy.row_gap_growth, tier) {
        Some(v) => v,
        None => return Err(String::from_str("geometry layout policy row gap overflowed")),
    };
    if room_margin > 2048 || column_gap > 2048 || row_gap > 2048 {
        return Err(String::from_str("geometry layout policy effective spacing exceeds 2048 units"));
    }
    Ok(GeometrySpacing { room_margin, column_gap, row_gap })
}

} // verus!
