//! Region resolution: the pure mapping from a primary-axis coordinate to
//! one of the six ordered track regions, each with its radius constraint.

use vstd::prelude::*;
use crate::constants::{MARKER_AMPULLA, MARKER_CERVIX, MARKER_TUBE, MARKER_UTERUS, MARKER_UTJ};
use crate::messages::RegionId;
use crate::movement::Vec3Milli;

verus! {

/// Region of a primary-axis coordinate, clamped to non-negative: the
/// half-open band `[marker[i], marker[i + 1])` that contains it, or the
/// terminal region for anything at or past the last marker.
pub open spec fn region_for_x(x: int) -> RegionId {
    let c = if x < 0 {
        0int
    } else {
        x
    };
    if c < MARKER_CERVIX {
        RegionId::Vagina
    } else if c < MARKER_UTERUS {
        RegionId::Cervix
    } else if c < MARKER_UTJ {
        RegionId::Uterus
    } else if c < MARKER_TUBE {
        RegionId::Utj
    } else if c < MARKER_AMPULLA {
        RegionId::Tube
    } else {
        RegionId::Ampulla
    }
}

/// Position of a region in track order, first region zero.
pub open spec fn region_index(r: RegionId) -> int {
    match r {
        RegionId::Vagina => 0,
        RegionId::Cervix => 1,
        RegionId::Uterus => 2,
        RegionId::Utj => 3,
        RegionId::Tube => 4,
        RegionId::Ampulla => 5,
    }
}

/// Resolve the region a position lies in from its primary-axis coordinate.
pub fn region_for_position(position: Vec3Milli) -> (r: RegionId)
    ensures
        r == region_for_x(position.x as int),
{
    let x: i64 = if position.x < 0 {
        0
    } else {
        position.x
    };
    if x < MARKER_CERVIX {
        RegionId::Vagina
    } else if x < MARKER_UTERUS {
        RegionId::Cervix
    } else if x < MARKER_UTJ {
        RegionId::Uterus
    } else if x < MARKER_TUBE {
        RegionId::Utj
    } else if x < MARKER_AMPULLA {
        RegionId::Tube
    } else {
        RegionId::Ampulla
    }
}

/// Region resolution is monotonic along the track: a coordinate never maps
/// to an earlier region than any coordinate below it.
pub proof fn lemma_region_monotonic(x1: int, x2: int)
    requires
        x1 <= x2,
    ensures
        region_index(region_for_x(x1)) <= region_index(region_for_x(x2)),
{
}

/// Radius constraint of a region, in milliunits.
pub open spec fn tube_radius_spec(region: RegionId) -> int {
    match region {
        RegionId::Vagina => 160_000,
        RegionId::Cervix => 120_000,
        RegionId::Uterus => 150_000,
        RegionId::Utj => 90_000,
        RegionId::Tube => 110_000,
        RegionId::Ampulla => 140_000,
    }
}

/// Radius constraint of a region, in milliunits.
pub fn tube_radius(region: RegionId) -> (r: i64)
    ensures
        r == tube_radius_spec(region),
        0 < r <= 160_000,
{
    match region {
        RegionId::Vagina => 160_000,
        RegionId::Cervix => 120_000,
        RegionId::Uterus => 150_000,
        RegionId::Utj => 90_000,
        RegionId::Tube => 110_000,
        RegionId::Ampulla => 140_000,
    }
}

/// Display copy for one region.
#[derive(Debug, Clone, Copy)]
pub struct RegionTooltip {
    pub id: RegionId,
    pub title: &'static str,
    pub note: &'static str,
}

/// The six regions' display copy, in track order.
pub fn tooltips() -> (r: Vec<RegionTooltip>)
    ensures
        r@.len() == 6,
        forall|i: int| 0 <= i < 6 ==> #[trigger] region_index(r@[i].id) == i,
        r@[0].title@ == "Vagina"@,
        r@[1].title@ == "Cervix"@,
        r@[2].title@ == "Uterus"@,
        r@[3].title@ == "UTJ"@,
        r@[4].title@ == "Tube"@,
        r@[5].title@ == "Ampulla"@,
{
    let mut v: Vec<RegionTooltip> = Vec::new();
    v.push(RegionTooltip {
        id: RegionId::Vagina,
        title: "Vagina",
        note: "Acidic environment; strong swimmers push through.",
    });
    v.push(RegionTooltip {
        id: RegionId::Cervix,
        title: "Cervix",
        note: "Dense mucus strands; alignment matters.",
    });
    v.push(RegionTooltip {
        id: RegionId::Uterus,
        title: "Uterus",
        note: "Uterine contractions can help or hinder.",
    });
    v.push(RegionTooltip {
        id: RegionId::Utj,
        title: "UTJ",
        note: "Narrow gate; many sperm fail to pass.",
    });
    v.push(RegionTooltip {
        id: RegionId::Tube,
        title: "Tube",
        note: "Fluid flow guides swimmers toward the ampulla.",
    });
    v.push(RegionTooltip {
        id: RegionId::Ampulla,
        title: "Ampulla",
        note: "Fertilization awaits the fastest explorers.",
    });
    v
}

} // verus!
