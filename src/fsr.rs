//! FSR quality tiers and the render resolution each gives for a target
//! resolution.
use vstd::prelude::*;

use crate::error::RresError;
use crate::text::{lower_of, lowercase, str_eq};

verus! {

/// An FSR upscaling quality tier.
#[derive(Clone, Copy, Debug, PartialEq, Eq, Structural)]
pub enum Fsr {
    Ultra,
    Quality,
    Balanced,
    Performance,
}

/// The tier that a lower-case name denotes.
pub open spec fn tier_of(s: Seq<char>) -> Result<Fsr, RresError> {
    if s == "ultra"@ {
        Ok(Fsr::Ultra)
    } else if s == "quality"@ {
        Ok(Fsr::Quality)
    } else if s == "balanced"@ {
        Ok(Fsr::Balanced)
    } else if s == "performance"@ {
        Ok(Fsr::Performance)
    } else {
        Err(RresError::Parse)
    }
}

/// The tier that a name denotes, in any letter case.
pub open spec fn parse_tier(s: Seq<char>) -> Result<Fsr, RresError> {
    tier_of(lower_of(s))
}

/// The calibrated render resolution of the tabulated target resolutions.
pub open spec fn table_res(tier: Fsr, target: (u16, u16)) -> Option<(u16, u16)> {
    if target == (1920u16, 1080u16) {
        Some(
            match tier {
                Fsr::Ultra => (1477u16, 831u16),
                Fsr::Quality => (1280u16, 720u16),
                Fsr::Balanced => (1129u16, 635u16),
                Fsr::Performance => (960u16, 540u16),
            },
        )
    } else if target == (2560u16, 1440u16) {
        Some(
            match tier {
                Fsr::Ultra => (1970u16, 1108u16),
                Fsr::Quality => (1706u16, 960u16),
                Fsr::Balanced => (1506u16, 847u16),
                Fsr::Performance => (1280u16, 720u16),
            },
        )
    } else if target == (3440u16, 1440u16) {
        Some(
            match tier {
                Fsr::Ultra => (2646u16, 1108u16),
                Fsr::Quality => (2293u16, 960u16),
                Fsr::Balanced => (2024u16, 847u16),
                Fsr::Performance => (1720u16, 720u16),
            },
        )
    } else if target == (3840u16, 2160u16) {
        Some(
            match tier {
                Fsr::Ultra => (2954u16, 1662u16),
                Fsr::Quality => (2560u16, 1440u16),
                Fsr::Balanced => (2259u16, 1270u16),
                Fsr::Performance => (1920u16, 1080u16),
            },
        )
    } else {
        None
    }
}

/// `floor(x / factor)` for the tier's scale factor: 1.3 for `Ultra`, 1.5 for
/// `Quality`, 1.7 for `Balanced` and 2.0 for `Performance`.
pub open spec fn scaled(tier: Fsr, x: int) -> int {
    match tier {
        Fsr::Ultra => x * 10 / 13,
        Fsr::Quality => x * 10 / 15,
        Fsr::Balanced => x * 10 / 17,
        Fsr::Performance => x * 10 / 20,
    }
}

/// The render resolution of `target` at `tier`: the table's entry where there
/// is one, else each axis divided by the tier's factor and rounded down.
pub open spec fn render_res(tier: Fsr, target: (u16, u16)) -> (u16, u16) {
    match table_res(tier, target) {
        Some(r) => r,
        None => (scaled(tier, target.0 as int) as u16, scaled(tier, target.1 as int) as u16),
    }
}

/// Derivation is a function of its inputs: two derivations from the same
/// tier and target give the same render resolution.
pub proof fn lemma_render_res_deterministic(
    tier: Fsr,
    target: (u16, u16),
    r1: (u16, u16),
    r2: (u16, u16),
)
    requires
        r1 == render_res(tier, target),
        r2 == render_res(tier, target),
    ensures
        r1 == r2,
{
}

/// Tier names are read regardless of letter case: two names with the same
/// lower-case form denote the same tier, or both fail to parse.
pub proof fn lemma_parse_case_insensitive(a: Seq<char>, b: Seq<char>)
    requires
        lower_of(a) == lower_of(b),
    ensures
        parse_tier(a) == parse_tier(b),
{
}

/// Parsing is total over the four tier names: it succeeds exactly on a name
/// whose lower-case form is one of them, and fails with `Parse` otherwise.
pub proof fn lemma_parse_total(s: Seq<char>)
    ensures
        parse_tier(s) is Ok <==> (lower_of(s) == "ultra"@ || lower_of(s) == "quality"@
            || lower_of(s) == "balanced"@ || lower_of(s) == "performance"@),
        parse_tier(s) is Err ==> parse_tier(s) == Err::<Fsr, RresError>(RresError::Parse),
{
}

fn scale_axis(tier: Fsr, x: u16) -> (r: u16)
    ensures
        r as int == scaled(tier, x as int),
{
    let x = x as u32;
    let r = match tier {
        Fsr::Ultra => x * 10 / 13,
        Fsr::Quality => x * 10 / 15,
        Fsr::Balanced => x * 10 / 17,
        Fsr::Performance => x * 10 / 20,
    };
    assert(r <= x) by (nonlinear_arith)
        requires
            r == x * 10 / 13 || r == x * 10 / 15 || r == x * 10 / 17 || r == x * 10 / 20,
            x <= 65535,
    ;
    r as u16
}

impl Fsr {
    /// The tier that a lower-case name denotes: `ultra`, `quality`,
    /// `balanced` or `performance`.
    pub fn from_lowercase(name: &str) -> (r: Result<Fsr, RresError>)
        ensures
            r == tier_of(name@),
    {
        if str_eq(name, "ultra") {
            Ok(Fsr::Ultra)
        } else if str_eq(name, "quality") {
            Ok(Fsr::Quality)
        } else if str_eq(name, "balanced") {
            Ok(Fsr::Balanced)
        } else if str_eq(name, "performance") {
            Ok(Fsr::Performance)
        } else {
            Err(RresError::Parse)
        }
    }

    /// The tier that a name denotes, in any letter case.
    pub fn parse(value: &str) -> (r: Result<Fsr, RresError>)
        ensures
            r == parse_tier(value@),
    {
        let lower = lowercase(value);
        Fsr::from_lowercase(lower.as_str())
    }

    /// The render resolution of `target_res` at this tier.
    pub fn generate(&self, target_res: (u16, u16)) -> (r: (u16, u16))
        ensures
            r == render_res(*self, target_res),
    {
        let (w, h) = target_res;
        if w == 1920 && h == 1080 {
            match self {
                Fsr::Ultra => (1477, 831),
                Fsr::Quality => (1280, 720),
                Fsr::Balanced => (1129, 635),
                Fsr::Performance => (960, 540),
            }
        } else if w == 2560 && h == 1440 {
            match self {
                Fsr::Ultra => (1970, 1108),
                Fsr::Quality => (1706, 960),
                Fsr::Balanced => (1506, 847),
                Fsr::Performance => (1280, 720),
            }
        } else if w == 3440 && h == 1440 {
            match self {
                Fsr::Ultra => (2646, 1108),
                Fsr::Quality => (2293, 960),
                Fsr::Balanced => (2024, 847),
                Fsr::Performance => (1720, 720),
            }
        } else if w == 3840 && h == 2160 {
            match self {
                Fsr::Ultra => (2954, 1662),
                Fsr::Quality => (2560, 1440),
                Fsr::Balanced => (2259, 1270),
                Fsr::Performance => (1920, 1080),
            }
        } else {
            (scale_axis(*self, w), scale_axis(*self, h))
        }
    }
}

impl TryFrom<&str> for Fsr {
    type Error = RresError;

    fn try_from(value: &str) -> (r: Result<Fsr, RresError>) {
        Fsr::parse(value)
    }
}

impl vstd::std_specs::convert::TryFromSpecImpl<&str> for Fsr {
    open spec fn obeys_try_from_spec() -> bool {
        true
    }

    open spec fn try_from_spec(value: &str) -> Result<Fsr, RresError> {
        parse_tier(value@)
    }
}

} // verus!
