//! The command line that launches gamescope at a resolution, with FSR
//! upscaling where a quality tier is asked for.
use vstd::prelude::*;

use crate::error::RresError;
use crate::fsr::{parse_tier, render_res, Fsr};
use crate::text::{decimal, lower_of, lowercase, str_eq, u16_to_decimal, views};

verus! {

/// Whether `mode` asks for upscaling: it is neither empty nor `native` in
/// any letter case.
pub open spec fn wants_upscaling(mode: Seq<char>) -> bool {
    mode.len() > 0 && lower_of(mode) != "native"@
}

/// The arguments that set gamescope's output resolution.
pub open spec fn output_args(res: (u16, u16)) -> Seq<Seq<char>> {
    seq!["-W"@, decimal(res.0 as nat), "-H"@, decimal(res.1 as nat)]
}

/// The arguments that turn on upscaling from the render resolution `fsr`.
pub open spec fn upscale_args(fsr: (u16, u16)) -> Seq<Seq<char>> {
    seq!["-U"@, "-w"@, decimal(fsr.0 as nat), "-h"@, decimal(fsr.1 as nat)]
}

/// The gamescope command line for binary `bin`, resolution `res` and the
/// FSR mode named `mode`.
pub open spec fn gamescope_spec(bin: Seq<char>, res: (u16, u16), mode: Seq<char>) -> Result<
    Seq<Seq<char>>,
    RresError,
> {
    if wants_upscaling(mode) {
        match parse_tier(mode) {
            Ok(tier) => Ok(
                seq![bin] + output_args(res) + upscale_args(render_res(tier, res)),
            ),
            Err(e) => Err(e),
        }
    } else {
        Ok(seq![bin] + output_args(res))
    }
}

fn push_str(args: &mut Vec<String>, s: &str)
    ensures
        views(final(args)@) == views(old(args)@).push(s@),
{
    args.push(String::from_str(s));
    assert(views(final(args)@) =~= views(old(args)@).push(s@));
}

fn push_decimal(args: &mut Vec<String>, n: u16)
    ensures
        views(final(args)@) == views(old(args)@).push(decimal(n as nat)),
{
    args.push(u16_to_decimal(n));
    assert(views(final(args)@) =~= views(old(args)@).push(decimal(n as nat)));
}

/// Builds the gamescope command line: the binary `bin`, the output
/// resolution `res`, and, unless `fsr_mode` is empty or `native`, FSR
/// upscaling from the render resolution of the tier it names.
pub fn gamescope(bin: String, res: (u16, u16), fsr_mode: &str) -> (r: Result<
    Vec<String>,
    RresError,
>)
    ensures
        match gamescope_spec(bin@, res, fsr_mode@) {
            Ok(args) => r matches Ok(v) && views(v@) == args,
            Err(e) => r == Err::<Vec<String>, RresError>(e),
        },
{
    let lower = lowercase(fsr_mode);
    let upscale = fsr_mode.unicode_len() > 0 && !str_eq(lower.as_str(), "native");
    let mut tier: Option<Fsr> = None;
    if upscale {
        match Fsr::from_lowercase(lower.as_str()) {
            Ok(t) => {
                tier = Some(t);
            },
            Err(e) => {
                return Err(e);
            },
        }
    }
    let ghost bin_view = bin@;
    let mut args: Vec<String> = Vec::new();
    args.push(bin);
    assert(views(args@) =~= seq![bin_view]);
    push_str(&mut args, "-W");
    push_decimal(&mut args, res.0);
    push_str(&mut args, "-H");
    push_decimal(&mut args, res.1);
    assert(views(args@) =~= seq![bin_view] + output_args(res));
    if let Some(t) = tier {
        let fsr_res = t.generate(res);
        push_str(&mut args, "-U");
        push_str(&mut args, "-w");
        push_decimal(&mut args, fsr_res.0);
        push_str(&mut args, "-h");
        push_decimal(&mut args, fsr_res.1);
        assert(views(args@) =~= seq![bin_view] + output_args(res) + upscale_args(fsr_res));
    }
    Ok(args)
}

} // verus!
