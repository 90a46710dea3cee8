//! The bookkeeping of the zoned Monte Carlo driver: the run's preconditions,
//! how many workers realize the draws, how the draws are split among them so
//! that recombining the shards in order gives back every draw once in draw
//! order, which per-zone override applies to a zone, and how a zone's
//! property level is set each draw. The sampling and the volumes are the
//! caller's.

use vstd::prelude::*;
use vstd::arithmetic::div_mod::lemma_fundamental_div_mod;
use vstd::arithmetic::mul::lemma_mul_inequality;
use crate::error::{is_invalid_input, SrsError};
use crate::order::string_views;
use std::ops::Range;

verus! {

/// The refusal of a whole-model run on a multi-zone model.
pub open spec fn zoned_whole_run_reason() -> Seq<char> {
    "this is a multi-zone stack model — use zoned_uncertainty() for per-zone + total P-curves (whole-model uncertainty() would mix contacts across zones)"@
}

/// The refusal of a zoned run on a single-framework model.
pub open spec fn unzoned_zoned_run_reason() -> Seq<char> {
    "zoned_uncertainty() needs a multi-zone stack model — use uncertainty() for a single-framework model"@
}

/// Whether a whole-model run accepts the model and draw count.
pub open spec fn uncertainty_accepts(zoned: bool, n: nat) -> bool {
    !zoned && n >= 1
}

/// Whether a zoned run accepts the model and draw count.
pub open spec fn zoned_accepts(zoned: bool, n: nat, has_stack: bool) -> bool {
    zoned && n >= 1 && has_stack
}

/// A whole-model Monte Carlo run (`model.uncertainty`) needs a
/// single-framework model (a multi-zone model's contacts are per zone) and
/// at least one draw.
pub fn check_uncertainty_run(zoned: bool, n: usize) -> (r: Result<(), SrsError>)
    ensures
        r is Ok <==> uncertainty_accepts(zoned, n as nat),
        zoned ==> r is Err && is_invalid_input(r->Err_0, zoned_whole_run_reason()),
        !zoned && n == 0 ==> r is Err && is_invalid_input(r->Err_0, "uncertainty needs n >= 1"@),
{
    if zoned {
        Err(
            SrsError::InvalidInput(
                String::from_str(
                    "this is a multi-zone stack model — use zoned_uncertainty() for per-zone + total P-curves (whole-model uncertainty() would mix contacts across zones)",
                ),
            ),
        )
    } else if n == 0 {
        Err(SrsError::InvalidInput(String::from_str("uncertainty needs n >= 1")))
    } else {
        Ok(())
    }
}

/// A zoned Monte Carlo run (`model.zoned_uncertainty`) needs a multi-zone
/// model, at least one draw, and the model's stack.
pub fn check_zoned_run(zoned: bool, n: usize, has_stack: bool) -> (r: Result<(), SrsError>)
    ensures
        r is Ok <==> zoned_accepts(zoned, n as nat, has_stack),
        !zoned ==> r is Err && is_invalid_input(r->Err_0, unzoned_zoned_run_reason()),
        zoned && n == 0 ==> r is Err && is_invalid_input(
            r->Err_0,
            "zoned uncertainty needs n >= 1"@,
        ),
        zoned && n >= 1 && !has_stack ==> r is Err && is_invalid_input(
            r->Err_0,
            "zoned MC needs a stack model"@,
        ),
{
    if !zoned {
        Err(
            SrsError::InvalidInput(
                String::from_str(
                    "zoned_uncertainty() needs a multi-zone stack model — use uncertainty() for a single-framework model",
                ),
            ),
        )
    } else if n == 0 {
        Err(SrsError::InvalidInput(String::from_str("zoned uncertainty needs n >= 1")))
    } else if !has_stack {
        Err(SrsError::InvalidInput(String::from_str("zoned MC needs a stack model")))
    } else {
        Ok(())
    }
}

/// Exactly one of the two Monte Carlo runs accepts a model asked for at
/// least one draw: the whole-model run a single-framework model, the zoned
/// run a multi-zone model (which carries its stack).
pub proof fn law_one_run_per_model(zoned: bool, n: nat)
    requires
        n >= 1,
    ensures
        uncertainty_accepts(zoned, n) != zoned_accepts(zoned, n, zoned),
{
}

/// How a whole-model run feeds one prior property (porosity, net-to-gross,
/// water saturation) to the engine.
#[derive(Debug, Clone, Copy, PartialEq, Eq, Structural)]
pub enum ScalarRoute {
    /// Held at the prior, with the distribution as a level shift on the
    /// modelled cube.
    PriorWithShift,
    /// Held at the prior.
    PriorOnly,
    /// Drawn from the distribution.
    Drawn,
}

/// The route of a prior property: a modelled cube stays at its prior and
/// moves by a level shift when a distribution is given; an unmodelled one is
/// drawn from its distribution, or held at the prior without one.
pub fn scalar_route(modelled: bool, has_dist: bool) -> (r: ScalarRoute)
    ensures
        r == (if modelled {
            if has_dist {
                ScalarRoute::PriorWithShift
            } else {
                ScalarRoute::PriorOnly
            }
        } else if has_dist {
            ScalarRoute::Drawn
        } else {
            ScalarRoute::PriorOnly
        }),
{
    if modelled {
        if has_dist {
            ScalarRoute::PriorWithShift
        } else {
            ScalarRoute::PriorOnly
        }
    } else if has_dist {
        ScalarRoute::Drawn
    } else {
        ScalarRoute::PriorOnly
    }
}

/// The number of workers that realize `n` draws when `workers` are asked
/// for: `0` or `1` means serial; never more workers than draws.
pub fn effective_workers(workers: usize, n: usize) -> (w: usize)
    ensures
        w == (if workers <= 1 {
            1
        } else if workers <= n {
            workers
        } else {
            n
        }),
{
    if workers <= 1 {
        1
    } else if workers <= n {
        workers
    } else {
        n
    }
}

/// Where the `k`-th of `w` shards of `n` draws starts: each shard takes
/// `n / w` draws, and the first `n % w` shards one more.
pub open spec fn shard_start(n: nat, w: nat, k: nat) -> nat {
    k * (n / w) + (if k < n % w {
        k
    } else {
        n % w
    })
}

/// Whether draw `i` lies in the `k`-th shard.
pub open spec fn in_shard(n: nat, w: nat, k: nat, i: nat) -> bool {
    shard_start(n, w, k) <= i < shard_start(n, w, k + 1)
}

/// Whether draw `i` lies in one of the `w` shards.
pub open spec fn in_some_shard(n: nat, w: nat, i: nat) -> bool {
    exists|k: nat| k < w && #[trigger] in_shard(n, w, k, i)
}

/// Consecutive shard starts never decrease and stay within the draws.
proof fn lemma_shard_start_bounds(n: nat, w: nat, k: nat)
    requires
        w > 0,
        k <= w,
    ensures
        shard_start(n, w, k) <= n,
        k < w ==> shard_start(n, w, k + 1) == shard_start(n, w, k) + n / w + (if k < n % w {
            1nat
        } else {
            0nat
        }),
{
    let q: int = (n / w) as int;
    lemma_fundamental_div_mod(n as int, w as int);
    lemma_mul_inequality(k as int, w as int, q);
    assert((k + 1) * q == k * q + q) by (nonlinear_arith);
    assert(w * q == q * w) by (nonlinear_arith);
}

/// Split draws `0..n` into `workers` contiguous ranges of near-equal
/// length, the remainder going one each to the first ranges.
pub fn shard_ranges(n: usize, workers: usize) -> (r: Vec<Range<usize>>)
    requires
        workers > 0,
    ensures
        r@.len() == workers,
        forall|k: int|
            0 <= k < workers ==> (#[trigger] r@[k]).start == shard_start(
                n as nat,
                workers as nat,
                k as nat,
            ) && r@[k].end == shard_start(n as nat, workers as nat, (k + 1) as nat),
{
    let base = n / workers;
    let rem = n % workers;
    let mut ranges: Vec<Range<usize>> = Vec::new();
    let mut start: usize = 0;
    let mut w: usize = 0;
    while w < workers
        invariant
            w <= workers,
            base == n / workers,
            rem == n % workers,
            start == shard_start(n as nat, workers as nat, w as nat),
            ranges@.len() == w,
            forall|k: int|
                0 <= k < w ==> (#[trigger] ranges@[k]).start == shard_start(
                    n as nat,
                    workers as nat,
                    k as nat,
                ) && ranges@[k].end == shard_start(n as nat, workers as nat, (k + 1) as nat),
        decreases workers - w,
    {
        proof {
            lemma_shard_start_bounds(n as nat, workers as nat, w as nat);
            lemma_shard_start_bounds(n as nat, workers as nat, (w + 1) as nat);
        }
        let len: usize = if w < rem {
            base + 1
        } else {
            base
        };
        ranges.push(start..start + len);
        start = start + len;
        w += 1;
    }
    ranges
}

/// The shards partition the draws, in draw order: the first starts at draw
/// 0, the last ends at draw `n`, each ends where the next starts, their
/// lengths differ by at most one (the longer ones first), and every draw
/// lies in exactly one shard. Recombining the shards in order therefore gives
/// back every draw once, in draw order.
pub proof fn law_shards_partition_draws(n: nat, w: nat)
    requires
        w > 0,
    ensures
        shard_start(n, w, 0) == 0,
        shard_start(n, w, w) == n,
        forall|k: nat|
            k < w ==> shard_start(n, w, k) <= #[trigger] shard_start(n, w, k + 1)
                && shard_start(n, w, k + 1) - shard_start(n, w, k) == n / w + (if k < n % w {
                1nat
            } else {
                0nat
            }),
        forall|i: nat| i < n ==> #[trigger] in_some_shard(n, w, i),
        forall|i: nat, j: nat, k: nat|
            j < k < w && #[trigger] in_shard(n, w, j, i) ==> !#[trigger] in_shard(n, w, k, i),
{
    lemma_fundamental_div_mod(n as int, w as int);
    assert(w * (n / w) == (n / w) * w) by (nonlinear_arith);
    assert forall|k: nat| k < w implies shard_start(n, w, k) <= #[trigger] shard_start(n, w, k + 1)
        && shard_start(n, w, k + 1) - shard_start(n, w, k) == n / w + (if k < n % w {
        1nat
    } else {
        0nat
    }) by {
        lemma_shard_start_bounds(n, w, k);
    }
    assert forall|i: nat| i < n implies #[trigger] in_some_shard(n, w, i) by {
        lemma_shard_found(n, w, 0, i);
    }
    assert forall|i: nat, j: nat, k: nat|
        j < k < w && #[trigger] in_shard(n, w, j, i) implies !#[trigger] in_shard(n, w, k, i) by {
        lemma_shard_start_monotone(n, w, j + 1, k);
    }
}

/// Shard starts never decrease.
proof fn lemma_shard_start_monotone(n: nat, w: nat, a: nat, b: nat)
    requires
        w > 0,
        a <= b <= w,
    ensures
        shard_start(n, w, a) <= shard_start(n, w, b),
    decreases b - a,
{
    if a < b {
        lemma_shard_start_bounds(n, w, a);
        lemma_shard_start_monotone(n, w, a + 1, b);
    }
}

/// A draw at or after shard `k`'s start lies in some shard from `k` on.
proof fn lemma_shard_found(n: nat, w: nat, k: nat, i: nat)
    requires
        w > 0,
        k <= w,
        shard_start(n, w, k) <= i < n,
    ensures
        in_some_shard(n, w, i),
    decreases w - k,
{
    lemma_fundamental_div_mod(n as int, w as int);
    assert(w * (n / w) == (n / w) * w) by (nonlinear_arith);
    if k == w {
        assert(shard_start(n, w, w) == n);
    } else {
        lemma_shard_start_bounds(n, w, k);
        if i < shard_start(n, w, k + 1) {
            assert(in_shard(n, w, k, i));
        } else {
            lemma_shard_found(n, w, k + 1, i);
        }
    }
}

/// The override that applies to the zone `name`: the first one filed under
/// that name.
pub fn zone_override_index(override_zones: &[String], name: &str) -> (r: Option<usize>)
    ensures
        match r {
            Some(k) => k < override_zones.len() && override_zones@[k as int]@ == name@ && forall|
                j: int,
            |
                0 <= j < k ==> (#[trigger] override_zones@[j])@ != name@,
            None => !string_views(override_zones@).contains(name@),
        },
{
    let n = String::from_str(name);
    let mut i: usize = 0;
    while i < override_zones.len()
        invariant
            i <= override_zones.len(),
            n@ == name@,
            forall|j: int| 0 <= j < i ==> (#[trigger] override_zones@[j])@ != name@,
        decreases override_zones.len() - i,
    {
        if override_zones[i] == n {
            return Some(i);
        }
        i += 1;
    }
    proof {
        if string_views(override_zones@).contains(name@) {
            let k = choose|k: int|
                0 <= k < string_views(override_zones@).len() && string_views(override_zones@)[k]
                    == name@;
            assert(override_zones@[k]@ == name@);
        }
    }
    None
}

/// How one zone's level of one property is set on each draw.
#[derive(Debug, Clone, Copy, PartialEq, Eq, Structural)]
pub enum LevelMode {
    /// Left to the modelled cube or the zone's base prior.
    Untouched,
    /// The zone's base level plus the zone's own drawn shift.
    ZoneShift,
    /// The zone's base level plus the run-wide drawn shift and the zone's own
    /// drawn shift (each zero when not drawn).
    PriorLevel,
}

/// The level mode of a zone property: a modelled cube moves through the
/// whole-model level shift and takes a per-zone level only when the zone
/// asks for one; a prior-populated property takes a per-zone level whenever
/// there is any reason for it (an explicit zone prior, a run-wide shift or a
/// zone shift).
pub fn level_mode(
    modelled: bool,
    has_explicit_prior: bool,
    has_base_shift: bool,
    has_zone_shift: bool,
) -> (m: LevelMode)
    ensures
        m == (if modelled {
            if has_zone_shift {
                LevelMode::ZoneShift
            } else {
                LevelMode::Untouched
            }
        } else if has_explicit_prior || has_base_shift || has_zone_shift {
            LevelMode::PriorLevel
        } else {
            LevelMode::Untouched
        }),
{
    if modelled {
        if has_zone_shift {
            LevelMode::ZoneShift
        } else {
            LevelMode::Untouched
        }
    } else if has_explicit_prior || has_base_shift || has_zone_shift {
        LevelMode::PriorLevel
    } else {
        LevelMode::Untouched
    }
}

} // verus!
