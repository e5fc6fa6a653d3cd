//! The fit and throughput estimator.
//!
//! A model is its parameter count. Its weights take half a byte, one byte or
//! two bytes per parameter, depending on the quantization. They fit when they
//! are no larger than the share of the memory that is left after a fixed
//! reserve. Decoding reads every weight once per token, so its speed is the
//! usable bandwidth over the weight size; prefill spends two floating-point
//! operations per parameter and token, so its speed is the usable compute over
//! twice the parameter count. Several accelerators count as one with their
//! memory, bandwidth and compute added up.
use vstd::prelude::*;
use vstd::arithmetic::div_mod::lemma_div_multiples_vanish_quotient;
use vstd::arithmetic::div_mod::lemma_div_is_ordered;
use crate::hardware::{GpuSpec, Runtime};

verus! {

/// Share of the memory reserved for the runtime, activations and caches, in percent.
pub const VRAM_OVERHEAD_PCT: u64 = 15;

/// Quantization level for weight storage, from the smallest footprint to the largest.
#[derive(Debug, Clone, Copy, PartialEq, Eq, Structural)]
pub enum Quant {
    Q4,
    Q8,
    FP16,
}

impl Quant {
    /// Storage cost of one parameter, counted in half bytes.
    pub open spec fn half_bytes(self) -> int {
        match self {
            Quant::Q4 => 1,
            Quant::Q8 => 2,
            Quant::FP16 => 4,
        }
    }

    /// Position of the level in the order in which the levels are tried:
    /// from the smallest footprint to the largest.
    pub open spec fn rank(self) -> int {
        match self {
            Quant::Q4 => 0,
            Quant::Q8 => 1,
            Quant::FP16 => 2,
        }
    }

    /// The display name of the level.
    pub open spec fn name(self) -> Seq<char> {
        match self {
            Quant::Q4 => "Q4"@,
            Quant::Q8 => "Q8"@,
            Quant::FP16 => "FP16"@,
        }
    }

    /// Bytes per parameter, as a fraction: numerator and denominator.
    pub open spec fn bytes_ratio(self) -> (u64, u64) {
        match self {
            Quant::Q4 => (1u64, 2u64),
            Quant::Q8 => (1u64, 1u64),
            Quant::FP16 => (2u64, 1u64),
        }
    }

    /// Bytes per parameter, as a fraction: numerator and denominator.
    pub fn bytes_per_param(self) -> (r: (u64, u64))
        ensures
            r == self.bytes_ratio(),
            r.1 > 0,
            2 * r.0 == self.half_bytes() * r.1,
    {
        match self {
            Quant::Q4 => (1, 2),
            Quant::Q8 => (1, 1),
            Quant::FP16 => (2, 1),
        }
    }

    /// Short display name of the level.
    pub fn label(self) -> (r: &'static str)
        ensures
            r@ == self.name(),
    {
        match self {
            Quant::Q4 => "Q4",
            Quant::Q8 => "Q8",
            Quant::FP16 => "FP16",
        }
    }
}

/// Whether the model fits in the memory.
#[derive(Debug, Clone, Copy, PartialEq, Eq, Structural)]
pub enum Fit {
    /// The weights fit within the usable capacity.
    Full,
    /// The weights are too large.
    NoFit,
}

/// A speed, kept exactly: `scale * num / den` thousandths of a token per
/// second. A speed with a denominator of zero is unbounded.
#[derive(Debug, Clone, Copy, PartialEq, Eq, Structural)]
pub struct Rate {
    /// What one unit of the quotient is worth, in thousandths of a token per
    /// second.
    pub scale: u32,
    /// The work that is done in a second: bandwidth or compute, times the
    /// efficiency, times the number of accelerators.
    pub num: u128,
    /// The work that a token takes: the weights in half bytes, or the
    /// parameters.
    pub den: u128,
}

impl Rate {
    /// The numerator of the speed in thousandths of a token per second.
    pub open spec fn top(self) -> int {
        self.scale * self.num
    }

    /// The speed is strictly higher than another: the fractions are
    /// compared exactly, by their cross products.
    pub open spec fn exceeds(self, other: Rate) -> bool {
        self.den > 0 && other.den > 0 && self.top() * other.den > other.top() * self.den
    }

    /// The speed in thousandths of a token per second, rounded down and
    /// capped.
    pub open spec fn floor(self) -> int {
        sat_div(self.top(), self.den as int)
    }
}

/// Performance estimate for a model on a device at a given quantization.
#[derive(Debug)]
pub struct Estimate {
    /// Catalog key of the device; the estimator leaves it empty.
    pub gpu_key: String,
    /// Display name of the device.
    pub gpu_name: String,
    /// Quantization that the figures are for.
    pub quant: Quant,
    /// Size of the weights in megabytes, rounded down.
    pub weight_mb: u64,
    /// Whether the weights fit.
    pub fit: Fit,
    /// Decode speed in thousandths of a token per second, rounded down.
    pub decode_mtok_s: Option<u64>,
    /// Prefill speed in thousandths of a token per second, rounded down.
    pub prefill_mtok_s: Option<u64>,
    /// Decode speed, exactly.
    pub decode_exact: Option<Rate>,
    /// Prefill speed, exactly.
    pub prefill_exact: Option<Rate>,
}

/// What an [`Estimate`] states.
pub struct EstimateView {
    pub gpu_key: Seq<char>,
    pub gpu_name: Seq<char>,
    pub quant: Quant,
    pub weight_mb: int,
    pub fit: Fit,
    pub decode_mtok_s: Option<int>,
    pub prefill_mtok_s: Option<int>,
    pub decode_exact: Option<Rate>,
    pub prefill_exact: Option<Rate>,
}

impl View for Estimate {
    type V = EstimateView;

    open spec fn view(&self) -> EstimateView {
        EstimateView {
            gpu_key: self.gpu_key@,
            gpu_name: self.gpu_name@,
            quant: self.quant,
            weight_mb: self.weight_mb as int,
            fit: self.fit,
            decode_mtok_s: match self.decode_mtok_s {
                Some(d) => Some(d as int),
                None => None,
            },
            prefill_mtok_s: match self.prefill_mtok_s {
                Some(p) => Some(p as int),
                None => None,
            },
            decode_exact: self.decode_exact,
            prefill_exact: self.prefill_exact,
        }
    }
}

impl Clone for Estimate {
    fn clone(&self) -> (r: Self)
        ensures
            r == *self,
    {
        Estimate {
            gpu_key: self.gpu_key.clone(),
            gpu_name: self.gpu_name.clone(),
            quant: self.quant,
            weight_mb: self.weight_mb,
            fit: self.fit,
            decode_mtok_s: self.decode_mtok_s,
            prefill_mtok_s: self.prefill_mtok_s,
            decode_exact: self.decode_exact,
            prefill_exact: self.prefill_exact,
        }
    }
}

/// The quotient of `num` by `den`, rounded down and capped at the largest
/// value that a reported figure can hold. A quotient by zero counts as
/// unbounded and is reported as the cap.
pub open spec fn sat_div(num: int, den: int) -> int {
    if den <= 0 || num / den > u64::MAX {
        u64::MAX as int
    } else {
        num / den
    }
}

/// Size of the weights, in half bytes.
pub open spec fn weight_half_bytes(params: u64, q: Quant) -> int {
    params * q.half_bytes()
}

/// Size of the weights in megabytes, rounded down.
pub open spec fn weight_mb_of(params: u64, q: Quant) -> int {
    weight_half_bytes(params, q) / 2_000_000
}

/// A hundred times the usable capacity of `n` accelerators, in bytes. The
/// usable capacity is the capacity, `vram_mb * 10^6 * n` bytes, less the
/// reserve of [`VRAM_OVERHEAD_PCT`] percent.
pub open spec fn usable_bytes_x100(gpu: GpuSpec, n: u32) -> int {
    gpu.vram_mb * 1_000_000 * n * (100 - VRAM_OVERHEAD_PCT)
}

/// The weights are no larger than the usable capacity. Both sides are
/// taken a hundredfold: the weights are half as many bytes as half bytes.
pub open spec fn fits(gpu: GpuSpec, params: u64, q: Quant, n: u32) -> bool {
    weight_half_bytes(params, q) * 50 <= usable_bytes_x100(gpu, n)
}

/// The numerator of the decode speed: bandwidth times efficiency times the
/// number of accelerators, scaled so that its quotient by the weight size in
/// half bytes is in thousandths of a token per second. The bandwidth is
/// `mem_bw_mb_s * 10^6` bytes per second, of which `eff / 10^6` is reached,
/// and a token takes one read of the weights, `half_bytes / 2` bytes: that
/// makes `2 * mem_bw_mb_s * eff * n / half_bytes` tokens per second.
pub open spec fn decode_numerator(gpu: GpuSpec, rt: Runtime, n: u32) -> int {
    2000 * gpu.mem_bw_mb_s * gpu.decode_eff_of(rt) * n
}

/// The numerator of the prefill speed: compute times efficiency times the
/// number of accelerators, scaled so that its quotient by the parameter count
/// is in thousandths of a token per second. The compute is
/// `fp16_gflops * 10^9` operations per second, of which `eff / 10^6` is
/// reached, and a token takes two operations per parameter: that makes
/// `500 * fp16_gflops * eff * n / params` tokens per second.
pub open spec fn prefill_numerator(gpu: GpuSpec, rt: Runtime, n: u32) -> int {
    500_000 * gpu.fp16_gflops * gpu.prefill_eff_of(rt) * n
}

/// Decode speed in thousandths of a token per second.
pub open spec fn decode_rate(gpu: GpuSpec, params: u64, q: Quant, rt: Runtime, n: u32) -> int {
    sat_div(decode_numerator(gpu, rt, n), weight_half_bytes(params, q))
}

/// Prefill speed in thousandths of a token per second.
pub open spec fn prefill_rate(gpu: GpuSpec, params: u64, rt: Runtime, n: u32) -> int {
    sat_div(prefill_numerator(gpu, rt, n), params as int)
}

/// Decode speed, exactly: the bandwidth that is reached on `n`
/// accelerators over the weights in half bytes, a unit of which is two
/// tokens per second.
pub open spec fn decode_exact_of(gpu: GpuSpec, params: u64, q: Quant, rt: Runtime, n: u32) -> Rate {
    Rate {
        scale: 2000,
        num: (gpu.mem_bw_mb_s * gpu.decode_eff_of(rt) * n) as u128,
        den: weight_half_bytes(params, q) as u128,
    }
}

/// Prefill speed, exactly: the compute that is reached on `n` accelerators
/// over the parameters, a unit of which is five hundred tokens per second.
pub open spec fn prefill_exact_of(gpu: GpuSpec, params: u64, rt: Runtime, n: u32) -> Rate {
    Rate {
        scale: 500_000,
        num: (gpu.fp16_gflops * gpu.prefill_eff_of(rt) * n) as u128,
        den: params as u128,
    }
}

/// The fit class of a model on `n` accelerators.
pub open spec fn fit_of(gpu: GpuSpec, params: u64, q: Quant, n: u32) -> Fit {
    if fits(gpu, params, q, n) {
        Fit::Full
    } else {
        Fit::NoFit
    }
}

/// The estimate for a model of `params` parameters at quantization `q` on
/// `n` accelerators of one kind under the runtime `rt`.
pub open spec fn estimate_of(gpu: GpuSpec, params: u64, q: Quant, rt: Runtime, n: u32)
    -> EstimateView {
    EstimateView {
        gpu_key: Seq::empty(),
        gpu_name: gpu.name@,
        quant: q,
        weight_mb: weight_mb_of(params, q),
        fit: fit_of(gpu, params, q, n),
        decode_mtok_s: if fits(gpu, params, q, n) {
            Some(decode_rate(gpu, params, q, rt, n))
        } else {
            None
        },
        prefill_mtok_s: if fits(gpu, params, q, n) {
            Some(prefill_rate(gpu, params, rt, n))
        } else {
            None
        },
        decode_exact: if fits(gpu, params, q, n) {
            Some(decode_exact_of(gpu, params, q, rt, n))
        } else {
            None
        },
        prefill_exact: if fits(gpu, params, q, n) {
            Some(prefill_exact_of(gpu, params, rt, n))
        } else {
            None
        },
    }
}

/// The first level, in the order in which they are tried, at which the
/// weights fit on `n` accelerators.
pub open spec fn best_level(gpu: GpuSpec, params: u64, n: u32) -> Option<Quant> {
    if fits(gpu, params, Quant::Q4, n) {
        Some(Quant::Q4)
    } else if fits(gpu, params, Quant::Q8, n) {
        Some(Quant::Q8)
    } else if fits(gpu, params, Quant::FP16, n) {
        Some(Quant::FP16)
    } else {
        None
    }
}

/// The quotient of `k * a * e * n` by `den`, capped.
fn scaled_rate(k: u64, a: u64, e: u32, n: u32, den: u64) -> (r: u64)
    ensures
        r == sat_div(k * a * e * n, den as int),
{
    if den == 0 {
        return u64::MAX;
    }
    assert(k * a <= u128::MAX && k * a >= 0) by (nonlinear_arith)
        requires
            0 <= k <= u64::MAX,
            0 <= a <= u64::MAX,
    ;
    assert(e * n <= u64::MAX && e * n >= 0) by (nonlinear_arith)
        requires
            0 <= e <= u32::MAX,
            0 <= n <= u32::MAX,
    ;
    let x: u128 = (k as u128) * (a as u128);
    let y: u128 = (e as u128) * (n as u128);
    assert(k * a * e * n == x * y) by (nonlinear_arith)
        requires
            x == k * a,
            y == e * n,
    ;
    match x.checked_mul(y) {
        Some(p) => {
            let q: u128 = p / (den as u128);
            if q > u64::MAX as u128 {
                u64::MAX
            } else {
                q as u64
            }
        },
        None => {
            proof {
                let p: int = x * y;
                let d: int = den as int;
                let big: int = 0x1_0000_0000_0000_0000;
                assert(big * d <= p) by (nonlinear_arith)
                    requires
                        0 < d < big,
                        p >= big * big,
                ;
                lemma_div_is_ordered(big * d, p, d);
                assert((big * d) / d == big) by (nonlinear_arith)
                    requires
                        0 < d,
                ;
            }
            u64::MAX
        },
    }
}

/// The work that is done in a second: a peak figure, times the efficiency,
/// times the number of accelerators.
fn work(peak: u64, eff: u32, n: u32) -> (r: u128)
    ensures
        r == peak * eff * n,
{
    assert(0 <= eff * n <= 0xffff_ffff * 0xffff_ffff) by (nonlinear_arith)
        requires
            0 <= eff <= 0xffff_ffff,
            0 <= n <= 0xffff_ffff,
    ;
    let share: u128 = (eff as u128) * (n as u128);
    assert(0 <= peak * share <= 0xffff_ffff_ffff_ffff * 0xffff_fffe_0000_0001) by (nonlinear_arith)
        requires
            0 <= peak <= 0xffff_ffff_ffff_ffff,
            0 <= share <= 0xffff_fffe_0000_0001,
    ;
    assert(peak * eff * n == peak * share) by (nonlinear_arith)
        requires
            share == eff * n,
    ;
    (peak as u128) * share
}

/// How many thousandths of the decode numerator's scale are left once the
/// half bytes per parameter are divided out.
fn decode_scale(q: Quant) -> (k: u64)
    ensures
        k * q.half_bytes() == 2000,
{
    match q {
        Quant::Q4 => 2000,
        Quant::Q8 => 1000,
        Quant::FP16 => 500,
    }
}

/// Whether the weights fit on `n` accelerators.
fn weights_fit(gpu: &GpuSpec, params: u64, q: Quant, n: u32) -> (r: bool)
    ensures
        r == fits(*gpu, params, q, n),
{
    let halves: u128 = match q {
        Quant::Q4 => params as u128,
        Quant::Q8 => (params as u128) * 2,
        Quant::FP16 => (params as u128) * 4,
    };
    assert(halves == weight_half_bytes(params, q));
    let weight: u128 = halves * 50;
    assert(0 <= gpu.vram_mb * 1_000_000 * n <= 0xffff_ffff_ffff_ffff * 1_000_000 * 0xffff_ffff)
        by (nonlinear_arith)
        requires
            0 <= gpu.vram_mb <= 0xffff_ffff_ffff_ffff,
            0 <= n <= 0xffff_ffff,
    ;
    assert(gpu.vram_mb * 1_000_000 * n * 85 <= 0xffff_ffff_ffff_ffff * 1_000_000 * 0xffff_ffff
        * 85) by (nonlinear_arith)
        requires
            0 <= gpu.vram_mb <= 0xffff_ffff_ffff_ffff,
            0 <= n <= 0xffff_ffff,
    ;
    let usable: u128 = (gpu.vram_mb as u128) * 1_000_000 * (n as u128) * ((100
        - VRAM_OVERHEAD_PCT) as u128);
    weight <= usable
}

/// The estimate for `n` accelerators of one kind.
fn estimate_on(gpu: &GpuSpec, params: u64, quant: Quant, runtime: Runtime, n: u32) -> (est:
    Estimate)
    ensures
        est@ == estimate_of(*gpu, params, quant, runtime, n),
{
    let halves: u128 = match quant {
        Quant::Q4 => params as u128,
        Quant::Q8 => (params as u128) * 2,
        Quant::FP16 => (params as u128) * 4,
    };
    assert(halves == weight_half_bytes(params, quant));
    let weight_mb: u64 = (halves / 2_000_000) as u64;
    let fit = weights_fit(gpu, params, quant, n);
    let decode_mtok_s = if fit {
        let k = decode_scale(quant);
        let d = scaled_rate(k, gpu.mem_bw_mb_s, gpu.decode_eff(runtime), n, params);
        proof {
            lemma_decode_scale(
                k as int,
                quant.half_bytes(),
                gpu.mem_bw_mb_s * gpu.decode_eff_of(runtime) * n,
                params as int,
            );
            assert(k * gpu.mem_bw_mb_s * gpu.decode_eff_of(runtime) * n == k * (gpu.mem_bw_mb_s
                * gpu.decode_eff_of(runtime) * n)) by (nonlinear_arith);
            assert(2000 * gpu.mem_bw_mb_s * gpu.decode_eff_of(runtime) * n == 2000 * (
            gpu.mem_bw_mb_s * gpu.decode_eff_of(runtime) * n)) by (nonlinear_arith);
        }
        Some(d)
    } else {
        None
    };
    let prefill_mtok_s = if fit {
        Some(scaled_rate(500_000, gpu.fp16_gflops, gpu.prefill_eff(runtime), n, params))
    } else {
        None
    };
    let decode_exact = if fit {
        Some(
            Rate { scale: 2000, num: work(gpu.mem_bw_mb_s, gpu.decode_eff(runtime), n), den: halves },
        )
    } else {
        None
    };
    let prefill_exact = if fit {
        Some(
            Rate {
                scale: 500_000,
                num: work(gpu.fp16_gflops, gpu.prefill_eff(runtime), n),
                den: params as u128,
            },
        )
    } else {
        None
    };
    Estimate {
        gpu_key: String::new(),
        gpu_name: gpu.name.clone(),
        quant,
        weight_mb,
        fit: if fit {
            Fit::Full
        } else {
            Fit::NoFit
        },
        decode_mtok_s,
        prefill_mtok_s,
        decode_exact,
        prefill_exact,
    }
}

/// Dividing `2000 * x` by the weight in half bytes is dividing `k * x` by the
/// parameter count, where `k` times the half bytes per parameter is 2000.
proof fn lemma_decode_scale(k: int, hb: int, x: int, params: int)
    requires
        k * hb == 2000,
        0 < hb,
        0 <= k,
        0 <= x,
        0 <= params,
    ensures
        sat_div(2000 * x, params * hb) == sat_div(k * x, params),
{
    if params > 0 {
        assert(2000 * x == hb * (k * x)) by (nonlinear_arith)
            requires
                k * hb == 2000,
        ;
        assert(params * hb == hb * params) by (nonlinear_arith);
        assert(0 <= k * x) by (nonlinear_arith)
            requires
                0 <= k,
                0 <= x,
        ;
        lemma_div_multiples_vanish_quotient(hb, k * x, params);
    } else {
        assert(params * hb == 0) by (nonlinear_arith)
            requires
                params == 0,
        ;
    }
}

/// Estimates the performance of a model of `params` parameters on one device.
pub fn estimate(gpu: &GpuSpec, params: u64, quant: Quant, runtime: Runtime) -> (est: Estimate)
    ensures
        est@ == estimate_of(*gpu, params, quant, runtime, 1),
        est.fit == Fit::NoFit <==> est.decode_mtok_s is None,
        est.fit == Fit::NoFit <==> est.prefill_mtok_s is None,
{
    estimate_on(gpu, params, quant, runtime, 1)
}

/// Estimates the performance on `gpu_count` devices of one kind: memory,
/// bandwidth and compute scale with their number.
pub fn estimate_multi_gpu(
    gpu: &GpuSpec,
    params: u64,
    quant: Quant,
    runtime: Runtime,
    gpu_count: u32,
) -> (est: Estimate)
    ensures
        est@ == estimate_of(*gpu, params, quant, runtime, gpu_count),
        est.fit == Fit::NoFit <==> est.decode_mtok_s is None,
        est.fit == Fit::NoFit <==> est.prefill_mtok_s is None,
{
    estimate_on(gpu, params, quant, runtime, gpu_count)
}

/// Picks the quantization for `n` accelerators: the first level that fits.
fn best_on(gpu: &GpuSpec, params: u64, runtime: Runtime, n: u32) -> (r: Option<(Quant, Estimate)>)
    ensures
        match r {
            Some((q, est)) => best_level(*gpu, params, n) == Some(q) && est@ == estimate_of(
                *gpu,
                params,
                q,
                runtime,
                n,
            ),
            None => best_level(*gpu, params, n) is None,
        },
{
    let est = estimate_on(gpu, params, Quant::Q4, runtime, n);
    if est.fit == Fit::Full {
        return Some((Quant::Q4, est));
    }
    let est = estimate_on(gpu, params, Quant::Q8, runtime, n);
    if est.fit == Fit::Full {
        return Some((Quant::Q8, est));
    }
    let est = estimate_on(gpu, params, Quant::FP16, runtime, n);
    if est.fit == Fit::Full {
        return Some((Quant::FP16, est));
    }
    None
}

/// Picks the quantization for a model on `gpu_count` devices of one kind.
/// The levels are tried from the smallest footprint to the largest, and the
/// first that fits is returned with its estimate.
pub fn best_quant_multi_gpu(gpu: &GpuSpec, params: u64, runtime: Runtime, gpu_count: u32) -> (r:
    Option<(Quant, Estimate)>)
    ensures
        r is Some <==> best_level(*gpu, params, gpu_count) is Some,
        r matches Some((q, est)) ==> {
            &&& best_level(*gpu, params, gpu_count) == Some(q)
            &&& est@ == estimate_of(*gpu, params, q, runtime, gpu_count)
            &&& est.fit == Fit::Full
            &&& forall|p: Quant|
                p.rank() < q.rank() ==> fit_of(*gpu, params, p, gpu_count) == Fit::NoFit
        },
        r is None ==> forall|p: Quant| fit_of(*gpu, params, p, gpu_count) == Fit::NoFit,
{
    proof {
        lemma_best_level(*gpu, params, gpu_count);
    }
    best_on(gpu, params, runtime, gpu_count)
}

/// Picks the quantization for a model on one device. The levels are tried
/// from the smallest footprint to the largest, and the first that fits is
/// returned with its estimate.
pub fn best_quant(gpu: &GpuSpec, params: u64, runtime: Runtime) -> (r: Option<(Quant, Estimate)>)
    ensures
        r is Some <==> best_level(*gpu, params, 1) is Some,
        r matches Some((q, est)) ==> {
            &&& best_level(*gpu, params, 1) == Some(q)
            &&& est@ == estimate_of(*gpu, params, q, runtime, 1)
            &&& est.fit == Fit::Full
            &&& forall|p: Quant| p.rank() < q.rank() ==> fit_of(*gpu, params, p, 1) == Fit::NoFit
        },
        r is None ==> forall|p: Quant| fit_of(*gpu, params, p, 1) == Fit::NoFit,
{
    proof {
        lemma_best_level(*gpu, params, 1);
    }
    best_on(gpu, params, runtime, 1)
}

/// The level that [`best_level`] names fits, and no level tried before it
/// does; where it names none, no level fits.
pub proof fn lemma_best_level(gpu: GpuSpec, params: u64, n: u32)
    ensures
        match best_level(gpu, params, n) {
            Some(q) => fits(gpu, params, q, n) && forall|p: Quant|
                p.rank() < q.rank() ==> !fits(gpu, params, p, n),
            None => forall|p: Quant| !fits(gpu, params, p, n),
        },
{
    assert forall|p: Quant| best_level(gpu, params, n) is None implies !fits(gpu, params, p, n) by {
        match p {
            Quant::Q4 => {},
            Quant::Q8 => {},
            Quant::FP16 => {},
        }
    }
}

/// For the same parameter count, a level with more bytes per parameter gives
/// weights that are at least as large: 4-bit, then 8-bit, then 16-bit.
pub proof fn lemma_weight_monotone(params: u64, a: Quant, b: Quant)
    requires
        a.half_bytes() <= b.half_bytes(),
    ensures
        weight_half_bytes(params, a) <= weight_half_bytes(params, b),
        weight_mb_of(params, a) <= weight_mb_of(params, b),
{
    assert(params * a.half_bytes() <= params * b.half_bytes()) by (nonlinear_arith)
        requires
            a.half_bytes() <= b.half_bytes(),
            0 <= params,
    ;
    lemma_div_is_ordered(weight_half_bytes(params, a), weight_half_bytes(params, b), 2_000_000);
}

/// Weights that fit at one level fit at every level with fewer bytes per
/// parameter.
pub proof fn lemma_fit_antitone(gpu: GpuSpec, params: u64, a: Quant, b: Quant, n: u32)
    requires
        a.half_bytes() <= b.half_bytes(),
        fits(gpu, params, b, n),
    ensures
        fits(gpu, params, a, n),
{
    lemma_weight_monotone(params, a, b);
}

/// The levels are tried from the smallest footprint up, so the level that is
/// picked is the 4-bit one, and a model that does not fit at 4 bits fits at
/// no level.
pub proof fn lemma_best_level_is_smallest(gpu: GpuSpec, params: u64, n: u32)
    ensures
        best_level(gpu, params, n) == if fits(gpu, params, Quant::Q4, n) {
            Some(Quant::Q4)
        } else {
            None::<Quant>
        },
{
    if fits(gpu, params, Quant::Q8, n) {
        lemma_fit_antitone(gpu, params, Quant::Q4, Quant::Q8, n);
    }
    if fits(gpu, params, Quant::FP16, n) {
        lemma_fit_antitone(gpu, params, Quant::Q4, Quant::FP16, n);
    }
}

/// An estimate carries throughput figures exactly when the weights fit.
pub proof fn lemma_throughput_iff_fit(gpu: GpuSpec, params: u64, q: Quant, rt: Runtime, n: u32)
    ensures
        estimate_of(gpu, params, q, rt, n).fit == Fit::NoFit ==> estimate_of(
            gpu,
            params,
            q,
            rt,
            n,
        ).decode_mtok_s is None && estimate_of(gpu, params, q, rt, n).prefill_mtok_s is None,
        estimate_of(gpu, params, q, rt, n).fit == Fit::Full ==> estimate_of(
            gpu,
            params,
            q,
            rt,
            n,
        ).decode_mtok_s is Some && estimate_of(gpu, params, q, rt, n).prefill_mtok_s is Some,
{
}

/// A capped quotient grows with its numerator.
pub proof fn lemma_sat_div_monotone(a: int, b: int, den: int)
    requires
        0 <= a <= b,
    ensures
        sat_div(a, den) <= sat_div(b, den),
{
    if den > 0 {
        lemma_div_is_ordered(a, b, den);
    }
}

/// A capped quotient grows strictly where the numerator grows by the
/// denominator or more and the cap is not reached.
pub proof fn lemma_sat_div_strict(a: int, b: int, den: int)
    requires
        0 <= a,
        0 < den,
        a + den <= b,
        sat_div(b, den) < u64::MAX,
    ensures
        sat_div(a, den) < sat_div(b, den),
{
    assert(a / den < b / den) by (nonlinear_arith)
        requires
            0 <= a,
            0 < den,
            a + den <= b,
    ;
}

/// Decode speed grows with the memory bandwidth, all else held fixed. The
/// speed is the numerator over the weight size, which is the same on both
/// sides: the exact speed is strictly larger on the device with more
/// bandwidth, and twice as large where the bandwidth is twice as large. The
/// reported figure, which is rounded down, is never smaller, and is larger
/// where the speeds differ by a reported unit or more.
pub proof fn lemma_decode_grows_with_bandwidth(
    a: GpuSpec,
    b: GpuSpec,
    params: u64,
    q: Quant,
    rt: Runtime,
    n: u32,
)
    requires
        a.mem_bw_mb_s > b.mem_bw_mb_s,
        a.decode_eff_of(rt) == b.decode_eff_of(rt),
        a.decode_eff_of(rt) > 0,
        n > 0,
        params > 0,
    ensures
        decode_numerator(a, rt, n) > decode_numerator(b, rt, n),
        weight_half_bytes(params, q) > 0,
        a.mem_bw_mb_s == 2 * b.mem_bw_mb_s ==> decode_numerator(a, rt, n) == 2 * decode_numerator(
            b,
            rt,
            n,
        ),
        decode_rate(a, params, q, rt, n) >= decode_rate(b, params, q, rt, n),
        decode_numerator(a, rt, n) >= decode_numerator(b, rt, n) + weight_half_bytes(params, q)
            && decode_rate(a, params, q, rt, n) < u64::MAX ==> decode_rate(a, params, q, rt, n)
            > decode_rate(b, params, q, rt, n),
{
    let e = a.decode_eff_of(rt) as int;
    let x = a.mem_bw_mb_s as int;
    let y = b.mem_bw_mb_s as int;
    let m = n as int;
    assert(2000 * x * e * m > 2000 * y * e * m && 2000 * y * e * m >= 0) by (nonlinear_arith)
        requires
            x > y,
            y >= 0,
            e > 0,
            m > 0,
    ;
    assert(x == 2 * y ==> 2000 * x * e * m == 2 * (2000 * y * e * m)) by (nonlinear_arith);
    assert(params * q.half_bytes() > 0) by (nonlinear_arith)
        requires
            params > 0,
            q.half_bytes() > 0,
    ;
    let den = weight_half_bytes(params, q);
    lemma_sat_div_monotone(decode_numerator(b, rt, n), decode_numerator(a, rt, n), den);
    if decode_numerator(a, rt, n) >= decode_numerator(b, rt, n) + den && decode_rate(
        a,
        params,
        q,
        rt,
        n,
    ) < u64::MAX {
        lemma_sat_div_strict(decode_numerator(b, rt, n), decode_numerator(a, rt, n), den);
    }
}

/// Prefill speed grows with the compute throughput, all else held fixed. The
/// speed is the numerator over the parameter count, which is the same on both
/// sides: the exact speed is strictly larger on the device with more compute,
/// and twice as large where the compute is twice as large. The reported
/// figure, which is rounded down, is never smaller, and is larger where the
/// speeds differ by a reported unit or more.
pub proof fn lemma_prefill_grows_with_compute(
    a: GpuSpec,
    b: GpuSpec,
    params: u64,
    rt: Runtime,
    n: u32,
)
    requires
        a.fp16_gflops > b.fp16_gflops,
        a.prefill_eff_of(rt) == b.prefill_eff_of(rt),
        a.prefill_eff_of(rt) > 0,
        n > 0,
        params > 0,
    ensures
        prefill_numerator(a, rt, n) > prefill_numerator(b, rt, n),
        a.fp16_gflops == 2 * b.fp16_gflops ==> prefill_numerator(a, rt, n) == 2
            * prefill_numerator(b, rt, n),
        prefill_rate(a, params, rt, n) >= prefill_rate(b, params, rt, n),
        prefill_numerator(a, rt, n) >= prefill_numerator(b, rt, n) + params && prefill_rate(
            a,
            params,
            rt,
            n,
        ) < u64::MAX ==> prefill_rate(a, params, rt, n) > prefill_rate(b, params, rt, n),
{
    let e = a.prefill_eff_of(rt) as int;
    let x = a.fp16_gflops as int;
    let y = b.fp16_gflops as int;
    let m = n as int;
    assert(500_000 * x * e * m > 500_000 * y * e * m && 500_000 * y * e * m >= 0)
        by (nonlinear_arith)
        requires
            x > y,
            y >= 0,
            e > 0,
            m > 0,
    ;
    assert(x == 2 * y ==> 500_000 * x * e * m == 2 * (500_000 * y * e * m)) by (nonlinear_arith);
    lemma_sat_div_monotone(prefill_numerator(b, rt, n), prefill_numerator(a, rt, n), params as int);
    if prefill_numerator(a, rt, n) >= prefill_numerator(b, rt, n) + params && prefill_rate(
        a,
        params,
        rt,
        n,
    ) < u64::MAX {
        lemma_sat_div_strict(
            prefill_numerator(b, rt, n),
            prefill_numerator(a, rt, n),
            params as int,
        );
    }
}

/// The exact speeds are the speeds: their numerators are those of the
/// decode and the prefill speed, and the reported figures are their value
/// rounded down.
pub proof fn lemma_exact_is_speed(gpu: GpuSpec, params: u64, q: Quant, rt: Runtime, n: u32)
    ensures
        decode_exact_of(gpu, params, q, rt, n).top() == decode_numerator(gpu, rt, n),
        decode_exact_of(gpu, params, q, rt, n).den == weight_half_bytes(params, q),
        decode_exact_of(gpu, params, q, rt, n).floor() == decode_rate(gpu, params, q, rt, n),
        prefill_exact_of(gpu, params, rt, n).top() == prefill_numerator(gpu, rt, n),
        prefill_exact_of(gpu, params, rt, n).den == params,
        prefill_exact_of(gpu, params, rt, n).floor() == prefill_rate(gpu, params, rt, n),
{
    let bw = gpu.mem_bw_mb_s as int;
    let g = gpu.fp16_gflops as int;
    let de = gpu.decode_eff_of(rt) as int;
    let pe = gpu.prefill_eff_of(rt) as int;
    let m = n as int;
    assert(0 <= bw * de * m <= 0xffff_ffff_ffff_ffff * 0xffff_ffff * 0xffff_ffff && 2000 * (bw
        * de * m) == 2000 * bw * de * m) by (nonlinear_arith)
        requires
            0 <= bw <= 0xffff_ffff_ffff_ffff,
            0 <= de <= 0xffff_ffff,
            0 <= m <= 0xffff_ffff,
    ;
    assert(0 <= g * pe * m <= 0xffff_ffff_ffff_ffff * 0xffff_ffff * 0xffff_ffff && 500_000 * (g
        * pe * m) == 500_000 * g * pe * m) by (nonlinear_arith)
        requires
            0 <= g <= 0xffff_ffff_ffff_ffff,
            0 <= pe <= 0xffff_ffff,
            0 <= m <= 0xffff_ffff,
    ;
    assert(0 <= params * q.half_bytes() <= 0xffff_ffff_ffff_ffff * 4) by (nonlinear_arith)
        requires
            0 <= params <= 0xffff_ffff_ffff_ffff,
            1 <= q.half_bytes() <= 4,
    ;
}

/// Decode speed strictly increases with the memory bandwidth, all else held
/// fixed. Of two devices that differ in their bandwidth alone, the one with
/// more bandwidth holds every model that the other holds, with the same
/// weights and the same prefill speed, and decodes it strictly faster: the
/// exact speeds are compared. With twice the bandwidth the exact speed is
/// twice as high. The reported figure, which is rounded down to a thousandth
/// of a token per second, is never lower.
pub proof fn lemma_more_bandwidth_decodes_faster(
    a: GpuSpec,
    b: GpuSpec,
    params: u64,
    q: Quant,
    rt: Runtime,
    n: u32,
)
    requires
        a == (GpuSpec { mem_bw_mb_s: a.mem_bw_mb_s, ..b }),
        a.mem_bw_mb_s > b.mem_bw_mb_s > 0,
        b.decode_eff_of(rt) > 0,
        params > 0,
        n > 0,
        estimate_of(b, params, q, rt, n).fit == Fit::Full,
    ensures
        estimate_of(a, params, q, rt, n).fit == Fit::Full,
        estimate_of(a, params, q, rt, n).decode_exact is Some,
        estimate_of(b, params, q, rt, n).decode_exact is Some,
        estimate_of(a, params, q, rt, n).decode_exact->0.exceeds(
            estimate_of(b, params, q, rt, n).decode_exact->0,
        ),
        a.mem_bw_mb_s == 2 * b.mem_bw_mb_s ==> estimate_of(a, params, q, rt, n).decode_exact->0.num
            == 2 * estimate_of(b, params, q, rt, n).decode_exact->0.num,
        estimate_of(a, params, q, rt, n).decode_mtok_s->0 >= estimate_of(
            b,
            params,
            q,
            rt,
            n,
        ).decode_mtok_s->0,
        estimate_of(a, params, q, rt, n).prefill_exact == estimate_of(
            b,
            params,
            q,
            rt,
            n,
        ).prefill_exact,
        estimate_of(a, params, q, rt, n).prefill_mtok_s == estimate_of(
            b,
            params,
            q,
            rt,
            n,
        ).prefill_mtok_s,
        estimate_of(a, params, q, rt, n).weight_mb == estimate_of(b, params, q, rt, n).weight_mb,
{
    lemma_exact_is_speed(a, params, q, rt, n);
    lemma_exact_is_speed(b, params, q, rt, n);
    lemma_decode_grows_with_bandwidth(a, b, params, q, rt, n);
    let ra = decode_exact_of(a, params, q, rt, n);
    let rb = decode_exact_of(b, params, q, rt, n);
    let d = weight_half_bytes(params, q);
    assert(ra.top() * d > rb.top() * d) by (nonlinear_arith)
        requires
            ra.top() > rb.top(),
            d > 0,
    ;
    let e = a.decode_eff_of(rt) as int;
    let m = n as int;
    let x = a.mem_bw_mb_s as int;
    let y = b.mem_bw_mb_s as int;
    assert(0 <= x * e * m <= 0xffff_ffff_ffff_ffff * 0xffff_ffff * 0xffff_ffff && 0 <= y * e * m
        <= 0xffff_ffff_ffff_ffff * 0xffff_ffff * 0xffff_ffff && (x == 2 * y ==> x * e * m == 2
        * (y * e * m))) by (nonlinear_arith)
        requires
            0 <= x <= 0xffff_ffff_ffff_ffff,
            0 <= y <= 0xffff_ffff_ffff_ffff,
            0 <= e <= 0xffff_ffff,
            0 <= m <= 0xffff_ffff,
    ;
    assert(y * 1_000_000 * m * 85 <= x * 1_000_000 * m * 85) by (nonlinear_arith)
        requires
            0 <= y <= x,
            0 <= m,
    ;
}

/// Prefill speed strictly increases with the compute throughput, all else
/// held fixed. Of two devices that differ in their compute alone, the one with
/// more compute holds every model that the other holds, with the same weights
/// and the same decode speed, and prefills it strictly faster: the exact
/// speeds are compared. With twice the compute the exact speed is twice as
/// high. The reported figure, which is rounded down to a thousandth of a
/// token per second, is never lower.
pub proof fn lemma_more_compute_prefills_faster(
    a: GpuSpec,
    b: GpuSpec,
    params: u64,
    q: Quant,
    rt: Runtime,
    n: u32,
)
    requires
        a == (GpuSpec { fp16_gflops: a.fp16_gflops, ..b }),
        a.fp16_gflops > b.fp16_gflops > 0,
        b.prefill_eff_of(rt) > 0,
        params > 0,
        n > 0,
        estimate_of(b, params, q, rt, n).fit == Fit::Full,
    ensures
        estimate_of(a, params, q, rt, n).fit == Fit::Full,
        estimate_of(a, params, q, rt, n).prefill_exact is Some,
        estimate_of(b, params, q, rt, n).prefill_exact is Some,
        estimate_of(a, params, q, rt, n).prefill_exact->0.exceeds(
            estimate_of(b, params, q, rt, n).prefill_exact->0,
        ),
        a.fp16_gflops == 2 * b.fp16_gflops ==> estimate_of(a, params, q, rt, n).prefill_exact->0.num
            == 2 * estimate_of(b, params, q, rt, n).prefill_exact->0.num,
        estimate_of(a, params, q, rt, n).prefill_mtok_s->0 >= estimate_of(
            b,
            params,
            q,
            rt,
            n,
        ).prefill_mtok_s->0,
        estimate_of(a, params, q, rt, n).decode_exact == estimate_of(
            b,
            params,
            q,
            rt,
            n,
        ).decode_exact,
        estimate_of(a, params, q, rt, n).decode_mtok_s == estimate_of(
            b,
            params,
            q,
            rt,
            n,
        ).decode_mtok_s,
        estimate_of(a, params, q, rt, n).weight_mb == estimate_of(b, params, q, rt, n).weight_mb,
{
    lemma_exact_is_speed(a, params, q, rt, n);
    lemma_exact_is_speed(b, params, q, rt, n);
    lemma_prefill_grows_with_compute(a, b, params, rt, n);
    let ra = prefill_exact_of(a, params, rt, n);
    let rb = prefill_exact_of(b, params, rt, n);
    let d = params as int;
    assert(ra.top() * d > rb.top() * d) by (nonlinear_arith)
        requires
            ra.top() > rb.top(),
            d > 0,
    ;
    let e = a.prefill_eff_of(rt) as int;
    let m = n as int;
    let x = a.fp16_gflops as int;
    let y = b.fp16_gflops as int;
    assert(0 <= x * e * m <= 0xffff_ffff_ffff_ffff * 0xffff_ffff * 0xffff_ffff && 0 <= y * e * m
        <= 0xffff_ffff_ffff_ffff * 0xffff_ffff * 0xffff_ffff && (x == 2 * y ==> x * e * m == 2
        * (y * e * m))) by (nonlinear_arith)
        requires
            0 <= x <= 0xffff_ffff_ffff_ffff,
            0 <= y <= 0xffff_ffff_ffff_ffff,
            0 <= e <= 0xffff_ffff,
            0 <= m <= 0xffff_ffff,
    ;
}

} // verus!
