//! Entry points that take runtimes, quantizations and languages by name, as
//! a page in a browser passes them.
use vstd::prelude::*;
use crate::estimate::{
    best_level, decode_rate, estimate_of, fits, prefill_rate, weight_mb_of, Estimate, Quant,
};
use crate::hardware::{GpuSpec, Runtime};
use crate::model::text_of;
use crate::reference::{reference_models, reference_row, reference_table, RefModel};
use crate::snippet::{generate_simple, lang_named, snippet_text, Lang};
use crate::text::{ascii_lowered, chars_of, is_word, uppercase_of};

verus! {

/// The runtime that a name stands for.
pub open spec fn runtime_named(name: Seq<char>) -> Option<Runtime> {
    if name == "llama.cpp"@ || name == "llamacpp"@ {
        Some(Runtime::LlamaCpp)
    } else if name == "mlx"@ {
        Some(Runtime::Mlx)
    } else {
        None
    }
}

/// The quantization that a name in upper case stands for.
pub open spec fn quant_named(upper: Seq<char>) -> Option<Quant> {
    if upper == "Q4"@ {
        Some(Quant::Q4)
    } else if upper == "Q8"@ {
        Some(Quant::Q8)
    } else if upper == "FP16"@ {
        Some(Quant::FP16)
    } else {
        None
    }
}

/// Reads the name of a runtime: "llama.cpp" or "llamacpp", or "mlx".
pub fn parse_runtime(s: &str) -> (r: Option<Runtime>)
    ensures
        r == runtime_named(s@),
{
    let c = chars_of(s);
    if is_word(c.as_slice(), "llama.cpp") || is_word(c.as_slice(), "llamacpp") {
        Some(Runtime::LlamaCpp)
    } else if is_word(c.as_slice(), "mlx") {
        Some(Runtime::Mlx)
    } else {
        None
    }
}

/// Reads the name of a quantization that is already in upper case.
pub fn parse_quant_upper(upper: &str) -> (r: Option<Quant>)
    ensures
        r == quant_named(upper@),
{
    let c = chars_of(upper);
    if is_word(c.as_slice(), "Q4") {
        Some(Quant::Q4)
    } else if is_word(c.as_slice(), "Q8") {
        Some(Quant::Q8)
    } else if is_word(c.as_slice(), "FP16") {
        Some(Quant::FP16)
    } else {
        None
    }
}

/// Reads the name of a quantization, whatever its case: "Q4", "Q8" or
/// "FP16".
pub fn parse_quant(s: &str) -> (r: Option<Quant>)
    ensures
        r == quant_named(uppercase_of(s@)),
{
    let upper = s.to_uppercase();
    parse_quant_upper(upper.as_str())
}

/// What an optional estimate states.
pub open spec fn estimate_view_of(e: Option<Estimate>) -> Option<crate::estimate::EstimateView> {
    match e {
        Some(x) => Some(x@),
        None => None,
    }
}

/// Estimates the performance of a model on a device for a quantization and
/// a runtime that are given by name. There is no estimate where either name
/// is unknown.
pub fn estimate_perf(gpu: &GpuSpec, params: u64, quant: &str, runtime: &str) -> (r: Option<
    Estimate,
>)
    ensures
        estimate_view_of(r) == match (
            quant_named(uppercase_of(quant@)),
            runtime_named(runtime@),
        ) {
            (Some(q), Some(rt)) => Some(estimate_of(*gpu, params, q, rt, 1)),
            _ => None,
        },
{
    let q = match parse_quant(quant) {
        Some(q) => q,
        None => {
            return None;
        },
    };
    let rt = match parse_runtime(runtime) {
        Some(rt) => rt,
        None => {
            return None;
        },
    };
    Some(crate::estimate::estimate(gpu, params, q, rt))
}

/// Picks the quantization for a model on a device under a runtime that is
/// given by name, and returns its label with the estimate. There is no
/// result where the name is unknown or the model does not fit.
pub fn best_quant(gpu: &GpuSpec, params: u64, runtime: &str) -> (r: Option<(&'static str, Estimate)>)
    ensures
        match r {
            Some((label, est)) => {
                &&& runtime_named(runtime@) is Some
                &&& best_level(*gpu, params, 1) is Some
                &&& label@ == best_level(*gpu, params, 1)->0.name()
                &&& est@ == estimate_of(
                    *gpu,
                    params,
                    best_level(*gpu, params, 1)->0,
                    runtime_named(runtime@)->0,
                    1,
                )
            },
            None => runtime_named(runtime@) is None || best_level(*gpu, params, 1) is None,
        },
{
    let rt = match parse_runtime(runtime) {
        Some(rt) => rt,
        None => {
            return None;
        },
    };
    match crate::estimate::best_quant(gpu, params, rt) {
        Some((q, est)) => Some((q.label(), est)),
        None => None,
    }
}

/// What a device achieves for a model under one runtime.
#[derive(Debug)]
pub struct RuntimeResult {
    /// Name of the runtime.
    pub runtime: String,
    /// Label of the quantization at which the model fits.
    pub quant: Option<String>,
    /// Decode speed, in thousandths of a token per second.
    pub decode: Option<u64>,
    /// Prefill speed, in thousandths of a token per second.
    pub prefill: Option<u64>,
    /// Whether the model fits.
    pub fits: bool,
    /// Size of the weights in megabytes: at the quantization at which the
    /// model fits, else at four bits.
    pub weight_mb: u64,
}

/// What a [`RuntimeResult`] states.
pub struct RuntimeResultView {
    pub runtime: Seq<char>,
    pub quant: Option<Seq<char>>,
    pub decode: Option<u64>,
    pub prefill: Option<u64>,
    pub fits: bool,
    pub weight_mb: u64,
}

impl View for RuntimeResult {
    type V = RuntimeResultView;

    open spec fn view(&self) -> RuntimeResultView {
        RuntimeResultView {
            runtime: self.runtime@,
            quant: text_of(self.quant),
            decode: self.decode,
            prefill: self.prefill,
            fits: self.fits,
            weight_mb: self.weight_mb,
        }
    }
}

/// A reference model with what a device achieves for it under each of its
/// runtimes.
#[derive(Debug)]
pub struct MachineResult {
    pub short: &'static str,
    pub params: u64,
    pub id: &'static str,
    pub results: Vec<RuntimeResult>,
}

/// What a device achieves for a model of `params` parameters under the
/// runtime `rt`.
pub open spec fn runtime_result(g: GpuSpec, params: u64, rt: Runtime) -> RuntimeResultView {
    match best_level(g, params, 1) {
        Some(q) => RuntimeResultView {
            runtime: rt.name(),
            quant: Some(q.name()),
            decode: Some(decode_rate(g, params, q, rt, 1) as u64),
            prefill: Some(prefill_rate(g, params, rt, 1) as u64),
            fits: true,
            weight_mb: weight_mb_of(params, q) as u64,
        },
        None => RuntimeResultView {
            runtime: rt.name(),
            quant: None,
            decode: None,
            prefill: None,
            fits: false,
            weight_mb: weight_mb_of(params, Quant::Q4) as u64,
        },
    }
}

/// The entry of a report is that of the model `m` on the device `g`.
pub open spec fn reports(r: MachineResult, g: GpuSpec, m: RefModel) -> bool {
    &&& r.short@ == m.short@
    &&& r.id@ == m.id@
    &&& r.params == m.params
    &&& r.results@.len() == g.runtimes().len()
    &&& forall|j: int|
        0 <= j < r.results@.len() ==> (#[trigger] r.results@[j])@ == runtime_result(
            g,
            m.params,
            g.runtimes()[j],
        )
}

/// What a device achieves for one model under one runtime.
fn result_for(gpu: &GpuSpec, params: u64, rt: Runtime) -> (r: RuntimeResult)
    ensures
        r@ == runtime_result(*gpu, params, rt),
{
    match crate::estimate::best_quant(gpu, params, rt) {
        Some((q, est)) => RuntimeResult {
            runtime: rt.to_string(),
            quant: Some(q.label().to_owned()),
            decode: est.decode_mtok_s,
            prefill: est.prefill_mtok_s,
            fits: true,
            weight_mb: est.weight_mb,
        },
        None => RuntimeResult {
            runtime: rt.to_string(),
            quant: None,
            decode: None,
            prefill: None,
            fits: false,
            weight_mb: params / 2_000_000,
        },
    }
}

/// Reports, for each of the given models, what the device achieves under
/// each of its runtimes.
pub fn machine_report_for(gpu: &GpuSpec, models: &[RefModel]) -> (r: Vec<MachineResult>)
    ensures
        r@.len() == models@.len(),
        forall|i: int| 0 <= i < r@.len() ==> reports(#[trigger] r@[i], *gpu, models@[i]),
{
    let rts = gpu.available_runtimes();
    let mut out: Vec<MachineResult> = Vec::new();
    let mut i: usize = 0;
    while i < models.len()
        invariant
            i <= models.len(),
            rts@ == gpu.runtimes(),
            out@.len() == i,
            forall|k: int| 0 <= k < i ==> reports(#[trigger] out@[k], *gpu, models@[k]),
        decreases models.len() - i,
    {
        let m = &models[i];
        let mut results: Vec<RuntimeResult> = Vec::new();
        let mut j: usize = 0;
        while j < rts.len()
            invariant
                j <= rts.len(),
                rts@ == gpu.runtimes(),
                results@.len() == j,
                forall|k: int|
                    0 <= k < j ==> (#[trigger] results@[k])@ == runtime_result(
                        *gpu,
                        m.params,
                        gpu.runtimes()[k],
                    ),
            decreases rts.len() - j,
        {
            results.push(result_for(gpu, m.params, rts[j]));
            j += 1;
        }
        out.push(MachineResult { short: m.short, params: m.params, id: m.id, results });
        i += 1;
    }
    out
}

/// Reports, for each reference model, what the device achieves under each
/// of its runtimes.
pub fn machine_report(gpu: &GpuSpec) -> (r: Vec<MachineResult>)
    ensures
        r@.len() == reference_table().len(),
        forall|i: int|
            0 <= i < r@.len() ==> {
                &&& (#[trigger] r@[i]).short@ == reference_table()[i].1
                &&& r@[i].id@ == reference_table()[i].0
                &&& r@[i].params == reference_table()[i].2
                &&& r@[i].results@.len() == gpu.runtimes().len()
                &&& forall|j: int|
                    0 <= j < r@[i].results@.len() ==> (#[trigger] r@[i].results@[j])@
                        == runtime_result(*gpu, reference_table()[i].2, gpu.runtimes()[j])
            },
{
    let models = reference_models();
    let r = machine_report_for(gpu, models.as_slice());
    assert forall|i: int| 0 <= i < r@.len() implies {
        &&& (#[trigger] r@[i]).short@ == reference_table()[i].1
        &&& r@[i].id@ == reference_table()[i].0
        &&& r@[i].params == reference_table()[i].2
        &&& r@[i].results@.len() == gpu.runtimes().len()
        &&& forall|j: int|
            0 <= j < r@[i].results@.len() ==> (#[trigger] r@[i].results@[j])@ == runtime_result(
                *gpu,
                reference_table()[i].2,
                gpu.runtimes()[j],
            )
    } by {
        assert(reports(r@[i], *gpu, models@[i]));
        assert(reference_row(models@[i]) == reference_table()[i]);
    }
    r
}

/// Generates the snippet for a model and a provider in a language that is
/// given by name. There is no snippet where the name is unknown.
pub fn generate_snippet(model_id: &str, provider: &str, lang: &str) -> (r: Option<String>)
    ensures
        text_of(r) == match lang_named(ascii_lowered(lang@)) {
            Some(l) => Some(snippet_text(model_id@, provider@, l)),
            None => None,
        },
{
    match Lang::parse(lang) {
        Ok(l) => Some(generate_simple(model_id, provider, l)),
        Err(_) => None,
    }
}

} // verus!
