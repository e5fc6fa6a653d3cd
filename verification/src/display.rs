//! Short texts for figures: counts, prices, speeds and sizes.
use vstd::prelude::*;
use crate::hardware::GpuSpec;
use crate::provider::Readiness;
use crate::select::HOURS_PER_MONTH;
use crate::ranking::power_cost_hr;
use crate::text::{
    chars_of, decimal, decimal_chars, fixed, fixed_chars, is_word, push_all, push_str, starts_with,
    has_prefix, string_of,
};

verus! {

/// The stroke that stands for a figure that is not there.
pub const DASH: &'static str = "\u{2500}";

/// A horizontal rule of the given width.
pub fn sep(width: usize) -> (r: String)
    ensures
        r@ == Seq::new(width as nat, |i: int| '\u{2500}'),
{
    let mut out: Vec<char> = Vec::new();
    let mut i: usize = 0;
    while i < width
        invariant
            i <= width,
            out@ == Seq::new(i as nat, |k: int| '\u{2500}'),
        decreases width - i,
    {
        out.push('\u{2500}');
        assert(out@ =~= Seq::new((i + 1) as nat, |k: int| '\u{2500}'));
        i += 1;
    }
    string_of(out.as_slice())
}

/// A count in short form: millions and thousands with one decimal, smaller
/// counts in full.
pub open spec fn count_text(n: u64) -> Seq<char> {
    if n >= 1_000_000 {
        fixed(n as nat, 1_000_000, 1).push('M')
    } else if n >= 1_000 {
        fixed(n as nat, 1_000, 1).push('k')
    } else {
        decimal(n as nat)
    }
}

/// Formats a count of likes or downloads.
pub fn fmt_count(n: u64) -> (r: String)
    ensures
        r@ == count_text(n),
{
    let mut out: Vec<char>;
    if n >= 1_000_000 {
        out = fixed_chars(n, 1_000_000, 1);
        out.push('M');
    } else if n >= 1_000 {
        out = fixed_chars(n, 1_000, 1);
        out.push('k');
    } else {
        out = decimal_chars(n);
    }
    string_of(out.as_slice())
}

/// An amount in dollars, given in millionths of a dollar: whole dollars
/// from a hundred on, cents from one dollar on, tenths of a cent below.
pub open spec fn cost_text(v: u64) -> Seq<char> {
    if v >= 100_000_000 {
        seq!['$'] + fixed(v as nat, 1_000_000, 0)
    } else if v >= 1_000_000 {
        seq!['$'] + fixed(v as nat, 1_000_000, 2)
    } else {
        seq!['$'] + fixed(v as nat, 1_000_000, 3)
    }
}

/// Formats an amount given in millionths of a dollar.
pub fn fmt_cost(v: u64) -> (r: String)
    ensures
        r@ == cost_text(v),
{
    let mut out: Vec<char> = Vec::new();
    out.push('$');
    assert(out@ == seq!['$']);
    let digits = if v >= 100_000_000 {
        fixed_chars(v, 1_000_000, 0)
    } else if v >= 1_000_000 {
        fixed_chars(v, 1_000_000, 2)
    } else {
        fixed_chars(v, 1_000_000, 3)
    };
    push_all(&mut out, digits.as_slice());
    string_of(out.as_slice())
}

/// A speed given in thousandths of a token per second: thousands of tokens
/// with one decimal, whole tokens from one token per second on, "<1 t/s"
/// below that, and a stroke for no speed or a speed of zero.
pub open spec fn toks_text(v: Option<u64>) -> Seq<char> {
    match v {
        Some(t) => if t >= 1_000_000 {
            fixed(t as nat, 1_000_000, 1) + "k t/s"@
        } else if t >= 1_000 {
            fixed(t as nat, 1_000, 0) + " t/s"@
        } else if t > 0 {
            "<1 t/s"@
        } else {
            DASH@
        },
        None => DASH@,
    }
}

/// Formats a speed given in thousandths of a token per second.
pub fn fmt_toks(v: Option<u64>) -> (r: String)
    ensures
        r@ == toks_text(v),
{
    match v {
        Some(t) => {
            if t >= 1_000_000 {
                let mut out = fixed_chars(t, 1_000_000, 1);
                push_str(&mut out, "k t/s");
                string_of(out.as_slice())
            } else if t >= 1_000 {
                let mut out = fixed_chars(t, 1_000, 0);
                push_str(&mut out, " t/s");
                string_of(out.as_slice())
            } else if t > 0 {
                "<1 t/s".to_owned()
            } else {
                DASH.to_owned()
            }
        },
        None => DASH.to_owned(),
    }
}

/// The colour in which a decode speed is shown, as an ANSI colour number:
/// green from thirty tokens per second on, amber from ten on, orange below,
/// grey where there is no speed.
pub open spec fn decode_color_of(v: Option<u64>) -> u8 {
    match v {
        Some(t) => if t >= 30_000 {
            114
        } else if t >= 10_000 {
            214
        } else {
            208
        },
        None => 245,
    }
}

/// The colour in which a decode speed is shown.
pub fn decode_color(v: Option<u64>) -> (r: u8)
    ensures
        r == decode_color_of(v),
{
    match v {
        Some(t) => {
            if t >= 30_000 {
                114
            } else if t >= 10_000 {
                214
            } else {
                208
            }
        },
        None => 245,
    }
}

/// A size given in megabytes: terabytes with one decimal from a thousand
/// gigabytes on, whole gigabytes below.
pub open spec fn size_text(mb: u64) -> Seq<char> {
    if mb >= 1_000_000 {
        fixed(mb as nat, 1_000_000, 1) + " TB"@
    } else {
        fixed(mb as nat, 1_000, 0) + " GB"@
    }
}

/// Formats a size given in megabytes.
pub fn fmt_gb(mb: u64) -> (r: String)
    ensures
        r@ == size_text(mb),
{
    let mut out: Vec<char>;
    if mb >= 1_000_000 {
        out = fixed_chars(mb, 1_000_000, 1);
        push_str(&mut out, " TB");
    } else {
        out = fixed_chars(mb, 1_000, 0);
        push_str(&mut out, " GB");
    }
    string_of(out.as_slice())
}

/// A payback given in thousands of tokens: billions of tokens with one
/// decimal from a thousand million on, whole millions below.
pub open spec fn payback_text(ktok: u64) -> Seq<char> {
    if ktok >= 1_000_000 {
        fixed(ktok as nat, 1_000_000, 1) + "B tok"@
    } else {
        fixed(ktok as nat, 1_000, 0) + "M tok"@
    }
}

/// Formats a payback given in thousands of tokens.
pub fn fmt_payback(ktok: u64) -> (r: String)
    ensures
        r@ == payback_text(ktok),
{
    let mut out: Vec<char>;
    if ktok >= 1_000_000 {
        out = fixed_chars(ktok, 1_000_000, 1);
        push_str(&mut out, "B tok");
    } else {
        out = fixed_chars(ktok, 1_000, 0);
        push_str(&mut out, "M tok");
    }
    string_of(out.as_slice())
}

/// The time to the first token as it is shown: the latency in whole
/// milliseconds where it was measured, "unavailable" for a cold provider,
/// a stroke otherwise.
pub open spec fn ttft_text(latency_us: Option<u64>, readiness: Readiness) -> Seq<char> {
    match latency_us {
        Some(l) => seq!['~'] + fixed(l as nat, 1_000, 0) + "ms TTFT"@,
        None => if readiness == Readiness::Cold {
            "unavailable"@
        } else {
            DASH@
        },
    }
}

/// Formats the time to the first token.
pub fn fmt_ttft(latency_us: Option<u64>, readiness: Readiness) -> (r: String)
    ensures
        r@ == ttft_text(latency_us, readiness),
{
    match latency_us {
        Some(l) => {
            let mut out: Vec<char> = Vec::new();
            out.push('~');
            assert(out@ == seq!['~']);
            let digits = fixed_chars(l, 1_000, 0);
            push_all(&mut out, digits.as_slice());
            push_str(&mut out, "ms TTFT");
            string_of(out.as_slice())
        },
        None => {
            if readiness == Readiness::Cold {
                "unavailable".to_owned()
            } else {
                DASH.to_owned()
            }
        },
    }
}

/// The vendor's name as it stands before a device's name.
pub open spec fn vendor_prefix_of(vendor: Seq<char>) -> Seq<char> {
    if vendor == "nvidia"@ {
        "NVIDIA "@
    } else if vendor == "amd"@ {
        "AMD "@
    } else if vendor == "intel"@ {
        "Intel "@
    } else {
        ""@
    }
}

/// The vendor's name as it stands before a device's name.
pub fn vendor_prefix(vendor: &str) -> (r: &'static str)
    ensures
        r@ == vendor_prefix_of(vendor@),
{
    let v = chars_of(vendor);
    if is_word(v.as_slice(), "nvidia") {
        "NVIDIA "
    } else if is_word(v.as_slice(), "amd") {
        "AMD "
    } else if is_word(v.as_slice(), "intel") {
        "Intel "
    } else {
        ""
    }
}

/// The badge under which a tag of a model is shown, for the tags that are
/// shown at all.
pub open spec fn badge_of(tag: Seq<char>) -> Option<Seq<char>> {
    if tag == "conversational"@ {
        Some("chat"@)
    } else if tag == "text-generation"@ {
        None
    } else if starts_with(tag, "arxiv:"@) {
        Some("paper"@)
    } else if tag == "endpoints_compatible"@ {
        Some("endpoints"@)
    } else if tag == "fp8"@ {
        Some("fp8"@)
    } else {
        None
    }
}

/// The badge under which a tag of a model is shown.
pub fn capability_badge(tag: &str) -> (r: Option<&'static str>)
    ensures
        match r {
            Some(b) => badge_of(tag@) == Some(b@),
            None => badge_of(tag@) is None,
        },
{
    let t = chars_of(tag);
    let arxiv = chars_of("arxiv:");
    if is_word(t.as_slice(), "conversational") {
        Some("chat")
    } else if is_word(t.as_slice(), "text-generation") {
        None
    } else if has_prefix(t.as_slice(), arxiv.as_slice()) {
        Some("paper")
    } else if is_word(t.as_slice(), "endpoints_compatible") {
        Some("endpoints")
    } else if is_word(t.as_slice(), "fp8") {
        Some("fp8")
    } else {
        None
    }
}

/// The label of a cloud offering: its name, with the number of devices in
/// front where there are several, and its vendor in brackets.
pub open spec fn offering_text(name: Seq<char>, provider: Seq<char>, gpu_count: u32) -> Seq<char> {
    (if gpu_count > 1 {
        decimal(gpu_count as nat) + "x "@ + name
    } else {
        name
    }) + " ("@ + provider + seq![')']
}

/// The label of a cloud offering.
pub fn offering_label(name: &str, provider: &str, gpu_count: u32) -> (r: String)
    ensures
        r@ == offering_text(name@, provider@, gpu_count),
{
    let mut out: Vec<char> = Vec::new();
    if gpu_count > 1 {
        out = decimal_chars(gpu_count as u64);
        push_str(&mut out, "x ");
    }
    push_str(&mut out, name);
    push_str(&mut out, " (");
    push_str(&mut out, provider);
    out.push(')');
    assert(out@ =~= offering_text(name@, provider@, gpu_count));
    string_of(out.as_slice())
}

/// The capacity of a device as it is shown.
pub open spec fn vram_text(g: GpuSpec) -> Seq<char> {
    fixed(g.vram_mb as nat, 1_000, 0) + " GB"@
}

/// The bandwidth of a device as it is shown.
pub open spec fn bandwidth_text(g: GpuSpec) -> Seq<char> {
    fixed(g.mem_bw_mb_s as nat, 1_000, 0) + " GB/s"@
}

/// The compute throughput of a device as it is shown.
pub open spec fn compute_text(g: GpuSpec) -> Seq<char> {
    fixed(g.fp16_gflops as nat, 1_000, 1) + " FP16 TFLOPS"@
}

/// The power of a device as it is shown.
pub open spec fn power_text(g: GpuSpec) -> Seq<char> {
    decimal(g.tdp_w as nat) + "W TDP"@
}

/// The texts of a sequence of strings.
pub open spec fn texts_of(lines: Seq<String>) -> Seq<Seq<char>> {
    Seq::new(lines.len(), |i: int| lines[i]@)
}

/// The figures of a device as they are shown: capacity, bandwidth, compute
/// and power.
pub fn spec_texts(gpu: &GpuSpec) -> (r: Vec<String>)
    ensures
        texts_of(r@) == seq![
            vram_text(*gpu),
            bandwidth_text(*gpu),
            compute_text(*gpu),
            power_text(*gpu),
        ],
{
    let mut out: Vec<String> = Vec::new();
    let mut a = fixed_chars(gpu.vram_mb, 1_000, 0);
    push_str(&mut a, " GB");
    out.push(string_of(a.as_slice()));
    let mut b = fixed_chars(gpu.mem_bw_mb_s, 1_000, 0);
    push_str(&mut b, " GB/s");
    out.push(string_of(b.as_slice()));
    let mut c = fixed_chars(gpu.fp16_gflops, 1_000, 1);
    push_str(&mut c, " FP16 TFLOPS");
    out.push(string_of(c.as_slice()));
    let mut d = decimal_chars(gpu.tdp_w as u64);
    push_str(&mut d, "W TDP");
    out.push(string_of(d.as_slice()));
    assert(texts_of(out@) =~= seq![
        vram_text(*gpu),
        bandwidth_text(*gpu),
        compute_text(*gpu),
        power_text(*gpu),
    ]);
    out
}

/// What a device costs as it is shown: the street price, where it is
/// known, and the electricity for a month under load.
pub open spec fn cost_texts_of(g: GpuSpec) -> Seq<Seq<char>> {
    let elec = "elec: ~$"@ + fixed((power_cost_hr(g.tdp_w) * HOURS_PER_MONTH) as nat, 1_000_000, 0)
        + "/mo"@;
    match g.street_usd {
        Some(usd) => seq!["street: ~$"@ + decimal(usd as nat), elec],
        None => seq![elec],
    }
}

/// What a device costs as it is shown.
pub fn cost_texts(gpu: &GpuSpec) -> (r: Vec<String>)
    ensures
        texts_of(r@) == cost_texts_of(*gpu),
{
    let mut out: Vec<String> = Vec::new();
    if let Some(usd) = gpu.street_usd {
        let mut s: Vec<char> = Vec::new();
        push_str(&mut s, "street: ~$");
        let digits = decimal_chars(usd as u64);
        push_all(&mut s, digits.as_slice());
        out.push(string_of(s.as_slice()));
    }
    let mut e: Vec<char> = Vec::new();
    push_str(&mut e, "elec: ~$");
    let month = crate::select::monthly_electricity(gpu.tdp_w);
    let digits = fixed_chars(month, 1_000_000, 0);
    push_all(&mut e, digits.as_slice());
    push_str(&mut e, "/mo");
    out.push(string_of(e.as_slice()));
    assert(texts_of(out@) =~= cost_texts_of(*gpu));
    out
}

} // verus!
