use hf_providers::cloud::CloudOffering;
use hf_providers::display::{
    capability_badge, cost_texts, decode_color, fmt_cost, fmt_count, fmt_gb, fmt_payback,
    fmt_toks, fmt_ttft, offering_label, sep, spec_texts, vendor_prefix,
};
use hf_providers::hardware::{CatalogError, Defect, GpuSpec, SpecField};
use hf_providers::sync::{check_sync, SyncResult};
use hf_providers::provider::Readiness;
use hf_providers::query::{extract_core_name, parse_query, remove_all};
use hf_providers::text::{decimal_chars, fixed_chars};

fn text(v: Vec<char>) -> String {
    v.into_iter().collect()
}

#[test]
fn counts() {
    assert_eq!(fmt_count(0), "0");
    assert_eq!(fmt_count(999), "999");
    assert_eq!(fmt_count(1_000), "1.0k");
    assert_eq!(fmt_count(1_234), "1.2k");
    assert_eq!(fmt_count(5_000), "5.0k");
    assert_eq!(fmt_count(999_949), "999.9k");
    assert_eq!(fmt_count(999_950), "1000.0k");
    assert_eq!(fmt_count(1_000_000), "1.0M");
    assert_eq!(fmt_count(100_000), "100.0k");
    assert_eq!(fmt_count(12_345_678), "12.3M");
    assert_eq!(fmt_count(u64::MAX), "18446744073709.6M");
}

#[test]
fn costs() {
    assert_eq!(fmt_cost(0), "$0.000");
    assert_eq!(fmt_cost(73_260), "$0.073");
    assert_eq!(fmt_cost(999_499), "$0.999");
    assert_eq!(fmt_cost(999_999), "$1.000");
    assert_eq!(fmt_cost(1_000_000), "$1.00");
    assert_eq!(fmt_cost(11_111_111), "$11.11");
    assert_eq!(fmt_cost(13_888_888), "$13.89");
    assert_eq!(fmt_cost(99_999_999), "$100.00");
    assert_eq!(fmt_cost(100_000_000), "$100");
    assert_eq!(fmt_cost(128_397_724), "$128");
    assert_eq!(fmt_cost(u64::MAX), "$18446744073710");
}

#[test]
fn speeds() {
    assert_eq!(fmt_toks(None), "\u{2500}");
    assert_eq!(fmt_toks(Some(0)), "\u{2500}");
    assert_eq!(fmt_toks(Some(1)), "<1 t/s");
    assert_eq!(fmt_toks(Some(999)), "<1 t/s");
    assert_eq!(fmt_toks(Some(1_000)), "1 t/s");
    assert_eq!(fmt_toks(Some(163_800)), "164 t/s");
    assert_eq!(fmt_toks(Some(8_580)), "9 t/s");
    assert_eq!(fmt_toks(Some(999_499)), "999 t/s");
    assert_eq!(fmt_toks(Some(999_999)), "1000 t/s");
    assert_eq!(fmt_toks(Some(1_000_000)), "1.0k t/s");
    assert_eq!(fmt_toks(Some(1_548_375)), "1.5k t/s");
    assert_eq!(decode_color(Some(30_000)), 114);
    assert_eq!(decode_color(Some(29_999)), 214);
    assert_eq!(decode_color(Some(10_000)), 214);
    assert_eq!(decode_color(Some(9_999)), 208);
    assert_eq!(decode_color(Some(0)), 208);
    assert_eq!(decode_color(None), 245);
}

#[test]
fn sizes_and_paybacks() {
    assert_eq!(fmt_gb(4_000), "4 GB");
    assert_eq!(fmt_gb(35_300), "35 GB");
    assert_eq!(fmt_gb(335_500), "336 GB");
    assert_eq!(fmt_gb(999_999), "1000 GB");
    assert_eq!(fmt_gb(1_000_000), "1.0 TB");
    assert_eq!(fmt_gb(1_342_000), "1.3 TB");
    assert_eq!(fmt_gb(0), "0 GB");
    assert_eq!(fmt_payback(741_735), "742M tok");
    assert_eq!(fmt_payback(999_999), "1000M tok");
    assert_eq!(fmt_payback(1_000_000), "1.0B tok");
    assert_eq!(fmt_payback(1_897_796), "1.9B tok");
    assert_eq!(fmt_payback(0), "0M tok");
}

#[test]
fn time_to_first_token() {
    assert_eq!(fmt_ttft(Some(1_278_400), Readiness::Hot), "~1278ms TTFT");
    assert_eq!(fmt_ttft(Some(538_000), Readiness::Warm), "~538ms TTFT");
    assert_eq!(fmt_ttft(Some(499), Readiness::Hot), "~0ms TTFT");
    assert_eq!(fmt_ttft(Some(500), Readiness::Cold), "~0ms TTFT");
    assert_eq!(fmt_ttft(Some(1_500), Readiness::Cold), "~2ms TTFT");
    assert_eq!(fmt_ttft(None, Readiness::Cold), "unavailable");
    assert_eq!(fmt_ttft(None, Readiness::Warm), "\u{2500}");
    assert_eq!(fmt_ttft(None, Readiness::Unavailable), "\u{2500}");
}

#[test]
fn rules_prefixes_and_badges() {
    assert_eq!(sep(0), "");
    assert_eq!(sep(3), "\u{2500}\u{2500}\u{2500}");
    assert_eq!(sep(64).chars().count(), 64);
    assert_eq!(vendor_prefix("nvidia"), "NVIDIA ");
    assert_eq!(vendor_prefix("amd"), "AMD ");
    assert_eq!(vendor_prefix("intel"), "Intel ");
    assert_eq!(vendor_prefix("apple"), "");
    assert_eq!(vendor_prefix("NVIDIA"), "");
    assert_eq!(capability_badge("conversational"), Some("chat"));
    assert_eq!(capability_badge("text-generation"), None);
    assert_eq!(capability_badge("arxiv:2501.12948"), Some("paper"));
    assert_eq!(capability_badge("arxiv:"), Some("paper"));
    assert_eq!(capability_badge("arxiv"), None);
    assert_eq!(capability_badge("endpoints_compatible"), Some("endpoints"));
    assert_eq!(capability_badge("fp8"), Some("fp8"));
    assert_eq!(capability_badge("safetensors"), None);
    assert_eq!(Readiness::Hot.to_string(), "\u{25cf} hot");
    assert_eq!(Readiness::Warm.to_string(), "\u{25d0} warm");
    assert_eq!(Readiness::Cold.to_string(), "\u{25cb} cold");
    assert_eq!(Readiness::Unavailable.to_string(), "\u{2717} unavail");
    assert_eq!(Readiness::Hot.rank(), 0);
    assert_eq!(Readiness::Unavailable.rank(), 3);
    assert!(Readiness::Hot < Readiness::Warm && Readiness::Cold < Readiness::Unavailable);
}

#[test]
fn numerals() {
    assert_eq!(text(decimal_chars(0)), "0");
    assert_eq!(text(decimal_chars(7)), "7");
    assert_eq!(text(decimal_chars(1_000)), "1000");
    assert_eq!(text(decimal_chars(u64::MAX)), "18446744073709551615");
    assert_eq!(text(fixed_chars(5, 2, 0)), "2");
    assert_eq!(text(fixed_chars(7, 2, 0)), "4");
    assert_eq!(text(fixed_chars(7, 2, 1)), "3.5");
    assert_eq!(text(fixed_chars(1, 3, 3)), "0.333");
    assert_eq!(text(fixed_chars(2, 3, 3)), "0.667");
    assert_eq!(text(fixed_chars(1, 8, 2)), "0.12");
    assert_eq!(text(fixed_chars(3, 8, 2)), "0.38");
    assert_eq!(text(fixed_chars(1_005, 1_000, 2)), "1.00");
    assert_eq!(text(fixed_chars(1_015, 1_000, 2)), "1.02");
    assert_eq!(text(fixed_chars(1, 1_000_000, 6)), "0.000001");
    assert_eq!(text(fixed_chars(u64::MAX, 1, 6)), "18446744073709551615.000000");
    assert_eq!(text(fixed_chars(0, 7, 3)), "0.000");
}

#[test]
fn queries() {
    let q = |s: &str| {
        let (m, p, l) = parse_query(s);
        (m, p.unwrap_or_else(|| "-".into()), l.unwrap_or_else(|| "-".into()))
    };
    let t = |a: &str, b: &str, c: &str| (a.to_string(), b.to_string(), c.to_string());
    assert_eq!(q("deepseek-r1@novita:curl"), t("deepseek-r1", "novita", "curl"));
    assert_eq!(q("deepseek-r1@novita"), t("deepseek-r1", "novita", "-"));
    assert_eq!(q("deepseek-r1"), t("deepseek-r1", "-", "-"));
    assert_eq!(q("deepseek-r1@"), t("deepseek-r1", "-", "-"));
    assert_eq!(q("deepseek-r1@:curl"), t("deepseek-r1", "-", "curl"));
    assert_eq!(q("deepseek-r1@novita:"), t("deepseek-r1", "novita", "-"));
    assert_eq!(q("deepseek-r1@:"), t("deepseek-r1", "-", "-"));
    assert_eq!(q("a@b@c:d:e"), t("a@b", "c", "d:e"));
    assert_eq!(q("a:b@c"), t("a:b", "c", "-"));
    assert_eq!(q("a:b"), t("a:b", "-", "-"));
    assert_eq!(q("@x"), t("", "x", "-"));
    assert_eq!(q(""), t("", "-", "-"));
    assert_eq!(q("mod\u{e8}le@fournisseur:js"), t("mod\u{e8}le", "fournisseur", "js"));
}

#[test]
fn core_names() {
    assert_eq!(extract_core_name("meta-llama/Llama-3.3-70B-Instruct"), "meta-llama/Llama-3.3-70B");
    assert_eq!(extract_core_name("deepseek-ai/DeepSeek-R1"), "deepseek-ai/DeepSeek-R1");
    assert_eq!(extract_core_name("Qwen/Qwen2.5-Coder-32B-Instruct"), "Qwen/Qwen2.5-Coder-32B");
    assert_eq!(extract_core_name("org/a-b-c-d-e"), "org/a-b-c");
    assert_eq!(extract_core_name("a-b-c-d"), "a-b-c");
    assert_eq!(extract_core_name("a-b"), "a-b");
    assert_eq!(extract_core_name("org/name-chat-FP8-x-y-z"), "org/name-x-y");
    assert_eq!(extract_core_name("org/m-Instruct-instruct-Chat-chat-FP8-fp8"), "org/m");
    assert_eq!(extract_core_name("org/m-Inst-Instructruct"), "org/m-Instruct");
    assert_eq!(extract_core_name("org/sub/name-a-b-c"), "org/name-a-b");
    assert_eq!(extract_core_name("org/"), "org/");
    assert_eq!(extract_core_name("/x"), "/x");
    assert_eq!(extract_core_name(""), "");
    let chars: Vec<char> = "abcabcab".chars().collect();
    assert_eq!(text(remove_all(&chars, "abc")), "ab");
    assert_eq!(text(remove_all(&chars, "bca")), "ab");
    let chars: Vec<char> = "aaaa".chars().collect();
    assert_eq!(text(remove_all(&chars, "aa")), "");
    let chars: Vec<char> = "aaa".chars().collect();
    assert_eq!(text(remove_all(&chars, "aa")), "a");
    assert_eq!(text(remove_all(&chars, "b")), "aaa");
}

fn device(vram_mb: u64, tdp_w: u32, street_usd: Option<u32>) -> GpuSpec {
    GpuSpec {
        name: "GeForce RTX 4090".to_string(),
        vendor: "nvidia".to_string(),
        arch: "Ada Lovelace".to_string(),
        vram_mb,
        mem_bw_mb_s: 1_008_000,
        fp16_gflops: 82_580,
        tdp_w,
        street_usd,
        llamacpp_decode_eff: 650_000,
        llamacpp_prefill_eff: 300_000,
        mlx_decode_eff: None,
        mlx_prefill_eff: None,
    }
}

#[test]
fn figures_of_a_device() {
    let g = device(24_000, 450, Some(1800));
    assert_eq!(spec_texts(&g), ["24 GB", "1008 GB/s", "82.6 FP16 TFLOPS", "450W TDP"]);
    assert_eq!(cost_texts(&g), ["street: ~$1800", "elec: ~$32/mo"]);
    let g = device(1_500, 0, None);
    assert_eq!(spec_texts(&g)[0], "2 GB");
    assert_eq!(spec_texts(&g)[3], "0W TDP");
    assert_eq!(cost_texts(&g), ["elec: ~$0/mo"]);
    assert_eq!(offering_label("H100 SXM", "lambda", 8), "8x H100 SXM (lambda)");
    assert_eq!(offering_label("H100 SXM", "lambda", 1), "H100 SXM (lambda)");
    assert_eq!(offering_label("H100 SXM", "lambda", 0), "H100 SXM (lambda)");
    assert_eq!(offering_label("", "", 2), "2x  ()");
}

#[test]
fn fresh_catalogs_are_checked() {
    let offering = CloudOffering {
        name: "1x".to_string(),
        provider: "p".to_string(),
        gpu: "nowhere".to_string(),
        gpu_count: 0,
        price_hr: 0,
        spot_hr: None,
        interconnect: None,
        region: Vec::new(),
        url: String::new(),
    };
    let cloud = vec![("a".to_string(), offering.clone()), ("b".to_string(), offering)];
    let mut hardware = vec![
        ("x".to_string(), device(24_000, 450, None)),
        ("y".to_string(), device(16_000, 320, None)),
        ("z".to_string(), device(8_000, 200, None)),
    ];
    assert_eq!(check_sync(&hardware, &cloud).unwrap(), SyncResult { hardware_count: 3, cloud_count: 2 });
    assert_eq!(check_sync(&[], &[]).unwrap(), SyncResult { hardware_count: 0, cloud_count: 0 });
    hardware[1].1.tdp_w = 0;
    match check_sync(&hardware, &cloud) {
        Err(CatalogError { key, defect }) => {
            assert_eq!(key, "y");
            assert_eq!(defect, Defect::NonPositive(SpecField::Power));
        }
        other => panic!("{other:?}"),
    }
}
