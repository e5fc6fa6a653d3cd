use hf_providers::cloud::CloudOffering;
use hf_providers::estimate::Quant;
use hf_providers::hardware::{GpuSpec, Runtime};
use hf_providers::ranking::{
    best_runtime_estimate, classify_for_runtime, classify_reference_set, cost_per_m,
    electricity_per_hour, find_key, payback, rank_cloud_offerings, rank_local_devices,
    shown_cloud_rows, shown_local_rows, FAST_DECODE,
};
use hf_providers::reference::{reference_models, RefModel};

fn spec(
    name: &str,
    vram_gb: u64,
    bw_gb_s: u64,
    tflops: u64,
    tdp_w: u32,
    street_usd: Option<u32>,
    decode_eff: u32,
    mlx_decode_eff: Option<u32>,
) -> GpuSpec {
    GpuSpec {
        name: name.to_string(),
        vendor: "any".to_string(),
        arch: String::new(),
        vram_mb: vram_gb * 1000,
        mem_bw_mb_s: bw_gb_s * 1000,
        fp16_gflops: tflops * 1000,
        tdp_w,
        street_usd,
        llamacpp_decode_eff: decode_eff,
        llamacpp_prefill_eff: 300_000,
        mlx_decode_eff,
        mlx_prefill_eff: mlx_decode_eff.map(|_| 300_000),
    }
}

fn offering(name: &str, gpu: &str, gpu_count: u32, dollars_hr: f64) -> (String, CloudOffering) {
    (
        name.to_lowercase().replace(' ', "_"),
        CloudOffering {
            name: name.to_string(),
            provider: "test".to_string(),
            gpu: gpu.to_string(),
            gpu_count,
            price_hr: (dollars_hr * 1e6).round() as u64,
            spot_hr: None,
            interconnect: None,
            region: vec!["US".to_string()],
            url: "https://example.com".to_string(),
        },
    )
}

fn keyed(entries: Vec<(&str, GpuSpec)>) -> Vec<(String, GpuSpec)> {
    entries.into_iter().map(|(k, g)| (k.to_string(), g)).collect()
}

#[test]
fn cost_of_a_million_tokens() {
    // $2/hr at 50 tok/s: 2 / (50 * 3600) * 1e6 = $11.11
    assert_eq!(cost_per_m(2_000_000, 50_000), 11_111_111);
    // $1/hr at 20 tok/s: 1 / (20 * 3600) * 1e6 = $13.89
    assert_eq!(cost_per_m(1_000_000, 20_000), 13_888_888);
    assert_eq!(cost_per_m(3_600_000, 1_000_000), 1_000_000);
    assert_eq!(cost_per_m(0, 1), 0);
    assert_eq!(cost_per_m(1, 0), u64::MAX);
    assert_eq!(cost_per_m(0, 0), u64::MAX);
    assert_eq!(cost_per_m(u64::MAX, 1), u64::MAX);
    assert_eq!(cost_per_m(u64::MAX, u64::MAX), 277_777);
}

// Of two offerings the dearer per hour comes first where it is the cheaper per token.
#[test]
fn cheaper_per_hour_is_not_cheaper_per_token() {
    let gpus = keyed(vec![
        ("slow", spec("Slow", 24, 160, 80, 300, None, 500_000, None)),
        ("fast", spec("Fast", 24, 400, 80, 300, None, 500_000, None)),
    ]);
    let offerings = vec![offering("One dollar", "slow", 1, 1.0), offering("Two dollars", "fast", 1, 2.0)];
    let rows = rank_cloud_offerings(&offerings, &gpus, 8_000_000_000);
    assert_eq!(rows.len(), 2);
    assert_eq!(rows[0].name, "Two dollars");
    assert_eq!(rows[0].mtok_s, 50_000);
    assert_eq!(rows[0].total_hr, 2_000_000);
    assert_eq!(rows[0].eff_cost, 11_111_111);
    assert_eq!(rows[0].quant, Quant::Q4);
    assert_eq!(rows[1].name, "One dollar");
    assert_eq!(rows[1].mtok_s, 20_000);
    assert_eq!(rows[1].eff_cost, 13_888_888);
    assert_eq!(rows[1].provider, "test");
    // The order of the catalog does not matter.
    let swapped = vec![offerings[1].clone(), offerings[0].clone()];
    let rows = rank_cloud_offerings(&swapped, &gpus, 8_000_000_000);
    assert_eq!(rows[0].name, "Two dollars");
    // At $0.79/hr the slow one is the cheaper per token as well.
    let offerings = vec![offering("Cheap", "slow", 1, 0.79), offering("Two dollars", "fast", 1, 2.0)];
    let rows = rank_cloud_offerings(&offerings, &gpus, 8_000_000_000);
    assert_eq!(rows[0].name, "Cheap");
    assert_eq!(rows[0].eff_cost, 10_972_222);
}

#[test]
fn cloud_ranking_scales_with_the_number_of_devices() {
    let gpus = keyed(vec![("h100", spec("H100", 80, 3350, 267, 700, None, 650_000, None))]);
    let offerings = vec![
        offering("8x", "h100", 8, 3.0),
        offering("missing device", "b200", 8, 1.0),
        offering("1x", "h100", 1, 3.0),
        offering("4x", "h100", 4, 3.0),
        offering("2x", "h100", 2, 3.0),
        offering("0x", "h100", 0, 3.0),
    ];
    let rows = rank_cloud_offerings(&offerings, &gpus, 70_000_000_000);
    let names: Vec<&str> = rows.iter().map(|r| r.name.as_str()).collect();
    // Rows of equal cost keep the order of the catalog.
    assert_eq!(names, ["0x", "8x", "4x", "1x", "2x"]);
    assert_eq!(rows[0].total_hr, 0);
    assert_eq!(rows[0].eff_cost, 0);
    assert_eq!(rows[0].mtok_s, 62_214);
    assert_eq!((rows[1].gpu_count, rows[1].total_hr, rows[1].mtok_s), (8, 24_000_000, 497_714));
    assert_eq!(rows[1].eff_cost, 13_394_573);
    assert_eq!((rows[2].total_hr, rows[2].mtok_s, rows[2].eff_cost), (12_000_000, 248_857, 13_394_573));
    assert_eq!((rows[3].total_hr, rows[3].mtok_s, rows[3].eff_cost), (3_000_000, 62_214, 13_394_627));
    assert_eq!((rows[4].total_hr, rows[4].mtok_s, rows[4].eff_cost), (6_000_000, 124_428, 13_394_627));
    // 671e9 parameters at 4 bits need 395 GB: eight devices hold them, four do not.
    let rows = rank_cloud_offerings(&offerings, &gpus, 671_000_000_000);
    assert_eq!(rows.len(), 1);
    assert_eq!(rows[0].name, "8x");
    assert_eq!(rows[0].mtok_s, 51_922);
    assert_eq!(rows[0].eff_cost, 128_397_724);
    assert!(rank_cloud_offerings(&[], &gpus, 1).is_empty());
    assert!(rank_cloud_offerings(&offerings, &[], 1).is_empty());
}

#[test]
fn cloud_ranking_leaves_out_what_cannot_decode() {
    let mut dead = spec("Dead", 80, 1000, 100, 300, None, 500_000, None);
    dead.mem_bw_mb_s = 0;
    let gpus = keyed(vec![
        ("dead", dead),
        ("twin", spec("First twin", 80, 1000, 100, 300, None, 500_000, None)),
        ("twin", spec("Second twin", 80, 2000, 100, 300, None, 500_000, None)),
    ]);
    let offerings = vec![offering("a", "dead", 1, 1.0), offering("b", "twin", 1, 1.0)];
    let rows = rank_cloud_offerings(&offerings, &gpus, 8_000_000_000);
    assert_eq!(rows.len(), 1);
    assert_eq!(rows[0].name, "b");
    // Of two entries under one key the first counts.
    assert_eq!(rows[0].mtok_s, 125_000);
    assert_eq!(find_key(&gpus, &"twin".to_string()), Some(1));
    assert_eq!(find_key(&gpus, &"Twin".to_string()), None);
    // A price that does not fit is capped.
    let mut dear = offering("dear", "twin", 3, 1.0);
    dear.1.price_hr = u64::MAX / 2;
    let rows = rank_cloud_offerings(&[dear], &gpus, 8_000_000_000);
    assert_eq!(rows[0].total_hr, u64::MAX);
}

#[test]
fn electricity_and_payback() {
    // 450 W at 80% load and $0.12/kWh: $0.0432 per hour.
    assert_eq!(electricity_per_hour(450), 43_200);
    assert_eq!(electricity_per_hour(0), 0);
    assert_eq!(electricity_per_hour(u32::MAX), 412_316_860_320);
    // $1800 against $2.50 per million tokens hosted and $0.07326 local.
    assert_eq!(payback(Some(1800), Some(2_500_000), 73_260), Some(741_735));
    assert_eq!(payback(Some(1800), Some(73_261), 73_260), Some(1_800_000_000_000));
    assert_eq!(payback(Some(1800), Some(73_260), 73_260), None);
    assert_eq!(payback(Some(1800), Some(73_259), 73_260), None);
    assert_eq!(payback(None, Some(2_500_000), 73_260), None);
    assert_eq!(payback(Some(1800), None, 73_260), None);
    assert_eq!(payback(Some(0), Some(2), 1), Some(0));
    assert_eq!(payback(Some(u32::MAX), Some(1), 0), Some(4_294_967_295_000_000_000));
}

#[test]
fn local_ranking() {
    let gpus = keyed(vec![
        ("m4_max_128", spec("M4 Max", 128, 546, 34, 90, Some(4700), 550_000, Some(750_000))),
        ("rtx_3090", spec("RTX 3090", 24, 936, 35, 350, Some(900), 650_000, None)),
        ("rtx_4090", spec("RTX 4090", 24, 1008, 82, 450, Some(1800), 650_000, None)),
        ("tiny", spec("Tiny", 2, 100, 1, 10, Some(50), 650_000, None)),
        ("unpriced", spec("Unpriced", 24, 1008, 82, 900, None, 650_000, None)),
    ]);
    let rows = rank_local_devices(&gpus, 8_000_000_000, Some(2_500_000));
    let names: Vec<&str> = rows.iter().map(|r| r.name.as_str()).collect();
    assert_eq!(names, ["M4 Max", "RTX 3090", "RTX 4090", "Unpriced"]);
    // The faster of the two runtimes of the M4 counts.
    assert_eq!(rows[0].mtok_s, 102_375);
    assert_eq!(rows[0].eff_cost, 23_443);
    assert_eq!(rows[0].payback_ktok, Some(1_897_796));
    assert_eq!(rows[0].street, Some(4700));
    assert_eq!(rows[0].quant, Quant::Q4);
    assert_eq!((rows[1].mtok_s, rows[1].eff_cost), (152_100, 61_363));
    assert_eq!((rows[2].mtok_s, rows[2].eff_cost), (163_800, 73_260));
    assert_eq!(rows[2].payback_ktok, Some(741_735));
    assert_eq!((rows[3].mtok_s, rows[3].eff_cost, rows[3].payback_ktok), (163_800, 146_520, None));
    // Without a hosted price there is no payback.
    let rows = rank_local_devices(&gpus, 8_000_000_000, None);
    assert!(rows.iter().all(|r| r.payback_ktok.is_none()));
    // Nor where the device is not strictly cheaper.
    let rows = rank_local_devices(&gpus, 8_000_000_000, Some(61_363));
    assert_eq!(rows[0].payback_ktok, Some(4700 * 1_000_000_000 / (61_363 - 23_443)));
    assert_eq!(rows[1].payback_ktok, None);
    assert_eq!(rows[2].payback_ktok, None);
    // 70e9 parameters fit on the M4 only.
    let rows = rank_local_devices(&gpus, 70_000_000_000, None);
    assert_eq!(rows.len(), 1);
    assert_eq!(rows[0].name, "M4 Max");
    assert!(rank_local_devices(&[], 1, None).is_empty());
}

#[test]
fn local_ranking_merges_devices_of_one_name() {
    let gpus = keyed(vec![
        ("a", spec("Twin", 24, 500, 35, 350, Some(900), 500_000, None)),
        ("b", spec("Other", 24, 100, 35, 350, None, 500_000, None)),
        ("c", spec("Twin", 24, 800, 35, 100, None, 500_000, None)),
        ("d", spec("Twin", 24, 800, 35, 50, Some(1), 500_000, None)),
        ("e", spec("Twin", 24, 700, 35, 1, Some(2), 500_000, None)),
    ]);
    let rows = rank_local_devices(&gpus, 8_000_000_000, None);
    assert_eq!(rows.len(), 2);
    // The row keeps the street price of the first device and takes the figures of the
    // first among the fastest.
    assert_eq!(rows[0].name, "Twin");
    assert_eq!(rows[0].street, Some(900));
    assert_eq!(rows[0].mtok_s, 100_000);
    assert_eq!(rows[0].eff_cost, cost_per_m(electricity_per_hour(100), 100_000));
    assert_eq!(rows[1].name, "Other");
}

#[test]
fn tiers_of_the_reference_models() {
    let models = reference_models();
    let rtx = spec("RTX 4090", 24, 1008, 82, 450, None, 650_000, None);
    let tiers = classify_for_runtime(&rtx, &models, Runtime::LlamaCpp, FAST_DECODE);
    let names = |rows: &[hf_providers::ranking::EvalRow]| -> Vec<String> {
        rows.iter().map(|r| r.short.clone()).collect()
    };
    assert_eq!(
        names(&tiers.comfortable),
        [
            "Gemma 3 4B",
            "Qwen 2.5 7B",
            "Llama 3.1 8B",
            "Mistral Small 24B",
            "Gemma 3 27B",
            "Qwen 2.5 Coder 32B"
        ]
    );
    assert!(tiers.tight.is_empty());
    assert_eq!(
        tiers.wont_run,
        ["Llama 3.3 70B", "Qwen 2.5 72B", "Llama 3.1 405B", "DeepSeek R1 671B"]
    );
    assert_eq!(tiers.comfortable[0].quant, Quant::Q4);
    // 1008 * 0.65 / 2 = 327.6 tok/s
    assert_eq!(tiers.comfortable[0].decode, Some(327_600));
    // 82e12 * 0.3 / 8e9 = 3075 tok/s
    assert_eq!(tiers.comfortable[0].prefill, Some(3_075_000));
    // A higher threshold moves models from comfortable to tight.
    let tiers = classify_for_runtime(&rtx, &models, Runtime::LlamaCpp, 100_000);
    assert_eq!(names(&tiers.comfortable), ["Gemma 3 4B", "Qwen 2.5 7B", "Llama 3.1 8B"]);
    assert_eq!(names(&tiers.tight), ["Mistral Small 24B", "Gemma 3 27B", "Qwen 2.5 Coder 32B"]);
    assert_eq!(tiers.wont_run.len(), 4);
    // The threshold itself is comfortable.
    let one = [RefModel { id: "o/m", short: "m", params: 8_000_000_000 }];
    let tiers = classify_for_runtime(&rtx, &one, Runtime::LlamaCpp, 163_800);
    assert_eq!(names(&tiers.comfortable), ["m"]);
    let tiers = classify_for_runtime(&rtx, &one, Runtime::LlamaCpp, 163_801);
    assert_eq!(names(&tiers.tight), ["m"]);
    let tiers = classify_for_runtime(&rtx, &[], Runtime::LlamaCpp, 0);
    assert!(tiers.comfortable.is_empty() && tiers.tight.is_empty() && tiers.wont_run.is_empty());
}

#[test]
fn tiers_for_each_runtime() {
    let models = reference_models();
    let m4 = spec("M4 Max", 128, 546, 34, 90, None, 550_000, Some(750_000));
    let all = classify_reference_set(&m4, &models, FAST_DECODE);
    assert_eq!(all.len(), 2);
    assert_eq!(all[0].0, Runtime::Mlx);
    assert_eq!(all[1].0, Runtime::LlamaCpp);
    // 546 * 0.75 / 13.7 = 29.9 tok/s under mlx: Gemma 3 27B is just short of comfortable.
    assert_eq!(all[0].1.comfortable.len(), 4);
    assert_eq!(all[0].1.tight.len(), 4);
    assert_eq!(all[0].1.wont_run, ["Llama 3.1 405B", "DeepSeek R1 671B"]);
    assert_eq!(all[1].1.comfortable.len(), 3);
    assert_eq!(all[1].1.tight.len(), 5);
    let rtx = spec("RTX 4090", 24, 1008, 82, 450, None, 650_000, None);
    let all = classify_reference_set(&rtx, &models, FAST_DECODE);
    assert_eq!(all.len(), 1);
    assert_eq!(all[0].0, Runtime::LlamaCpp);
}

#[test]
fn the_fastest_runtime_of_a_device() {
    let m4 = spec("M4 Max", 128, 546, 34, 90, None, 550_000, Some(750_000));
    let (rt, q, est) = best_runtime_estimate(&m4, 8_000_000_000).unwrap();
    assert_eq!((rt, q), (Runtime::Mlx, Quant::Q4));
    assert_eq!(est.decode_mtok_s, Some(102_375));
    let slow_native = spec("M4 Max", 128, 546, 34, 90, None, 550_000, Some(500_000));
    let (rt, _, est) = best_runtime_estimate(&slow_native, 8_000_000_000).unwrap();
    assert_eq!(rt, Runtime::LlamaCpp);
    assert_eq!(est.decode_mtok_s, Some(75_075));
    // Of two equally fast runtimes the first is kept.
    let even = spec("M4 Max", 128, 546, 34, 90, None, 550_000, Some(550_000));
    assert_eq!(best_runtime_estimate(&even, 8_000_000_000).unwrap().0, Runtime::Mlx);
    let rtx = spec("RTX 4090", 24, 1008, 82, 450, None, 650_000, None);
    assert_eq!(best_runtime_estimate(&rtx, 8_000_000_000).unwrap().0, Runtime::LlamaCpp);
    assert!(best_runtime_estimate(&rtx, 70_000_000_000).is_none());
}

#[test]
fn the_rows_that_are_shown() {
    let gpus: Vec<(String, GpuSpec)> = (0..12)
        .map(|i| {
            let street = if i % 4 == 3 { None } else { Some(100 + i) };
            (format!("g{i}"), spec(&format!("Device {i}"), 24, 500 + i as u64, 80, 300, street, 500_000, None))
        })
        .collect();
    let offerings: Vec<_> =
        (0..12).map(|i| offering(&format!("Offer {i}"), &format!("g{i}"), 1, 1.0)).collect();
    let cloud = rank_cloud_offerings(&offerings, &gpus, 8_000_000_000);
    assert_eq!(cloud.len(), 12);
    let shown = shown_cloud_rows(&cloud);
    assert_eq!(shown.len(), 10);
    for (s, r) in shown.iter().zip(&cloud) {
        assert_eq!(s.name, r.name);
    }
    assert_eq!(shown[0].name, "Offer 11");
    assert_eq!(shown_cloud_rows(&cloud[..10]).len(), 10);
    assert_eq!(shown_cloud_rows(&cloud[..3]).len(), 3);
    assert!(shown_cloud_rows(&[]).is_empty());
    let local = rank_local_devices(&gpus, 8_000_000_000, None);
    assert_eq!(local.len(), 12);
    let shown: Vec<&str> = shown_local_rows(&local).iter().map(|r| r.name.as_str()).collect();
    // The fastest device is the cheapest per token; those without a street price are left out.
    assert_eq!(
        shown,
        ["Device 10", "Device 9", "Device 8", "Device 6", "Device 5", "Device 4", "Device 2", "Device 1"]
    );
    assert_eq!(shown_local_rows(&local[..4]).len(), 3);
    assert!(shown_local_rows(&local[..1]).is_empty());
    assert!(shown_local_rows(&[]).is_empty());
}
