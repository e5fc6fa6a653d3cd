use hf_providers::hardware::{
    find_gpu, find_gpu_lower, is_default_display_gpu, validate_hardware, CatalogError, Defect,
    GpuSpec, Runtime, SpecField,
};

fn spec(
    name: &str,
    vendor: &str,
    vram_gb: f64,
    bw_gb_s: f64,
    tflops: f64,
    tdp_w: u32,
    street_usd: Option<u32>,
    llamacpp: (f64, f64),
    mlx: Option<(f64, f64)>,
) -> GpuSpec {
    GpuSpec {
        name: name.to_string(),
        vendor: vendor.to_string(),
        arch: String::new(),
        vram_mb: (vram_gb * 1000.0).round() as u64,
        mem_bw_mb_s: (bw_gb_s * 1000.0).round() as u64,
        fp16_gflops: (tflops * 1000.0).round() as u64,
        tdp_w,
        street_usd,
        llamacpp_decode_eff: (llamacpp.0 * 1e6).round() as u32,
        llamacpp_prefill_eff: (llamacpp.1 * 1e6).round() as u32,
        mlx_decode_eff: mlx.map(|m| (m.0 * 1e6).round() as u32),
        mlx_prefill_eff: mlx.map(|m| (m.1 * 1e6).round() as u32),
    }
}

// A catalog in the order of its keys, as a loader hands it over.
fn catalog() -> Vec<(String, GpuSpec)> {
    let n = (0.65, 0.30);
    let a = (0.55, 0.20);
    let m = Some((0.75, 0.30));
    let entries = vec![
        ("a100_pcie_80_gb", spec("A100 PCIe 80 GB", "nvidia", 80.0, 1935.0, 77.97, 300, None, n, None)),
        ("h100_pcie_80_gb", spec("H100 PCIe 80 GB", "nvidia", 80.0, 2039.0, 204.9, 350, None, n, None)),
        ("h100_sxm5_80_gb", spec("H100 SXM5 80 GB", "nvidia", 80.0, 3350.0, 267.6, 700, None, n, None)),
        ("m4_max_128", spec("Apple M4 Max (128 GB)", "apple", 128.0, 546.0, 34.0, 90, Some(4700), a, m)),
        ("m4_pro_48", spec("Apple M4 Pro (48 GB)", "apple", 48.0, 273.0, 17.0, 60, Some(2400), a, m)),
        ("rtx_3080", spec("GeForce RTX 3080", "nvidia", 10.0, 760.3, 29.77, 320, Some(450), n, None)),
        ("rtx_3090", spec("GeForce RTX 3090", "nvidia", 24.0, 936.2, 35.58, 350, Some(900), n, None)),
        ("rtx_4080", spec("GeForce RTX 4080", "nvidia", 16.0, 716.8, 48.74, 320, Some(1100), n, None)),
        ("rtx_4090", spec("GeForce RTX 4090", "nvidia", 24.0, 1008.0, 82.58, 450, Some(1800), n, None)),
        ("rtx_5090", spec("GeForce RTX 5090", "nvidia", 32.0, 1792.0, 104.8, 575, Some(2500), n, None)),
    ];
    entries.into_iter().map(|(k, g)| (k.to_string(), g)).collect()
}

#[test]
fn apple_gpu_has_both_runtimes() {
    let gpus = catalog();
    let (_, m4) = gpus.iter().find(|(k, _)| k == "m4_max_128").expect("m4_max_128 missing");
    assert!(m4.mlx_decode_eff.is_some(), "Apple should have mlx");
    assert!(m4.mlx_prefill_eff.is_some());
    let rts = m4.available_runtimes();
    assert_eq!(rts.len(), 2);
    assert_eq!(rts[0], Runtime::Mlx);
    assert_eq!(rts[1], Runtime::LlamaCpp);
    // mlx should be faster than llama.cpp on Apple
    assert!(m4.decode_eff(Runtime::Mlx) > m4.decode_eff(Runtime::LlamaCpp));
}

#[test]
fn all_gpus_have_valid_specs() {
    let gpus = catalog();
    for (key, gpu) in &gpus {
        assert!(!gpu.name.is_empty(), "{key}: name is empty");
        assert!(gpu.vram_mb > 0, "{key}: vram must be positive");
        assert!(gpu.mem_bw_mb_s > 0, "{key}: bandwidth must be positive");
        assert!(gpu.fp16_gflops > 0, "{key}: compute must be positive");
        assert!(gpu.tdp_w > 0, "{key}: tdp_w must be positive");
        assert!(
            gpu.llamacpp_decode_eff > 0 && gpu.llamacpp_decode_eff <= 1_000_000,
            "{key}: llamacpp_decode_eff {} out of range",
            gpu.llamacpp_decode_eff
        );
        assert!(
            gpu.llamacpp_prefill_eff > 0 && gpu.llamacpp_prefill_eff <= 1_000_000,
            "{key}: llamacpp_prefill_eff {} out of range",
            gpu.llamacpp_prefill_eff
        );
        if let Some(de) = gpu.mlx_decode_eff {
            assert!(de > 0 && de <= 1_000_000, "{key}: mlx_decode_eff {de} out of range");
        }
        if let Some(pe) = gpu.mlx_prefill_eff {
            assert!(pe > 0 && pe <= 1_000_000, "{key}: mlx_prefill_eff {pe} out of range");
        }
        assert!(gpu.validate().is_ok(), "{key}");
    }
    assert!(validate_hardware(&gpus).is_ok());
}

#[test]
fn find_gpu_exact() {
    let gpus = catalog();
    let (k, g) = find_gpu(&gpus, "rtx_4090").expect("exact match");
    assert_eq!(k, "rtx_4090");
    assert_eq!(g.name, "GeForce RTX 4090");
}

#[test]
fn find_gpu_suffix() {
    let gpus = catalog();
    let (k, _) = find_gpu(&gpus, "4090").expect("suffix match");
    assert_eq!(k, "rtx_4090");
}

#[test]
fn find_gpu_dash_normalization() {
    let gpus = catalog();
    let (k, _) = find_gpu(&gpus, "m4-max-128").expect("dash normalization");
    assert_eq!(k, "m4_max_128");
}

#[test]
fn find_gpu_no_prefix() {
    let gpus = catalog();
    let (k, _) = find_gpu(&gpus, "rtx4090").expect("substring match");
    assert_eq!(k, "rtx_4090");
}

#[test]
fn find_gpu_h100() {
    let gpus = catalog();
    let result = find_gpu(&gpus, "h100");
    assert!(result.is_some(), "h100 should match");
}

#[test]
fn find_gpu_not_found() {
    let gpus = catalog();
    assert!(find_gpu(&gpus, "nonexistent_gpu_xyz").is_none());
}

#[test]
fn find_gpu_folds_case_and_separators() {
    let gpus = catalog();
    assert_eq!(find_gpu(&gpus, "RTX 4090").unwrap().0, "rtx_4090");
    assert_eq!(find_gpu(&gpus, "Rtx-4090").unwrap().0, "rtx_4090");
    assert_eq!(find_gpu(&gpus, "M4 Max").unwrap().0, "m4_max_128");
    assert_eq!(find_gpu(&gpus, "H100-SXM5").unwrap().0, "h100_sxm5_80_gb");
    // The library leaves the case alone where the caller says it is lower case already.
    assert!(find_gpu_lower(&gpus, "RTX_4090").is_none());
    assert_eq!(find_gpu_lower(&gpus, "rtx 4090").unwrap().0, "rtx_4090");
}

#[test]
fn find_gpu_goes_through_the_stages_in_order() {
    let gpus: Vec<(String, GpuSpec)> = ["x_4090_ti", "rtx_4090", "4090", "a4090b", "rtx_40_90"]
        .iter()
        .zip(catalog())
        .map(|(k, (_, g))| (k.to_string(), g))
        .collect();
    // The key itself wins over keys that only end with the query or contain it.
    assert_eq!(find_gpu(&gpus, "4090").unwrap().0, "4090");
    // Else a key that ends with the query wins over one that contains it.
    assert_eq!(find_gpu(&gpus[..2], "4090").unwrap().0, "rtx_4090");
    // Else a key that contains it.
    assert_eq!(find_gpu(&gpus[..1], "4090").unwrap().0, "x_4090_ti");
    // Else a key that contains it once the separators are taken out of both.
    assert_eq!(find_gpu(&gpus[4..], "4090").unwrap().0, "rtx_40_90");
    assert_eq!(find_gpu(&gpus[4..], "rtx-4090").unwrap().0, "rtx_40_90");
    assert!(find_gpu(&gpus[4..], "5090").is_none());
    assert!(find_gpu(&[], "4090").is_none());
}

#[test]
fn find_gpu_prefers_the_shortest_key_and_then_the_first() {
    let base = catalog();
    let named = |keys: &[&str]| -> Vec<(String, GpuSpec)> {
        keys.iter()
            .enumerate()
            .map(|(i, k)| {
                let mut g = base[0].1.clone();
                g.name = format!("device {i}");
                (k.to_string(), g)
            })
            .collect()
    };
    let gpus = named(&["h100_sxm5_80_gb", "h100_pcie", "h100_nvl", "h100_sxm"]);
    let (k, g) = find_gpu(&gpus, "h100").unwrap();
    assert_eq!(k, "h100_nvl");
    assert_eq!(g.name, "device 2");
    let gpus = named(&["a_h100_x", "b_h100_y", "c_h100_z"]);
    assert_eq!(find_gpu(&gpus, "h100").unwrap().0, "a_h100_x");
    // Keys are ranked by their length in bytes.
    let gpus = named(&["h100_\u{e9}\u{e9}", "h100_abc"]);
    assert_eq!(find_gpu(&gpus, "h100").unwrap().0, "h100_abc");
    // Of equal keys the first entry is the one that is found.
    let gpus = named(&["h100", "h100"]);
    assert_eq!(find_gpu(&gpus, "h100").unwrap().1.name, "device 0");
    // An empty query is the end of every key.
    let gpus = named(&["bbb", "a", "cc", "d"]);
    assert_eq!(find_gpu(&gpus, "").unwrap().0, "a");
}

#[test]
fn runtime_names_and_coefficients() {
    assert_eq!(Runtime::LlamaCpp.to_string(), "llama.cpp");
    assert_eq!(Runtime::Mlx.to_string(), "mlx");
    let gpus = catalog();
    let (_, rtx) = find_gpu(&gpus, "rtx_4090").unwrap();
    assert_eq!(rtx.available_runtimes(), vec![Runtime::LlamaCpp]);
    assert_eq!(rtx.decode_eff(Runtime::LlamaCpp), 650_000);
    assert_eq!(rtx.prefill_eff(Runtime::LlamaCpp), 300_000);
    assert_eq!(rtx.decode_eff(Runtime::Mlx), 650_000);
    assert_eq!(rtx.prefill_eff(Runtime::Mlx), 300_000);
    let (_, m4) = find_gpu(&gpus, "m4_max_128").unwrap();
    assert_eq!(m4.decode_eff(Runtime::Mlx), 750_000);
    assert_eq!(m4.prefill_eff(Runtime::Mlx), 300_000);
    assert_eq!(m4.decode_eff(Runtime::LlamaCpp), 550_000);
    assert_eq!(m4.prefill_eff(Runtime::LlamaCpp), 200_000);
}

#[test]
fn validation_names_the_first_defect() {
    let good = catalog();
    let check = |change: &dyn Fn(&mut GpuSpec)| -> Result<(), Defect> {
        let mut g = good[3].1.clone();
        change(&mut g);
        g.validate()
    };
    assert_eq!(check(&|_| {}), Ok(()));
    assert_eq!(check(&|g| g.vram_mb = 0), Err(Defect::NonPositive(SpecField::Vram)));
    assert_eq!(check(&|g| g.mem_bw_mb_s = 0), Err(Defect::NonPositive(SpecField::Bandwidth)));
    assert_eq!(check(&|g| g.fp16_gflops = 0), Err(Defect::NonPositive(SpecField::Compute)));
    assert_eq!(check(&|g| g.tdp_w = 0), Err(Defect::NonPositive(SpecField::Power)));
    assert_eq!(
        check(&|g| g.llamacpp_decode_eff = 0),
        Err(Defect::EfficiencyOutOfRange(SpecField::LlamaCppDecode))
    );
    assert_eq!(
        check(&|g| g.llamacpp_decode_eff = 1_000_001),
        Err(Defect::EfficiencyOutOfRange(SpecField::LlamaCppDecode))
    );
    assert_eq!(check(&|g| g.llamacpp_decode_eff = 1_000_000), Ok(()));
    assert_eq!(
        check(&|g| g.llamacpp_prefill_eff = 0),
        Err(Defect::EfficiencyOutOfRange(SpecField::LlamaCppPrefill))
    );
    assert_eq!(
        check(&|g| g.mlx_decode_eff = Some(0)),
        Err(Defect::EfficiencyOutOfRange(SpecField::MlxDecode))
    );
    assert_eq!(
        check(&|g| g.mlx_prefill_eff = Some(2_000_000)),
        Err(Defect::EfficiencyOutOfRange(SpecField::MlxPrefill))
    );
    assert_eq!(check(&|g| g.mlx_decode_eff = None), Ok(()));
    assert_eq!(
        check(&|g| {
            g.tdp_w = 0;
            g.mem_bw_mb_s = 0;
            g.mlx_prefill_eff = Some(0);
        }),
        Err(Defect::NonPositive(SpecField::Bandwidth))
    );
}

#[test]
fn catalog_validation_names_the_first_bad_entry() {
    let mut gpus = catalog();
    gpus[6].1.llamacpp_prefill_eff = 1_500_000;
    gpus[8].1.vram_mb = 0;
    match validate_hardware(&gpus) {
        Err(CatalogError { key, defect }) => {
            assert_eq!(key, "rtx_3090");
            assert_eq!(defect, Defect::EfficiencyOutOfRange(SpecField::LlamaCppPrefill));
        }
        other => panic!("{other:?}"),
    }
    let err = validate_hardware(&gpus).unwrap_err();
    assert_eq!(
        err.to_string(),
        "bad catalog: rtx_3090: llamacpp_prefill_eff must be above 0 and at most 1"
    );
    gpus[6].1.llamacpp_prefill_eff = 300_000;
    let err = validate_hardware(&gpus).unwrap_err();
    assert_eq!(err.to_string(), "bad catalog: rtx_4090: vram_mb must be positive");
    let err = CatalogError { key: String::new(), defect: Defect::NonPositive(SpecField::Power) };
    assert_eq!(err.to_string(), "bad catalog: : tdp_w must be positive");
    assert!(validate_hardware(&[]).is_ok());
}

#[test]
fn devices_shown_by_default() {
    for key in ["rtx_4090", "rtx_5090", "m4_pro_48", "m4_max_128", "a100_pcie_80_gb"] {
        assert!(is_default_display_gpu(key), "{key}");
    }
    for key in ["rtx_3090", "", "rtx_4090 ", "RTX_4090", "h100_sxm5_80_gb"] {
        assert!(!is_default_display_gpu(key), "{key}");
    }
}
