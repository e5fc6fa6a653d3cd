use hf_providers::model::Model;
use hf_providers::provider::{providers, ProviderInfo, ProviderKind, ProviderStatus, Readiness};
use hf_providers::reference::reference_models;
use hf_providers::select::{
    broaden_hint, choice_label, choose_provider, cheapest_output_price, find_provider,
    has_clear_winner, kind_label, list_providers, monthly_electricity, needs_enrichment,
    order_providers, pick_model, precedes, priced_providers, reference_params, resolve_params,
    short_name, sorted_provs, status_color, ProviderOrder,
};
use hf_providers::text::text_precedes;

fn prov(name: &str, status: ProviderStatus, price: Option<u64>, speed: Option<u64>) -> ProviderInfo {
    ProviderInfo {
        name: name.to_string(),
        status,
        task: String::new(),
        provider_id: String::new(),
        input_price_per_m: price.map(|p| p / 2),
        output_price_per_m: price,
        throughput_mtok_s: speed,
        latency_us: speed.map(|_| 1),
        context_window: None,
        supports_tools: None,
        supports_structured: None,
    }
}

fn model(id: &str, likes: u64, providers: Vec<ProviderInfo>) -> Model {
    Model {
        id: id.to_string(),
        pipeline_tag: None,
        likes,
        downloads: 0,
        inference_status: None,
        providers,
        variants: Vec::new(),
        tags: Vec::new(),
        library_name: None,
        license: None,
        safetensors_params: None,
    }
}

fn sample() -> Model {
    let (live, staging) = (ProviderStatus::Live, ProviderStatus::Staging);
    model(
        "org/m",
        1,
        vec![
            prov("novita", live, Some(5), Some(30)),
            prov("groq", live, None, Some(900)),
            prov("together", staging, Some(2), None),
            prov("cerebras", live, Some(5), Some(900)),
            prov("nebius", live, Some(2), None),
            prov("fal", live, None, None),
        ],
    )
}

fn names(list: &[&ProviderInfo]) -> Vec<String> {
    list.iter().map(|p| p.name.clone()).collect()
}

#[test]
fn providers_in_each_order() {
    let m = sample();
    let all = || list_providers(&m, false, false, ProviderOrder::Readiness);
    // Hot first, then warm, cold and unavailable; by name within one readiness.
    assert_eq!(names(&all()), ["cerebras", "groq", "novita", "fal", "nebius", "together"]);
    // The cheapest first, those without a price last, otherwise as listed.
    let cheap = list_providers(&m, false, false, ProviderOrder::Cheapest);
    assert_eq!(names(&cheap), ["together", "nebius", "novita", "cerebras", "groq", "fal"]);
    // The fastest first; no measurement counts as zero.
    let fast = list_providers(&m, false, false, ProviderOrder::Fastest);
    assert_eq!(names(&fast), ["groq", "cerebras", "novita", "together", "nebius", "fal"]);
    let hot = list_providers(&m, false, true, ProviderOrder::Cheapest);
    assert_eq!(names(&hot), ["novita", "cerebras", "groq"]);
    assert!(list_providers(&m, true, false, ProviderOrder::Cheapest).is_empty());
    assert_eq!(names(&sorted_provs(&m.providers)), names(&all()));
    assert_eq!(names(&priced_providers(&m)), ["together", "nebius", "novita", "cerebras"]);
    assert_eq!(cheapest_output_price(&m), Some(2));
    assert_eq!(cheapest_output_price(&model("x", 0, vec![])), None);
    let refs: Vec<&ProviderInfo> = m.providers.iter().collect();
    assert_eq!(names(&order_providers(&refs, ProviderOrder::Fastest)), names(&fast));
    assert!(order_providers(&Vec::new(), ProviderOrder::Fastest).is_empty());
}

#[test]
fn tool_providers_only() {
    let mut m = sample();
    m.providers[1].supports_tools = Some(true);
    m.providers[2].supports_tools = Some(true);
    m.providers[4].supports_tools = Some(false);
    let tools = list_providers(&m, true, false, ProviderOrder::Readiness);
    assert_eq!(names(&tools), ["groq", "together"]);
    let both = list_providers(&m, true, true, ProviderOrder::Readiness);
    assert_eq!(names(&both), ["groq"]);
}

#[test]
fn order_of_two_providers() {
    let live = ProviderStatus::Live;
    let a = prov("a", live, Some(1), Some(5));
    let b = prov("b", live, Some(1), Some(5));
    let none = prov("a", live, None, None);
    let max = prov("z", live, Some(u64::MAX), Some(0));
    for order in [ProviderOrder::Cheapest, ProviderOrder::Fastest, ProviderOrder::Readiness] {
        assert!(precedes(&a, &a, order));
        assert!(precedes(&a, &b, order));
    }
    assert!(precedes(&b, &a, ProviderOrder::Cheapest));
    assert!(!precedes(&b, &a, ProviderOrder::Readiness));
    // No price comes behind the highest price; no speed is level with a speed of zero.
    assert!(precedes(&max, &none, ProviderOrder::Cheapest));
    assert!(!precedes(&none, &max, ProviderOrder::Cheapest));
    assert!(precedes(&none, &max, ProviderOrder::Fastest));
    assert!(precedes(&max, &none, ProviderOrder::Fastest));
    // A cold provider comes behind a hot one whatever its name.
    assert!(precedes(&b, &none, ProviderOrder::Readiness));
    assert!(!precedes(&none, &b, ProviderOrder::Readiness));
    let t = |a: &str, b: &str| {
        text_precedes(&a.chars().collect::<Vec<_>>(), &b.chars().collect::<Vec<_>>())
    };
    for (x, y) in [("", ""), ("", "a"), ("a", "a"), ("a", "ab"), ("ab", "b"), ("Z", "a"), ("z", "\u{e9}")] {
        assert!(t(x, y), "{x} {y}");
        assert_eq!(t(y, x), x == y, "{y} {x}");
        assert_eq!(t(x, y), x <= y);
    }
}

#[test]
fn the_provider_to_call() {
    let m = sample();
    let pick = |name: Option<&str>, fastest: bool, cheapest: bool| {
        choose_provider(&m, name, fastest, cheapest).map(|p| p.name.clone())
    };
    assert_eq!(pick(Some("groq"), false, false).as_deref(), Some("groq"));
    assert_eq!(pick(Some("groq"), true, true).as_deref(), Some("groq"));
    assert_eq!(pick(Some("Groq"), true, true), None);
    // Of the fastest the last, of the cheapest the first.
    assert_eq!(pick(None, true, false).as_deref(), Some("cerebras"));
    assert_eq!(pick(None, true, true).as_deref(), Some("cerebras"));
    assert_eq!(pick(None, false, true).as_deref(), Some("together"));
    assert_eq!(pick(None, false, false).as_deref(), Some("together"));
    let unpriced = model("x", 0, vec![prov("a", ProviderStatus::Live, None, None)]);
    assert_eq!(choose_provider(&unpriced, None, false, false).unwrap().name, "a");
    assert!(choose_provider(&unpriced, None, false, true).is_none());
    assert!(choose_provider(&unpriced, None, true, false).is_none());
    let empty = model("x", 0, vec![]);
    assert!(choose_provider(&empty, None, false, false).is_none());
    assert!(choose_provider(&empty, Some("a"), false, false).is_none());
    assert_eq!(choice_label(true, true), "selected");
    assert_eq!(choice_label(false, true), "fastest");
    assert_eq!(choice_label(false, false), "cheapest");
}

#[test]
fn search_results() {
    let live = ProviderStatus::Live;
    let served = |id: &str, likes: u64| model(id, likes, vec![prov("a", live, None, None)]);
    let bare = |id: &str, likes: u64| model(id, likes, vec![]);
    assert!(has_clear_winner(&[bare("a", 0)]));
    assert!(has_clear_winner(&[served("a", 51), served("b", 10)]));
    assert!(!has_clear_winner(&[served("a", 50), served("b", 10)]));
    assert!(!has_clear_winner(&[bare("a", 1000), served("b", 10)]));
    assert!(has_clear_winner(&[served("a", 1), bare("b", 0), served("c", 100)]));
    assert!(!has_clear_winner(&[served("a", u64::MAX), served("b", u64::MAX / 5 + 1)]));
    assert!(has_clear_winner(&[served("a", u64::MAX), served("b", u64::MAX / 5 - 1)]));
    assert_eq!(pick_model(&[bare("a", 5), served("b", 1), served("c", 9)]), 1);
    assert_eq!(pick_model(&[bare("a", 5), bare("b", 1)]), 0);
    assert_eq!(pick_model(&[served("a", 5)]), 0);
    assert!(needs_enrichment(&served("a", 1)));
    assert!(!needs_enrichment(&bare("a", 1)));
    assert!(!needs_enrichment(&sample()));
    let mut half = served("a", 1);
    half.providers.push(prov("b", live, None, Some(1)));
    assert!(!needs_enrichment(&half));
    half.providers[1].throughput_mtok_s = None;
    half.providers[1].output_price_per_m = Some(4);
    assert!(needs_enrichment(&half));
    half.providers[1].input_price_per_m = Some(2);
    assert!(!needs_enrichment(&half));
    assert_eq!(short_name("meta-llama/Llama-3.3-70B-Instruct"), "Llama-3.3-70B-Instruct");
    assert_eq!(short_name("a/b/c"), "c");
    assert_eq!(short_name("plain"), "plain");
    assert_eq!(short_name("org/"), "");
    assert_eq!(broaden_hint("deepseek-r1-distill"), "deepseek");
    assert_eq!(broaden_hint("llama"), "llama");
    assert_eq!(broaden_hint("-x"), "");
}

#[test]
fn parameter_counts() {
    let refs = reference_models();
    assert_eq!(reference_params(&refs, "deepseek-ai/DeepSeek-R1"), Some(671_000_000_000));
    assert_eq!(reference_params(&refs, "google/gemma-3-4b-it"), Some(4_000_000_000));
    assert_eq!(reference_params(&refs, "deepseek-ai/deepseek-r1"), None);
    assert_eq!(reference_params(&[], "deepseek-ai/DeepSeek-R1"), None);
    let mut m = model("deepseek-ai/DeepSeek-R1", 0, vec![]);
    // The name carries no size: the reference model of that identifier counts.
    assert_eq!(resolve_params(&m, &refs), Some(671_000_000_000));
    assert_eq!(resolve_params(&m, &[]), None);
    m.safetensors_params = Some(684_531_386_000);
    assert_eq!(resolve_params(&m, &refs), Some(684_531_386_000));
    // The size in the name comes before the reference model.
    let m = model("meta-llama/Llama-3.3-70B-Instruct", 0, vec![]);
    assert_eq!(resolve_params(&m, &refs), Some(70_000_000_000));
    assert_eq!(resolve_params(&model("org/unknown", 0, vec![]), &refs), None);
}

#[test]
fn registry_and_colours() {
    let list = providers();
    assert_eq!(list.len(), 19);
    assert_eq!(list[0].id, "cerebras");
    assert_eq!(list[18].id, "hf-inference");
    assert_eq!(list[18].display_name, "HF Inference");
    let groq = find_provider(&list, "groq").unwrap();
    assert_eq!(groq.display_name, "Groq");
    assert_eq!(groq.kind, ProviderKind::InferenceProvider);
    assert_eq!(find_provider(&list, "hf-inference").unwrap().kind, ProviderKind::HfInference);
    assert!(find_provider(&list, "Groq").is_none());
    assert!(find_provider(&[], "groq").is_none());
    assert_eq!(kind_label(ProviderKind::InferenceProvider), "serverless GPU");
    assert_eq!(kind_label(ProviderKind::HfInference), "HF CPU");
    assert_eq!(status_color(Readiness::Hot), 114);
    assert_eq!(status_color(Readiness::Warm), 214);
    assert_eq!(status_color(Readiness::Cold), 208);
    assert_eq!(status_color(Readiness::Unavailable), 245);
    // 450 W at 80% load for 730 hours at $0.12/kWh: $31.54
    assert_eq!(monthly_electricity(450), 31_536_000);
    assert_eq!(monthly_electricity(0), 0);
}
