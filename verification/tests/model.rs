use hf_providers::model::{
    first_standing_token, parse_size_token, token_stands, token_stands_at, trim_chars, Model,
};
use hf_providers::provider::{ProviderInfo, ProviderStatus, Readiness};

fn micro(v: f64) -> u64 {
    (v * 1e6).round() as u64
}

fn make_provider(name: &str, output_price: Option<f64>, throughput: Option<f64>) -> ProviderInfo {
    ProviderInfo {
        name: name.to_string(),
        status: ProviderStatus::Live,
        task: "conversational".to_string(),
        provider_id: name.to_string(),
        input_price_per_m: output_price.map(|p| micro(p * 0.5)), // arbitrary
        output_price_per_m: output_price.map(micro),
        throughput_mtok_s: throughput.map(|t| (t * 1000.0).round() as u64),
        latency_us: throughput.map(|_| 500_000),
        context_window: Some(8192),
        supports_tools: Some(false),
        supports_structured: Some(false),
    }
}

fn make_model(providers: Vec<ProviderInfo>) -> Model {
    Model {
        id: "test/model".to_string(),
        pipeline_tag: Some("text-generation".to_string()),
        likes: 100,
        downloads: 1000,
        inference_status: None,
        providers,
        variants: Vec::new(),
        tags: Vec::new(),
        library_name: None,
        license: None,
        safetensors_params: None,
    }
}

#[test]
fn param_hint_basic() {
    assert_eq!(Model::param_hint("Llama-3.1-70B-Instruct"), Some("70B".into()));
    assert_eq!(Model::param_hint("Qwen2.5-1.5B"), Some("1.5B".into()));
    assert_eq!(Model::param_hint("some-model-8B"), Some("8B".into()));
}

#[test]
fn param_hint_no_false_substring() {
    // "17B" should not match "7B"
    assert_eq!(Model::param_hint("Llama-4-Scout-17B-16E-Instruct"), Some("17B".into()));
    // "13B" should not match "1.3B" or "3B"
    assert_eq!(Model::param_hint("model-13B-chat"), Some("13B".into()));
    // "120B" should not match "12B" or "20B"
    assert_eq!(Model::param_hint("big-model-120B"), Some("120B".into()));
}

#[test]
fn param_hint_none_for_no_match() {
    assert_eq!(Model::param_hint("gpt2"), None);
    assert_eq!(Model::param_hint("clip-vit"), None);
}

#[test]
fn detect_moe_name_patterns() {
    // NxMB pattern (Mixtral style)
    assert!(Model::detect_moe("Mixtral-8x7B-Instruct-v0.1"));
    assert!(Model::detect_moe("Mixtral-8x22B-Instruct-v0.1"));
    // NB-NE pattern (Llama-4 style)
    assert!(Model::detect_moe("Llama-4-Scout-17B-16E-Instruct"));
    assert!(Model::detect_moe("Llama-4-Maverick-17B-128E-Instruct"));
    // Literal "MoE"
    assert!(Model::detect_moe("Qwen2-MoE-57B"));
    // Known families
    assert!(Model::detect_moe("deepseek-ai/DeepSeek-V3"));
    assert!(Model::detect_moe("deepseek-ai/DeepSeek-R1"));
    assert!(Model::detect_moe("databricks/dbrx-instruct"));
    assert!(Model::detect_moe("Snowflake/snowflake-arctic-instruct"));
    assert!(Model::detect_moe("ai21labs/Jamba-v0.1"));
}

#[test]
fn detect_moe_false_for_dense() {
    assert!(!Model::detect_moe("Llama-3.1-70B-Instruct"));
    assert!(!Model::detect_moe("Qwen2.5-72B"));
    assert!(!Model::detect_moe("gemma-3-27b-it"));
    assert!(!Model::detect_moe("gpt2"));
    assert!(!Model::detect_moe("Phi-4-mini-instruct"));
}

#[test]
fn detect_moe_false_for_distilled() {
    // Distilled models are dense, not MoE
    assert!(!Model::detect_moe("deepseek-ai/DeepSeek-R1-Distill-Qwen-32B"));
    assert!(!Model::detect_moe("deepseek-ai/DeepSeek-R1-Distill-Llama-8B"));
    assert!(!Model::detect_moe("deepseek-ai/DeepSeek-R1-Distill-Llama-70B"));
    assert!(!Model::detect_moe("cyberagent/DeepSeek-R1-Distill-Qwen-32B-Japanese"));
    assert!(!Model::detect_moe("unsloth/DeepSeek-R1-Distill-Llama-8B"));
}

#[test]
fn detect_moe_false_for_r1_derivatives() {
    // R1 derivatives with a base model name are dense
    assert!(!Model::detect_moe("deepseek-ai/DeepSeek-R1-0528-Qwen3-8B"));
}

#[test]
fn detect_moe_true_for_r1_base() {
    // The base R1 models are MoE
    assert!(Model::detect_moe("deepseek-ai/DeepSeek-R1"));
    assert!(Model::detect_moe("deepseek-ai/DeepSeek-R1-0528"));
}

#[test]
fn detect_moe_false_for_arctic_embed() {
    // Arctic embedding models are not MoE
    assert!(!Model::detect_moe("Snowflake/snowflake-arctic-embed-l-v2.0"));
    assert!(!Model::detect_moe("Snowflake/snowflake-arctic-embed-m"));
    assert!(!Model::detect_moe("Snowflake/snowflake-arctic-embed-l"));
    // But arctic instruct is MoE
    assert!(Model::detect_moe("Snowflake/snowflake-arctic-instruct"));
}

#[test]
fn cheapest_picks_lowest_output_price() {
    let model = make_model(vec![
        make_provider("expensive", Some(10.0), Some(50.0)),
        make_provider("cheap", Some(1.0), Some(20.0)),
        make_provider("mid", Some(5.0), Some(100.0)),
    ]);
    let c = model.cheapest().expect("should find cheapest");
    assert_eq!(c.name, "cheap");
}

#[test]
fn cheapest_skips_providers_without_price() {
    let model = make_model(vec![
        make_provider("no-price", None, Some(200.0)),
        make_provider("has-price", Some(3.0), Some(10.0)),
    ]);
    let c = model.cheapest().expect("should find cheapest");
    assert_eq!(c.name, "has-price");
}

#[test]
fn cheapest_returns_none_when_no_prices() {
    let model = make_model(vec![
        make_provider("a", None, Some(50.0)),
        make_provider("b", None, Some(100.0)),
    ]);
    assert!(model.cheapest().is_none());
}

#[test]
fn fastest_picks_highest_throughput() {
    let model = make_model(vec![
        make_provider("slow", Some(1.0), Some(20.0)),
        make_provider("fast", Some(5.0), Some(200.0)),
        make_provider("mid", Some(3.0), Some(80.0)),
    ]);
    let f = model.fastest().expect("should find fastest");
    assert_eq!(f.name, "fast");
}

#[test]
fn fastest_returns_none_when_no_throughput() {
    let model = make_model(vec![
        make_provider("a", Some(1.0), None),
        make_provider("b", Some(2.0), None),
    ]);
    assert!(model.fastest().is_none());
}

#[test]
fn empty_providers() {
    let model = make_model(vec![]);
    assert!(model.cheapest().is_none());
    assert!(model.fastest().is_none());
    assert!(model.hot_providers().is_empty());
    assert!(model.with_tools().is_empty());
}

#[test]
fn param_hint_extracts_size() {
    assert_eq!(Model::param_hint("Meta-Llama-3-70B-Instruct"), Some("70B".to_string()));
    assert_eq!(Model::param_hint("Qwen-1.5B"), Some("1.5B".to_string()));
    assert_eq!(Model::param_hint("DeepSeek-R1"), None);
    assert_eq!(Model::param_hint("mixtral-8x7b"), Some("7B".to_string()));
}

#[test]
fn parse_param_hint_values() {
    assert_eq!(Model::parse_param_hint("70B"), Some(70_000_000_000));
    assert_eq!(Model::parse_param_hint("1.5B"), Some(1_500_000_000));
    assert_eq!(Model::parse_param_hint("8B"), Some(8_000_000_000));
    assert_eq!(Model::parse_param_hint("671B"), Some(671_000_000_000));
    assert_eq!(Model::parse_param_hint("0.3B"), Some(300_000_000));
    assert!(Model::parse_param_hint("").is_none());
    assert!(Model::parse_param_hint("xyz").is_none());
}

#[test]
fn estimated_params_prefers_safetensors() {
    let mut model = make_model(vec![]);
    model.id = "meta-llama/Llama-3.3-70B-Instruct".to_string();
    model.safetensors_params = Some(70_600_000_000);
    // Should use safetensors, not the hint
    assert_eq!(model.estimated_params(), Some(70_600_000_000));
}

#[test]
fn estimated_params_falls_back_to_hint() {
    let mut model = make_model(vec![]);
    model.id = "meta-llama/Llama-3.3-70B-Instruct".to_string();
    model.safetensors_params = None;
    // Should fall back to parsing "70B" from the name
    assert_eq!(model.estimated_params(), Some(70_000_000_000));
}

#[test]
fn estimated_params_none_when_no_hint() {
    let mut model = make_model(vec![]);
    model.id = "deepseek-ai/DeepSeek-R1".to_string();
    model.safetensors_params = None;
    // "DeepSeek-R1" has no param hint
    assert!(model.estimated_params().is_none());
}

#[test]
fn param_hint_looks_at_every_occurrence_of_a_size() {
    // The first "4B" is the tail of "34B", which is no known size; the second stands alone.
    assert_eq!(Model::param_hint("yi-34b-4b"), Some("4B".to_string()));
    assert_eq!(Model::param_hint_upper("YI-34B-4B"), Some("4B".to_string()));
    assert_eq!(Model::param_hint("97B-7B"), Some("7B".to_string()));
    assert_eq!(Model::param_hint("7Bx-97B-7B."), Some("7B".to_string()));
    assert_eq!(Model::param_hint("x97b-7bx-a7b"), Some("7B".to_string()));
    // A larger size that stands alone anywhere comes before a smaller one.
    assert_eq!(Model::param_hint("7b-170b-70b"), Some("70B".to_string()));
    assert_eq!(Model::param_hint("34b-44b-4bb"), None);
    let c = |s: &str| s.chars().collect::<Vec<char>>();
    assert!(token_stands(&c("YI-34B-4B"), &c("4B")));
    assert!(!token_stands(&c("YI-34B-44B"), &c("4B")));
    assert!(!token_stands(&c("YI"), &c("4B")));
    assert!(!token_stands(&c("B"), &c("4B")));
    assert!(!token_stands(&[], &c("4B")));
    assert!(token_stands(&c("4B"), &c("4B")));
    assert!(!token_stands_at(&c("YI-34B-4B"), &c("4B"), 4));
    assert!(token_stands_at(&c("YI-34B-4B"), &c("4B"), 7));
    assert!(!token_stands_at(&c("YI-34B-4B"), &c("4B"), 8));
    assert!(!token_stands_at(&c("YI-34B-4B"), &c("4B"), 100));
    assert!(token_stands_at(&c("4B-"), &c("4B"), 0));
    assert!(!token_stands_at(&c("4Bz"), &c("4B"), 0));
    assert!(token_stands_at(&c("\u{e9}4B\u{e9}"), &c("4B"), 1));
    // Name and tokens are compared as they are.
    assert_eq!(first_standing_token("YI-34B-4B", &["7B", "4B", "34B"]), Some(1));
    assert_eq!(first_standing_token("YI-34B-4B", &["34B", "4B"]), Some(0));
    assert_eq!(first_standing_token("YI-34B-4B", &["7B", "4b"]), None);
    assert_eq!(first_standing_token("yi-34b-4b", &["4b"]), Some(0));
    assert_eq!(first_standing_token("YI-34B-4B", &[]), None);
    assert_eq!(first_standing_token("", &["4B"]), None);
}

#[test]
fn param_hint_tries_the_sizes_from_the_largest() {
    // The larger sizes are tried first.
    assert_eq!(Model::param_hint("x-120b-12b-20b"), Some("120B".to_string()));
    assert_eq!(Model::param_hint("a-7b-b-70b"), Some("70B".to_string()));
    // A size behind a digit or before a letter or digit does not stand alone.
    assert_eq!(Model::param_hint("model-97B"), None);
    assert_eq!(Model::param_hint("model-7Bx"), None);
    assert_eq!(Model::param_hint("model-7B2"), None);
    assert_eq!(Model::param_hint("model-7B."), Some("7B".to_string()));
    assert_eq!(Model::param_hint("7B"), Some("7B".to_string()));
    assert_eq!(Model::param_hint("x7B"), Some("7B".to_string()));
    // "1.5B" hides in "21.5B", and "5B" is no known size.
    assert_eq!(Model::param_hint("model-21.5B"), None);
    // A decimal point is no digit: the "3B" of "0.3B" stands alone, and is tried first.
    assert_eq!(Model::param_hint("model-0.3b"), Some("3B".to_string()));
    assert_eq!(Model::param_hint("model-1.3b"), Some("3B".to_string()));
    assert_eq!(Model::param_hint("model-1.5b"), Some("1.5B".to_string()));
    // The name is already in upper case for the inner function.
    assert_eq!(Model::param_hint_upper("LLAMA-70B"), Some("70B".to_string()));
    assert_eq!(Model::param_hint_upper("llama-70b"), None);
    assert_eq!(Model::param_hint(""), None);
}

#[test]
fn parse_param_hint_grammar() {
    assert_eq!(Model::parse_param_hint(" 70b "), Some(70_000_000_000));
    assert_eq!(Model::parse_param_hint("\t300M\n"), Some(300_000_000));
    assert_eq!(Model::parse_param_hint("300m"), Some(300_000_000));
    assert_eq!(Model::parse_param_hint("1.5M"), Some(1_500_000));
    assert_eq!(Model::parse_param_hint("0.123456789B"), Some(123_456_789));
    // What lies behind the ninth decimal place of a billion is dropped.
    assert_eq!(Model::parse_param_hint("0.1234567899B"), Some(123_456_789));
    assert_eq!(Model::parse_param_hint("0.0000009M"), Some(0));
    assert_eq!(Model::parse_param_hint(".5B"), Some(500_000_000));
    assert_eq!(Model::parse_param_hint("5.B"), Some(5_000_000_000));
    assert_eq!(Model::parse_param_hint("007B"), Some(7_000_000_000));
    assert_eq!(Model::parse_param_hint("0B"), Some(0));
    assert_eq!(Model::parse_param_hint("B"), None);
    assert_eq!(Model::parse_param_hint(".B"), None);
    assert_eq!(Model::parse_param_hint("1.2.3B"), None);
    assert_eq!(Model::parse_param_hint("7"), None);
    assert_eq!(Model::parse_param_hint("7K"), None);
    assert_eq!(Model::parse_param_hint("7 B"), None);
    assert_eq!(Model::parse_param_hint("-7B"), None);
    assert_eq!(Model::parse_param_hint("7xB"), None);
    // The largest count stands for everything above it.
    assert_eq!(Model::parse_param_hint("18446744073B"), Some(18_446_744_073_000_000_000));
    assert_eq!(Model::parse_param_hint("18446744074B"), Some(u64::MAX));
    assert_eq!(Model::parse_param_hint("99999999999999999999999999999B"), Some(u64::MAX));
    assert_eq!(Model::parse_param_hint("18446744073709.551615M"), Some(u64::MAX));
    assert_eq!(Model::parse_param_hint("18446744073709.551614M"), Some(u64::MAX - 1));
    // The inner function takes the token as it is.
    assert_eq!(parse_size_token("70B"), Some(70_000_000_000));
    assert_eq!(parse_size_token("70b"), None);
    assert_eq!(parse_size_token(" 70B"), None);
    let trimmed: String = trim_chars(&" \u{a0}a b\u{3000}\r\n".chars().collect::<Vec<_>>())
        .into_iter()
        .collect();
    assert_eq!(trimmed, "a b");
    assert_eq!(trim_chars(&[' ', '\t']), Vec::<char>::new());
}

#[test]
fn fmt_params_forms() {
    assert_eq!(Model::fmt_params(70_600_000_000), "70.6B");
    assert_eq!(Model::fmt_params(8_000_000_000), "8.0B");
    assert_eq!(Model::fmt_params(671_000_000), "671M");
    assert_eq!(Model::fmt_params(671_000_000_000), "671B");
    assert_eq!(Model::fmt_params(1_500_000_000), "1.5B");
    assert_eq!(Model::fmt_params(100_000_000_000), "100B");
    assert_eq!(Model::fmt_params(99_960_000_000), "100.0B");
    assert_eq!(Model::fmt_params(99_940_000_000), "99.9B");
    assert_eq!(Model::fmt_params(1_000_000_000), "1.0B");
    assert_eq!(Model::fmt_params(999_999_999), "1000M");
    assert_eq!(Model::fmt_params(999_499_999), "999M");
    assert_eq!(Model::fmt_params(1_000_000), "1M");
    assert_eq!(Model::fmt_params(999_999), "1000K");
    assert_eq!(Model::fmt_params(125_000), "125K");
    assert_eq!(Model::fmt_params(1_499), "1K");
    assert_eq!(Model::fmt_params(0), "0K");
    // Halves go to the even neighbour.
    assert_eq!(Model::fmt_params(1_250_000_000), "1.2B");
    assert_eq!(Model::fmt_params(1_750_000_000), "1.8B");
    assert_eq!(Model::fmt_params(2_500_000), "2M");
    assert_eq!(Model::fmt_params(3_500_000), "4M");
    assert_eq!(Model::fmt_params(500), "0K");
    assert_eq!(Model::fmt_params(1_500), "2K");
    assert_eq!(Model::fmt_params(u64::MAX), "18446744074B");
}

#[test]
fn size_tokens_read_back_through_fmt_params() {
    let cases = [
        ("671B", 671_000_000_000u64, "671B"),
        ("405B", 405_000_000_000, "405B"),
        ("120B", 120_000_000_000, "120B"),
        ("70B", 70_000_000_000, "70.0B"),
        ("8B", 8_000_000_000, "8.0B"),
        ("1.5B", 1_500_000_000, "1.5B"),
        ("1.3B", 1_300_000_000, "1.3B"),
        ("1B", 1_000_000_000, "1.0B"),
        ("0.3B", 300_000_000, "300M"),
    ];
    for (token, count, text) in cases {
        assert_eq!(Model::parse_param_hint(token), Some(count), "{token}");
        assert_eq!(Model::fmt_params(count), text, "{token}");
        assert_eq!(Model::parse_param_hint(text), Some(count), "{token}");
    }
    for n in [1_000_000u64, 1_234_567, 999_999_999, 1_049_999_999, 70_649_999_999, 123_456_789_012] {
        let back = Model::parse_param_hint(&Model::fmt_params(n)).unwrap();
        let unit: u64 = if n >= 100_000_000_000 {
            1_000_000_000
        } else if n >= 1_000_000_000 {
            100_000_000
        } else {
            1_000_000
        };
        assert!(back.abs_diff(n) <= unit / 2, "{n} -> {back}");
    }
}

#[test]
fn cheapest_and_fastest_break_ties() {
    let model = make_model(vec![
        make_provider("a", Some(2.0), Some(50.0)),
        make_provider("b", Some(1.0), Some(80.0)),
        make_provider("c", Some(1.0), Some(80.0)),
        make_provider("d", None, None),
        make_provider("e", Some(3.0), Some(10.0)),
    ]);
    // Of several cheapest the first, of several fastest the last.
    assert_eq!(model.cheapest().unwrap().name, "b");
    assert_eq!(model.fastest().unwrap().name, "c");
}

#[test]
fn hot_and_tool_providers_keep_their_order() {
    let mut a = make_provider("a", Some(1.0), Some(10.0));
    a.supports_tools = Some(true);
    let mut b = make_provider("b", Some(1.0), None);
    b.supports_tools = None;
    let mut c = make_provider("c", None, Some(5.0));
    c.status = ProviderStatus::Staging;
    c.supports_tools = Some(true);
    let mut d = make_provider("d", None, Some(5.0));
    d.supports_tools = Some(false);
    let mut e = make_provider("e", None, None);
    e.latency_us = Some(1);
    e.supports_tools = Some(true);
    let model = make_model(vec![a, b, c, d, e]);
    let hot: Vec<&str> = model.hot_providers().iter().map(|p| p.name.as_str()).collect();
    assert_eq!(hot, ["a", "d"]);
    let tools: Vec<&str> = model.with_tools().iter().map(|p| p.name.as_str()).collect();
    assert_eq!(tools, ["a", "c", "e"]);
    let ready: Vec<Readiness> = model.providers.iter().map(|p| p.readiness()).collect();
    assert_eq!(
        ready,
        [
            Readiness::Hot,
            Readiness::Cold,
            Readiness::Unavailable,
            Readiness::Hot,
            Readiness::Warm
        ]
    );
}

#[test]
fn detect_moe_looks_at_the_lower_case_name() {
    assert!(Model::detect_moe_lower("mixtral"));
    assert!(!Model::detect_moe_lower("Mixtral"));
    assert!(Model::detect_moe("MIXTRAL"));
    // A count of experts needs digits on both sides of the "x" and a "b" behind.
    assert!(Model::detect_moe("model-8x7b"));
    assert!(!Model::detect_moe("model-8x7"));
    assert!(!Model::detect_moe("model-x7b"));
    assert!(!Model::detect_moe("model-8xb"));
    assert!(Model::detect_moe("8x1-and-a-b"));
    // A size followed by a count of experts.
    assert!(Model::detect_moe("llama-17b_16e"));
    assert!(Model::detect_moe("llama-17b-16e-it"));
    assert!(!Model::detect_moe("llama-17b-16ex"));
    assert!(!Model::detect_moe("llama-17b-e"));
    assert!(!Model::detect_moe("llama-17-16e"));
    // The base model of the R1 family may carry a date and an organisation in front.
    assert!(Model::detect_moe("deepseek-r1"));
    assert!(Model::detect_moe("deepseek-r1-0528-"));
    assert!(Model::detect_moe("deepseek-r1/x"));
    assert!(!Model::detect_moe("deepseek-r1-zero"));
    assert!(!Model::detect_moe("deepseek-r1-qwen/deepseek-r1-qwen"));
    assert!(Model::detect_moe("deepseek-r1-qwen/deepseek-r1"));
    assert!(!Model::detect_moe("mixtral-distill"));
    assert!(!Model::detect_moe(""));
}
