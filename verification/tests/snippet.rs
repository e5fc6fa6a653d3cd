use hf_providers::model::Model;
use hf_providers::provider::{ProviderInfo, ProviderStatus};
use hf_providers::snippet::{generate, generate_simple, lang_name, Lang};
use std::str::FromStr;

fn test_model() -> (Model, ProviderInfo) {
    let prov = ProviderInfo {
        name: "together".to_string(),
        status: ProviderStatus::Live,
        task: "conversational".to_string(),
        provider_id: "deepseek-ai/DeepSeek-R1".to_string(),
        input_price_per_m: Some(3_000_000),
        output_price_per_m: Some(7_000_000),
        throughput_mtok_s: Some(36_000),
        latency_us: Some(500_000),
        context_window: Some(32000),
        supports_tools: Some(false),
        supports_structured: Some(true),
    };
    let model = Model {
        id: "deepseek-ai/DeepSeek-R1".to_string(),
        pipeline_tag: Some("text-generation".to_string()),
        likes: 5000,
        downloads: 100000,
        inference_status: None,
        providers: vec![prov.clone()],
        variants: Vec::new(),
        tags: Vec::new(),
        library_name: None,
        license: None,
        safetensors_params: None,
    };
    let prov = model.providers[0].clone();
    (model, prov)
}

#[test]
fn python_snippet_contains_model_and_provider() {
    let (model, prov) = test_model();
    let code = generate(&model, &prov, Lang::Python);
    assert!(code.contains("deepseek-ai/DeepSeek-R1"), "must contain model id");
    assert!(code.contains("together"), "must contain provider name");
    assert!(code.contains("InferenceClient"), "must use HF client");
}

#[test]
fn curl_snippet_contains_model_and_auth() {
    let (model, prov) = test_model();
    let code = generate(&model, &prov, Lang::Curl);
    assert!(code.contains("deepseek-ai/DeepSeek-R1"), "must contain model id");
    assert!(code.contains("together"), "must contain provider name");
    assert!(code.contains("$HF_TOKEN"), "must reference token");
    assert!(code.contains("router.huggingface.co"), "must use HF router");
}

#[test]
fn javascript_snippet_contains_model_and_provider() {
    let (model, prov) = test_model();
    let code = generate(&model, &prov, Lang::Javascript);
    assert!(code.contains("deepseek-ai/DeepSeek-R1"), "must contain model id");
    assert!(code.contains("together"), "must contain provider name");
    assert!(code.contains("@huggingface/inference"), "must import HF package");
}

#[test]
fn snippets_in_full() {
    let python = generate_simple("org/m", "groq", Lang::Python);
    assert_eq!(
        python,
        "from huggingface_hub import InferenceClient\n\
         \n\
         client = InferenceClient(provider=\"groq\")\n\
         response = client.chat.completions.create(\n    \
         model=\"org/m\",\n    \
         messages=[{\"role\": \"user\", \"content\": \"Hello!\"}]\n\
         )\n\
         print(response.choices[0].message.content)"
    );
    let curl = generate_simple("org/m", "groq", Lang::Curl);
    assert_eq!(
        curl,
        "curl -X POST https://router.huggingface.co/v1/chat/completions \\\n  \
         -H \"Authorization: Bearer $HF_TOKEN\" \\\n  \
         -H \"Content-Type: application/json\" \\\n  \
         -d '{\"model\":\"org/m:groq\",\"messages\":[{\"role\":\"user\",\"content\":\"Hello!\"}]}'"
    );
    let js = generate_simple("org/m", "groq", Lang::Javascript);
    assert_eq!(
        js,
        "import { InferenceClient } from \"@huggingface/inference\";\n\
         \n\
         const client = new InferenceClient(process.env.HF_TOKEN);\n\
         const result = await client.chatCompletion({\n  \
         model: \"org/m\",\n  \
         provider: \"groq\",\n  \
         messages: [{ role: \"user\", content: \"Hello!\" }],\n\
         });\n\
         console.log(result.choices[0].message.content);"
    );
}

#[test]
fn languages_by_name() {
    assert_eq!(Lang::parse("python"), Ok(Lang::Python));
    assert_eq!(Lang::parse("py"), Ok(Lang::Python));
    assert_eq!(Lang::parse("PYTHON"), Ok(Lang::Python));
    assert_eq!(Lang::parse("curl"), Ok(Lang::Curl));
    assert_eq!(Lang::parse("Curl"), Ok(Lang::Curl));
    assert_eq!(Lang::parse("js"), Ok(Lang::Javascript));
    assert_eq!(Lang::parse("JavaScript"), Ok(Lang::Javascript));
    assert_eq!(Lang::parse("Rust"), Err("unknown lang: rust".to_string()));
    assert_eq!(Lang::parse(""), Err("unknown lang: ".to_string()));
    assert_eq!(Lang::parse(" py"), Err("unknown lang:  py".to_string()));
    assert_eq!(Lang::from_str("js"), Ok(Lang::Javascript));
    assert_eq!("curl".parse::<Lang>(), Ok(Lang::Curl));
    assert!("go".parse::<Lang>().is_err());
    assert_eq!(lang_name(Lang::Python), "python");
    assert_eq!(lang_name(Lang::Curl), "curl");
    assert_eq!(lang_name(Lang::Javascript), "javascript");
}
