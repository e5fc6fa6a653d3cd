//! Inference providers and what is known of a provider serving a model.
use vstd::prelude::*;

verus! {

/// Whether a provider's deployment of a model is announced as live.
#[derive(Debug, Clone, Copy, PartialEq, Eq, Structural)]
pub enum ProviderStatus {
    Live,
    Staging,
    Unknown,
}

/// What is known about a single provider serving a model.
#[derive(Debug)]
pub struct ProviderInfo {
    /// Name of the provider.
    pub name: String,
    /// Announced status of the deployment.
    pub status: ProviderStatus,
    /// Task that the deployment serves.
    pub task: String,
    /// Name of the model on the provider's side.
    pub provider_id: String,
    /// Price of a million input tokens, in millionths of a dollar.
    pub input_price_per_m: Option<u64>,
    /// Price of a million output tokens, in millionths of a dollar.
    pub output_price_per_m: Option<u64>,
    /// Measured throughput, in thousandths of a token per second.
    pub throughput_mtok_s: Option<u64>,
    /// Measured time to the first token, in microseconds.
    pub latency_us: Option<u64>,
    /// Context window, in tokens.
    pub context_window: Option<u64>,
    /// Whether tool calling is supported.
    pub supports_tools: Option<bool>,
    /// Whether structured output is supported.
    pub supports_structured: Option<bool>,
}

impl Clone for ProviderInfo {
    fn clone(&self) -> (r: Self)
        ensures
            r == *self,
    {
        ProviderInfo {
            name: self.name.clone(),
            status: self.status,
            task: self.task.clone(),
            provider_id: self.provider_id.clone(),
            input_price_per_m: self.input_price_per_m,
            output_price_per_m: self.output_price_per_m,
            throughput_mtok_s: self.throughput_mtok_s,
            latency_us: self.latency_us,
            context_window: self.context_window,
            supports_tools: self.supports_tools,
            supports_structured: self.supports_structured,
        }
    }
}

/// What a [`ProviderInfo`] states.
pub struct ProviderInfoView {
    pub name: Seq<char>,
    pub status: ProviderStatus,
    pub task: Seq<char>,
    pub provider_id: Seq<char>,
    pub input_price_per_m: Option<u64>,
    pub output_price_per_m: Option<u64>,
    pub throughput_mtok_s: Option<u64>,
    pub latency_us: Option<u64>,
    pub context_window: Option<u64>,
    pub supports_tools: Option<bool>,
    pub supports_structured: Option<bool>,
}

impl View for ProviderInfo {
    type V = ProviderInfoView;

    open spec fn view(&self) -> ProviderInfoView {
        ProviderInfoView {
            name: self.name@,
            status: self.status,
            task: self.task@,
            provider_id: self.provider_id@,
            input_price_per_m: self.input_price_per_m,
            output_price_per_m: self.output_price_per_m,
            throughput_mtok_s: self.throughput_mtok_s,
            latency_us: self.latency_us,
            context_window: self.context_window,
            supports_tools: self.supports_tools,
            supports_structured: self.supports_structured,
        }
    }
}

/// How ready a provider is to answer, from the most ready to the least.
#[derive(Debug, Clone, Copy, PartialEq, Eq, PartialOrd, Ord, Structural)]
pub enum Readiness {
    Hot,
    Warm,
    Cold,
    Unavailable,
}

impl Readiness {
    /// Position in the order from the most ready to the least.
    pub open spec fn rank_of(self) -> int {
        match self {
            Readiness::Hot => 0,
            Readiness::Warm => 1,
            Readiness::Cold => 2,
            Readiness::Unavailable => 3,
        }
    }

    /// The label under which the readiness is displayed.
    pub open spec fn label(self) -> Seq<char> {
        match self {
            Readiness::Hot => "\u{25cf} hot"@,
            Readiness::Warm => "\u{25d0} warm"@,
            Readiness::Cold => "\u{25cb} cold"@,
            Readiness::Unavailable => "\u{2717} unavail"@,
        }
    }

    /// Position in the order from the most ready to the least.
    pub fn rank(self) -> (r: u8)
        ensures
            r == self.rank_of(),
    {
        match self {
            Readiness::Hot => 0,
            Readiness::Warm => 1,
            Readiness::Cold => 2,
            Readiness::Unavailable => 3,
        }
    }

    /// The label under which the readiness is displayed.
    pub fn to_string(&self) -> (r: String)
        ensures
            r@ == self.label(),
    {
        match self {
            Readiness::Hot => "\u{25cf} hot".to_owned(),
            Readiness::Warm => "\u{25d0} warm".to_owned(),
            Readiness::Cold => "\u{25cb} cold".to_owned(),
            Readiness::Unavailable => "\u{2717} unavail".to_owned(),
        }
    }
}

impl ProviderInfo {
    /// The readiness that follows from the data: a deployment that is not
    /// live is unavailable; a live one is hot where both latency and
    /// throughput were measured, warm where one of them was, cold otherwise.
    pub open spec fn readiness_of(&self) -> Readiness {
        match self.status {
            ProviderStatus::Staging | ProviderStatus::Unknown => Readiness::Unavailable,
            ProviderStatus::Live => {
                if self.latency_us is Some && self.throughput_mtok_s is Some {
                    Readiness::Hot
                } else if self.latency_us is Some || self.throughput_mtok_s is Some {
                    Readiness::Warm
                } else {
                    Readiness::Cold
                }
            },
        }
    }

    /// Inferred readiness from available data.
    pub fn readiness(&self) -> (r: Readiness)
        ensures
            r == self.readiness_of(),
    {
        match self.status {
            ProviderStatus::Staging | ProviderStatus::Unknown => Readiness::Unavailable,
            ProviderStatus::Live => {
                if self.latency_us.is_some() && self.throughput_mtok_s.is_some() {
                    Readiness::Hot
                } else if self.latency_us.is_some() || self.throughput_mtok_s.is_some() {
                    Readiness::Warm
                } else {
                    Readiness::Cold
                }
            },
        }
    }
}

/// How a provider runs inference.
#[derive(Debug, Clone, Copy, PartialEq, Eq, Structural)]
pub enum ProviderKind {
    /// Third-party GPU backend routed through the hub.
    InferenceProvider,
    /// The hub's own CPU-based inference.
    HfInference,
}

/// Static provider registry entry.
#[derive(Debug, Clone, Copy)]
pub struct Provider {
    pub id: &'static str,
    pub display_name: &'static str,
    pub kind: ProviderKind,
}

/// The registry of providers: identifier, display name and kind of each.
pub open spec fn provider_table() -> Seq<(Seq<char>, Seq<char>, ProviderKind)> {
    seq![
        ("cerebras"@, "Cerebras"@, ProviderKind::InferenceProvider),
        ("cohere"@, "Cohere"@, ProviderKind::InferenceProvider),
        ("fal-ai"@, "fal"@, ProviderKind::InferenceProvider),
        ("featherless-ai"@, "Featherless"@, ProviderKind::InferenceProvider),
        ("fireworks-ai"@, "Fireworks"@, ProviderKind::InferenceProvider),
        ("groq"@, "Groq"@, ProviderKind::InferenceProvider),
        ("hyperbolic"@, "Hyperbolic"@, ProviderKind::InferenceProvider),
        ("nebius"@, "Nebius"@, ProviderKind::InferenceProvider),
        ("novita"@, "Novita"@, ProviderKind::InferenceProvider),
        ("nscale"@, "Nscale"@, ProviderKind::InferenceProvider),
        ("ovhcloud"@, "OVHcloud"@, ProviderKind::InferenceProvider),
        ("publicai"@, "Public AI"@, ProviderKind::InferenceProvider),
        ("replicate"@, "Replicate"@, ProviderKind::InferenceProvider),
        ("sambanova"@, "SambaNova"@, ProviderKind::InferenceProvider),
        ("scaleway"@, "Scaleway"@, ProviderKind::InferenceProvider),
        ("together"@, "Together AI"@, ProviderKind::InferenceProvider),
        ("wavespeed"@, "WaveSpeed"@, ProviderKind::InferenceProvider),
        ("zai-org"@, "Z.ai"@, ProviderKind::InferenceProvider),
        ("hf-inference"@, "HF Inference"@, ProviderKind::HfInference),
    ]
}

/// What a registry entry states.
pub open spec fn provider_row(p: Provider) -> (Seq<char>, Seq<char>, ProviderKind) {
    (p.id@, p.display_name@, p.kind)
}

/// The registry of providers.
pub fn providers() -> (r: Vec<Provider>)
    ensures
        r@.len() == provider_table().len(),
        forall|i: int| 0 <= i < r@.len() ==> provider_row(#[trigger] r@[i]) == provider_table()[i],
{
    let gpu = ProviderKind::InferenceProvider;
    let mut r: Vec<Provider> = Vec::new();
    r.push(Provider { id: "cerebras", display_name: "Cerebras", kind: gpu });
    r.push(Provider { id: "cohere", display_name: "Cohere", kind: gpu });
    r.push(Provider { id: "fal-ai", display_name: "fal", kind: gpu });
    r.push(Provider { id: "featherless-ai", display_name: "Featherless", kind: gpu });
    r.push(Provider { id: "fireworks-ai", display_name: "Fireworks", kind: gpu });
    r.push(Provider { id: "groq", display_name: "Groq", kind: gpu });
    r.push(Provider { id: "hyperbolic", display_name: "Hyperbolic", kind: gpu });
    r.push(Provider { id: "nebius", display_name: "Nebius", kind: gpu });
    r.push(Provider { id: "novita", display_name: "Novita", kind: gpu });
    r.push(Provider { id: "nscale", display_name: "Nscale", kind: gpu });
    r.push(Provider { id: "ovhcloud", display_name: "OVHcloud", kind: gpu });
    r.push(Provider { id: "publicai", display_name: "Public AI", kind: gpu });
    r.push(Provider { id: "replicate", display_name: "Replicate", kind: gpu });
    r.push(Provider { id: "sambanova", display_name: "SambaNova", kind: gpu });
    r.push(Provider { id: "scaleway", display_name: "Scaleway", kind: gpu });
    r.push(Provider { id: "together", display_name: "Together AI", kind: gpu });
    r.push(Provider { id: "wavespeed", display_name: "WaveSpeed", kind: gpu });
    r.push(Provider { id: "zai-org", display_name: "Z.ai", kind: gpu });
    r.push(
        Provider { id: "hf-inference", display_name: "HF Inference", kind: ProviderKind::HfInference },
    );
    r
}

} // verus!
