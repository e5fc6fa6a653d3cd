//! Curated reference models, spanning the sizes that show what a device can
//! and cannot run.
use vstd::prelude::*;

verus! {

/// A reference model: identifier, short name and parameter count.
#[derive(Debug, Clone, Copy)]
pub struct RefModel {
    pub id: &'static str,
    pub short: &'static str,
    pub params: u64,
}

/// The reference models, from the smallest to the largest: identifier, short
/// name and parameter count of each.
pub open spec fn reference_table() -> Seq<(Seq<char>, Seq<char>, u64)> {
    seq![
        ("google/gemma-3-4b-it"@, "Gemma 3 4B"@, 4_000_000_000u64),
        ("Qwen/Qwen2.5-7B-Instruct"@, "Qwen 2.5 7B"@, 7_600_000_000u64),
        ("meta-llama/Llama-3.1-8B-Instruct"@, "Llama 3.1 8B"@, 8_030_000_000u64),
        ("mistralai/Mistral-Small-24B-Instruct-2501"@, "Mistral Small 24B"@, 24_000_000_000u64),
        ("google/gemma-3-27b-it"@, "Gemma 3 27B"@, 27_400_000_000u64),
        ("Qwen/Qwen2.5-Coder-32B-Instruct"@, "Qwen 2.5 Coder 32B"@, 32_500_000_000u64),
        ("meta-llama/Llama-3.3-70B-Instruct"@, "Llama 3.3 70B"@, 70_600_000_000u64),
        ("Qwen/Qwen2.5-72B-Instruct"@, "Qwen 2.5 72B"@, 72_700_000_000u64),
        ("meta-llama/Llama-3.1-405B-Instruct"@, "Llama 3.1 405B"@, 405_000_000_000u64),
        ("deepseek-ai/DeepSeek-R1"@, "DeepSeek R1 671B"@, 671_000_000_000u64),
    ]
}

/// What a reference entry states.
pub open spec fn reference_row(m: RefModel) -> (Seq<char>, Seq<char>, u64) {
    (m.id@, m.short@, m.params)
}

/// The reference models, in ascending order of size.
pub fn reference_models() -> (r: Vec<RefModel>)
    ensures
        r@.len() == reference_table().len(),
        forall|i: int|
            0 <= i < r@.len() ==> reference_row(#[trigger] r@[i]) == reference_table()[i],
        forall|i: int, j: int| 0 <= i <= j < r@.len() ==> r@[i].params <= r@[j].params,
        forall|i: int| 0 <= i < r@.len() ==> r@[i].params >= 1_000_000_000,
{
    let mut r: Vec<RefModel> = Vec::new();
    r.push(RefModel { id: "google/gemma-3-4b-it", short: "Gemma 3 4B", params: 4_000_000_000 });
    r.push(
        RefModel { id: "Qwen/Qwen2.5-7B-Instruct", short: "Qwen 2.5 7B", params: 7_600_000_000 },
    );
    r.push(
        RefModel {
            id: "meta-llama/Llama-3.1-8B-Instruct",
            short: "Llama 3.1 8B",
            params: 8_030_000_000,
        },
    );
    r.push(
        RefModel {
            id: "mistralai/Mistral-Small-24B-Instruct-2501",
            short: "Mistral Small 24B",
            params: 24_000_000_000,
        },
    );
    r.push(RefModel { id: "google/gemma-3-27b-it", short: "Gemma 3 27B", params: 27_400_000_000 });
    r.push(
        RefModel {
            id: "Qwen/Qwen2.5-Coder-32B-Instruct",
            short: "Qwen 2.5 Coder 32B",
            params: 32_500_000_000,
        },
    );
    r.push(
        RefModel {
            id: "meta-llama/Llama-3.3-70B-Instruct",
            short: "Llama 3.3 70B",
            params: 70_600_000_000,
        },
    );
    r.push(
        RefModel {
            id: "Qwen/Qwen2.5-72B-Instruct",
            short: "Qwen 2.5 72B",
            params: 72_700_000_000,
        },
    );
    r.push(
        RefModel {
            id: "meta-llama/Llama-3.1-405B-Instruct",
            short: "Llama 3.1 405B",
            params: 405_000_000_000,
        },
    );
    r.push(
        RefModel {
            id: "deepseek-ai/DeepSeek-R1",
            short: "DeepSeek R1 671B",
            params: 671_000_000_000,
        },
    );
    r
}

} // verus!
