//! The model catalog: where to ask, and what its answers say.
use vstd::prelude::*;
use vstd::utf8::encode_utf8;
use crate::error::HfpError;
use crate::model::{text_of, Model, ModelVariant, ModelView};
use crate::provider::{ProviderInfo, ProviderInfoView, ProviderStatus};
use crate::text::{
    chars_of, decimal, decimal_chars, has_prefix, is_word, push_all, push_str, slice_chars,
    starts_with, string_of,
};

verus! {

/// The root of the catalog's interface.
pub const HF_API: &'static str = "https://huggingface.co/api";

/// What is asked for along with a model.
pub const MODEL_INFO_QUERY: &'static str =
    "?expand[]=inferenceProviderMapping&expand[]=inference&expand[]=tags&expand[]=cardData&expand[]=library_name&expand[]=likes&expand[]=downloads&expand[]=pipeline_tag";

/// What is asked for along with the results of a search.
pub const SEARCH_QUERY: &'static str = "&expand[]=inferenceProviderMapping&sort=likes&direction=-1";

/// What is asked for along with the trending models.
pub const TRENDING_QUERY: &'static str =
    "&expand[]=inferenceProviderMapping&expand[]=inference&expand[]=likes&expand[]=downloads&expand[]=pipeline_tag&expand[]=library_name&expand[]=tags";

/// A byte that stands for itself in a query: an ASCII letter or digit, a
/// hyphen, a point, an underscore or a tilde.
pub open spec fn unreserved(b: u8) -> bool {
    ||| (48 <= b && b <= 57)
    ||| (65 <= b && b <= 90)
    ||| (97 <= b && b <= 122)
    ||| b == 45
    ||| b == 46
    ||| b == 95
    ||| b == 126
}

/// The upper-case hexadecimal digit for `d`, which is below sixteen.
pub open spec fn hex_char(d: int) -> char {
    if d < 10 {
        ((48 + d) as u8) as char
    } else {
        ((55 + d) as u8) as char
    }
}

/// A byte as it stands in a query: itself where it is unreserved, else a
/// percent sign and its two hexadecimal digits.
pub open spec fn byte_encoded(b: u8) -> Seq<char> {
    if unreserved(b) {
        seq![b as char]
    } else {
        seq!['%', hex_char(b as int / 16), hex_char(b as int % 16)]
    }
}

/// The bytes as they stand in a query, one after the other.
pub open spec fn bytes_encoded(bytes: Seq<u8>) -> Seq<char>
    decreases bytes.len(),
{
    if bytes.len() == 0 {
        Seq::empty()
    } else {
        bytes_encoded(bytes.drop_last()) + byte_encoded(bytes.last())
    }
}

/// A text as it stands in a query: its UTF-8 bytes, percent-encoded.
pub open spec fn url_encoded(s: Seq<char>) -> Seq<char> {
    bytes_encoded(encode_utf8(s))
}

/// Taken on trust: `urlencoding::encode`. The crate percent-encodes every
/// byte of the text's UTF-8 form except ASCII letters and digits, `-`, `_`,
/// `.` and `~`, with upper-case hexadecimal digits. The contract claims just
/// that, in the words of [`url_encoded`].
#[verifier::external_body]
fn percent_encode(s: &str) -> (r: String)
    ensures
        r@ == url_encoded(s@),
{
    urlencoding::encode(s).into_owned()
}

/// The address under which a model is asked for.
pub open spec fn model_info_url_text(model_id: Seq<char>) -> Seq<char> {
    HF_API@ + "/models/"@ + model_id + MODEL_INFO_QUERY@
}

/// The address under which models are searched for.
pub open spec fn search_url_text(query: Seq<char>, limit: u32) -> Seq<char> {
    HF_API@ + "/models?search="@ + url_encoded(query) + "&limit="@ + decimal(limit as nat)
        + SEARCH_QUERY@
}

/// The address under which the trending models are asked for.
pub open spec fn trending_url_text(limit: u32) -> Seq<char> {
    HF_API@ + "/models?sort=trendingScore&direction=-1&limit="@ + decimal(limit as nat)
        + TRENDING_QUERY@
}

/// The address under which the models of a provider are asked for.
pub open spec fn provider_url_text(provider: Seq<char>, task: Option<Seq<char>>, limit: u32) -> Seq<
    char,
> {
    let base = HF_API@ + "/models?inference_provider="@ + provider + "&limit="@ + decimal(
        limit as nat,
    ) + "&sort=likes&direction=-1"@;
    match task {
        Some(t) => base + "&pipeline_tag="@ + t,
        None => base,
    }
}

/// The address under which a model is asked for with its provider mapping.
pub fn model_info_url(model_id: &str) -> (r: String)
    ensures
        r@ == model_info_url_text(model_id@),
{
    let mut out: Vec<char> = Vec::new();
    push_str(&mut out, HF_API);
    push_str(&mut out, "/models/");
    push_str(&mut out, model_id);
    push_str(&mut out, MODEL_INFO_QUERY);
    assert(out@ =~= model_info_url_text(model_id@));
    string_of(out.as_slice())
}

/// The address under which models are searched for by a free text.
pub fn search_url(query: &str, limit: u32) -> (r: String)
    ensures
        r@ == search_url_text(query@, limit),
{
    let mut out: Vec<char> = Vec::new();
    push_str(&mut out, HF_API);
    push_str(&mut out, "/models?search=");
    let encoded = percent_encode(query);
    push_str(&mut out, encoded.as_str());
    push_str(&mut out, "&limit=");
    let digits = decimal_chars(limit as u64);
    push_all(&mut out, digits.as_slice());
    push_str(&mut out, SEARCH_QUERY);
    assert(out@ =~= search_url_text(query@, limit));
    string_of(out.as_slice())
}

/// The address under which the top models by trending score are asked for.
pub fn trending_url(limit: u32) -> (r: String)
    ensures
        r@ == trending_url_text(limit),
{
    let mut out: Vec<char> = Vec::new();
    push_str(&mut out, HF_API);
    push_str(&mut out, "/models?sort=trendingScore&direction=-1&limit=");
    let digits = decimal_chars(limit as u64);
    push_all(&mut out, digits.as_slice());
    push_str(&mut out, TRENDING_QUERY);
    assert(out@ =~= trending_url_text(limit));
    string_of(out.as_slice())
}

/// The address under which the models that a provider serves are asked for.
pub fn provider_models_url(provider: &str, task: Option<&str>, limit: u32) -> (r: String)
    ensures
        r@ == provider_url_text(
            provider@,
            match task {
                Some(t) => Some(t@),
                None => None,
            },
            limit,
        ),
{
    let mut out: Vec<char> = Vec::new();
    push_str(&mut out, HF_API);
    push_str(&mut out, "/models?inference_provider=");
    push_str(&mut out, provider);
    push_str(&mut out, "&limit=");
    let digits = decimal_chars(limit as u64);
    push_all(&mut out, digits.as_slice());
    push_str(&mut out, "&sort=likes&direction=-1");
    match task {
        Some(t) => {
            push_str(&mut out, "&pipeline_tag=");
            push_str(&mut out, t);
            assert(out@ =~= provider_url_text(provider@, Some(t@), limit));
        },
        None => {
            assert(out@ =~= provider_url_text(provider@, None, limit));
        },
    }
    string_of(out.as_slice())
}

/// The value of the authorization header for a token.
pub fn auth_header(token: Option<&str>) -> (r: Option<String>)
    ensures
        match token {
            Some(t) => text_of(r) == Some("Bearer "@ + t@),
            None => r is None,
        },
{
    match token {
        Some(t) => {
            let mut out: Vec<char> = Vec::new();
            push_str(&mut out, "Bearer ");
            push_str(&mut out, t);
            Some(string_of(out.as_slice()))
        },
        None => None,
    }
}

/// What the status of an answer means.
#[derive(Debug, Clone, Copy, PartialEq, Eq, Structural)]
pub enum Outcome {
    /// The answer holds what was asked for.
    Success,
    /// A single model was asked for and the catalog has none under the
    /// identifier.
    NotFound,
    /// The catalog reports an error.
    Failure,
}

/// What a status means. A status of 404 means that the model is not there
/// only where a single model was asked for.
pub open spec fn outcome_of(status: u16, lookup: bool) -> Outcome {
    if lookup && status == 404 {
        Outcome::NotFound
    } else if 200 <= status && status <= 299 {
        Outcome::Success
    } else {
        Outcome::Failure
    }
}

/// What the status of an answer means; `lookup` tells that a single model
/// was asked for.
pub fn classify_status(status: u16, lookup: bool) -> (r: Outcome)
    ensures
        r == outcome_of(status, lookup),
{
    if lookup && status == 404 {
        Outcome::NotFound
    } else if 200 <= status && status <= 299 {
        Outcome::Success
    } else {
        Outcome::Failure
    }
}

/// The error that an answer stands for, if any: with a status of 404 to
/// the question for a single model, that there is no such model; with any
/// other status that is no success, the status and the body of the answer.
pub fn response_error(status: u16, lookup: Option<&str>, body: String) -> (r: Option<HfpError>)
    ensures
        match outcome_of(status, lookup is Some) {
            Outcome::Success => r is None,
            Outcome::NotFound => r matches Some(HfpError::ModelNotFound(id)) && lookup
                matches Some(asked) && id@ == asked@,
            Outcome::Failure => r == Some(HfpError::Api { status, body }),
        },
{
    match lookup {
        Some(id) => {
            if status == 404 {
                return Some(HfpError::ModelNotFound(id.to_owned()));
            }
        },
        None => {},
    }
    if 200 <= status && status <= 299 {
        None
    } else {
        Some(HfpError::Api { status, body })
    }
}

/// What the catalog says of one provider of a model, as it stands in the
/// answer.
#[derive(Debug)]
pub struct RawProvider {
    pub provider: Option<String>,
    pub status: Option<String>,
    pub task: Option<String>,
    pub provider_id: Option<String>,
    /// Price of a million input tokens, in millionths of a dollar.
    pub input_price: Option<u64>,
    /// Price of a million output tokens, in millionths of a dollar.
    pub output_price: Option<u64>,
    /// Tokens per second, in thousandths.
    pub tokens_per_second: Option<u64>,
    /// Latency of the first token, in microseconds.
    pub first_token_latency: Option<u64>,
    pub context_length: Option<u64>,
    pub tool_calling: Option<bool>,
    pub structured_output: Option<bool>,
}

/// The provider mapping of an answer.
#[derive(Debug)]
pub enum RawMapping {
    /// There is none, or it has neither of the two forms.
    Missing,
    /// The form of the search results: a list of entries, each naming its
    /// provider, with prices and measurements.
    List(Vec<RawProvider>),
    /// The form of a single model's answer: entries under the providers'
    /// names, with status and task only.
    Keyed(Vec<(String, RawProvider)>),
}

/// What the catalog says of a model, as it stands in the answer.
#[derive(Debug)]
pub struct RawModel {
    pub id: Option<String>,
    pub pipeline_tag: Option<String>,
    pub likes: Option<u64>,
    pub downloads: Option<u64>,
    pub inference: Option<String>,
    pub mapping: RawMapping,
    /// The tags that are texts.
    pub tags: Vec<String>,
    pub library_name: Option<String>,
    /// The license named on the model's card.
    pub card_license: Option<String>,
    /// The measured parameter count.
    pub safetensors_total: Option<u64>,
}

/// The status that a word of the catalog stands for.
pub open spec fn status_named(word: Option<Seq<char>>) -> ProviderStatus {
    match word {
        Some(w) => if w == "live"@ {
            ProviderStatus::Live
        } else if w == "staging"@ {
            ProviderStatus::Staging
        } else {
            ProviderStatus::Unknown
        },
        None => ProviderStatus::Unknown,
    }
}

/// The text, or the empty text where there is none.
pub open spec fn text_or_empty(s: Option<String>) -> Seq<char> {
    match s {
        Some(t) => t@,
        None => Seq::empty(),
    }
}

/// The provider of an entry of the list form; none where the entry does not
/// name its provider.
pub open spec fn listed_provider(e: RawProvider) -> Option<ProviderInfoView> {
    match e.provider {
        Some(name) => Some(
            ProviderInfoView {
                name: name@,
                status: status_named(text_of(e.status)),
                task: text_or_empty(e.task),
                provider_id: text_or_empty(e.provider_id),
                input_price_per_m: e.input_price,
                output_price_per_m: e.output_price,
                throughput_mtok_s: e.tokens_per_second,
                latency_us: e.first_token_latency,
                context_window: e.context_length,
                supports_tools: e.tool_calling,
                supports_structured: e.structured_output,
            },
        ),
        None => None,
    }
}

/// The provider of an entry of the keyed form: name, status, task and the
/// provider's name for the model, and nothing else.
pub open spec fn keyed_provider(name: String, e: RawProvider) -> ProviderInfoView {
    ProviderInfoView {
        name: name@,
        status: status_named(text_of(e.status)),
        task: text_or_empty(e.task),
        provider_id: text_or_empty(e.provider_id),
        input_price_per_m: None,
        output_price_per_m: None,
        throughput_mtok_s: None,
        latency_us: None,
        context_window: None,
        supports_tools: None,
        supports_structured: None,
    }
}

/// The providers of a list, in its order.
pub open spec fn listed_providers(entries: Seq<RawProvider>) -> Seq<ProviderInfoView>
    decreases entries.len(),
{
    if entries.len() == 0 {
        Seq::empty()
    } else {
        let rest = listed_providers(entries.drop_last());
        match listed_provider(entries.last()) {
            Some(p) => rest.push(p),
            None => rest,
        }
    }
}

/// The providers of a mapping.
pub open spec fn mapped_providers(mapping: RawMapping) -> Seq<ProviderInfoView> {
    match mapping {
        RawMapping::Missing => Seq::empty(),
        RawMapping::List(entries) => listed_providers(entries@),
        RawMapping::Keyed(entries) => Seq::new(
            entries@.len(),
            |i: int| keyed_provider(entries@[i].0, entries@[i].1),
        ),
    }
}

/// The license that the first tag of the form "license:..." from `from` on
/// names.
pub open spec fn tagged_license(tags: Seq<String>, from: int) -> Option<Seq<char>>
    decreases tags.len() - from,
{
    if from < 0 || from >= tags.len() {
        None
    } else if starts_with(tags[from]@, "license:"@) {
        Some(tags[from]@.skip("license:"@.len() as int))
    } else {
        tagged_license(tags, from + 1)
    }
}

/// The model that an answer describes; none where the answer has no
/// identifier. Likes and downloads count as zero where they are missing, and
/// the license is the one on the card, else the one that a tag names.
pub open spec fn model_of(raw: RawModel) -> Option<ModelView> {
    match raw.id {
        None => None,
        Some(id) => Some(
            ModelView {
                id: id@,
                pipeline_tag: text_of(raw.pipeline_tag),
                likes: match raw.likes {
                    Some(n) => n,
                    None => 0,
                },
                downloads: match raw.downloads {
                    Some(n) => n,
                    None => 0,
                },
                inference_status: text_of(raw.inference),
                providers: mapped_providers(raw.mapping),
                variants: Seq::empty(),
                tags: Seq::new(raw.tags@.len(), |i: int| raw.tags@[i]@),
                library_name: text_of(raw.library_name),
                license: match raw.card_license {
                    Some(l) => Some(l@),
                    None => tagged_license(raw.tags@, 0),
                },
                safetensors_params: raw.safetensors_total,
            },
        ),
    }
}

/// What an optional model states.
pub open spec fn model_view_of(m: Option<Model>) -> Option<ModelView> {
    match m {
        Some(x) => Some(x@),
        None => None,
    }
}

/// The views of a sequence of providers.
pub open spec fn provider_views(ps: Seq<ProviderInfo>) -> Seq<ProviderInfoView> {
    Seq::new(ps.len(), |i: int| ps[i]@)
}

/// A copy of an optional string.
fn copy_text(s: &Option<String>) -> (r: Option<String>)
    ensures
        r == *s,
{
    match s {
        Some(t) => Some(t.clone()),
        None => None,
    }
}

/// A copy of an optional string, or the empty string.
fn copy_or_empty(s: &Option<String>) -> (r: String)
    ensures
        r@ == text_or_empty(*s),
{
    match s {
        Some(t) => t.clone(),
        None => String::new(),
    }
}

/// The status that a word of the catalog stands for.
pub fn parse_status(word: &Option<String>) -> (r: ProviderStatus)
    ensures
        r == status_named(text_of(*word)),
{
    match word {
        Some(w) => {
            let c = chars_of(w.as_str());
            if is_word(c.as_slice(), "live") {
                ProviderStatus::Live
            } else if is_word(c.as_slice(), "staging") {
                ProviderStatus::Staging
            } else {
                ProviderStatus::Unknown
            }
        },
        None => ProviderStatus::Unknown,
    }
}

/// The providers of a mapping.
fn providers_of(mapping: &RawMapping) -> (r: Vec<ProviderInfo>)
    ensures
        provider_views(r@) == mapped_providers(*mapping),
{
    let mut out: Vec<ProviderInfo> = Vec::new();
    assert(provider_views(out@) =~= Seq::<ProviderInfoView>::empty());
    match mapping {
        RawMapping::Missing => {},
        RawMapping::List(entries) => {
            let mut i: usize = 0;
            assert(entries@.take(0) =~= Seq::<RawProvider>::empty());
            while i < entries.len()
                invariant
                    i <= entries.len(),
                    provider_views(out@) == listed_providers(entries@.take(i as int)),
                decreases entries.len() - i,
            {
                proof {
                    assert(entries@.take(i + 1).drop_last() == entries@.take(i as int));
                    assert(entries@.take(i + 1).last() == entries@[i as int]);
                }
                let e = &entries[i];
                if let Some(name) = &e.provider {
                    let ghost before = provider_views(out@);
                    out.push(
                        ProviderInfo {
                            name: name.clone(),
                            status: parse_status(&e.status),
                            task: copy_or_empty(&e.task),
                            provider_id: copy_or_empty(&e.provider_id),
                            input_price_per_m: e.input_price,
                            output_price_per_m: e.output_price,
                            throughput_mtok_s: e.tokens_per_second,
                            latency_us: e.first_token_latency,
                            context_window: e.context_length,
                            supports_tools: e.tool_calling,
                            supports_structured: e.structured_output,
                        },
                    );
                    assert(provider_views(out@) =~= before.push(listed_provider(*e)->0));
                }
                i += 1;
            }
            assert(entries@.take(entries@.len() as int) == entries@);
        },
        RawMapping::Keyed(entries) => {
            let mut i: usize = 0;
            while i < entries.len()
                invariant
                    i <= entries.len(),
                    out@.len() == i,
                    forall|k: int|
                        0 <= k < i ==> (#[trigger] out@[k])@ == keyed_provider(
                            entries@[k].0,
                            entries@[k].1,
                        ),
                decreases entries.len() - i,
            {
                let e = &entries[i].1;
                out.push(
                    ProviderInfo {
                        name: entries[i].0.clone(),
                        status: parse_status(&e.status),
                        task: copy_or_empty(&e.task),
                        provider_id: copy_or_empty(&e.provider_id),
                        input_price_per_m: None,
                        output_price_per_m: None,
                        throughput_mtok_s: None,
                        latency_us: None,
                        context_window: None,
                        supports_tools: None,
                        supports_structured: None,
                    },
                );
                i += 1;
            }
            assert(provider_views(out@) =~= mapped_providers(*mapping));
        },
    }
    out
}

/// The license that a tag names.
fn license_from_tags(tags: &Vec<String>) -> (r: Option<String>)
    ensures
        text_of(r) == tagged_license(tags@, 0),
{
    let word = chars_of("license:");
    let mut i: usize = 0;
    while i < tags.len()
        invariant
            i <= tags.len(),
            word@ == "license:"@,
            tagged_license(tags@, 0) == tagged_license(tags@, i as int),
        decreases tags.len() - i,
    {
        let tag = chars_of(tags[i].as_str());
        if has_prefix(tag.as_slice(), word.as_slice()) {
            let rest = slice_chars(tag.as_slice(), word.len(), tag.len());
            assert(rest@ == tags@[i as int]@.skip(word@.len() as int));
            return Some(string_of(rest.as_slice()));
        }
        i += 1;
    }
    None
}

/// Reads what the catalog says of a model. There is no model where the
/// answer has no identifier. Of the list form of the provider mapping the
/// entries that do not name their provider are left out.
pub fn parse_model(raw: &RawModel) -> (r: Option<Model>)
    ensures
        model_view_of(r) == model_of(*raw),
{
    let id = match &raw.id {
        Some(id) => id.clone(),
        None => {
            return None;
        },
    };
    let providers = providers_of(&raw.mapping);
    let mut tags: Vec<String> = Vec::new();
    let mut i: usize = 0;
    while i < raw.tags.len()
        invariant
            i <= raw.tags.len(),
            tags@.len() == i,
            forall|k: int| 0 <= k < i ==> (#[trigger] tags@[k])@ == raw.tags@[k]@,
        decreases raw.tags.len() - i,
    {
        tags.push(raw.tags[i].clone());
        i += 1;
    }
    let license = match &raw.card_license {
        Some(l) => Some(l.clone()),
        None => license_from_tags(&raw.tags),
    };
    let variants: Vec<ModelVariant> = Vec::new();
    let m = Model {
        id,
        pipeline_tag: copy_text(&raw.pipeline_tag),
        likes: match raw.likes {
            Some(n) => n,
            None => 0,
        },
        downloads: match raw.downloads {
            Some(n) => n,
            None => 0,
        },
        inference_status: copy_text(&raw.inference),
        providers,
        variants,
        tags,
        library_name: copy_text(&raw.library_name),
        license,
        safetensors_params: raw.safetensors_total,
    };
    proof {
        let want = model_of(*raw)->0;
        assert(m@.providers =~= want.providers);
        assert(m@.variants =~= want.variants);
        assert(m@.tags =~= want.tags);
    }
    Some(m)
}

} // verus!
