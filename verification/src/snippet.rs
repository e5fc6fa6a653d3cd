//! Code snippets that call a model through a provider.
use vstd::prelude::*;
use crate::model::Model;
use crate::provider::ProviderInfo;
use crate::text::{
    ascii_lower_chars, ascii_lowered, chars_of, contains, is_word, lemma_contains, matches_at,
    push_all, push_str, string_of,
};

verus! {

/// The language of a snippet.
#[derive(Debug, Clone, Copy, PartialEq, Eq, Structural)]
pub enum Lang {
    Python,
    Curl,
    Javascript,
}

/// The opening of the Python snippet, up to the provider's name.
pub const PYTHON_HEAD: &'static str =
    "from huggingface_hub import InferenceClient\n\nclient = InferenceClient(provider=\"";

/// The part of the Python snippet between the provider's name and the
/// model's identifier.
pub const PYTHON_MID: &'static str =
    "\")\nresponse = client.chat.completions.create(\n    model=\"";

/// The end of the Python snippet.
pub const PYTHON_TAIL: &'static str =
    "\",\n    messages=[{\"role\": \"user\", \"content\": \"Hello!\"}]\n)\nprint(response.choices[0].message.content)";

/// The opening of the curl snippet, up to the model's identifier.
pub const CURL_HEAD: &'static str =
    "curl -X POST https://router.huggingface.co/v1/chat/completions \\\n  -H \"Authorization: Bearer $HF_TOKEN\" \\\n  -H \"Content-Type: application/json\" \\\n  -d '{\"model\":\"";

/// What stands between the model's identifier and the provider's name in
/// the curl snippet.
pub const CURL_MID: &'static str = ":";

/// The end of the curl snippet.
pub const CURL_TAIL: &'static str =
    "\",\"messages\":[{\"role\":\"user\",\"content\":\"Hello!\"}]}'";

/// The opening of the JavaScript snippet, up to the model's identifier.
pub const JS_HEAD: &'static str =
    "import { InferenceClient } from \"@huggingface/inference\";\n\nconst client = new InferenceClient(process.env.HF_TOKEN);\nconst result = await client.chatCompletion({\n  model: \"";

/// The part of the JavaScript snippet between the model's identifier and
/// the provider's name.
pub const JS_MID: &'static str = "\",\n  provider: \"";

/// The end of the JavaScript snippet.
pub const JS_TAIL: &'static str =
    "\",\n  messages: [{ role: \"user\", content: \"Hello!\" }],\n});\nconsole.log(result.choices[0].message.content);";

/// The language that a name in lower case stands for.
pub open spec fn lang_named(lower: Seq<char>) -> Option<Lang> {
    if lower == "python"@ || lower == "py"@ {
        Some(Lang::Python)
    } else if lower == "curl"@ {
        Some(Lang::Curl)
    } else if lower == "js"@ || lower == "javascript"@ {
        Some(Lang::Javascript)
    } else {
        None
    }
}

/// The text of the snippet for a model, a provider and a language.
pub open spec fn snippet_text(model_id: Seq<char>, provider: Seq<char>, lang: Lang) -> Seq<char> {
    match lang {
        Lang::Python => PYTHON_HEAD@ + provider + PYTHON_MID@ + model_id + PYTHON_TAIL@,
        Lang::Curl => CURL_HEAD@ + model_id + CURL_MID@ + provider + CURL_TAIL@,
        Lang::Javascript => JS_HEAD@ + model_id + JS_MID@ + provider + JS_TAIL@,
    }
}

impl Lang {
    /// The name of the language.
    pub open spec fn name(self) -> Seq<char> {
        match self {
            Lang::Python => "python"@,
            Lang::Curl => "curl"@,
            Lang::Javascript => "javascript"@,
        }
    }

    /// Reads the name of a language, whatever the case of its ASCII
    /// letters: "python" or "py", "curl", "javascript" or "js". Any other
    /// name is an error, whose message quotes the name in lower case.
    pub fn parse(s: &str) -> (r: Result<Lang, String>)
        ensures
            match r {
                Ok(lang) => lang_named(ascii_lowered(s@)) == Some(lang),
                Err(msg) => lang_named(ascii_lowered(s@)) is None && msg@ == "unknown lang: "@
                    + ascii_lowered(s@),
            },
    {
        let text = chars_of(s);
        let lower = ascii_lower_chars(text.as_slice());
        if is_word(lower.as_slice(), "python") || is_word(lower.as_slice(), "py") {
            Ok(Lang::Python)
        } else if is_word(lower.as_slice(), "curl") {
            Ok(Lang::Curl)
        } else if is_word(lower.as_slice(), "js") || is_word(lower.as_slice(), "javascript") {
            Ok(Lang::Javascript)
        } else {
            let mut msg: Vec<char> = Vec::new();
            push_str(&mut msg, "unknown lang: ");
            push_all(&mut msg, lower.as_slice());
            Err(string_of(msg.as_slice()))
        }
    }
}

impl std::str::FromStr for Lang {
    type Err = String;

    /// Reads the name of a language as [`Lang::parse`] does.
    fn from_str(s: &str) -> (r: Result<Self, String>)
        ensures
            match r {
                Ok(lang) => lang_named(ascii_lowered(s@)) == Some(lang),
                Err(msg) => lang_named(ascii_lowered(s@)) is None && msg@ == "unknown lang: "@
                    + ascii_lowered(s@),
            },
    {
        Lang::parse(s)
    }
}

/// The name under which a language is listed.
pub fn lang_name(l: Lang) -> (r: &'static str)
    ensures
        r@ == l.name(),
{
    match l {
        Lang::Python => "python",
        Lang::Curl => "curl",
        Lang::Javascript => "javascript",
    }
}

/// Generates a snippet from the identifier of a model and the name of a
/// provider.
pub fn generate_simple(model_id: &str, provider_name: &str, lang: Lang) -> (r: String)
    ensures
        r@ == snippet_text(model_id@, provider_name@, lang),
{
    let mut out: Vec<char> = Vec::new();
    match lang {
        Lang::Python => {
            push_str(&mut out, PYTHON_HEAD);
            push_str(&mut out, provider_name);
            push_str(&mut out, PYTHON_MID);
            push_str(&mut out, model_id);
            push_str(&mut out, PYTHON_TAIL);
        },
        Lang::Curl => {
            push_str(&mut out, CURL_HEAD);
            push_str(&mut out, model_id);
            push_str(&mut out, CURL_MID);
            push_str(&mut out, provider_name);
            push_str(&mut out, CURL_TAIL);
        },
        Lang::Javascript => {
            push_str(&mut out, JS_HEAD);
            push_str(&mut out, model_id);
            push_str(&mut out, JS_MID);
            push_str(&mut out, provider_name);
            push_str(&mut out, JS_TAIL);
        },
    }
    assert(out@ =~= snippet_text(model_id@, provider_name@, lang));
    string_of(out.as_slice())
}

/// Generates the snippet that calls `model` through `provider`.
pub fn generate(model: &Model, provider: &ProviderInfo, lang: Lang) -> (r: String)
    ensures
        r@ == snippet_text(model.id@, provider.name@, lang),
{
    generate_simple(model.id.as_str(), provider.name.as_str(), lang)
}

/// `mid` stands in `head + mid + tail` right after `head`.
proof fn lemma_part_occurs(head: Seq<char>, mid: Seq<char>, tail: Seq<char>)
    ensures
        contains(head + mid + tail, mid),
{
    let whole = head + mid + tail;
    assert(whole.subrange(head.len() as int, (head.len() + mid.len()) as int) =~= mid);
    assert(matches_at(whole, mid, head.len() as int));
    lemma_contains(whole, mid);
}

/// Every snippet names the model and the provider.
pub proof fn lemma_snippet_names_both(model_id: Seq<char>, provider: Seq<char>, lang: Lang)
    ensures
        contains(snippet_text(model_id, provider, lang), model_id),
        contains(snippet_text(model_id, provider, lang), provider),
{
    match lang {
        Lang::Python => {
            lemma_part_occurs(PYTHON_HEAD@, provider, PYTHON_MID@ + model_id + PYTHON_TAIL@);
            lemma_part_occurs(PYTHON_HEAD@ + provider + PYTHON_MID@, model_id, PYTHON_TAIL@);
            assert(PYTHON_HEAD@ + provider + (PYTHON_MID@ + model_id + PYTHON_TAIL@)
                =~= snippet_text(model_id, provider, lang));
        },
        Lang::Curl => {
            lemma_part_occurs(CURL_HEAD@, model_id, CURL_MID@ + provider + CURL_TAIL@);
            lemma_part_occurs(CURL_HEAD@ + model_id + CURL_MID@, provider, CURL_TAIL@);
            assert(CURL_HEAD@ + model_id + (CURL_MID@ + provider + CURL_TAIL@) =~= snippet_text(
                model_id,
                provider,
                lang,
            ));
        },
        Lang::Javascript => {
            lemma_part_occurs(JS_HEAD@, model_id, JS_MID@ + provider + JS_TAIL@);
            lemma_part_occurs(JS_HEAD@ + model_id + JS_MID@, provider, JS_TAIL@);
            assert(JS_HEAD@ + model_id + (JS_MID@ + provider + JS_TAIL@) =~= snippet_text(
                model_id,
                provider,
                lang,
            ));
        },
    }
}

} // verus!
