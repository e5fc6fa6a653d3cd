//! Models of the catalog: their providers, their size, and what their names
//! tell about them.
use vstd::prelude::*;
use crate::estimate::{sat_div, weight_mb_of, Quant};
use crate::provider::{ProviderInfo, ProviderInfoView, Readiness};
use crate::text::{
    all_digits, char_is_alnum, char_is_digit, chars_of, contains, decimal, digit_char,
    digits_value, find, find_from, find_in, find_in_from, fixed, fixed_chars, has_sub, is_alnum,
    is_digit, is_match_at, lemma_decimal_reads_back, lemma_digits_value_concat, lemma_first_point,
    lemma_round_div_is_near, lowercase_of, matches_at, padded_decimal, pow10, rfind, rfind_in,
    round_div, slice_chars, string_of, uppercase_of,
};

verus! {

/// Another model of the same family.
#[derive(Debug)]
pub struct ModelVariant {
    pub id: String,
    pub pipeline_tag: Option<String>,
    pub likes: u64,
    pub provider_count: usize,
    pub param_hint: Option<String>,
}

/// A model of the catalog.
#[derive(Debug)]
pub struct Model {
    /// Identifier, of the form organisation/name.
    pub id: String,
    pub pipeline_tag: Option<String>,
    pub likes: u64,
    pub downloads: u64,
    pub inference_status: Option<String>,
    /// The providers that serve the model.
    pub providers: Vec<ProviderInfo>,
    pub variants: Vec<ModelVariant>,
    pub tags: Vec<String>,
    pub library_name: Option<String>,
    pub license: Option<String>,
    /// The measured parameter count, where the catalog has one.
    pub safetensors_params: Option<u64>,
}

/// The text of an optional string.
pub open spec fn text_of(s: Option<String>) -> Option<Seq<char>> {
    match s {
        Some(t) => Some(t@),
        None => None,
    }
}

/// What a [`ModelVariant`] states.
pub struct ModelVariantView {
    pub id: Seq<char>,
    pub pipeline_tag: Option<Seq<char>>,
    pub likes: u64,
    pub provider_count: usize,
    pub param_hint: Option<Seq<char>>,
}

impl View for ModelVariant {
    type V = ModelVariantView;

    open spec fn view(&self) -> ModelVariantView {
        ModelVariantView {
            id: self.id@,
            pipeline_tag: text_of(self.pipeline_tag),
            likes: self.likes,
            provider_count: self.provider_count,
            param_hint: text_of(self.param_hint),
        }
    }
}

/// What a [`Model`] states.
pub struct ModelView {
    pub id: Seq<char>,
    pub pipeline_tag: Option<Seq<char>>,
    pub likes: u64,
    pub downloads: u64,
    pub inference_status: Option<Seq<char>>,
    pub providers: Seq<ProviderInfoView>,
    pub variants: Seq<ModelVariantView>,
    pub tags: Seq<Seq<char>>,
    pub library_name: Option<Seq<char>>,
    pub license: Option<Seq<char>>,
    pub safetensors_params: Option<u64>,
}

impl View for Model {
    type V = ModelView;

    open spec fn view(&self) -> ModelView {
        ModelView {
            id: self.id@,
            pipeline_tag: text_of(self.pipeline_tag),
            likes: self.likes,
            downloads: self.downloads,
            inference_status: text_of(self.inference_status),
            providers: Seq::new(self.providers@.len(), |i: int| self.providers@[i]@),
            variants: Seq::new(self.variants@.len(), |i: int| self.variants@[i]@),
            tags: Seq::new(self.tags@.len(), |i: int| self.tags@[i]@),
            library_name: text_of(self.library_name),
            license: text_of(self.license),
            safetensors_params: self.safetensors_params,
        }
    }
}

/// Among the first `n` providers, the position of the first one with the
/// lowest output price.
pub open spec fn cheapest_upto(ps: Seq<ProviderInfo>, n: int) -> Option<int>
    decreases n,
{
    if n <= 0 {
        None
    } else {
        let prev = cheapest_upto(ps, n - 1);
        match (ps[n - 1].output_price_per_m, prev) {
            (None, _) => prev,
            (Some(_), None) => Some(n - 1),
            (Some(price), Some(p)) => if price < ps[p].output_price_per_m->0 {
                Some(n - 1)
            } else {
                Some(p)
            },
        }
    }
}

/// Among the first `n` providers, the position of the last one with the
/// highest throughput.
pub open spec fn fastest_upto(ps: Seq<ProviderInfo>, n: int) -> Option<int>
    decreases n,
{
    if n <= 0 {
        None
    } else {
        let prev = fastest_upto(ps, n - 1);
        match (ps[n - 1].throughput_mtok_s, prev) {
            (None, _) => prev,
            (Some(_), None) => Some(n - 1),
            (Some(speed), Some(p)) => if speed >= ps[p].throughput_mtok_s->0 {
                Some(n - 1)
            } else {
                Some(p)
            },
        }
    }
}

/// The provider that [`cheapest_upto`] names has a price, no priced provider
/// among the first `n` is cheaper, and none before it is as cheap; it names
/// none exactly when none of them has a price.
pub proof fn lemma_cheapest_upto(ps: Seq<ProviderInfo>, n: int)
    requires
        0 <= n <= ps.len(),
    ensures
        match cheapest_upto(ps, n) {
            Some(p) => {
                &&& 0 <= p < n
                &&& ps[p].output_price_per_m is Some
                &&& forall|j: int|
                    0 <= j < n && (#[trigger] ps[j]).output_price_per_m is Some
                        ==> ps[p].output_price_per_m->0 <= ps[j].output_price_per_m->0
                &&& forall|j: int|
                    0 <= j < p && (#[trigger] ps[j]).output_price_per_m is Some
                        ==> ps[p].output_price_per_m->0 < ps[j].output_price_per_m->0
            },
            None => forall|j: int| 0 <= j < n ==> (#[trigger] ps[j]).output_price_per_m is None,
        },
    decreases n,
{
    if n > 0 {
        lemma_cheapest_upto(ps, n - 1);
    }
}

/// The provider that [`fastest_upto`] names has a measured throughput, no
/// provider among the first `n` is faster, and none after it is as fast; it
/// names none exactly when none of them has a measured throughput.
pub proof fn lemma_fastest_upto(ps: Seq<ProviderInfo>, n: int)
    requires
        0 <= n <= ps.len(),
    ensures
        match fastest_upto(ps, n) {
            Some(p) => {
                &&& 0 <= p < n
                &&& ps[p].throughput_mtok_s is Some
                &&& forall|j: int|
                    0 <= j < n && (#[trigger] ps[j]).throughput_mtok_s is Some
                        ==> ps[j].throughput_mtok_s->0 <= ps[p].throughput_mtok_s->0
                &&& forall|j: int|
                    p < j < n && (#[trigger] ps[j]).throughput_mtok_s is Some
                        ==> ps[j].throughput_mtok_s->0 < ps[p].throughput_mtok_s->0
            },
            None => forall|j: int| 0 <= j < n ==> (#[trigger] ps[j]).throughput_mtok_s is None,
        },
    decreases n,
{
    if n > 0 {
        lemma_fastest_upto(ps, n - 1);
    }
}

/// The providers that are ready to answer at once.
pub open spec fn is_hot() -> spec_fn(ProviderInfo) -> bool {
    |p: ProviderInfo| p.readiness_of() == Readiness::Hot
}

/// The providers that are known to support tool calling.
pub open spec fn has_tools() -> spec_fn(ProviderInfo) -> bool {
    |p: ProviderInfo| p.supports_tools == Some(true)
}

/// The values behind a sequence of references.
pub open spec fn targets(refs: Seq<&ProviderInfo>) -> Seq<ProviderInfo> {
    Seq::new(refs.len(), |i: int| *refs[i])
}

/// A parameter count in short form: billions with one decimal below a
/// hundred billion and without decimals from there on, whole millions below
/// a billion, whole thousands below a million.
pub open spec fn params_text(n: u64) -> Seq<char> {
    if n >= 100_000_000_000 {
        fixed(n as nat, 1_000_000_000, 0).push('B')
    } else if n >= 1_000_000_000 {
        fixed(n as nat, 1_000_000_000, 1).push('B')
    } else if n >= 1_000_000 {
        fixed(n as nat, 1_000_000, 0).push('M')
    } else {
        fixed(n as nat, 1_000, 0).push('K')
    }
}

impl Model {
    /// The provider with the lowest output price among those that have one;
    /// of several, the first.
    pub fn cheapest(&self) -> (r: Option<&ProviderInfo>)
        ensures
            match r {
                Some(p) => cheapest_upto(self.providers@, self.providers@.len() as int) is Some
                    && *p == self.providers@[cheapest_upto(
                    self.providers@,
                    self.providers@.len() as int,
                )->0],
                None => cheapest_upto(self.providers@, self.providers@.len() as int) is None,
            },
    {
        let mut best: Option<usize> = None;
        let mut i: usize = 0;
        while i < self.providers.len()
            invariant
                i <= self.providers.len(),
                match best {
                    Some(p) => cheapest_upto(self.providers@, i as int) == Some(p as int) && p < i
                        && self.providers@[p as int].output_price_per_m is Some,
                    None => cheapest_upto(self.providers@, i as int) is None,
                },
            decreases self.providers.len() - i,
        {
            if let Some(price) = self.providers[i].output_price_per_m {
                match best {
                    None => {
                        best = Some(i);
                    },
                    Some(p) => {
                        if let Some(low) = self.providers[p].output_price_per_m {
                            if price < low {
                                best = Some(i);
                            }
                        }
                    },
                }
            }
            i += 1;
        }
        match best {
            Some(p) => Some(&self.providers[p]),
            None => None,
        }
    }

    /// The provider with the highest measured throughput; of several, the
    /// last.
    pub fn fastest(&self) -> (r: Option<&ProviderInfo>)
        ensures
            match r {
                Some(p) => fastest_upto(self.providers@, self.providers@.len() as int) is Some
                    && *p == self.providers@[fastest_upto(
                    self.providers@,
                    self.providers@.len() as int,
                )->0],
                None => fastest_upto(self.providers@, self.providers@.len() as int) is None,
            },
    {
        let mut best: Option<usize> = None;
        let mut i: usize = 0;
        while i < self.providers.len()
            invariant
                i <= self.providers.len(),
                match best {
                    Some(p) => fastest_upto(self.providers@, i as int) == Some(p as int) && p < i
                        && self.providers@[p as int].throughput_mtok_s is Some,
                    None => fastest_upto(self.providers@, i as int) is None,
                },
            decreases self.providers.len() - i,
        {
            if let Some(speed) = self.providers[i].throughput_mtok_s {
                match best {
                    None => {
                        best = Some(i);
                    },
                    Some(p) => {
                        if let Some(high) = self.providers[p].throughput_mtok_s {
                            if speed >= high {
                                best = Some(i);
                            }
                        }
                    },
                }
            }
            i += 1;
        }
        match best {
            Some(p) => Some(&self.providers[p]),
            None => None,
        }
    }

    /// The providers that are hot, in the order of the model's list.
    pub fn hot_providers(&self) -> (r: Vec<&ProviderInfo>)
        ensures
            targets(r@) == self.providers@.filter(is_hot()),
    {
        let mut out: Vec<&ProviderInfo> = Vec::new();
        let mut i: usize = 0;
        assert(self.providers@.take(0).filter(is_hot()) =~= Seq::<ProviderInfo>::empty()) by {
            reveal(Seq::filter);
        }
        while i < self.providers.len()
            invariant
                i <= self.providers.len(),
                targets(out@) =~= self.providers@.take(i as int).filter(is_hot()),
            decreases self.providers.len() - i,
        {
            proof {
                reveal(Seq::filter);
                assert(self.providers@.take(i + 1).drop_last() == self.providers@.take(i as int));
            }
            let p = &self.providers[i];
            if p.readiness() == Readiness::Hot {
                out.push(p);
            }
            i += 1;
        }
        assert(self.providers@.take(self.providers@.len() as int) == self.providers@);
        out
    }

    /// The providers that support tool calling, in the order of the model's
    /// list.
    pub fn with_tools(&self) -> (r: Vec<&ProviderInfo>)
        ensures
            targets(r@) == self.providers@.filter(has_tools()),
    {
        let mut out: Vec<&ProviderInfo> = Vec::new();
        let mut i: usize = 0;
        assert(self.providers@.take(0).filter(has_tools()) =~= Seq::<ProviderInfo>::empty()) by {
            reveal(Seq::filter);
        }
        while i < self.providers.len()
            invariant
                i <= self.providers.len(),
                targets(out@) =~= self.providers@.take(i as int).filter(has_tools()),
            decreases self.providers.len() - i,
        {
            proof {
                reveal(Seq::filter);
                assert(self.providers@.take(i + 1).drop_last() == self.providers@.take(i as int));
            }
            let p = &self.providers[i];
            let tools = match p.supports_tools {
                Some(t) => t,
                None => false,
            };
            if tools {
                out.push(p);
            }
            i += 1;
        }
        assert(self.providers@.take(self.providers@.len() as int) == self.providers@);
        out
    }

    /// Formats a raw parameter count as "70.6B", "8.0B", "671M" and the like.
    pub fn fmt_params(n: u64) -> (r: String)
        ensures
            r@ == params_text(n),
    {
        let mut out: Vec<char>;
        if n >= 100_000_000_000 {
            out = fixed_chars(n, 1_000_000_000, 0);
            out.push('B');
        } else if n >= 1_000_000_000 {
            out = fixed_chars(n, 1_000_000_000, 1);
            out.push('B');
        } else if n >= 1_000_000 {
            out = fixed_chars(n, 1_000_000, 0);
            out.push('M');
        } else {
            out = fixed_chars(n, 1_000, 0);
            out.push('K');
        }
        string_of(out.as_slice())
    }

    /// Size of the weights for a given number of bytes per parameter, which
    /// is given as a fraction. The size is in thousandths of a gigabyte,
    /// rounded down; a fraction with denominator zero gives the largest
    /// value.
    pub fn weight_gb(params: u64, bytes_per_param: (u64, u64)) -> (r: u64)
        ensures
            r == sat_div(params * bytes_per_param.0, bytes_per_param.1 * 1_000_000),
    {
        let num: u64 = bytes_per_param.0;
        let den: u64 = bytes_per_param.1;
        if den == 0 {
            return u64::MAX;
        }
        assert(params * num <= u128::MAX && params * num >= 0) by (nonlinear_arith)
            requires
                0 <= params <= u64::MAX,
                0 <= num <= u64::MAX,
        ;
        let total: u128 = (params as u128) * (num as u128);
        let by: u128 = (den as u128) * 1_000_000;
        let q: u128 = total / by;
        if q > u64::MAX as u128 {
            u64::MAX
        } else {
            q as u64
        }
    }
}

/// The size that [`Model::weight_gb`] gives for the bytes per parameter of a
/// quantization level is the weight size of the estimator.
pub proof fn lemma_weight_of_level(params: u64, q: Quant)
    ensures
        sat_div(params * q.bytes_ratio().0, q.bytes_ratio().1 * 1_000_000) == weight_mb_of(
            params,
            q,
        ),
{
    match q {
        Quant::Q4 => {},
        Quant::Q8 => {
            assert((params * 1) / 1_000_000 == (params * 2) / 2_000_000);
        },
        Quant::FP16 => {
            assert((params * 2) / 1_000_000 == (params * 4) / 2_000_000);
        },
    }
}

/// The size tokens that are looked for in a model's name, from the largest
/// to the smallest.
pub open spec fn size_tokens() -> Seq<Seq<char>> {
    seq![
        "671B"@,
        "405B"@,
        "236B"@,
        "135B"@,
        "120B"@,
        "109B"@,
        "80B"@,
        "72B"@,
        "70B"@,
        "32B"@,
        "30B"@,
        "27B"@,
        "22B"@,
        "20B"@,
        "17B"@,
        "14B"@,
        "13B"@,
        "12B"@,
        "9B"@,
        "8B"@,
        "7B"@,
        "4B"@,
        "3B"@,
        "2B"@,
        "1.5B"@,
        "1.3B"@,
        "1B"@,
        "0.3B"@,
    ]
}

/// A token stands alone at position `i` of a text: it stands there, with
/// no digit right before it and no letter or digit right after it.
pub open spec fn stands_at(text: Seq<char>, token: Seq<char>, i: int) -> bool {
    &&& matches_at(text, token, i)
    &&& (i == 0 || !is_digit(text[i - 1]))
    &&& (i + token.len() >= text.len() || !is_alnum(text[i + token.len()]))
}

/// A token stands alone in a text where it stands alone at some position:
/// an occurrence that is the tail of a longer number or the head of a longer
/// word does not count, and does not hide one that stands alone elsewhere.
pub open spec fn stands_alone(text: Seq<char>, token: Seq<char>) -> bool {
    exists|i: int| stands_at(text, token, i)
}

/// The position, from `from` on, of the first token that stands alone in
/// `upper`.
pub open spec fn first_standing(upper: Seq<char>, tokens: Seq<Seq<char>>, from: int) -> Option<
    int,
>
    decreases tokens.len() - from,
{
    if from < 0 || from >= tokens.len() {
        None
    } else if stands_alone(upper, tokens[from]) {
        Some(from)
    } else {
        first_standing(upper, tokens, from + 1)
    }
}

/// The size token that a name in upper case carries: the first token of the
/// table, which is in upper case, that stands alone in the name.
pub open spec fn hint_in(upper: Seq<char>) -> Option<Seq<char>> {
    match first_standing(upper, size_tokens(), 0) {
        Some(i) => Some(size_tokens()[i]),
        None => None,
    }
}

/// The texts of a sequence of string slices.
pub open spec fn token_texts(tokens: Seq<&str>) -> Seq<Seq<char>> {
    Seq::new(tokens.len(), |i: int| tokens[i]@)
}

/// The token that [`first_standing`] names stands alone, and no token before
/// it does; where it names none, no token stands alone. A size that is only
/// part of a larger number in the name, such as the "7B" in "17B", is never
/// reported for that occurrence.
pub proof fn lemma_first_standing(upper: Seq<char>, tokens: Seq<Seq<char>>, from: int)
    requires
        0 <= from,
    ensures
        match first_standing(upper, tokens, from) {
            Some(i) => {
                &&& from <= i < tokens.len()
                &&& stands_alone(upper, tokens[i])
                &&& forall|j: int| from <= j < i ==> !stands_alone(upper, #[trigger] tokens[j])
            },
            None => forall|j: int|
                from <= j < tokens.len() ==> !stands_alone(upper, #[trigger] tokens[j]),
        },
    decreases tokens.len() - from,
{
    if from < tokens.len() && !stands_alone(upper, tokens[from]) {
        lemma_first_standing(upper, tokens, from + 1);
    }
}

/// A token that stands alone occurs in the text, and at one of its
/// occurrences it is neither the tail of a longer number nor the head of a
/// longer word.
pub proof fn lemma_stands_alone(text: Seq<char>, token: Seq<char>)
    requires
        stands_alone(text, token),
    ensures
        contains(text, token),
        exists|i: int|
            {
                &&& #[trigger] matches_at(text, token, i)
                &&& (i > 0 ==> !is_digit(text[i - 1]))
                &&& (i + token.len() < text.len() ==> !is_alnum(text[i + token.len()]))
            },
{
    let i = choose|i: int| stands_at(text, token, i);
    assert(matches_at(text, token, i));
    crate::text::lemma_contains(text, token);
}

/// The size tokens, from the largest to the smallest.
fn size_token_list() -> (r: Vec<&'static str>)
    ensures
        r@.len() == size_tokens().len(),
        forall|i: int| 0 <= i < r@.len() ==> (#[trigger] r@[i])@ == size_tokens()[i],
{
    let mut r: Vec<&'static str> = Vec::new();
    r.push("671B");
    r.push("405B");
    r.push("236B");
    r.push("135B");
    r.push("120B");
    r.push("109B");
    r.push("80B");
    r.push("72B");
    r.push("70B");
    r.push("32B");
    r.push("30B");
    r.push("27B");
    r.push("22B");
    r.push("20B");
    r.push("17B");
    r.push("14B");
    r.push("13B");
    r.push("12B");
    r.push("9B");
    r.push("8B");
    r.push("7B");
    r.push("4B");
    r.push("3B");
    r.push("2B");
    r.push("1.5B");
    r.push("1.3B");
    r.push("1B");
    r.push("0.3B");
    r
}

/// Whether a token stands alone at a position of a text.
pub fn token_stands_at(text: &[char], token: &[char], i: usize) -> (r: bool)
    ensures
        r == stands_at(text@, token@, i as int),
{
    if !is_match_at(text, token, i) {
        return false;
    }
    let before_ok = i == 0 || !char_is_digit(text[i - 1]);
    let end: usize = i + token.len();
    let after_ok = end >= text.len() || !char_is_alnum(text[end]);
    before_ok && after_ok
}

/// Whether a token stands alone in a text: every occurrence is looked at.
pub fn token_stands(text: &[char], token: &[char]) -> (r: bool)
    ensures
        r == stands_alone(text@, token@),
{
    if token.len() > text.len() {
        assert forall|i: int| !stands_at(text@, token@, i) by {}
        return false;
    }
    let last: usize = text.len() - token.len();
    let mut i: usize = 0;
    loop
        invariant
            i <= last,
            last == text.len() - token.len(),
            forall|j: int| j < i ==> !stands_at(text@, token@, j),
        decreases last - i,
    {
        if token_stands_at(text, token, i) {
            return true;
        }
        if i == last {
            assert forall|j: int| !stands_at(text@, token@, j) by {}
            return false;
        }
        i += 1;
    }
}

/// The position of the first of the tokens that stands alone in a name.
/// Name and tokens are compared as they are: for a name in upper case the
/// tokens are to be in upper case.
pub fn first_standing_token(upper: &str, tokens: &[&str]) -> (r: Option<usize>)
    ensures
        match r {
            Some(i) => first_standing(upper@, token_texts(tokens@), 0) == Some(i as int) && i
                < tokens@.len(),
            None => first_standing(upper@, token_texts(tokens@), 0) is None,
        },
{
    let text = chars_of(upper);
    let mut i: usize = 0;
    while i < tokens.len()
        invariant
            i <= tokens.len(),
            text@ == upper@,
            first_standing(upper@, token_texts(tokens@), 0) == first_standing(
                upper@,
                token_texts(tokens@),
                i as int,
            ),
        decreases tokens.len() - i,
    {
        let token = chars_of(tokens[i]);
        assert(token_texts(tokens@)[i as int] == token@);
        if token_stands(text.as_slice(), token.as_slice()) {
            return Some(i);
        }
        i += 1;
    }
    None
}

/// Whitespace: the characters with the White_Space property of Unicode.
pub open spec fn is_space(c: char) -> bool {
    ||| ('\u{9}' <= c && c <= '\u{d}')
    ||| c == ' '
    ||| c == '\u{85}'
    ||| c == '\u{a0}'
    ||| c == '\u{1680}'
    ||| ('\u{2000}' <= c && c <= '\u{200a}')
    ||| c == '\u{2028}'
    ||| c == '\u{2029}'
    ||| c == '\u{202f}'
    ||| c == '\u{205f}'
    ||| c == '\u{3000}'
}

/// The position of the first character from `from` on that is no whitespace.
pub open spec fn skip_spaces(s: Seq<char>, from: int) -> int
    decreases s.len() - from,
{
    if 0 <= from < s.len() && is_space(s[from]) {
        skip_spaces(s, from + 1)
    } else {
        from
    }
}

/// The position right after the last character before `to` that is no
/// whitespace.
pub open spec fn skip_spaces_back(s: Seq<char>, to: int) -> int
    decreases to,
{
    if 0 < to <= s.len() && is_space(s[to - 1]) {
        skip_spaces_back(s, to - 1)
    } else {
        to
    }
}

/// A text without the whitespace at its beginning and at its end.
pub open spec fn trimmed(s: Seq<char>) -> Seq<char> {
    let a = skip_spaces(s, 0);
    let b = skip_spaces_back(s, s.len() as int);
    if a >= b {
        Seq::empty()
    } else {
        s.subrange(a, b)
    }
}

/// The first `places` digits of a fraction, with zeros where it has fewer.
pub open spec fn padded(frac: Seq<char>, places: nat) -> Seq<char> {
    Seq::new(
        places,
        |i: int|
            if i < frac.len() {
                frac[i]
            } else {
                '0'
            },
    )
}

/// The whole part and the fraction of a decimal number: digits, with at
/// most one point among them and at least one digit.
pub open spec fn number_parts(body: Seq<char>) -> Option<(Seq<char>, Seq<char>)> {
    let parts = match find(body, seq!['.']) {
        Some(dot) => (body.take(dot), body.skip(dot + 1)),
        None => (body, Seq::<char>::empty()),
    };
    if all_digits(parts.0) && all_digits(parts.1) && parts.0.len() + parts.1.len() >= 1 {
        Some(parts)
    } else {
        None
    }
}

/// The number of decimal places by which the suffix of a size token shifts
/// its number: nine for billions, six for millions.
pub open spec fn suffix_places(c: char) -> nat {
    if c == 'B' {
        9
    } else if c == 'M' {
        6
    } else {
        0
    }
}

/// The parameter count that a size token in upper case writes: its number
/// times a billion or a million, rounded down and capped at the largest
/// count. The decimal point is shifted by the places of the suffix, and what
/// is left behind the point is dropped.
pub open spec fn token_value(upper: Seq<char>) -> Option<int> {
    if upper.len() == 0 || suffix_places(upper.last()) == 0 {
        None
    } else {
        match number_parts(upper.drop_last()) {
            Some((whole, frac)) => {
                let v = digits_value(whole + padded(frac, suffix_places(upper.last())));
                if v > u64::MAX {
                    Some(u64::MAX as int)
                } else {
                    Some(v as int)
                }
            },
            None => None,
        }
    }
}

/// The count behind an optional machine integer.
pub open spec fn count_of(n: Option<u64>) -> Option<int> {
    match n {
        Some(v) => Some(v as int),
        None => None,
    }
}

/// Whether `c` is whitespace.
pub fn char_is_space(c: char) -> (r: bool)
    ensures
        r == is_space(c),
{
    ('\u{9}' <= c && c <= '\u{d}') || c == ' ' || c == '\u{85}' || c == '\u{a0}' || c
        == '\u{1680}' || ('\u{2000}' <= c && c <= '\u{200a}') || c == '\u{2028}' || c
        == '\u{2029}' || c == '\u{202f}' || c == '\u{205f}' || c == '\u{3000}'
}

/// Takes the whitespace off both ends of a text.
pub fn trim_chars(s: &[char]) -> (r: Vec<char>)
    ensures
        r@ == trimmed(s@),
{
    let mut a: usize = 0;
    while a < s.len() && char_is_space(s[a])
        invariant
            a <= s.len(),
            skip_spaces(s@, 0) == skip_spaces(s@, a as int),
        decreases s.len() - a,
    {
        a += 1;
    }
    let mut b: usize = s.len();
    while b > 0 && char_is_space(s[b - 1])
        invariant
            b <= s.len(),
            skip_spaces_back(s@, s@.len() as int) == skip_spaces_back(s@, b as int),
        decreases b,
    {
        b -= 1;
    }
    if a >= b {
        Vec::new()
    } else {
        slice_chars(s, a, b)
    }
}

/// Whether every character is a decimal digit.
fn only_digits(s: &[char]) -> (r: bool)
    ensures
        r == all_digits(s@),
{
    let mut i: usize = 0;
    while i < s.len()
        invariant
            i <= s.len(),
            forall|j: int| 0 <= j < i ==> is_digit(#[trigger] s@[j]),
        decreases s.len() - i,
    {
        if !char_is_digit(s[i]) {
            return false;
        }
        i += 1;
    }
    true
}

/// Reads one more digit into a number that is kept as long as it fits.
fn read_digit(acc: Option<u64>, c: char, Ghost(read): Ghost<Seq<char>>) -> (r: Option<u64>)
    requires
        is_digit(c),
        match acc {
            Some(v) => v == digits_value(read),
            None => digits_value(read) > u64::MAX,
        },
    ensures
        match r {
            Some(v) => v == digits_value(read.push(c)),
            None => digits_value(read.push(c)) > u64::MAX,
        },
{
    assert(read.push(c).drop_last() == read);
    match acc {
        Some(v) => {
            let next: u128 = (v as u128) * 10 + (((c as u8) - 48) as u128);
            if next > u64::MAX as u128 {
                None
            } else {
                Some(next as u64)
            }
        },
        None => None,
    }
}

/// Converts a size token in upper case, such as "70B", "1.5B" or "300M",
/// to a raw parameter count.
pub fn parse_size_token(upper: &str) -> (r: Option<u64>)
    ensures
        count_of(r) == token_value(upper@),
{
    let text = chars_of(upper);
    if text.len() == 0 {
        return None;
    }
    let last = text[text.len() - 1];
    let places: usize = if last == 'B' {
        9
    } else if last == 'M' {
        6
    } else {
        return None;
    };
    let body = slice_chars(text.as_slice(), 0, text.len() - 1);
    assert(body@ == upper@.drop_last());
    let mut point: Vec<char> = Vec::new();
    point.push('.');
    assert(point@ == seq!['.']);
    let (whole, frac) = match find_in(body.as_slice(), point.as_slice()) {
        Some(dot) => {
            proof {
                crate::text::lemma_find_from(body@, point@, 0);
            }
            let w = slice_chars(body.as_slice(), 0, dot);
            let f = slice_chars(body.as_slice(), dot + 1, body.len());
            assert(w@ == body@.take(dot as int));
            assert(f@ == body@.skip(dot + 1));
            (w, f)
        },
        None => {
            let w = slice_chars(body.as_slice(), 0, body.len());
            let f: Vec<char> = Vec::new();
            assert(w@ == body@);
            assert(f@ == Seq::<char>::empty());
            (w, f)
        },
    };
    assert(number_parts(body@) == if all_digits(whole@) && all_digits(frac@) && whole@.len()
        + frac@.len() >= 1 {
        Some((whole@, frac@))
    } else {
        None
    });
    if !only_digits(whole.as_slice()) || !only_digits(frac.as_slice()) {
        return None;
    }
    if whole.len() == 0 && frac.len() == 0 {
        return None;
    }
    let ghost total = whole@ + padded(frac@, places as nat);
    let mut acc: Option<u64> = Some(0);
    let mut i: usize = 0;
    assert(total.take(0) =~= Seq::<char>::empty());
    while i < whole.len()
        invariant
            i <= whole.len(),
            all_digits(whole@),
            total == whole@ + padded(frac@, places as nat),
            match acc {
                Some(v) => v == digits_value(total.take(i as int)),
                None => digits_value(total.take(i as int)) > u64::MAX,
            },
        decreases whole.len() - i,
    {
        assert(total.take(i + 1) == total.take(i as int).push(whole@[i as int]));
        acc = read_digit(acc, whole[i], Ghost(total.take(i as int)));
        i += 1;
    }
    let mut j: usize = 0;
    while j < places
        invariant
            j <= places,
            places <= 9,
            all_digits(frac@),
            total == whole@ + padded(frac@, places as nat),
            match acc {
                Some(v) => v == digits_value(total.take(whole@.len() + j)),
                None => digits_value(total.take(whole@.len() + j)) > u64::MAX,
            },
        decreases places - j,
    {
        let c = if j < frac.len() {
            frac[j]
        } else {
            '0'
        };
        assert(total.take(whole@.len() + j + 1) == total.take(whole@.len() + j).push(c));
        acc = read_digit(acc, c, Ghost(total.take(whole@.len() + j)));
        j += 1;
    }
    assert(total.take(whole@.len() + places) == total);
    match acc {
        Some(v) => Some(v),
        None => Some(u64::MAX),
    }
}

impl Model {
    /// Extracts the size token from a name that is already in upper case:
    /// the first token of the table that stands alone in the name.
    pub fn param_hint_upper(upper: &str) -> (r: Option<String>)
        ensures
            text_of(r) == hint_in(upper@),
    {
        let tokens = size_token_list();
        assert(token_texts(tokens@) =~= size_tokens());
        match first_standing_token(upper, tokens.as_slice()) {
            Some(i) => Some(tokens[i].to_owned()),
            None => None,
        }
    }

    /// Extracts a likely size from a model's name, such as "70B" or "1.5B".
    /// The known sizes are tried from the largest to the smallest against the
    /// name in upper case, and the first that stands alone somewhere in the
    /// name is returned.
    pub fn param_hint(name: &str) -> (r: Option<String>)
        ensures
            text_of(r) == hint_in(uppercase_of(name@)),
    {
        let upper = name.to_uppercase();
        Model::param_hint_upper(upper.as_str())
    }

    /// Parses a size such as "70B" or "1.5B" into a raw parameter count.
    /// Whitespace around the size does not count, nor does the case of its
    /// letters.
    pub fn parse_param_hint(hint: &str) -> (r: Option<u64>)
        ensures
            count_of(r) == token_value(uppercase_of(trimmed(hint@))),
    {
        let text = chars_of(hint);
        let bare = trim_chars(text.as_slice());
        let bare_text = string_of(bare.as_slice());
        let upper = bare_text.as_str().to_uppercase();
        parse_size_token(upper.as_str())
    }

    /// The parameter count that the estimator is to use.
    pub open spec fn params_of(&self) -> Option<int> {
        match self.safetensors_params {
            Some(p) => Some(p as int),
            None => match hint_in(uppercase_of(self.id@)) {
                Some(token) => token_value(uppercase_of(trimmed(token))),
                None => None,
            },
        }
    }

    /// The estimated parameter count: the measured one where the catalog has
    /// it, else the size that the model's name carries.
    pub fn estimated_params(&self) -> (r: Option<u64>)
        ensures
            count_of(r) == self.params_of(),
    {
        match self.safetensors_params {
            Some(p) => Some(p),
            None => match Model::param_hint(self.id.as_str()) {
                Some(token) => Model::parse_param_hint(token.as_str()),
                None => None,
            },
        }
    }
}

/// The position right after the run of decimal digits that begins at `from`.
pub open spec fn digits_end(s: Seq<char>, from: int) -> int
    decreases s.len() - from,
{
    if 0 <= from < s.len() && is_digit(s[from]) {
        digits_end(s, from + 1)
    } else {
        from
    }
}

/// The position right after the run of hyphens and decimal digits that
/// begins at `from`.
pub open spec fn suffix_end(s: Seq<char>, from: int) -> int
    decreases s.len() - from,
{
    if 0 <= from < s.len() && (s[from] == '-' || is_digit(s[from])) {
        suffix_end(s, from + 1)
    } else {
        from
    }
}

/// A count of experts times a size, as in "8x7b": at position `i` stands an
/// "x" between two digits, and a "b" follows somewhere.
pub open spec fn mixture_at(s: Seq<char>, i: int) -> bool {
    &&& 0 < i && i + 1 < s.len()
    &&& s[i] == 'x'
    &&& is_digit(s[i - 1])
    &&& is_digit(s[i + 1])
    &&& find_from(s, seq!['b'], i + 1) is Some
}

/// A size followed by a count of experts, as in "17b-16e": at position `i`
/// stands a hyphen or underscore right after a "b", then digits, then an "e"
/// that no letter or digit follows.
pub open spec fn experts_at(s: Seq<char>, i: int) -> bool {
    let end = digits_end(s, i + 1);
    &&& 0 < i < s.len()
    &&& (s[i] == '-' || s[i] == '_')
    &&& s[i - 1] == 'b'
    &&& i + 1 < end < s.len()
    &&& s[end] == 'e'
    &&& (end + 1 >= s.len() || !is_alnum(s[end + 1]))
}

/// The name is that of the base model of the R1 family: after the last
/// "deepseek-r1" and an optional date such as "-0528" the name ends, or a
/// slash follows.
pub open spec fn base_r1(s: Seq<char>) -> bool {
    match rfind(s, "deepseek-r1"@) {
        Some(p) => {
            let rest = suffix_end(s, p + "deepseek-r1"@.len());
            rest >= s.len() || s[rest] == '/'
        },
        None => false,
    }
}

/// A name in lower case is that of a mixture-of-experts model. Distilled
/// models are dense. Otherwise the name tells by a count of experts, by the
/// word "moe", by a family of such models, by being the base model of the R1
/// family, or by the word "arctic" where no embedding model is meant.
pub open spec fn moe_name(lower: Seq<char>) -> bool {
    &&& !contains(lower, "distill"@)
    &&& {
        ||| exists|i: int| mixture_at(lower, i)
        ||| exists|i: int| experts_at(lower, i)
        ||| contains(lower, "moe"@)
        ||| contains(lower, "mixtral"@)
        ||| contains(lower, "dbrx"@)
        ||| contains(lower, "grok-1"@)
        ||| contains(lower, "jamba"@)
        ||| contains(lower, "deepseek-v2"@)
        ||| contains(lower, "deepseek-v3"@)
        ||| base_r1(lower)
        ||| (contains(lower, "arctic"@) && !contains(lower, "arctic-embed"@))
    }
}

/// Whether the word `word` occurs in `s`.
fn has_word(s: &[char], word: &str) -> (r: bool)
    ensures
        r == contains(s@, word@),
{
    let w = chars_of(word);
    has_sub(s, w.as_slice())
}

/// Whether a count of experts times a size stands somewhere in `s`.
fn has_mixture(s: &[char]) -> (r: bool)
    ensures
        r == exists|i: int| mixture_at(s@, i),
{
    let mut b: Vec<char> = Vec::new();
    b.push('b');
    assert(b@ == seq!['b']);
    let mut i: usize = 1;
    while i < s.len()
        invariant
            1 <= i,
            b@ == seq!['b'],
            forall|j: int| j < i ==> !mixture_at(s@, j),
        decreases s.len() - i,
    {
        if s[i] == 'x' && char_is_digit(s[i - 1]) && i < s.len() - 1 && char_is_digit(s[i + 1]) {
            if find_in_from(s, b.as_slice(), i + 1).is_some() {
                assert(mixture_at(s@, i as int));
                return true;
            }
        }
        i += 1;
    }
    false
}

/// The position right after the run of digits that begins at `from`.
fn run_of_digits(s: &[char], from: usize) -> (end: usize)
    requires
        from <= s.len(),
    ensures
        end == digits_end(s@, from as int),
        from <= end <= s.len(),
{
    let mut end: usize = from;
    while end < s.len() && char_is_digit(s[end])
        invariant
            from <= end <= s.len(),
            digits_end(s@, from as int) == digits_end(s@, end as int),
        decreases s.len() - end,
    {
        end += 1;
    }
    end
}

/// Whether a size followed by a count of experts stands somewhere in `s`.
fn has_experts(s: &[char]) -> (r: bool)
    ensures
        r == exists|i: int| experts_at(s@, i),
{
    let mut i: usize = 1;
    while i < s.len()
        invariant
            1 <= i,
            forall|j: int| j < i ==> !experts_at(s@, j),
        decreases s.len() - i,
    {
        if (s[i] == '-' || s[i] == '_') && s[i - 1] == 'b' {
            let end = run_of_digits(s, i + 1);
            if end > i + 1 && end < s.len() && s[end] == 'e' {
                if end + 1 >= s.len() || !char_is_alnum(s[end + 1]) {
                    assert(experts_at(s@, i as int));
                    return true;
                }
            }
        }
        i += 1;
    }
    false
}

/// Whether the name is that of the base model of the R1 family.
fn is_base_r1(s: &[char]) -> (r: bool)
    ensures
        r == base_r1(s@),
{
    let word = chars_of("deepseek-r1");
    match rfind_in(s, word.as_slice()) {
        Some(p) => {
            proof {
                crate::text::lemma_rfind_upto(s@, word@, s@.len() - word@.len());
            }
            let n: usize = s.len();
            let start: usize = p + word.len();
            let mut rest: usize = start;
            while rest < n && (s[rest] == '-' || char_is_digit(s[rest]))
                invariant
                    start <= rest <= n,
                    n == s.len(),
                    suffix_end(s@, start as int) == suffix_end(s@, rest as int),
                decreases n - rest,
            {
                rest += 1;
            }
            rest >= n || s[rest] == '/'
        },
        None => false,
    }
}

impl Model {
    /// Tells from a name in lower case whether the model is likely a
    /// mixture of experts.
    pub fn detect_moe_lower(lower: &str) -> (r: bool)
        ensures
            r == moe_name(lower@),
    {
        let s = chars_of(lower);
        if has_word(s.as_slice(), "distill") {
            return false;
        }
        if has_mixture(s.as_slice()) {
            return true;
        }
        if has_experts(s.as_slice()) {
            return true;
        }
        if has_word(s.as_slice(), "moe") || has_word(s.as_slice(), "mixtral") || has_word(
            s.as_slice(),
            "dbrx",
        ) || has_word(s.as_slice(), "grok-1") || has_word(s.as_slice(), "jamba") || has_word(
            s.as_slice(),
            "deepseek-v2",
        ) || has_word(s.as_slice(), "deepseek-v3") {
            return true;
        }
        if is_base_r1(s.as_slice()) {
            return true;
        }
        has_word(s.as_slice(), "arctic") && !has_word(s.as_slice(), "arctic-embed")
    }

    /// Detects whether a model is likely a mixture-of-experts architecture,
    /// from patterns in its name and from known families of such models.
    /// Distilled models count as dense.
    pub fn detect_moe(name: &str) -> (r: bool)
        ensures
            r == moe_name(lowercase_of(name@)),
    {
        let lower = name.to_lowercase();
        Model::detect_moe_lower(lower.as_str())
    }
}

/// The unit of the last digit that the short form of a count shows.
pub open spec fn shown_unit(n: u64) -> int {
    if n >= 100_000_000_000 {
        1_000_000_000
    } else if n >= 1_000_000_000 {
        100_000_000
    } else {
        1_000_000
    }
}

/// A fraction of at most nine digits, padded to nine places, writes its
/// number shifted to nine places.
proof fn lemma_padded_value(frac: Seq<char>, places: nat)
    requires
        frac.len() <= places,
    ensures
        digits_value(padded(frac, places)) == digits_value(frac) * pow10(
            (places - frac.len()) as nat,
        ),
    decreases places - frac.len(),
{
    if frac.len() == places {
        assert(padded(frac, places) =~= frac);
        assert(pow10(0) == 1);
        assert(digits_value(frac) * 1 == digits_value(frac));
    } else {
        lemma_padded_value(frac, (places - 1) as nat);
        let shorter = padded(frac, (places - 1) as nat);
        assert(padded(frac, places) =~= shorter.push('0'));
        assert(shorter.push('0').drop_last() =~= shorter);
        assert(crate::text::digit_value('0') == 0);
        let v = digits_value(frac) as int;
        let p = pow10((places - 1 - frac.len()) as nat) as int;
        assert(pow10((places - frac.len()) as nat) == 10 * p);
        assert((v * p) * 10 == v * (10 * p)) by (nonlinear_arith);
    }
}

/// The value of a size token whose number is a whole numeral.
proof fn lemma_whole_token(r: nat, suffix: char)
    requires
        suffix == 'B' || suffix == 'M',
    ensures
        token_value(decimal(r).push(suffix)) == Some(
            if r * pow10(suffix_places(suffix)) > u64::MAX {
                u64::MAX as int
            } else {
                (r * pow10(suffix_places(suffix))) as int
            },
        ),
{
    let body = decimal(r);
    let upper = body.push(suffix);
    let places = suffix_places(suffix);
    lemma_decimal_reads_back(r);
    assert(upper.drop_last() =~= body);
    lemma_first_point(body, Seq::empty());
    let none = Seq::<char>::empty();
    assert(all_digits(none));
    assert(number_parts(body) == Some((body, none)));
    assert(all_digits(padded(none, places)));
    lemma_digits_value_concat(body, padded(none, places));
    lemma_padded_value(none, places);
    assert(digits_value(none) == 0);
    assert(0 * pow10(places) == 0) by (nonlinear_arith);
}

/// The value of a size token in billions whose number has one decimal.
proof fn lemma_tenths_token(w: nat, f: nat)
    requires
        f < 10,
    ensures
        token_value((decimal(w).push('.') + padded_decimal(f, 1)).push('B')) == Some(
            if (w * 10 + f) * 100_000_000 > u64::MAX {
                u64::MAX as int
            } else {
                ((w * 10 + f) * 100_000_000) as int
            },
        ),
{
    reveal_with_fuel(padded_decimal, 2);
    reveal_with_fuel(pow10, 10);
    reveal_with_fuel(digits_value, 2);
    let whole = decimal(w);
    let frac = padded_decimal(f, 1);
    assert(frac =~= seq![digit_char(f as int)]);
    let body = whole.push('.') + frac;
    let upper = body.push('B');
    lemma_decimal_reads_back(w);
    assert(upper.drop_last() =~= body);
    lemma_first_point(whole, frac);
    assert(body.take(whole.len() as int) =~= whole);
    assert(body.skip(whole.len() as int + 1) =~= frac);
    assert(all_digits(frac));
    assert(number_parts(body) == Some((whole, frac)));
    assert(all_digits(padded(frac, 9)));
    lemma_digits_value_concat(whole, padded(frac, 9));
    lemma_padded_value(frac, 9);
    assert(frac.drop_last() =~= Seq::<char>::empty());
    assert(digits_value(frac) == f);
    assert(pow10(9) == 1_000_000_000 && pow10(8) == 100_000_000);
    assert(w * 1_000_000_000 + f * 100_000_000 == (w * 10 + f) * 100_000_000)
        by (nonlinear_arith);
}

/// A count of a million or more reads back from its short form: the short
/// form, which [`Model::fmt_params`] writes, is a size token, and the count
/// that the token writes is no further from the count than half a unit of
/// the last digit shown.
pub proof fn lemma_params_text_reads_back(n: u64)
    requires
        n >= 1_000_000,
    ensures
        token_value(params_text(n)) is Some,
        -shown_unit(n) <= 2 * (token_value(params_text(n))->0 - n) <= shown_unit(n),
{
    reveal_with_fuel(pow10, 10);
    if n >= 100_000_000_000 {
        let r = round_div(n as int, 1_000_000_000);
        lemma_round_div_is_near(n as int, 1_000_000_000);
        assert(n * pow10(0) == n) by (nonlinear_arith)
            requires
                pow10(0) == 1,
        ;
        lemma_whole_token(r as nat, 'B');
    } else if n >= 1_000_000_000 {
        let scaled = round_div(n * 10, 1_000_000_000);
        lemma_round_div_is_near(n * 10, 1_000_000_000);
        assert(n * pow10(1) == n * 10) by (nonlinear_arith)
            requires
                pow10(1) == 10,
        ;
        let w = (scaled / 10) as nat;
        let f = (scaled % 10) as nat;
        lemma_tenths_token(w, f);
        assert(w * 10 + f == scaled);
    } else {
        let r = round_div(n as int, 1_000_000);
        lemma_round_div_is_near(n as int, 1_000_000);
        assert(n * pow10(0) == n) by (nonlinear_arith)
            requires
                pow10(0) == 1,
        ;
        lemma_whole_token(r as nat, 'M');
    }
}

} // verus!
