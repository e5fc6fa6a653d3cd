//! Choices among models and among the providers of a model.
use vstd::prelude::*;
use crate::model::{cheapest_upto, count_of, fastest_upto, targets, Model};
use crate::order::{insert_le, lemma_insert_le_position, sort_le, total_preorder};
use crate::provider::{Provider, ProviderInfo, ProviderKind, Readiness};
use crate::reference::RefModel;
use crate::text::{
    after_last, before_first, chars_after_last, chars_before_first, chars_of,
    lemma_text_le_total, lemma_text_le_transitive, same_chars, string_of, text_le, text_precedes,
};

verus! {

/// The order in which the providers of a model are listed.
#[derive(Debug, Clone, Copy, PartialEq, Eq, Structural)]
pub enum ProviderOrder {
    /// By output price, the lowest first; providers without a price last.
    Cheapest,
    /// By throughput, the highest first; a provider without a measurement
    /// counts as one with a throughput of zero.
    Fastest,
    /// By readiness, the most ready first; providers of equal readiness by
    /// name.
    Readiness,
}

/// The price by which a provider is ranked: above every price where it has
/// none.
pub open spec fn price_key(p: ProviderInfo) -> int {
    match p.output_price_per_m {
        Some(x) => x as int,
        None => u64::MAX + 1,
    }
}

/// The throughput by which a provider is ranked.
pub open spec fn speed_key(p: ProviderInfo) -> int {
    match p.throughput_mtok_s {
        Some(x) => x as int,
        None => 0,
    }
}

/// `a` does not come after `b` in the given order.
pub open spec fn order_le(order: ProviderOrder) -> spec_fn(ProviderInfo, ProviderInfo) -> bool {
    |a: ProviderInfo, b: ProviderInfo|
        match order {
            ProviderOrder::Cheapest => price_key(a) <= price_key(b),
            ProviderOrder::Fastest => speed_key(a) >= speed_key(b),
            ProviderOrder::Readiness => a.readiness_of().rank_of() < b.readiness_of().rank_of()
                || (a.readiness_of().rank_of() == b.readiness_of().rank_of() && text_le(
                a.name@,
                b.name@,
            )),
        }
}

/// Each order is total and transitive.
pub proof fn lemma_order_is_total_preorder(order: ProviderOrder)
    ensures
        total_preorder(order_le(order)),
{
    let le = order_le(order);
    assert forall|a: ProviderInfo, b: ProviderInfo| #[trigger] le(a, b) || le(b, a) by {
        lemma_text_le_total(a.name@, b.name@, 0);
    }
    assert forall|a: ProviderInfo, b: ProviderInfo, c: ProviderInfo| #[trigger]
        le(a, b) && #[trigger] le(b, c) implies le(a, c) by {
        if text_le(a.name@, b.name@) && text_le(b.name@, c.name@) {
            lemma_text_le_transitive(a.name@, b.name@, c.name@, 0);
        }
    }
}

/// Whether `a` does not come after `b` in the given order.
pub fn precedes(a: &ProviderInfo, b: &ProviderInfo, order: ProviderOrder) -> (r: bool)
    ensures
        r == order_le(order)(*a, *b),
{
    match order {
        ProviderOrder::Cheapest => match (a.output_price_per_m, b.output_price_per_m) {
            (Some(x), Some(y)) => x <= y,
            (Some(_), None) => true,
            (None, Some(_)) => false,
            (None, None) => true,
        },
        ProviderOrder::Fastest => {
            let x: u64 = match a.throughput_mtok_s {
                Some(x) => x,
                None => 0,
            };
            let y: u64 = match b.throughput_mtok_s {
                Some(y) => y,
                None => 0,
            };
            x >= y
        },
        ProviderOrder::Readiness => {
            let ra = a.readiness().rank();
            let rb = b.readiness().rank();
            if ra != rb {
                ra < rb
            } else {
                let na = chars_of(a.name.as_str());
                let nb = chars_of(b.name.as_str());
                text_precedes(na.as_slice(), nb.as_slice())
            }
        },
    }
}

/// Puts a provider into a list that is in order, behind those that do not
/// come after it.
fn insert_provider<'a>(out: &mut Vec<&'a ProviderInfo>, p: &'a ProviderInfo, order: ProviderOrder)
    ensures
        targets(final(out)@) == insert_le(targets(old(out)@), *p, order_le(order)),
{
    let mut k: usize = out.len();
    while k > 0 && !precedes(out[k - 1], p, order)
        invariant
            out@ == old(out)@,
            k <= out.len(),
            forall|j: int| k <= j < out.len() ==> !order_le(order)(*out@[j], *p),
        decreases k,
    {
        k -= 1;
    }
    proof {
        let before = targets(out@);
        assert forall|j: int| k <= j < before.len() implies !order_le(order)(before[j], *p) by {
            assert(before[j] == *out@[j]);
        }
        if k > 0 {
            assert(before[k - 1] == *out@[k - 1]);
        }
        lemma_insert_le_position(before, *p, order_le(order), k as int);
        assert(targets(out@.insert(k as int, p)) =~= before.insert(k as int, *p));
    }
    out.insert(k, p);
}

/// Puts providers in the given order; providers that the order does not
/// tell apart keep their place among each other.
pub fn order_providers<'a>(list: &Vec<&'a ProviderInfo>, order: ProviderOrder) -> (r: Vec<
    &'a ProviderInfo,
>)
    ensures
        targets(r@) == sort_le(targets(list@), order_le(order)),
{
    let mut out: Vec<&'a ProviderInfo> = Vec::new();
    let mut i: usize = 0;
    let ghost all = targets(list@);
    assert(targets(out@) =~= Seq::<ProviderInfo>::empty());
    assert(all.take(0) =~= Seq::<ProviderInfo>::empty());
    while i < list.len()
        invariant
            i <= list.len(),
            all == targets(list@),
            targets(out@) == sort_le(all.take(i as int), order_le(order)),
        decreases list.len() - i,
    {
        proof {
            assert(all.take(i + 1).drop_last() =~= all.take(i as int));
            assert(all.take(i + 1).last() == *list@[i as int]);
        }
        insert_provider(&mut out, list[i], order);
        i += 1;
    }
    assert(all.take(all.len() as int) == all);
    out
}

/// The providers that are shown: those that support tool calling where
/// `tools` asks for them, and those that are hot where `hot` asks for them.
pub open spec fn shown(tools: bool, hot: bool) -> spec_fn(ProviderInfo) -> bool {
    |p: ProviderInfo|
        (tools ==> p.supports_tools == Some(true)) && (hot ==> p.readiness_of() == Readiness::Hot)
}

/// The providers of a model that are to be listed, in the given order.
pub fn list_providers(model: &Model, tools: bool, hot: bool, order: ProviderOrder) -> (r: Vec<
    &ProviderInfo,
>)
    ensures
        targets(r@) == sort_le(model.providers@.filter(shown(tools, hot)), order_le(order)),
{
    let mut kept: Vec<&ProviderInfo> = Vec::new();
    let mut i: usize = 0;
    assert(model.providers@.take(0).filter(shown(tools, hot)) =~= Seq::<ProviderInfo>::empty())
        by {
        reveal(Seq::filter);
    }
    while i < model.providers.len()
        invariant
            i <= model.providers.len(),
            targets(kept@) =~= model.providers@.take(i as int).filter(shown(tools, hot)),
        decreases model.providers.len() - i,
    {
        proof {
            reveal(Seq::filter);
            assert(model.providers@.take(i + 1).drop_last() == model.providers@.take(i as int));
        }
        let p = &model.providers[i];
        let with_tools = match p.supports_tools {
            Some(t) => t,
            None => false,
        };
        if (!tools || with_tools) && (!hot || p.readiness() == Readiness::Hot) {
            kept.push(p);
        }
        i += 1;
    }
    assert(model.providers@.take(model.providers@.len() as int) == model.providers@);
    order_providers(&kept, order)
}

/// The providers in the order of their readiness, and by name among those
/// of equal readiness.
pub fn sorted_provs(providers: &[ProviderInfo]) -> (r: Vec<&ProviderInfo>)
    ensures
        targets(r@) == sort_le(providers@, order_le(ProviderOrder::Readiness)),
{
    let mut all: Vec<&ProviderInfo> = Vec::new();
    let mut i: usize = 0;
    while i < providers.len()
        invariant
            i <= providers.len(),
            all@.len() == i,
            forall|k: int| 0 <= k < i ==> *all@[k] == providers@[k],
        decreases providers.len() - i,
    {
        all.push(&providers[i]);
        i += 1;
    }
    assert(targets(all@) =~= providers@);
    order_providers(&all, ProviderOrder::Readiness)
}

/// The providers that have an output price.
pub open spec fn is_priced() -> spec_fn(ProviderInfo) -> bool {
    |p: ProviderInfo| p.output_price_per_m is Some
}

/// The providers of a model that have an output price, the cheapest first.
pub fn priced_providers(model: &Model) -> (r: Vec<&ProviderInfo>)
    ensures
        targets(r@) == sort_le(
            model.providers@.filter(is_priced()),
            order_le(ProviderOrder::Cheapest),
        ),
{
    let mut kept: Vec<&ProviderInfo> = Vec::new();
    let mut i: usize = 0;
    assert(model.providers@.take(0).filter(is_priced()) =~= Seq::<ProviderInfo>::empty()) by {
        reveal(Seq::filter);
    }
    while i < model.providers.len()
        invariant
            i <= model.providers.len(),
            targets(kept@) =~= model.providers@.take(i as int).filter(is_priced()),
        decreases model.providers.len() - i,
    {
        proof {
            reveal(Seq::filter);
            assert(model.providers@.take(i + 1).drop_last() == model.providers@.take(i as int));
        }
        let p = &model.providers[i];
        if p.output_price_per_m.is_some() {
            kept.push(p);
        }
        i += 1;
    }
    assert(model.providers@.take(model.providers@.len() as int) == model.providers@);
    order_providers(&kept, ProviderOrder::Cheapest)
}

/// The lowest output price among the providers of a model.
pub fn cheapest_output_price(model: &Model) -> (r: Option<u64>)
    ensures
        match r {
            Some(price) => cheapest_upto(model.providers@, model.providers@.len() as int) is Some
                && model.providers@[cheapest_upto(
                model.providers@,
                model.providers@.len() as int,
            )->0].output_price_per_m == Some(price),
            None => cheapest_upto(model.providers@, model.providers@.len() as int) is None,
        },
{
    proof {
        crate::model::lemma_cheapest_upto(model.providers@, model.providers@.len() as int);
    }
    match model.cheapest() {
        Some(p) => p.output_price_per_m,
        None => None,
    }
}

/// The first position from `from` on of a provider of the given name.
pub open spec fn named_from(ps: Seq<ProviderInfo>, name: Seq<char>, from: int) -> Option<int>
    decreases ps.len() - from,
{
    if from < 0 || from >= ps.len() {
        None
    } else if ps[from].name@ == name {
        Some(from)
    } else {
        named_from(ps, name, from + 1)
    }
}

/// The position of the provider through which a model is to be called: the
/// one of the given name; else the fastest where that is asked for; else the
/// cheapest, and, unless the cheapest is asked for, the first where none has
/// a price.
pub open spec fn chosen(ps: Seq<ProviderInfo>, name: Option<Seq<char>>, fastest: bool, cheapest: bool)
    -> Option<int> {
    match name {
        Some(n) => named_from(ps, n, 0),
        None => if fastest {
            fastest_upto(ps, ps.len() as int)
        } else if cheapest {
            cheapest_upto(ps, ps.len() as int)
        } else if cheapest_upto(ps, ps.len() as int) is Some {
            cheapest_upto(ps, ps.len() as int)
        } else if ps.len() > 0 {
            Some(0)
        } else {
            None
        },
    }
}

/// The provider through which a model is to be called.
pub fn choose_provider<'a>(model: &'a Model, name: Option<&str>, fastest: bool, cheapest: bool)
    -> (r: Option<&'a ProviderInfo>)
    ensures
        match r {
            Some(p) => {
                let i = chosen(
                    model.providers@,
                    match name {
                        Some(n) => Some(n@),
                        None => None,
                    },
                    fastest,
                    cheapest,
                );
                i is Some && 0 <= i->0 < model.providers@.len() && *p == model.providers@[i->0]
            },
            None => chosen(
                model.providers@,
                match name {
                    Some(n) => Some(n@),
                    None => None,
                },
                fastest,
                cheapest,
            ) is None,
        },
{
    proof {
        crate::model::lemma_cheapest_upto(model.providers@, model.providers@.len() as int);
        crate::model::lemma_fastest_upto(model.providers@, model.providers@.len() as int);
    }
    match name {
        Some(n) => {
            let want = chars_of(n);
            let mut i: usize = 0;
            while i < model.providers.len()
                invariant
                    i <= model.providers.len(),
                    want@ == n@,
                    name == Some(n),
                    named_from(model.providers@, n@, 0) == named_from(
                        model.providers@,
                        n@,
                        i as int,
                    ),
                decreases model.providers.len() - i,
            {
                let have = chars_of(model.providers[i].name.as_str());
                if same_chars(have.as_slice(), want.as_slice()) {
                    return Some(&model.providers[i]);
                }
                i += 1;
            }
            None
        },
        None => {
            if fastest {
                model.fastest()
            } else if cheapest {
                model.cheapest()
            } else {
                match model.cheapest() {
                    Some(p) => Some(p),
                    None => {
                        if model.providers.len() > 0 {
                            Some(&model.providers[0])
                        } else {
                            None
                        }
                    },
                }
            }
        },
    }
}

/// How the choice of a provider is described.
pub open spec fn choice_word(named: bool, fastest: bool) -> Seq<char> {
    if named {
        "selected"@
    } else if fastest {
        "fastest"@
    } else {
        "cheapest"@
    }
}

/// How the choice of a provider is described.
pub fn choice_label(named: bool, fastest: bool) -> (r: &'static str)
    ensures
        r@ == choice_word(named, fastest),
{
    if named {
        "selected"
    } else if fastest {
        "fastest"
    } else {
        "cheapest"
    }
}

/// A model has providers, but none of them with a price or a measured
/// throughput: the answer it comes from holds the short form of the mapping.
pub open spec fn lacks_figures(ps: Seq<ProviderInfo>) -> bool {
    ps.len() > 0 && forall|i: int|
        0 <= i < ps.len() ==> (#[trigger] ps[i]).input_price_per_m is None
            && ps[i].throughput_mtok_s is None
}

/// Whether the providers of a model are to be looked up again with their
/// prices and measurements.
pub fn needs_enrichment(model: &Model) -> (r: bool)
    ensures
        r == lacks_figures(model.providers@),
{
    if model.providers.len() == 0 {
        return false;
    }
    let mut i: usize = 0;
    while i < model.providers.len()
        invariant
            i <= model.providers.len(),
            forall|k: int|
                0 <= k < i ==> (#[trigger] model.providers@[k]).input_price_per_m is None
                    && model.providers@[k].throughput_mtok_s is None,
        decreases model.providers.len() - i,
    {
        let p = &model.providers[i];
        if p.input_price_per_m.is_some() || p.throughput_mtok_s.is_some() {
            return false;
        }
        i += 1;
    }
    true
}

/// The first of the models found stands out: it is the only one, or it has
/// providers and more than five times the likes of the second.
pub open spec fn clear_winner(models: Seq<Model>) -> bool {
    models.len() == 1 || (models.len() > 1 && models[0].providers@.len() > 0 && models[0].likes
        > models[1].likes * 5)
}

/// Whether the first of the models found stands out.
pub fn has_clear_winner(models: &[Model]) -> (r: bool)
    requires
        models@.len() > 0,
    ensures
        r == clear_winner(models@),
{
    if models.len() == 1 {
        return true;
    }
    if models[0].providers.len() == 0 {
        return false;
    }
    (models[0].likes as u128) > (models[1].likes as u128) * 5
}

/// The position from `from` on of the first model that has providers.
pub open spec fn first_served(models: Seq<Model>, from: int) -> Option<int>
    decreases models.len() - from,
{
    if from < 0 || from >= models.len() {
        None
    } else if models[from].providers@.len() > 0 {
        Some(from)
    } else {
        first_served(models, from + 1)
    }
}

/// The position of the model that is shown: the first that has providers,
/// or the first of all where none has.
pub fn pick_model(models: &[Model]) -> (r: usize)
    requires
        models@.len() > 0,
    ensures
        r < models@.len(),
        r == match first_served(models@, 0) {
            Some(i) => i,
            None => 0,
        },
{
    let mut i: usize = 0;
    while i < models.len()
        invariant
            i <= models.len(),
            first_served(models@, 0) == first_served(models@, i as int),
        decreases models.len() - i,
    {
        if models[i].providers.len() > 0 {
            return i;
        }
        i += 1;
    }
    0
}

/// The name of a model without its organisation: what stands behind the
/// last slash of the identifier.
pub fn short_name(model_id: &str) -> (r: String)
    ensures
        r@ == after_last(model_id@, '/'),
{
    let id = chars_of(model_id);
    let name = chars_after_last(id.as_slice(), '/');
    string_of(name.as_slice())
}

/// A broader search term for a query that found nothing: what stands before
/// its first hyphen.
pub fn broaden_hint(query: &str) -> (r: String)
    ensures
        r@ == before_first(query@, '-'),
{
    let q = chars_of(query);
    let head = chars_before_first(q.as_slice(), '-');
    string_of(head.as_slice())
}

/// The position from `from` on of the first reference model with the given
/// identifier.
pub open spec fn reference_from(refs: Seq<RefModel>, id: Seq<char>, from: int) -> Option<int>
    decreases refs.len() - from,
{
    if from < 0 || from >= refs.len() {
        None
    } else if refs[from].id@ == id {
        Some(from)
    } else {
        reference_from(refs, id, from + 1)
    }
}

/// The parameter count of the reference model with the given identifier.
pub fn reference_params(refs: &[RefModel], id: &str) -> (r: Option<u64>)
    ensures
        match r {
            Some(p) => reference_from(refs@, id@, 0) is Some && refs@[reference_from(
                refs@,
                id@,
                0,
            )->0].params == p,
            None => reference_from(refs@, id@, 0) is None,
        },
{
    let want = chars_of(id);
    let mut i: usize = 0;
    while i < refs.len()
        invariant
            i <= refs.len(),
            want@ == id@,
            reference_from(refs@, id@, 0) == reference_from(refs@, id@, i as int),
        decreases refs.len() - i,
    {
        let have = chars_of(refs[i].id);
        if same_chars(have.as_slice(), want.as_slice()) {
            return Some(refs[i].params);
        }
        i += 1;
    }
    None
}

/// The parameter count with which a model is estimated: its estimated count
/// where it has one, else the count of the reference model of the same
/// identifier. None where neither is known: the model cannot be estimated.
pub fn resolve_params(model: &Model, refs: &[RefModel]) -> (r: Option<u64>)
    ensures
        count_of(r) == match model.params_of() {
            Some(p) => Some(p),
            None => match reference_from(refs@, model.id@, 0) {
                Some(i) => Some(refs@[i].params as int),
                None => None,
            },
        },
{
    match model.estimated_params() {
        Some(p) => Some(p),
        None => reference_params(refs, model.id.as_str()),
    }
}

/// The position from `from` on of the first registry entry with the given
/// identifier.
pub open spec fn provider_from(list: Seq<Provider>, id: Seq<char>, from: int) -> Option<int>
    decreases list.len() - from,
{
    if from < 0 || from >= list.len() {
        None
    } else if list[from].id@ == id {
        Some(from)
    } else {
        provider_from(list, id, from + 1)
    }
}

/// The registry entry of a provider.
pub fn find_provider(list: &[Provider], id: &str) -> (r: Option<Provider>)
    ensures
        match r {
            Some(p) => provider_from(list@, id@, 0) is Some && list@[provider_from(list@, id@, 0)->0]
                == p,
            None => provider_from(list@, id@, 0) is None,
        },
{
    let want = chars_of(id);
    let mut i: usize = 0;
    while i < list.len()
        invariant
            i <= list.len(),
            want@ == id@,
            provider_from(list@, id@, 0) == provider_from(list@, id@, i as int),
        decreases list.len() - i,
    {
        let have = chars_of(list[i].id);
        if same_chars(have.as_slice(), want.as_slice()) {
            return Some(list[i]);
        }
        i += 1;
    }
    None
}

/// How a kind of provider is described.
pub open spec fn kind_word(kind: ProviderKind) -> Seq<char> {
    match kind {
        ProviderKind::InferenceProvider => "serverless GPU"@,
        ProviderKind::HfInference => "HF CPU"@,
    }
}

/// How a kind of provider is described.
pub fn kind_label(kind: ProviderKind) -> (r: &'static str)
    ensures
        r@ == kind_word(kind),
{
    match kind {
        ProviderKind::InferenceProvider => "serverless GPU",
        ProviderKind::HfInference => "HF CPU",
    }
}

/// The colour in which a readiness is shown, as an ANSI colour number.
pub open spec fn status_color_of(r: Readiness) -> u8 {
    match r {
        Readiness::Hot => 114,
        Readiness::Warm => 214,
        Readiness::Cold => 208,
        Readiness::Unavailable => 245,
    }
}

/// The colour in which a readiness is shown.
pub fn status_color(r: Readiness) -> (c: u8)
    ensures
        c == status_color_of(r),
{
    match r {
        Readiness::Hot => 114,
        Readiness::Warm => 214,
        Readiness::Cold => 208,
        Readiness::Unavailable => 245,
    }
}

/// Hours of a month.
pub const HOURS_PER_MONTH: u64 = 730;

/// What the electricity for a month under load costs, in millionths of a
/// dollar.
pub fn monthly_electricity(tdp_w: u32) -> (r: u64)
    ensures
        r == crate::ranking::power_cost_hr(tdp_w) * HOURS_PER_MONTH,
{
    crate::ranking::electricity_per_hour(tdp_w) * HOURS_PER_MONTH
}

} // verus!
