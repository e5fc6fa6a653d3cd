//! The tree through which a model, its variants, their providers and the
//! snippets are browsed: what it shows, and what a key does to it.
use vstd::prelude::*;
use crate::hardware::byte_len;
use crate::model::{targets, trim_chars, trimmed, Model};
use crate::order::sort_le;
use crate::provider::{ProviderInfo, Readiness};
use crate::select::{order_le, sorted_provs, status_color, status_color_of, ProviderOrder};
use crate::snippet::{generate_simple, lang_name, snippet_text, Lang};
use crate::text::{
    after_last, chars_after_last, chars_of, decimal, decimal_chars, find_from, find_in_from, fixed,
    fixed_chars, push_all, push_str, slice_chars, string_of,
};

verus! {

/// What a node of the tree stands for.
#[derive(Debug)]
pub enum NK {
    /// A model, by its identifier.
    Model(String),
    /// A provider of a model: the model's identifier and the provider's
    /// name.
    Prov(String, String),
    /// A snippet language for a provider of a model.
    Lang(String, String, Lang),
    /// A line that only decorates.
    Decor,
}

/// What an [`NK`] states.
pub enum NKView {
    Model(Seq<char>),
    Prov(Seq<char>, Seq<char>),
    Lang(Seq<char>, Seq<char>, Lang),
    Decor,
}

impl View for NK {
    type V = NKView;

    open spec fn view(&self) -> NKView {
        match self {
            NK::Model(id) => NKView::Model(id@),
            NK::Prov(id, name) => NKView::Prov(id@, name@),
            NK::Lang(id, name, lang) => NKView::Lang(id@, name@, *lang),
            NK::Decor => NKView::Decor,
        }
    }
}

impl Clone for NK {
    fn clone(&self) -> (r: Self)
        ensures
            r == *self,
    {
        match self {
            NK::Model(id) => NK::Model(id.clone()),
            NK::Prov(id, name) => NK::Prov(id.clone(), name.clone()),
            NK::Lang(id, name, lang) => NK::Lang(id.clone(), name.clone(), *lang),
            NK::Decor => NK::Decor,
        }
    }
}

impl NK {
    /// Whether two kinds stand for the same thing.
    pub fn same(&self, other: &NK) -> (r: bool)
        ensures
            r == (self@ == other@),
    {
        match (self, other) {
            (NK::Model(a), NK::Model(b)) => *a == *b,
            (NK::Prov(a, p), NK::Prov(b, q)) => *a == *b && *p == *q,
            (NK::Lang(a, p, l), NK::Lang(b, q, m)) => *a == *b && *p == *q && *l == *m,
            (NK::Decor, NK::Decor) => true,
            _ => false,
        }
    }
}

/// A line of the tree.
#[derive(Debug)]
pub struct TreeNode {
    /// The text at the left.
    pub label: String,
    /// The text behind the label.
    pub detail: String,
    /// The readiness by which the detail is coloured.
    pub readiness: Option<Readiness>,
    /// What the line stands for.
    pub kind: NK,
    /// Whether the line is a line of a snippet.
    pub code: bool,
    /// Whether the line is greyed out.
    pub disabled: bool,
}

/// What a [`TreeNode`] states.
pub struct TreeNodeView {
    pub label: Seq<char>,
    pub detail: Seq<char>,
    pub readiness: Option<Readiness>,
    pub kind: NKView,
    pub code: bool,
    pub disabled: bool,
}

impl View for TreeNode {
    type V = TreeNodeView;

    open spec fn view(&self) -> TreeNodeView {
        TreeNodeView {
            label: self.label@,
            detail: self.detail@,
            readiness: self.readiness,
            kind: self.kind@,
            code: self.code,
            disabled: self.disabled,
        }
    }
}

/// A line on which the cursor can stand: it is no line of a snippet, not
/// greyed out and no decoration.
pub open spec fn can_select(n: TreeNodeView) -> bool {
    !n.code && !n.disabled && n.kind != NKView::Decor
}

impl TreeNode {
    /// Whether the cursor can stand on the line.
    pub fn selectable(&self) -> (r: bool)
        ensures
            r == can_select(self@),
    {
        let decor = match self.kind {
            NK::Decor => true,
            _ => false,
        };
        !self.code && !self.disabled && !decor
    }
}

/// What a sequence of lines states.
pub open spec fn node_views(nodes: Seq<TreeNode>) -> Seq<TreeNodeView> {
    Seq::new(nodes.len(), |i: int| nodes[i]@)
}

/// The positions of the lines on which the cursor can stand, in ascending
/// order.
pub open spec fn selectable_positions(nodes: Seq<TreeNodeView>) -> Seq<usize>
    decreases nodes.len(),
{
    if nodes.len() == 0 {
        Seq::empty()
    } else {
        let rest = selectable_positions(nodes.drop_last());
        if can_select(nodes.last()) {
            rest.push((nodes.len() - 1) as usize)
        } else {
            rest
        }
    }
}

/// The positions that [`selectable_positions`] lists lie within the tree,
/// ascend, and are those of lines on which the cursor can stand.
pub proof fn lemma_selectable_positions(nodes: Seq<TreeNodeView>)
    requires
        nodes.len() <= usize::MAX,
    ensures
        forall|i: int|
            0 <= i < selectable_positions(nodes).len() ==> (#[trigger] selectable_positions(
                nodes,
            )[i]) < nodes.len() && can_select(nodes[selectable_positions(nodes)[i] as int]),
        forall|i: int, j: int|
            0 <= i < j < selectable_positions(nodes).len() ==> selectable_positions(nodes)[i]
                < selectable_positions(nodes)[j],
        selectable_positions(nodes).len() <= nodes.len(),
    decreases nodes.len(),
{
    if nodes.len() > 0 {
        lemma_selectable_positions(nodes.drop_last());
    }
}

/// The positions of the lines on which the cursor can stand.
pub fn sel_indices(nodes: &[TreeNode]) -> (r: Vec<usize>)
    ensures
        r@ == selectable_positions(node_views(nodes@)),
{
    let mut out: Vec<usize> = Vec::new();
    let mut i: usize = 0;
    let ghost all = node_views(nodes@);
    assert(all.take(0) =~= Seq::<TreeNodeView>::empty());
    while i < nodes.len()
        invariant
            i <= nodes.len(),
            all == node_views(nodes@),
            out@ == selectable_positions(all.take(i as int)),
        decreases nodes.len() - i,
    {
        proof {
            assert(all.take(i + 1).drop_last() =~= all.take(i as int));
            assert(all.take(i + 1).last() == nodes@[i as int]@);
        }
        if nodes[i].selectable() {
            out.push(i);
        }
        i += 1;
    }
    assert(all.take(all.len() as int) == all);
    out
}

/// The first place from `from` on in the list of selectable positions whose
/// line stands for `target`.
pub open spec fn selection_of(nodes: Seq<TreeNodeView>, sel: Seq<usize>, target: NKView, from: int)
    -> Option<int>
    decreases sel.len() - from,
{
    if from < 0 || from >= sel.len() {
        None
    } else if nodes[sel[from] as int].kind == target {
        Some(from)
    } else {
        selection_of(nodes, sel, target, from + 1)
    }
}

/// The place in the list of selectable positions of the line that stands
/// for `target`.
pub fn find_sel(nodes: &[TreeNode], sel: &[usize], target: &NK) -> (r: Option<usize>)
    requires
        forall|i: int| 0 <= i < sel@.len() ==> sel@[i] < nodes@.len(),
    ensures
        match r {
            Some(i) => selection_of(node_views(nodes@), sel@, target@, 0) == Some(i as int) && i
                < sel@.len(),
            None => selection_of(node_views(nodes@), sel@, target@, 0) is None,
        },
{
    let mut i: usize = 0;
    while i < sel.len()
        invariant
            i <= sel.len(),
            forall|k: int| 0 <= k < sel@.len() ==> sel@[k] < nodes@.len(),
            selection_of(node_views(nodes@), sel@, target@, 0) == selection_of(
                node_views(nodes@),
                sel@,
                target@,
                i as int,
            ),
        decreases sel.len() - i,
    {
        assert(node_views(nodes@)[sel@[i as int] as int] == nodes@[sel@[i as int] as int]@);
        if nodes[sel[i]].kind.same(target) {
            return Some(i);
        }
        i += 1;
    }
    None
}

/// A text followed by as many spaces as it lacks to the given width.
pub open spec fn pad_right(s: Seq<char>, width: nat) -> Seq<char> {
    if s.len() >= width {
        s
    } else {
        s + Seq::new((width - s.len()) as nat, |i: int| ' ')
    }
}

/// Appends a text and the spaces that it lacks to the given width.
pub fn push_padded(out: &mut Vec<char>, s: &[char], width: usize)
    ensures
        final(out)@ == old(out)@ + pad_right(s@, width as nat),
{
    push_all(out, s);
    let mut n: usize = s.len();
    while n < width
        invariant
            s.len() <= n,
            n <= width || n == s.len(),
            out@ == old(out)@ + s@ + Seq::new((n - s.len()) as nat, |i: int| ' '),
        decreases width - n,
    {
        out.push(' ');
        n += 1;
        assert(out@ =~= old(out)@ + s@ + Seq::new((n - s.len()) as nat, |i: int| ' '));
    }
    assert(out@ =~= old(out)@ + pad_right(s@, width as nat));
}

/// An amount of dollars with cents, for an amount in millionths of a
/// dollar.
pub open spec fn dollars(v: u64) -> Seq<char> {
    seq!['$'] + fixed(v as nat, 1_000_000, 2)
}

/// A speed in whole tokens per second, for a speed in thousandths.
pub open spec fn whole_speed(v: u64) -> Seq<char> {
    fixed(v as nat, 1_000, 0) + " t/s"@
}

/// Appends an amount of dollars with cents.
pub fn push_dollars(out: &mut Vec<char>, v: u64)
    ensures
        final(out)@ == old(out)@ + dollars(v),
{
    out.push('$');
    let digits = fixed_chars(v, 1_000_000, 2);
    push_all(out, digits.as_slice());
    assert(out@ =~= old(out)@ + dollars(v));
}

/// Appends a speed in whole tokens per second.
pub fn push_speed(out: &mut Vec<char>, v: u64)
    ensures
        final(out)@ == old(out)@ + whole_speed(v),
{
    let digits = fixed_chars(v, 1_000, 0);
    push_all(out, digits.as_slice());
    push_str(out, " t/s");
    assert(out@ =~= old(out)@ + whole_speed(v));
}

/// The prices of a provider as they are shown in the tree: input and output
/// price, where both are known.
pub open spec fn price_pair(p: ProviderInfo) -> Seq<char> {
    match (p.input_price_per_m, p.output_price_per_m) {
        (Some(i), Some(o)) => dollars(i) + seq!['/'] + dollars(o),
        _ => Seq::empty(),
    }
}

/// The throughput of a provider as it is shown in the tree.
pub open spec fn speed_text(p: ProviderInfo) -> Seq<char> {
    match p.throughput_mtok_s {
        Some(t) => whole_speed(t),
        None => Seq::empty(),
    }
}

/// The detail of a provider's line: readiness, prices and throughput in
/// columns.
pub open spec fn detail_of(p: ProviderInfo) -> Seq<char> {
    pad_right(p.readiness_of().label(), 10) + seq![' '] + pad_right(price_pair(p), 14) + seq![' ']
        + speed_text(p)
}

/// The detail of a provider's line.
pub fn prov_detail(p: &ProviderInfo) -> (r: String)
    ensures
        r@ == detail_of(*p),
{
    let mut out: Vec<char> = Vec::new();
    let status = p.readiness().to_string();
    let status_chars = chars_of(status.as_str());
    push_padded(&mut out, status_chars.as_slice(), 10);
    out.push(' ');
    let mut price: Vec<char> = Vec::new();
    match (p.input_price_per_m, p.output_price_per_m) {
        (Some(i), Some(o)) => {
            push_dollars(&mut price, i);
            price.push('/');
            push_dollars(&mut price, o);
            assert(price@ =~= price_pair(*p));
        },
        _ => {
            assert(price@ =~= price_pair(*p));
        },
    }
    push_padded(&mut out, price.as_slice(), 14);
    out.push(' ');
    match p.throughput_mtok_s {
        Some(t) => {
            push_speed(&mut out, t);
        },
        None => {},
    }
    assert(out@ =~= detail_of(*p));
    string_of(out.as_slice())
}

/// The lowest of the values that are there.
pub open spec fn lowest(vals: Seq<Option<u64>>) -> Option<u64>
    decreases vals.len(),
{
    if vals.len() == 0 {
        None
    } else {
        match (lowest(vals.drop_last()), vals.last()) {
            (None, v) => v,
            (Some(a), None) => Some(a),
            (Some(a), Some(b)) => if b < a {
                Some(b)
            } else {
                Some(a)
            },
        }
    }
}

/// The highest of the values that are there.
pub open spec fn highest(vals: Seq<Option<u64>>) -> Option<u64>
    decreases vals.len(),
{
    if vals.len() == 0 {
        None
    } else {
        match (highest(vals.drop_last()), vals.last()) {
            (None, v) => v,
            (Some(a), None) => Some(a),
            (Some(a), Some(b)) => if b > a {
                Some(b)
            } else {
                Some(a)
            },
        }
    }
}

/// The output prices of the providers.
pub open spec fn prices_of(ps: Seq<ProviderInfo>) -> Seq<Option<u64>> {
    Seq::new(ps.len(), |i: int| ps[i].output_price_per_m)
}

/// The throughputs of the providers.
pub open spec fn speeds_of(ps: Seq<ProviderInfo>) -> Seq<Option<u64>> {
    Seq::new(ps.len(), |i: int| ps[i].throughput_mtok_s)
}

/// How many providers there are, in words.
pub open spec fn provider_count_text(n: nat) -> Seq<char> {
    if n == 1 {
        "1 provider"@
    } else {
        decimal(n) + " providers"@
    }
}

/// The range of the output prices: one price where the lowest and the
/// highest are less than half a cent apart.
pub open spec fn price_range(ps: Seq<ProviderInfo>) -> Seq<char> {
    match (lowest(prices_of(ps)), highest(prices_of(ps))) {
        (Some(lo), Some(hi)) => if hi - lo < 5_000 {
            "  "@ + dollars(lo)
        } else {
            "  "@ + dollars(lo) + seq!['\u{2013}'] + dollars(hi)
        },
        _ => Seq::empty(),
    }
}

/// The range of the throughputs: one speed where the lowest and the highest
/// are less than half a token per second apart.
pub open spec fn speed_range(ps: Seq<ProviderInfo>) -> Seq<char> {
    match (lowest(speeds_of(ps)), highest(speeds_of(ps))) {
        (Some(lo), Some(hi)) => if hi - lo < 500 {
            "  "@ + whole_speed(lo)
        } else {
            "  "@ + fixed(lo as nat, 1_000, 0) + seq!['\u{2013}'] + whole_speed(hi)
        },
        _ => Seq::empty(),
    }
}

/// The summary of a model's line: the number of its providers, and the
/// ranges of their prices and throughputs.
pub open spec fn summary_of(ps: Seq<ProviderInfo>) -> Seq<char> {
    provider_count_text(ps.len()) + price_range(ps) + speed_range(ps)
}

/// The lowest and the highest of the values that are there.
fn extremes(ps: &Vec<ProviderInfo>, speeds: bool) -> (r: (Option<u64>, Option<u64>))
    ensures
        r.0 == lowest(
            if speeds {
                speeds_of(ps@)
            } else {
                prices_of(ps@)
            },
        ),
        r.1 == highest(
            if speeds {
                speeds_of(ps@)
            } else {
                prices_of(ps@)
            },
        ),
{
    let ghost vals = if speeds {
        speeds_of(ps@)
    } else {
        prices_of(ps@)
    };
    let mut lo: Option<u64> = None;
    let mut hi: Option<u64> = None;
    let mut i: usize = 0;
    assert(vals.take(0) =~= Seq::<Option<u64>>::empty());
    while i < ps.len()
        invariant
            i <= ps.len(),
            vals == if speeds {
                speeds_of(ps@)
            } else {
                prices_of(ps@)
            },
            lo == lowest(vals.take(i as int)),
            hi == highest(vals.take(i as int)),
        decreases ps.len() - i,
    {
        let v = if speeds {
            ps[i].throughput_mtok_s
        } else {
            ps[i].output_price_per_m
        };
        proof {
            assert(vals.take(i + 1).drop_last() =~= vals.take(i as int));
            assert(vals.take(i + 1).last() == v);
        }
        lo = match (lo, v) {
            (None, v) => v,
            (Some(a), None) => Some(a),
            (Some(a), Some(b)) => if b < a {
                Some(b)
            } else {
                Some(a)
            },
        };
        hi = match (hi, v) {
            (None, v) => v,
            (Some(a), None) => Some(a),
            (Some(a), Some(b)) => if b > a {
                Some(b)
            } else {
                Some(a)
            },
        };
        i += 1;
    }
    assert(vals.take(vals.len() as int) == vals);
    (lo, hi)
}

/// The summary of a model's line.
pub fn model_summary(m: &Model) -> (r: String)
    ensures
        r@ == summary_of(m.providers@),
{
    let mut out: Vec<char> = Vec::new();
    let pc: usize = m.providers.len();
    if pc == 1 {
        push_str(&mut out, "1 provider");
    } else {
        let digits = decimal_chars(pc as u64);
        push_all(&mut out, digits.as_slice());
        push_str(&mut out, " providers");
    }
    assert(out@ =~= provider_count_text(m.providers@.len()));
    let (lo, hi) = extremes(&m.providers, false);
    match (lo, hi) {
        (Some(lo), Some(hi)) => {
            proof {
                lemma_lowest_is_below(prices_of(m.providers@));
            }
            push_str(&mut out, "  ");
            push_dollars(&mut out, lo);
            if hi - lo >= 5_000 {
                out.push('\u{2013}');
                push_dollars(&mut out, hi);
            }
        },
        _ => {},
    }
    assert(out@ =~= provider_count_text(m.providers@.len()) + price_range(m.providers@));
    let (lo, hi) = extremes(&m.providers, true);
    match (lo, hi) {
        (Some(lo), Some(hi)) => {
            proof {
                lemma_lowest_is_below(speeds_of(m.providers@));
            }
            push_str(&mut out, "  ");
            if hi - lo >= 500 {
                let digits = fixed_chars(lo, 1_000, 0);
                push_all(&mut out, digits.as_slice());
                out.push('\u{2013}');
                push_speed(&mut out, hi);
            } else {
                push_speed(&mut out, lo);
            }
        },
        _ => {},
    }
    assert(out@ =~= summary_of(m.providers@));
    string_of(out.as_slice())
}

/// The lowest value is no larger than the highest, and both are there or
/// neither is.
pub proof fn lemma_lowest_is_below(vals: Seq<Option<u64>>)
    ensures
        lowest(vals) is Some <==> highest(vals) is Some,
        lowest(vals) is Some ==> lowest(vals)->0 <= highest(vals)->0,
    decreases vals.len(),
{
    if vals.len() > 0 {
        lemma_lowest_is_below(vals.drop_last());
    }
}

/// A line without the carriage return at its end, if it has one.
pub open spec fn without_cr(line: Seq<char>) -> Seq<char> {
    if line.len() > 0 && line.last() == '\r' {
        line.drop_last()
    } else {
        line
    }
}

/// The lines of a text from position `from` on. A line ends with a line
/// feed, before which a carriage return does not count; what stands behind
/// the last line feed is a line where it is not empty.
pub open spec fn lines_from(s: Seq<char>, from: int) -> Seq<Seq<char>>
    decreases s.len() - from,
{
    if from < 0 || from >= s.len() {
        Seq::empty()
    } else {
        match find_from(s, seq!['\n'], from) {
            Some(nl) => if from <= nl < s.len() {
                seq![without_cr(s.subrange(from, nl))] + lines_from(s, nl + 1)
            } else {
                Seq::empty()
            },
            None => seq![s.skip(from)],
        }
    }
}

/// The lines of a text.
pub open spec fn lines_of(s: Seq<char>) -> Seq<Seq<char>> {
    lines_from(s, 0)
}

/// The lines of a text.
pub fn lines(s: &[char]) -> (r: Vec<Vec<char>>)
    ensures
        r@.len() == lines_of(s@).len(),
        forall|i: int| 0 <= i < r@.len() ==> (#[trigger] r@[i])@ == lines_of(s@)[i],
{
    let mut feed: Vec<char> = Vec::new();
    feed.push('\n');
    assert(feed@ == seq!['\n']);
    let n: usize = s.len();
    let mut out: Vec<Vec<char>> = Vec::new();
    let ghost mut done: Seq<Seq<char>> = Seq::empty();
    let mut pos: usize = 0;
    while pos < n
        invariant
            pos <= n,
            n == s.len(),
            feed@ == seq!['\n'],
            out@.len() == done.len(),
            forall|i: int| 0 <= i < out@.len() ==> (#[trigger] out@[i])@ == done[i],
            lines_of(s@) == done + lines_from(s@, pos as int),
        decreases n - pos,
    {
        match find_in_from(s, feed.as_slice(), pos) {
            Some(nl) => {
                proof {
                    crate::text::lemma_find_from(s@, feed@, pos as int);
                }
                let mut end: usize = nl;
                if end > pos && s[end - 1] == '\r' {
                    end -= 1;
                }
                let line = slice_chars(s, pos, end);
                assert(line@ == without_cr(s@.subrange(pos as int, nl as int)));
                proof {
                    assert(done + (seq![line@] + lines_from(s@, nl + 1)) =~= done.push(line@)
                        + lines_from(s@, nl + 1));
                    done = done.push(line@);
                }
                out.push(line);
                pos = nl + 1;
            },
            None => {
                let line = slice_chars(s, pos, n);
                assert(line@ == s@.skip(pos as int));
                proof {
                    assert(done + seq![line@] =~= done.push(line@));
                    done = done.push(line@);
                }
                out.push(line);
                assert(lines_of(s@) == done);
                return out;
            },
        }
    }
    assert(lines_from(s@, pos as int) =~= Seq::<Seq<char>>::empty());
    assert(done + Seq::<Seq<char>>::empty() =~= done);
    out
}

/// The three languages, in the order in which the tree lists them.
pub open spec fn langs() -> Seq<Lang> {
    seq![Lang::Python, Lang::Curl, Lang::Javascript]
}

/// The label of a language's line.
pub open spec fn lang_label(pad: Seq<char>, last: bool, lang: Lang) -> Seq<char> {
    pad + (if last {
        "\u{2514}\u{2500}"@
    } else {
        "\u{251c}\u{2500}"@
    }) + seq![' '] + lang.name()
}

/// The label of a line of a snippet.
pub open spec fn code_label(pad: Seq<char>, last: bool, line: Seq<char>) -> Seq<char> {
    pad + (if last {
        "   "@
    } else {
        "\u{2502}  "@
    }) + "\u{258e} "@ + line
}

/// The line of a language.
pub open spec fn lang_node(pad: Seq<char>, last: bool, model_id: Seq<char>, prov: Seq<char>, lang: Lang)
    -> TreeNodeView {
    TreeNodeView {
        label: lang_label(pad, last, lang),
        detail: Seq::empty(),
        readiness: None,
        kind: NKView::Lang(model_id, prov, lang),
        code: false,
        disabled: false,
    }
}

/// The lines of a snippet.
pub open spec fn code_nodes(pad: Seq<char>, last: bool, code: Seq<Seq<char>>) -> Seq<TreeNodeView> {
    Seq::new(
        code.len(),
        |i: int|
            TreeNodeView {
                label: code_label(pad, last, code[i]),
                detail: Seq::empty(),
                readiness: None,
                kind: NKView::Decor,
                code: true,
                disabled: false,
            },
    )
}

/// The line of the `j`-th language with, where the language is open, the
/// lines of its snippet.
pub open spec fn lang_block(
    pad: Seq<char>,
    j: int,
    data_id: Seq<char>,
    model_id: Seq<char>,
    prov: Seq<char>,
    open_lang: Option<Lang>,
) -> Seq<TreeNodeView> {
    let lang = langs()[j];
    let head = seq![lang_node(pad, j == 2, model_id, prov, lang)];
    if open_lang == Some(lang) {
        head + code_nodes(pad, j == 2, lines_of(snippet_text(data_id, prov, lang)))
    } else {
        head
    }
}

/// The lines of the three languages of a provider.
pub open spec fn lang_blocks(
    pad: Seq<char>,
    data_id: Seq<char>,
    model_id: Seq<char>,
    prov: Seq<char>,
    open_lang: Option<Lang>,
) -> Seq<TreeNodeView> {
    lang_block(pad, 0, data_id, model_id, prov, open_lang) + lang_block(
        pad,
        1,
        data_id,
        model_id,
        prov,
        open_lang,
    ) + lang_block(pad, 2, data_id, model_id, prov, open_lang)
}

/// Appends the line of one language and, where the language is open, the
/// lines of its snippet.
fn add_lang(
    nodes: &mut Vec<TreeNode>,
    mdl: &Model,
    prov: &ProviderInfo,
    exp_lang: &Option<Lang>,
    pad: &str,
    model_id: &str,
    j: usize,
)
    requires
        j < 3,
    ensures
        node_views(final(nodes)@) == node_views(old(nodes)@) + lang_block(
            pad@,
            j as int,
            mdl.id@,
            model_id@,
            prov.name@,
            *exp_lang,
        ),
{
    let lang = if j == 0 {
        Lang::Python
    } else if j == 1 {
        Lang::Curl
    } else {
        Lang::Javascript
    };
    let last = j == 2;
    let ghost before = node_views(nodes@);
    let mut label: Vec<char> = Vec::new();
    push_str(&mut label, pad);
    push_str(
        &mut label,
        if last {
            "\u{2514}\u{2500}"
        } else {
            "\u{251c}\u{2500}"
        },
    );
    label.push(' ');
    push_str(&mut label, lang_name(lang));
    assert(label@ =~= lang_label(pad@, last, lang));
    nodes.push(
        TreeNode {
            label: string_of(label.as_slice()),
            detail: String::new(),
            readiness: None,
            kind: NK::Lang(model_id.to_owned(), prov.name.clone(), lang),
            code: false,
            disabled: false,
        },
    );
    assert(node_views(nodes@) =~= before + seq![
        lang_node(pad@, last, model_id@, prov.name@, lang),
    ]);
    let open = match exp_lang {
        Some(l) => *l == lang,
        None => false,
    };
    if open {
        let code = generate_simple(mdl.id.as_str(), prov.name.as_str(), lang);
        let code_chars = chars_of(code.as_str());
        let code_lines = lines(code_chars.as_slice());
        let ghost want = code_nodes(pad@, last, lines_of(snippet_text(mdl.id@, prov.name@, lang)));
        let ghost head = node_views(nodes@);
        let mut i: usize = 0;
        while i < code_lines.len()
            invariant
                i <= code_lines.len(),
                code_lines@.len() == want.len(),
                want == code_nodes(pad@, last, lines_of(snippet_text(mdl.id@, prov.name@, lang))),
                forall|k: int|
                    0 <= k < code_lines@.len() ==> (#[trigger] code_lines@[k])@ == lines_of(
                        snippet_text(mdl.id@, prov.name@, lang),
                    )[k],
                node_views(nodes@) == head + want.take(i as int),
            decreases code_lines.len() - i,
        {
            let mut label: Vec<char> = Vec::new();
            push_str(&mut label, pad);
            push_str(
                &mut label,
                if last {
                    "   "
                } else {
                    "\u{2502}  "
                },
            );
            push_str(&mut label, "\u{258e} ");
            push_all(&mut label, code_lines[i].as_slice());
            assert(label@ =~= code_label(pad@, last, code_lines@[i as int]@));
            let ghost so_far = node_views(nodes@);
            nodes.push(
                TreeNode {
                    label: string_of(label.as_slice()),
                    detail: String::new(),
                    readiness: None,
                    kind: NK::Decor,
                    code: true,
                    disabled: false,
                },
            );
            assert(node_views(nodes@) =~= so_far.push(want[i as int]));
            assert(head + want.take(i + 1) =~= (head + want.take(i as int)).push(want[i as int]));
            i += 1;
        }
        assert(want.take(want.len() as int) == want);
        assert(before + (seq![lang_node(pad@, last, model_id@, prov.name@, lang)] + want) =~= head
            + want);
    }
}

/// Appends the lines of the three languages of a provider; the snippet of
/// the open language, if any, follows its line.
pub fn add_langs(
    nodes: &mut Vec<TreeNode>,
    mdl: &Model,
    prov: &ProviderInfo,
    exp_lang: &Option<Lang>,
    pad: &str,
    model_id: &str,
)
    ensures
        node_views(final(nodes)@) == node_views(old(nodes)@) + lang_blocks(
            pad@,
            mdl.id@,
            model_id@,
            prov.name@,
            *exp_lang,
        ),
{
    let ghost before = node_views(nodes@);
    add_lang(nodes, mdl, prov, exp_lang, pad, model_id, 0);
    add_lang(nodes, mdl, prov, exp_lang, pad, model_id, 1);
    add_lang(nodes, mdl, prov, exp_lang, pad, model_id, 2);
    assert(node_views(nodes@) =~= before + lang_blocks(
        pad@,
        mdl.id@,
        model_id@,
        prov.name@,
        *exp_lang,
    ));
}

/// The provider that is open in the tree, with the language that is open
/// below it.
#[derive(Debug)]
pub struct ProvExp {
    pub name: String,
    pub lang: Option<Lang>,
}

/// What is open in the tree.
#[derive(Debug)]
pub enum Exp {
    /// Nothing.
    Closed,
    /// A model, and below it possibly one of its providers.
    Open { model_id: String, prov: Option<ProvExp> },
}

/// What a [`ProvExp`] states.
pub struct ProvExpView {
    pub name: Seq<char>,
    pub lang: Option<Lang>,
}

/// What an [`Exp`] states.
pub enum ExpView {
    Closed,
    Open { model_id: Seq<char>, prov: Option<ProvExpView> },
}

impl View for ProvExp {
    type V = ProvExpView;

    open spec fn view(&self) -> ProvExpView {
        ProvExpView { name: self.name@, lang: self.lang }
    }
}

impl View for Exp {
    type V = ExpView;

    open spec fn view(&self) -> ExpView {
        match self {
            Exp::Closed => ExpView::Closed,
            Exp::Open { model_id, prov } => ExpView::Open {
                model_id: model_id@,
                prov: match prov {
                    Some(pe) => Some(pe@),
                    None => None,
                },
            },
        }
    }
}

impl Clone for ProvExp {
    fn clone(&self) -> (r: Self)
        ensures
            r == *self,
    {
        ProvExp { name: self.name.clone(), lang: self.lang }
    }
}

impl Clone for Exp {
    fn clone(&self) -> (r: Self)
        ensures
            r == *self,
    {
        match self {
            Exp::Closed => Exp::Closed,
            Exp::Open { model_id, prov } => Exp::Open {
                model_id: model_id.clone(),
                prov: match prov {
                    Some(pe) => Some(pe.clone()),
                    None => None,
                },
            },
        }
    }
}

/// The model of the given identifier is open.
pub open spec fn opens(exp: ExpView, id: Seq<char>) -> bool {
    exp matches ExpView::Open { model_id, .. } && model_id == id
}

/// The provider that is open, if any.
pub open spec fn open_prov(exp: ExpView) -> Option<ProvExpView> {
    match exp {
        ExpView::Open { prov, .. } => prov,
        ExpView::Closed => None,
    }
}

/// What an optional open provider states.
pub open spec fn prov_view_of(p: Option<ProvExp>) -> Option<ProvExpView> {
    match p {
        Some(pe) => Some(pe@),
        None => None,
    }
}

/// The first position from `from` on of a fetched model under the given
/// identifier.
pub open spec fn cached_from(cache: Seq<(String, Model)>, id: Seq<char>, from: int) -> Option<int>
    decreases cache.len() - from,
{
    if from < 0 || from >= cache.len() {
        None
    } else if cache[from].0@ == id {
        Some(from)
    } else {
        cached_from(cache, id, from + 1)
    }
}

/// The first position from `from` on of a variant with the given
/// identifier.
pub open spec fn variant_from(variants: Seq<Model>, id: Seq<char>, from: int) -> Option<int>
    decreases variants.len() - from,
{
    if from < 0 || from >= variants.len() {
        None
    } else if variants[from].id@ == id {
        Some(from)
    } else {
        variant_from(variants, id, from + 1)
    }
}

/// The data from which the providers of a listed model are taken: the main
/// model for its own identifier; else what was fetched under the identifier;
/// else the first variant of that identifier; else the listed model itself.
pub open spec fn data_for(m: Model, model: Model, variants: Seq<Model>, cache: Seq<(String, Model)>)
    -> Model {
    if m.id@ == model.id@ {
        model
    } else {
        match cached_from(cache, m.id@, 0) {
            Some(i) => cache[i].1,
            None => match variant_from(variants, m.id@, 0) {
                Some(j) => variants[j],
                None => m,
            },
        }
    }
}

/// The data from which the providers of a listed model are taken.
pub fn model_data<'a>(
    m: &'a Model,
    model: &'a Model,
    variants: &'a [Model],
    cache: &'a [(String, Model)],
) -> (r: &'a Model)
    ensures
        *r == data_for(*m, *model, variants@, cache@),
{
    if m.id == model.id {
        return model;
    }
    let mut i: usize = 0;
    while i < cache.len()
        invariant
            i <= cache.len(),
            m.id@ != model.id@,
            cached_from(cache@, m.id@, 0) == cached_from(cache@, m.id@, i as int),
        decreases cache.len() - i,
    {
        if cache[i].0 == m.id {
            return &cache[i].1;
        }
        i += 1;
    }
    let mut j: usize = 0;
    while j < variants.len()
        invariant
            j <= variants.len(),
            m.id@ != model.id@,
            cached_from(cache@, m.id@, 0) is None,
            variant_from(variants@, m.id@, 0) == variant_from(variants@, m.id@, j as int),
        decreases variants.len() - j,
    {
        if variants[j].id == m.id {
            return &variants[j];
        }
        j += 1;
    }
    m
}

/// A width as a machine number: the largest machine number where it is
/// beyond that.
pub open spec fn cap(n: int) -> usize {
    if n > usize::MAX {
        usize::MAX
    } else if n < 0 {
        0
    } else {
        n as usize
    }
}

/// The larger of two widths.
pub open spec fn wider(a: usize, b: usize) -> usize {
    if a >= b {
        a
    } else {
        b
    }
}

/// The width that the names of the first `n` providers ask for: the
/// longest name, counted in bytes, and two more for the indentation.
pub open spec fn names_width(ps: Seq<ProviderInfo>, n: int) -> usize
    decreases n,
{
    if n <= 0 {
        0
    } else {
        wider(names_width(ps, n - 1), cap(byte_len(ps[n - 1].name@) as int + 2))
    }
}

/// The width that a listed model asks for: that of its short name and,
/// where the model is open, that of its providers' names.
pub open spec fn block_width(
    m: Model,
    model: Model,
    variants: Seq<Model>,
    cache: Seq<(String, Model)>,
    exp: ExpView,
) -> usize {
    wider(
        cap(byte_len(after_last(m.id@, '/')) as int),
        if opens(exp, m.id@) {
            names_width(
                data_for(m, model, variants, cache).providers@,
                data_for(m, model, variants, cache).providers@.len() as int,
            )
        } else {
            0
        },
    )
}

/// The width that the first `n` listed models ask for.
pub open spec fn tree_width(
    all: Seq<Model>,
    n: int,
    model: Model,
    variants: Seq<Model>,
    cache: Seq<(String, Model)>,
    exp: ExpView,
) -> usize
    decreases n,
{
    if n <= 0 {
        0
    } else {
        wider(
            tree_width(all, n - 1, model, variants, cache, exp),
            block_width(all[n - 1], model, variants, cache, exp),
        )
    }
}

/// The models that the tree lists: the main model, then its variants.
pub open spec fn listed(model: Model, variants: Seq<Model>) -> Seq<Model> {
    seq![model] + variants
}

/// The width of the column of names: what the listed models ask for, and
/// two more.
pub open spec fn column(
    model: Model,
    variants: Seq<Model>,
    cache: Seq<(String, Model)>,
    exp: ExpView,
) -> usize {
    cap(
        tree_width(
            listed(model, variants),
            listed(model, variants).len() as int,
            model,
            variants,
            cache,
            exp,
        ) as int + 2,
    )
}

/// The keys that the first line of the tree explains.
pub const KEY_HELP: &'static str =
    "[\u{2191}\u{2193}] move  [\u{2192}] open  [\u{2190}] close  [\u{23ce}] copy  [q/esc] quit";

/// A line that only decorates.
pub open spec fn decor_node(label: Seq<char>) -> TreeNodeView {
    TreeNodeView {
        label,
        detail: Seq::empty(),
        readiness: None,
        kind: NKView::Decor,
        code: false,
        disabled: false,
    }
}

/// The line of a listed model: its short name in the column of names, and
/// the summary of its providers. A model without providers is greyed out.
pub open spec fn model_node(m: Model, col: usize) -> TreeNodeView {
    TreeNodeView {
        label: pad_right(after_last(m.id@, '/'), col as nat),
        detail: summary_of(m.providers@),
        readiness: None,
        kind: NKView::Model(m.id@),
        code: false,
        disabled: m.providers@.len() == 0,
    }
}

/// The line of a provider of the model `model_id`.
pub open spec fn prov_node(model_id: Seq<char>, p: ProviderInfo, col: usize) -> TreeNodeView {
    TreeNodeView {
        label: "  "@ + pad_right(p.name@, (col - 2) as nat),
        detail: detail_of(p),
        readiness: Some(p.readiness_of()),
        kind: NKView::Prov(model_id, p.name@),
        code: false,
        disabled: false,
    }
}

/// The lines of the first `n` providers; below the provider that is open
/// stand the lines of the languages.
pub open spec fn prov_rows(
    provs: Seq<ProviderInfo>,
    n: int,
    model_id: Seq<char>,
    data_id: Seq<char>,
    col: usize,
    prov_exp: Option<ProvExpView>,
) -> Seq<TreeNodeView>
    decreases n,
{
    if n <= 0 {
        Seq::empty()
    } else {
        let p = provs[n - 1];
        prov_rows(provs, n - 1, model_id, data_id, col, prov_exp) + seq![
            prov_node(model_id, p, col),
        ] + (if prov_exp is Some && prov_exp->0.name == p.name@ {
            lang_blocks("    "@, data_id, model_id, p.name@, prov_exp->0.lang)
        } else {
            Seq::empty()
        })
    }
}

/// The lines of a listed model: its own and, where it is open, those of
/// its providers in the order of their readiness, or a line that says that
/// there are none.
pub open spec fn model_block(
    m: Model,
    model: Model,
    variants: Seq<Model>,
    cache: Seq<(String, Model)>,
    exp: ExpView,
    col: usize,
) -> Seq<TreeNodeView> {
    let data = data_for(m, model, variants, cache);
    let provs = sort_le(data.providers@, order_le(ProviderOrder::Readiness));
    seq![model_node(m, col)] + (if opens(exp, m.id@) {
        (if provs.len() == 0 {
            seq![decor_node("  (no providers)"@)]
        } else {
            Seq::empty()
        }) + prov_rows(provs, provs.len() as int, m.id@, data.id@, col, open_prov(exp))
    } else {
        Seq::empty()
    })
}

/// The lines of the first `n` listed models.
pub open spec fn tree_rows(
    all: Seq<Model>,
    n: int,
    model: Model,
    variants: Seq<Model>,
    cache: Seq<(String, Model)>,
    exp: ExpView,
    col: usize,
) -> Seq<TreeNodeView>
    decreases n,
{
    if n <= 0 {
        Seq::empty()
    } else {
        tree_rows(all, n - 1, model, variants, cache, exp, col) + model_block(
            all[n - 1],
            model,
            variants,
            cache,
            exp,
            col,
        )
    }
}

/// The tree: a line that explains the keys, then the lines of the main
/// model and of its variants.
pub open spec fn tree_of(
    model: Model,
    variants: Seq<Model>,
    cache: Seq<(String, Model)>,
    exp: ExpView,
) -> Seq<TreeNodeView> {
    seq![decor_node(KEY_HELP@)] + tree_rows(
        listed(model, variants),
        listed(model, variants).len() as int,
        model,
        variants,
        cache,
        exp,
        column(model, variants, cache, exp),
    )
}

/// Whether the model of the given identifier is open.
pub fn is_open(exp: &Exp, id: &String) -> (r: bool)
    ensures
        r == opens(exp@, id@),
{
    match exp {
        Exp::Open { model_id, .. } => *model_id == *id,
        Exp::Closed => false,
    }
}

/// The length of a text in bytes, and `extra` more, as a width.
fn width_of(s: &str, extra: usize) -> (r: usize)
    ensures
        r == cap(byte_len(s@) as int + extra),
{
    let n: usize = s.as_bytes().len();
    if n > usize::MAX - extra {
        usize::MAX
    } else {
        n + extra
    }
}

/// The width that a listed model asks for.
fn width_of_block(
    m: &Model,
    model: &Model,
    variants: &[Model],
    cache: &[(String, Model)],
    exp: &Exp,
) -> (r: usize)
    ensures
        r == block_width(*m, *model, variants@, cache@, exp@),
{
    let id = chars_of(m.id.as_str());
    let short = chars_after_last(id.as_slice(), '/');
    let short_text = string_of(short.as_slice());
    let mut w: usize = width_of(short_text.as_str(), 0);
    if is_open(exp, &m.id) {
        let data = model_data(m, model, variants, cache);
        let mut names: usize = 0;
        let mut i: usize = 0;
        while i < data.providers.len()
            invariant
                i <= data.providers.len(),
                names == names_width(data.providers@, i as int),
            decreases data.providers.len() - i,
        {
            let nw = width_of(data.providers[i].name.as_str(), 2);
            if nw > names {
                names = nw;
            }
            i += 1;
        }
        if names > w {
            w = names;
        }
    }
    w
}

/// Appends the lines of the providers of an open model.
fn add_providers(
    nodes: &mut Vec<TreeNode>,
    m: &Model,
    data: &Model,
    prov_exp: &Option<ProvExp>,
    col: usize,
)
    requires
        col >= 2,
    ensures
        node_views(final(nodes)@) == node_views(old(nodes)@) + ({
            let provs = sort_le(data.providers@, order_le(ProviderOrder::Readiness));
            (if provs.len() == 0 {
                seq![decor_node("  (no providers)"@)]
            } else {
                Seq::empty()
            }) + prov_rows(
                provs,
                provs.len() as int,
                m.id@,
                data.id@,
                col,
                prov_view_of(*prov_exp),
            )
        }),
{
    let ghost before = node_views(nodes@);
    let provs = sorted_provs(data.providers.as_slice());
    let ghost sorted = sort_le(data.providers@, order_le(ProviderOrder::Readiness));
    assert(targets(provs@) == sorted);
    if provs.len() == 0 {
        nodes.push(
            TreeNode {
                label: "  (no providers)".to_owned(),
                detail: String::new(),
                readiness: None,
                kind: NK::Decor,
                code: false,
                disabled: false,
            },
        );
        assert(node_views(nodes@) =~= before + seq![decor_node("  (no providers)"@)]);
    }
    let ghost head = node_views(nodes@);
    let mut i: usize = 0;
    let ghost pv = prov_view_of(*prov_exp);
    assert(head + prov_rows(sorted, 0, m.id@, data.id@, col, pv) =~= head);
    while i < provs.len()
        invariant
            i <= provs.len(),
            col >= 2,
            targets(provs@) == sorted,
            pv == prov_view_of(*prov_exp),
            node_views(nodes@) == head + prov_rows(sorted, i as int, m.id@, data.id@, col, pv),
        decreases provs.len() - i,
    {
        let p = provs[i];
        assert(*p == sorted[i as int]);
        let ghost so_far = node_views(nodes@);
        let mut label: Vec<char> = Vec::new();
        push_str(&mut label, "  ");
        let name = chars_of(p.name.as_str());
        push_padded(&mut label, name.as_slice(), col - 2);
        nodes.push(
            TreeNode {
                label: string_of(label.as_slice()),
                detail: prov_detail(p),
                readiness: Some(p.readiness()),
                kind: NK::Prov(m.id.clone(), p.name.clone()),
                code: false,
                disabled: false,
            },
        );
        assert(node_views(nodes@) =~= so_far + seq![prov_node(m.id@, *p, col)]);
        let ghost with_line = node_views(nodes@);
        let open_here = match prov_exp {
            Some(pe) => pe.name == p.name,
            None => false,
        };
        if open_here {
            if let Some(pe) = prov_exp {
                add_langs(nodes, data, p, &pe.lang, "    ", m.id.as_str());
            }
        }
        assert(node_views(nodes@) =~= head + prov_rows(sorted, i + 1, m.id@, data.id@, col, pv));
        i += 1;
    }
    assert(node_views(nodes@) =~= before + ((if sorted.len() == 0 {
        seq![decor_node("  (no providers)"@)]
    } else {
        Seq::empty()
    }) + prov_rows(sorted, sorted.len() as int, m.id@, data.id@, col, pv)));
}

/// Appends the lines of a listed model.
fn add_block(
    nodes: &mut Vec<TreeNode>,
    m: &Model,
    model: &Model,
    variants: &[Model],
    cache: &[(String, Model)],
    exp: &Exp,
    col: usize,
)
    requires
        col >= 2,
    ensures
        node_views(final(nodes)@) == node_views(old(nodes)@) + model_block(
            *m,
            *model,
            variants@,
            cache@,
            exp@,
            col,
        ),
{
    let ghost so_far = node_views(nodes@);
    let id = chars_of(m.id.as_str());
    let short = chars_after_last(id.as_slice(), '/');
    let mut label: Vec<char> = Vec::new();
    push_padded(&mut label, short.as_slice(), col);
    nodes.push(
        TreeNode {
            label: string_of(label.as_slice()),
            detail: model_summary(m),
            readiness: None,
            kind: NK::Model(m.id.clone()),
            code: false,
            disabled: m.providers.len() == 0,
        },
    );
    assert(node_views(nodes@) =~= so_far + seq![model_node(*m, col)]);
    if is_open(exp, &m.id) {
        let data = model_data(m, model, variants, cache);
        match exp {
            Exp::Open { prov, .. } => {
                add_providers(nodes, m, data, prov, col);
            },
            Exp::Closed => {},
        }
    }
    assert(node_views(nodes@) =~= so_far + model_block(*m, *model, variants@, cache@, exp@, col));
}

/// Builds the tree for a model and its variants. `var_cache` holds what was
/// fetched for variants that came without their providers, and `exp` tells
/// what is open.
pub fn build_tree(model: &Model, variants: &[Model], var_cache: &[(String, Model)], exp: &Exp) -> (r:
    Vec<TreeNode>)
    ensures
        node_views(r@) == tree_of(*model, variants@, var_cache@, exp@),
{
    let ghost all = listed(*model, variants@);
    let mut max_w: usize = width_of_block(model, model, variants, var_cache, exp);
    assert(tree_width(all, 0, *model, variants@, var_cache@, exp@) == 0);
    assert(max_w == tree_width(all, 1, *model, variants@, var_cache@, exp@));
    let mut i: usize = 0;
    while i < variants.len()
        invariant
            i <= variants.len(),
            all == listed(*model, variants@),
            max_w == tree_width(all, i + 1, *model, variants@, var_cache@, exp@),
        decreases variants.len() - i,
    {
        assert(all[i + 1] == variants@[i as int]);
        let w = width_of_block(&variants[i], model, variants, var_cache, exp);
        if w > max_w {
            max_w = w;
        }
        i += 1;
    }
    let col: usize = if max_w > usize::MAX - 2 {
        usize::MAX
    } else {
        max_w + 2
    };
    assert(col == column(*model, variants@, var_cache@, exp@));
    let mut nodes: Vec<TreeNode> = Vec::new();
    nodes.push(
        TreeNode {
            label: KEY_HELP.to_owned(),
            detail: String::new(),
            readiness: None,
            kind: NK::Decor,
            code: false,
            disabled: false,
        },
    );
    let ghost head = node_views(nodes@);
    assert(head =~= seq![decor_node(KEY_HELP@)]);
    add_block(&mut nodes, model, model, variants, var_cache, exp, col);
    assert(tree_rows(all, 0, *model, variants@, var_cache@, exp@, col) =~= Seq::<
        TreeNodeView,
    >::empty());
    assert(node_views(nodes@) =~= head + tree_rows(
        all,
        1,
        *model,
        variants@,
        var_cache@,
        exp@,
        col,
    ));
    let mut k: usize = 0;
    while k < variants.len()
        invariant
            k <= variants.len(),
            col >= 2,
            all == listed(*model, variants@),
            node_views(nodes@) == head + tree_rows(
                all,
                k + 1,
                *model,
                variants@,
                var_cache@,
                exp@,
                col,
            ),
        decreases variants.len() - k,
    {
        assert(all[k + 1] == variants@[k as int]);
        let ghost so_far = node_views(nodes@);
        add_block(&mut nodes, &variants[k], model, variants, var_cache, exp, col);
        assert(node_views(nodes@) =~= head + tree_rows(
            all,
            k + 2,
            *model,
            variants@,
            var_cache@,
            exp@,
            col,
        ));
        k += 1;
    }
    nodes
}

/// A key, as far as the tree tells keys apart.
#[derive(Debug, Clone, Copy, PartialEq, Eq, Structural)]
pub enum Key {
    /// Arrow up, or "k".
    Up,
    /// Arrow down, or "j".
    Down,
    /// Arrow right, or "l".
    Right,
    /// Arrow left, or "h".
    Left,
    /// Enter, or "c".
    Copy,
    /// Escape, "q" or control-C.
    Quit,
    /// Any other key.
    Other,
}

/// What is to be done after a key.
#[derive(Debug)]
pub enum Action {
    /// Draw the tree again and wait for the next key.
    Stay,
    /// Fetch the model of the given identifier, then open it.
    Fetch(String),
    /// Put the code on the clipboard; `what` says what it is.
    Copy { code: String, what: String },
    /// Leave the tree.
    Quit,
}

/// What an [`Action`] states.
pub enum ActionView {
    Stay,
    Fetch(Seq<char>),
    Copy { code: Seq<char>, what: Seq<char> },
    Quit,
}

impl View for Action {
    type V = ActionView;

    open spec fn view(&self) -> ActionView {
        match self {
            Action::Stay => ActionView::Stay,
            Action::Fetch(id) => ActionView::Fetch(id@),
            Action::Copy { code, what } => ActionView::Copy { code: code@, what: what@ },
            Action::Quit => ActionView::Quit,
        }
    }
}

/// Where the browser stands: what is open, and the place of the cursor in
/// the list of the lines on which it can stand.
#[derive(Debug)]
pub struct Browser {
    pub exp: Exp,
    pub cursor: usize,
}

/// What is open, what the cursor is on, and what is to be done.
pub struct Turn {
    pub exp: ExpView,
    pub cursor: usize,
    pub action: ActionView,
}

/// The positions lie within the tree.
pub open spec fn in_tree(nodes: Seq<TreeNodeView>, sel: Seq<usize>) -> bool {
    forall|i: int| 0 <= i < sel.len() ==> (#[trigger] sel[i]) < nodes.len()
}

/// What is open with the language of a line opened: where the cursor comes
/// onto the line of a language of the open provider, the snippet of that
/// language opens.
pub open spec fn with_lang_open(exp: ExpView, kind: NKView) -> ExpView {
    match (kind, exp) {
        (NKView::Lang(mid, pname, lang), ExpView::Open { model_id, prov: Some(pe) }) => if model_id
            == mid && pe.name == pname && pe.lang != Some(lang) {
            ExpView::Open { model_id, prov: Some(ProvExpView { name: pe.name, lang: Some(lang) }) }
        } else {
            exp
        },
        _ => exp,
    }
}

/// What is open once the cursor has come to rest on the tree as it was
/// drawn.
pub open spec fn settled(exp: ExpView, nodes: Seq<TreeNodeView>, sel: Seq<usize>, cursor: usize)
    -> ExpView {
    if cursor < sel.len() {
        with_lang_open(exp, nodes[sel[cursor as int] as int].kind)
    } else {
        exp
    }
}

/// The place of the line that stands for `target` in the tree `nn`, or the
/// place where the cursor is where there is no such line.
pub open spec fn moved_to(nn: Seq<TreeNodeView>, target: NKView, cursor: usize) -> usize {
    match selection_of(nn, selectable_positions(nn), target, 0) {
        Some(p) => p as usize,
        None => cursor,
    }
}

/// The first place from `from` on whose line is that of a provider of the
/// model `id`.
pub open spec fn first_prov_of(nodes: Seq<TreeNodeView>, sel: Seq<usize>, id: Seq<char>, from: int)
    -> Option<int>
    decreases sel.len() - from,
{
    if from < 0 || from >= sel.len() {
        None
    } else if nodes[sel[from] as int].kind matches NKView::Prov(mid, _) && mid == id {
        Some(from)
    } else {
        first_prov_of(nodes, sel, id, from + 1)
    }
}

/// Some variant from `from` on has the given identifier and comes with
/// providers.
pub open spec fn served_variant_from(variants: Seq<Model>, id: Seq<char>, from: int) -> bool
    decreases variants.len() - from,
{
    if from < 0 || from >= variants.len() {
        false
    } else if variants[from].id@ == id && variants[from].providers@.len() > 0 {
        true
    } else {
        served_variant_from(variants, id, from + 1)
    }
}

/// The providers of the model `id` are not at hand: it is not the main
/// model, nothing was fetched for it, and no variant of that identifier
/// comes with providers.
pub open spec fn lacks_data(
    model: Model,
    variants: Seq<Model>,
    cache: Seq<(String, Model)>,
    id: Seq<char>,
) -> bool {
    id != model.id@ && cached_from(cache, id, 0) is None && !served_variant_from(variants, id, 0)
}

/// The model `id` opened, with the cursor on its line.
pub open spec fn opened(
    model: Model,
    variants: Seq<Model>,
    cache: Seq<(String, Model)>,
    id: Seq<char>,
    cursor: usize,
) -> (ExpView, usize) {
    let e2 = ExpView::Open { model_id: id, prov: None };
    (e2, moved_to(tree_of(model, variants, cache, e2), NKView::Model(id), cursor))
}

/// What the right arrow does on a line: it opens a model, a provider or a
/// language, or, where the line is open already, moves into it. A model
/// whose providers are not at hand is to be fetched first.
pub open spec fn right_of(
    model: Model,
    variants: Seq<Model>,
    cache: Seq<(String, Model)>,
    exp: ExpView,
    nodes: Seq<TreeNodeView>,
    sel: Seq<usize>,
    c: usize,
) -> Turn {
    let kind = nodes[sel[c as int] as int].kind;
    match kind {
        NKView::Model(id) => if opens(exp, id) {
            Turn {
                exp,
                cursor: match first_prov_of(nodes, sel, id, 0) {
                    Some(p) => p as usize,
                    None => c,
                },
                action: ActionView::Stay,
            }
        } else if lacks_data(model, variants, cache, id) {
            Turn { exp, cursor: c, action: ActionView::Fetch(id) }
        } else {
            Turn {
                exp: opened(model, variants, cache, id, c).0,
                cursor: opened(model, variants, cache, id, c).1,
                action: ActionView::Stay,
            }
        },
        NKView::Prov(mid, pname) => match exp {
            ExpView::Open { model_id, prov } => if model_id != mid {
                Turn { exp, cursor: c, action: ActionView::Stay }
            } else if prov is Some && prov->0.name == pname {
                Turn {
                    exp,
                    cursor: moved_to(
                        tree_of(model, variants, cache, exp),
                        NKView::Lang(mid, pname, Lang::Python),
                        c,
                    ),
                    action: ActionView::Stay,
                }
            } else {
                let e2 = ExpView::Open {
                    model_id,
                    prov: Some(ProvExpView { name: pname, lang: None }),
                };
                Turn {
                    exp: e2,
                    cursor: moved_to(tree_of(model, variants, cache, e2), kind, c),
                    action: ActionView::Stay,
                }
            },
            ExpView::Closed => Turn { exp, cursor: c, action: ActionView::Stay },
        },
        NKView::Lang(_, _, _) => {
            let e2 = with_lang_open(exp, kind);
            Turn {
                exp: e2,
                cursor: moved_to(tree_of(model, variants, cache, e2), kind, c),
                action: ActionView::Stay,
            }
        },
        NKView::Decor => Turn { exp, cursor: c, action: ActionView::Stay },
    }
}

/// The tree rebuilt after something was closed: the cursor goes to the line
/// that stands for `kind`, or stays within the tree where there is none.
pub open spec fn rebuilt(
    model: Model,
    variants: Seq<Model>,
    cache: Seq<(String, Model)>,
    e2: ExpView,
    kind: NKView,
    c: usize,
) -> Turn {
    let nn = tree_of(model, variants, cache, e2);
    let ns = selectable_positions(nn);
    Turn {
        exp: e2,
        cursor: match selection_of(nn, ns, kind, 0) {
            Some(p) => p as usize,
            None => if ns.len() == 0 {
                0
            } else if c < ns.len() - 1 {
                c
            } else {
                (ns.len() - 1) as usize
            },
        },
        action: ActionView::Stay,
    }
}

/// What the left arrow does on a line: it closes what is open there, or,
/// where nothing is, moves to the line above in rank.
pub open spec fn left_of(
    model: Model,
    variants: Seq<Model>,
    cache: Seq<(String, Model)>,
    exp: ExpView,
    nodes: Seq<TreeNodeView>,
    sel: Seq<usize>,
    c: usize,
) -> Turn {
    let kind = nodes[sel[c as int] as int].kind;
    let stay = Turn { exp, cursor: c, action: ActionView::Stay };
    match kind {
        NKView::Model(id) => if opens(exp, id) {
            rebuilt(model, variants, cache, ExpView::Closed, kind, c)
        } else {
            stay
        },
        NKView::Prov(mid, pname) => match exp {
            ExpView::Open { model_id, prov } => if model_id != mid {
                stay
            } else if prov is Some && prov->0.name == pname {
                rebuilt(model, variants, cache, ExpView::Open { model_id, prov: None }, kind, c)
            } else {
                Turn {
                    exp,
                    cursor: match selection_of(nodes, sel, NKView::Model(mid), 0) {
                        Some(p) => p as usize,
                        None => c,
                    },
                    action: ActionView::Stay,
                }
            },
            ExpView::Closed => stay,
        },
        NKView::Lang(mid, pname, lang) => match exp {
            ExpView::Open { model_id, prov: Some(pe) } => if model_id != mid || pe.name != pname {
                stay
            } else if pe.lang == Some(lang) {
                rebuilt(
                    model,
                    variants,
                    cache,
                    ExpView::Open {
                        model_id,
                        prov: Some(ProvExpView { name: pe.name, lang: None }),
                    },
                    kind,
                    c,
                )
            } else {
                Turn {
                    exp,
                    cursor: match selection_of(nodes, sel, NKView::Prov(mid, pname), 0) {
                        Some(p) => p as usize,
                        None => c,
                    },
                    action: ActionView::Stay,
                }
            },
            _ => stay,
        },
        NKView::Decor => stay,
    }
}

/// The code that the tree shows: the lines of the snippet without the
/// whitespace around them, each on a line of its own.
pub open spec fn shown_code(nodes: Seq<TreeNodeView>) -> Seq<char>
    decreases nodes.len(),
{
    if nodes.len() == 0 {
        Seq::empty()
    } else if !nodes.last().code {
        shown_code(nodes.drop_last())
    } else if shown_lines(nodes.drop_last()) == 0 {
        trimmed(nodes.last().label)
    } else {
        shown_code(nodes.drop_last()) + seq!['\n'] + trimmed(nodes.last().label)
    }
}

/// The number of lines of code that the tree shows.
pub open spec fn shown_lines(nodes: Seq<TreeNodeView>) -> nat
    decreases nodes.len(),
{
    if nodes.len() == 0 {
        0
    } else if nodes.last().code {
        shown_lines(nodes.drop_last()) + 1
    } else {
        shown_lines(nodes.drop_last())
    }
}

/// A tree that shows no line of code shows no code.
pub proof fn lemma_no_lines_no_code(nodes: Seq<TreeNodeView>)
    ensures
        shown_lines(nodes) == 0 ==> shown_code(nodes) == Seq::<char>::empty(),
    decreases nodes.len(),
{
    if nodes.len() > 0 {
        lemma_no_lines_no_code(nodes.drop_last());
    }
}

/// What the code on the clipboard is said to be: the model, the provider
/// and the language where a snippet is open, else just "code".
pub open spec fn copied_what(exp: ExpView) -> Seq<char> {
    match exp {
        ExpView::Open { model_id, prov: Some(pe) } => match pe.lang {
            Some(l) => model_id + seq![':'] + pe.name + " ("@ + l.name() + seq![')'],
            None => "code"@,
        },
        _ => "code"@,
    }
}

/// What a key does: where the cursor goes, what opens or closes, and what
/// is to be done. `c` is the place of the cursor in `sel`, which lists the
/// lines of `nodes` on which the cursor can stand.
pub open spec fn keyed(
    model: Model,
    variants: Seq<Model>,
    cache: Seq<(String, Model)>,
    exp: ExpView,
    nodes: Seq<TreeNodeView>,
    sel: Seq<usize>,
    c: usize,
    key: Key,
) -> Turn {
    match key {
        Key::Up => Turn {
            exp,
            cursor: if c > 0 {
                (c - 1) as usize
            } else {
                0
            },
            action: ActionView::Stay,
        },
        Key::Down => Turn {
            exp,
            cursor: if c + 1 < sel.len() {
                (c + 1) as usize
            } else {
                c
            },
            action: ActionView::Stay,
        },
        Key::Right => right_of(model, variants, cache, exp, nodes, sel, c),
        Key::Left => left_of(model, variants, cache, exp, nodes, sel, c),
        Key::Copy => Turn {
            exp,
            cursor: c,
            action: if shown_code(nodes).len() > 0 {
                ActionView::Copy { code: shown_code(nodes), what: copied_what(exp) }
            } else {
                ActionView::Stay
            },
        },
        Key::Quit => Turn { exp, cursor: c, action: ActionView::Quit },
        Key::Other => Turn { exp, cursor: c, action: ActionView::Stay },
    }
}

/// The tree as it is to be drawn, and the lines on which the cursor can
/// stand; the cursor is brought back into their range. None where the cursor
/// can stand nowhere: the browser is left.
pub fn frame(model: &Model, variants: &[Model], cache: &[(String, Model)], state: &mut Browser) -> (r:
    Option<(Vec<TreeNode>, Vec<usize>)>)
    ensures
        final(state).exp == old(state).exp,
        match r {
            Some((nodes, sel)) => {
                &&& node_views(nodes@) == tree_of(*model, variants@, cache@, old(state).exp@)
                &&& sel@ == selectable_positions(node_views(nodes@))
                &&& sel@.len() > 0
                &&& in_tree(node_views(nodes@), sel@)
                &&& final(state).cursor == if old(state).cursor < sel@.len() {
                    old(state).cursor
                } else {
                    (sel@.len() - 1) as usize
                }
            },
            None => selectable_positions(tree_of(*model, variants@, cache@, old(state).exp@)).len()
                == 0 && final(state).cursor == old(state).cursor,
        },
{
    let nodes = build_tree(model, variants, cache, &state.exp);
    let sel = sel_indices(nodes.as_slice());
    let total: usize = nodes.len();
    proof {
        lemma_selectable_positions(node_views(nodes@));
    }
    if sel.len() == 0 {
        return None;
    }
    if state.cursor > sel.len() - 1 {
        state.cursor = sel.len() - 1;
    }
    Some((nodes, sel))
}

/// Moves the cursor to the line that stands for `target` in the tree as it
/// is now, if there is one.
fn move_to(
    model: &Model,
    variants: &[Model],
    cache: &[(String, Model)],
    state: &mut Browser,
    target: &NK,
)
    ensures
        final(state).exp == old(state).exp,
        final(state).cursor == moved_to(
            tree_of(*model, variants@, cache@, old(state).exp@),
            target@,
            old(state).cursor,
        ),
{
    let nn = build_tree(model, variants, cache, &state.exp);
    let ns = sel_indices(nn.as_slice());
    let total: usize = nn.len();
    proof {
        lemma_selectable_positions(node_views(nn@));
    }
    if let Some(p) = find_sel(nn.as_slice(), ns.as_slice(), target) {
        state.cursor = p;
    }
}

/// Moves the cursor after something was closed.
fn move_back(
    model: &Model,
    variants: &[Model],
    cache: &[(String, Model)],
    state: &mut Browser,
    kind: &NK,
)
    ensures
        final(state).exp == old(state).exp,
        final(state).cursor == rebuilt(
            *model,
            variants@,
            cache@,
            old(state).exp@,
            kind@,
            old(state).cursor,
        ).cursor,
{
    let nn = build_tree(model, variants, cache, &state.exp);
    let ns = sel_indices(nn.as_slice());
    let total: usize = nn.len();
    proof {
        lemma_selectable_positions(node_views(nn@));
    }
    match find_sel(nn.as_slice(), ns.as_slice(), kind) {
        Some(p) => {
            state.cursor = p;
        },
        None => {
            let top: usize = if ns.len() == 0 {
                0
            } else {
                ns.len() - 1
            };
            if state.cursor > top {
                state.cursor = top;
            }
        },
    }
}

/// Whether the providers of the model `id` are not at hand.
pub fn needs_fetch(model: &Model, variants: &[Model], cache: &[(String, Model)], id: &String) -> (r:
    bool)
    ensures
        r == lacks_data(*model, variants@, cache@, id@),
{
    if *id == model.id {
        return false;
    }
    let mut i: usize = 0;
    while i < cache.len()
        invariant
            i <= cache.len(),
            cached_from(cache@, id@, 0) == cached_from(cache@, id@, i as int),
        decreases cache.len() - i,
    {
        if cache[i].0 == *id {
            return false;
        }
        i += 1;
    }
    let mut j: usize = 0;
    while j < variants.len()
        invariant
            j <= variants.len(),
            served_variant_from(variants@, id@, 0) == served_variant_from(variants@, id@, j as int),
        decreases variants.len() - j,
    {
        if variants[j].id == *id && variants[j].providers.len() > 0 {
            return false;
        }
        j += 1;
    }
    true
}

/// Opens the model `id` and moves the cursor onto its line.
pub fn open_model(
    model: &Model,
    variants: &[Model],
    cache: &[(String, Model)],
    state: &mut Browser,
    id: &String,
)
    ensures
        final(state).exp@ == opened(*model, variants@, cache@, id@, old(state).cursor).0,
        final(state).cursor == opened(*model, variants@, cache@, id@, old(state).cursor).1,
{
    state.exp = Exp::Open { model_id: id.clone(), prov: None };
    let target = NK::Model(id.clone());
    move_to(model, variants, cache, state, &target);
}

/// Lets the cursor come to rest on the tree as it was drawn: on the line of
/// a language of the open provider, the snippet of that language opens.
pub fn settle(state: &mut Browser, nodes: &[TreeNode], sel: &[usize])
    requires
        in_tree(node_views(nodes@), sel@),
    ensures
        final(state).cursor == old(state).cursor,
        final(state).exp@ == settled(
            old(state).exp@,
            node_views(nodes@),
            sel@,
            old(state).cursor,
        ),
{
    if state.cursor >= sel.len() {
        return ;
    }
    let at: usize = sel[state.cursor];
    assert(sel@[state.cursor as int] < nodes@.len());
    assert(node_views(nodes@)[at as int] == nodes@[at as int]@);
    if let NK::Lang(mid, pname, lang) = &nodes[at].kind {
        let change = match &state.exp {
            Exp::Open { model_id, prov: Some(pe) } => {
                let other = match pe.lang {
                    Some(l) => l != *lang,
                    None => true,
                };
                *model_id == *mid && pe.name == *pname && other
            },
            _ => false,
        };
        if change {
            state.exp = Exp::Open {
                model_id: mid.clone(),
                prov: Some(ProvExp { name: pname.clone(), lang: Some(*lang) }),
            };
        }
    }
}

/// The code that the tree shows.
pub fn copy_text(nodes: &[TreeNode]) -> (r: String)
    ensures
        r@ == shown_code(node_views(nodes@)),
{
    let ghost all = node_views(nodes@);
    let mut out: Vec<char> = Vec::new();
    let mut shown: usize = 0;
    let mut i: usize = 0;
    assert(all.take(0) =~= Seq::<TreeNodeView>::empty());
    while i < nodes.len()
        invariant
            i <= nodes.len(),
            all == node_views(nodes@),
            out@ == shown_code(all.take(i as int)),
            shown == shown_lines(all.take(i as int)),
            shown <= i,
        decreases nodes.len() - i,
    {
        proof {
            assert(all.take(i + 1).drop_last() =~= all.take(i as int));
            assert(all.take(i + 1).last() == nodes@[i as int]@);
        }
        if nodes[i].code {
            let label = chars_of(nodes[i].label.as_str());
            let bare = trim_chars(label.as_slice());
            proof {
                lemma_no_lines_no_code(all.take(i as int));
            }
            if shown > 0 {
                out.push('\n');
            }
            push_all(&mut out, bare.as_slice());
            shown += 1;
            assert(out@ =~= shown_code(all.take(i + 1)));
        }
        i += 1;
    }
    assert(all.take(all.len() as int) == all);
    string_of(out.as_slice())
}

/// What the code on the clipboard is said to be.
pub fn copy_what(exp: &Exp) -> (r: String)
    ensures
        r@ == copied_what(exp@),
{
    match exp {
        Exp::Open { model_id, prov: Some(pe) } => match pe.lang {
            Some(l) => {
                let mut out: Vec<char> = Vec::new();
                push_str(&mut out, model_id.as_str());
                out.push(':');
                push_str(&mut out, pe.name.as_str());
                push_str(&mut out, " (");
                push_str(&mut out, lang_name(l));
                out.push(')');
                assert(out@ =~= copied_what(exp@));
                string_of(out.as_slice())
            },
            None => "code".to_owned(),
        },
        _ => "code".to_owned(),
    }
}

/// The first place whose line is that of a provider of the model `id`.
fn first_provider(nodes: &[TreeNode], sel: &[usize], id: &String) -> (r: Option<usize>)
    requires
        in_tree(node_views(nodes@), sel@),
    ensures
        match r {
            Some(p) => first_prov_of(node_views(nodes@), sel@, id@, 0) == Some(p as int),
            None => first_prov_of(node_views(nodes@), sel@, id@, 0) is None,
        },
{
    let mut i: usize = 0;
    while i < sel.len()
        invariant
            i <= sel.len(),
            in_tree(node_views(nodes@), sel@),
            first_prov_of(node_views(nodes@), sel@, id@, 0) == first_prov_of(
                node_views(nodes@),
                sel@,
                id@,
                i as int,
            ),
        decreases sel.len() - i,
    {
        assert(sel@[i as int] < nodes@.len());
        assert(node_views(nodes@)[sel@[i as int] as int] == nodes@[sel@[i as int] as int]@);
        let found = match &nodes[sel[i]].kind {
            NK::Prov(mid, _) => *mid == *id,
            _ => false,
        };
        if found {
            return Some(i);
        }
        i += 1;
    }
    None
}

/// Opens the snippet of a language where the line of that language
/// belongs to the open provider.
fn open_lang(state: &mut Browser, mid: &String, pname: &String, lang: Lang)
    ensures
        final(state).cursor == old(state).cursor,
        final(state).exp@ == with_lang_open(old(state).exp@, NKView::Lang(mid@, pname@, lang)),
{
    let change = match &state.exp {
        Exp::Open { model_id, prov: Some(pe) } => {
            let other = match pe.lang {
                Some(l) => l != lang,
                None => true,
            };
            *model_id == *mid && pe.name == *pname && other
        },
        _ => false,
    };
    if change {
        state.exp = Exp::Open {
            model_id: mid.clone(),
            prov: Some(ProvExp { name: pname.clone(), lang: Some(lang) }),
        };
    }
}

/// How the open state stands to a provider's line: whether the provider's
/// model is open, and whether the provider itself is.
fn provider_state(exp: &Exp, mid: &String, pname: &String) -> (r: (bool, bool))
    ensures
        r.0 == opens(exp@, mid@),
        r.1 == (open_prov(exp@) is Some && open_prov(exp@)->0.name == pname@),
{
    match exp {
        Exp::Open { model_id, prov } => (
            *model_id == *mid,
            match prov {
                Some(pe) => pe.name == *pname,
                None => false,
            },
        ),
        Exp::Closed => (false, false),
    }
}

/// Whether the snippet of the given language is open.
fn lang_is_open(exp: &Exp, lang: Lang) -> (r: bool)
    ensures
        r == (open_prov(exp@) is Some && open_prov(exp@)->0.lang == Some(lang)),
{
    match exp {
        Exp::Open { prov: Some(pe), .. } => match pe.lang {
            Some(l) => l == lang,
            None => false,
        },
        _ => false,
    }
}

/// What the right arrow does.
fn go_right(
    model: &Model,
    variants: &[Model],
    cache: &[(String, Model)],
    state: &mut Browser,
    nodes: &[TreeNode],
    sel: &[usize],
) -> (action: Action)
    requires
        in_tree(node_views(nodes@), sel@),
        old(state).cursor < sel@.len(),
    ensures
        ({
            let t = right_of(
                *model,
                variants@,
                cache@,
                old(state).exp@,
                node_views(nodes@),
                sel@,
                old(state).cursor,
            );
            final(state).exp@ == t.exp && final(state).cursor == t.cursor && action@ == t.action
        }),
{
    let at: usize = sel[state.cursor];
    assert(sel@[state.cursor as int] < nodes@.len());
    assert(node_views(nodes@)[at as int] == nodes@[at as int]@);
    let kind = nodes[at].kind.clone();
    match &kind {
        NK::Model(id) => {
            if is_open(&state.exp, id) {
                if let Some(p) = first_provider(nodes, sel, id) {
                    state.cursor = p;
                }
                Action::Stay
            } else if needs_fetch(model, variants, cache, id) {
                Action::Fetch(id.clone())
            } else {
                open_model(model, variants, cache, state, id);
                Action::Stay
            }
        },
        NK::Prov(mid, pname) => {
            let (same_model, already) = provider_state(&state.exp, mid, pname);
            if same_model {
                if already {
                    let target = NK::Lang(mid.clone(), pname.clone(), Lang::Python);
                    move_to(model, variants, cache, state, &target);
                } else {
                    state.exp = Exp::Open {
                        model_id: mid.clone(),
                        prov: Some(ProvExp { name: pname.clone(), lang: None }),
                    };
                    move_to(model, variants, cache, state, &kind);
                }
            }
            Action::Stay
        },
        NK::Lang(mid, pname, lang) => {
            open_lang(state, mid, pname, *lang);
            move_to(model, variants, cache, state, &kind);
            Action::Stay
        },
        NK::Decor => Action::Stay,
    }
}

/// What the left arrow does.
fn go_left(
    model: &Model,
    variants: &[Model],
    cache: &[(String, Model)],
    state: &mut Browser,
    nodes: &[TreeNode],
    sel: &[usize],
) -> (action: Action)
    requires
        in_tree(node_views(nodes@), sel@),
        old(state).cursor < sel@.len(),
    ensures
        ({
            let t = left_of(
                *model,
                variants@,
                cache@,
                old(state).exp@,
                node_views(nodes@),
                sel@,
                old(state).cursor,
            );
            final(state).exp@ == t.exp && final(state).cursor == t.cursor && action@ == t.action
        }),
{
    let at: usize = sel[state.cursor];
    assert(sel@[state.cursor as int] < nodes@.len());
    assert(node_views(nodes@)[at as int] == nodes@[at as int]@);
    let kind = nodes[at].kind.clone();
    match &kind {
        NK::Model(id) => {
            if is_open(&state.exp, id) {
                state.exp = Exp::Closed;
                move_back(model, variants, cache, state, &kind);
            }
        },
        NK::Prov(mid, pname) => {
            let (same_model, this_open) = provider_state(&state.exp, mid, pname);
            if same_model {
                if this_open {
                    state.exp = Exp::Open { model_id: mid.clone(), prov: None };
                    move_back(model, variants, cache, state, &kind);
                } else {
                    let target = NK::Model(mid.clone());
                    if let Some(p) = find_sel(nodes, sel, &target) {
                        state.cursor = p;
                    }
                }
            }
        },
        NK::Lang(mid, pname, lang) => {
            let (same_model, this_prov) = provider_state(&state.exp, mid, pname);
            if same_model && this_prov {
                if lang_is_open(&state.exp, *lang) {
                    state.exp = Exp::Open {
                        model_id: mid.clone(),
                        prov: Some(ProvExp { name: pname.clone(), lang: None }),
                    };
                    move_back(model, variants, cache, state, &kind);
                } else {
                    let target = NK::Prov(mid.clone(), pname.clone());
                    if let Some(p) = find_sel(nodes, sel, &target) {
                        state.cursor = p;
                    }
                }
            }
        },
        NK::Decor => {},
    }
    Action::Stay
}

/// Does what a key asks for. `nodes` and `sel` are the tree as it was drawn
/// and the lines on which the cursor can stand, and the cursor stands on one
/// of them. Where the action is to fetch a model, nothing has changed yet:
/// the model is opened once its data is at hand.
pub fn on_key(
    model: &Model,
    variants: &[Model],
    cache: &[(String, Model)],
    state: &mut Browser,
    nodes: &[TreeNode],
    sel: &[usize],
    key: Key,
) -> (action: Action)
    requires
        in_tree(node_views(nodes@), sel@),
        old(state).cursor < sel@.len(),
    ensures
        ({
            let t = keyed(
                *model,
                variants@,
                cache@,
                old(state).exp@,
                node_views(nodes@),
                sel@,
                old(state).cursor,
                key,
            );
            final(state).exp@ == t.exp && final(state).cursor == t.cursor && action@ == t.action
        }),
{
    match key {
        Key::Up => {
            if state.cursor > 0 {
                state.cursor -= 1;
            }
            Action::Stay
        },
        Key::Down => {
            if state.cursor < sel.len() - 1 {
                state.cursor += 1;
            }
            Action::Stay
        },
        Key::Right => go_right(model, variants, cache, state, nodes, sel),
        Key::Left => go_left(model, variants, cache, state, nodes, sel),
        Key::Copy => {
            let code = copy_text(nodes);
            if code.as_str().is_empty() {
                Action::Stay
            } else {
                Action::Copy { code, what: copy_what(&state.exp) }
            }
        },
        Key::Quit => Action::Quit,
        Key::Other => Action::Stay,
    }
}

/// The colour of a line by what it stands for, as an ANSI colour number.
pub open spec fn node_color_of(kind: NKView) -> u8 {
    match kind {
        NKView::Model(_) => 14,
        NKView::Prov(_, _) => 10,
        NKView::Lang(_, _, _) => 15,
        NKView::Decor => 248,
    }
}

/// The colour of a line by what it stands for.
pub fn node_color(kind: &NK) -> (c: u8)
    ensures
        c == node_color_of(kind@),
{
    match kind {
        NK::Model(_) => 14,
        NK::Prov(_, _) => 10,
        NK::Lang(_, _, _) => 15,
        NK::Decor => 248,
    }
}

/// A piece of a line in one style.
#[derive(Debug)]
pub struct Span {
    /// The text.
    pub text: String,
    /// The colour, as an ANSI colour number.
    pub color: u8,
    /// Whether the text is bold.
    pub bold: bool,
}

/// What a [`Span`] states.
pub struct SpanView {
    pub text: Seq<char>,
    pub color: u8,
    pub bold: bool,
}

impl View for Span {
    type V = SpanView;

    open spec fn view(&self) -> SpanView {
        SpanView { text: self.text@, color: self.color, bold: self.bold }
    }
}

/// What a sequence of spans states.
pub open spec fn span_views(spans: Seq<Span>) -> Seq<SpanView> {
    Seq::new(spans.len(), |i: int| spans[i]@)
}

/// The mark in front of a line: an arrow on the line of the cursor.
pub open spec fn mark(active: bool) -> Seq<char> {
    if active {
        "> "@
    } else {
        "  "@
    }
}

/// The spans of a line. A greyed-out line and a line of code are one span
/// each. Any other line is in the colour of what it stands for, and bold
/// under the cursor; its detail, where it has one, is in the colour of its
/// readiness, where it has one.
pub open spec fn line_spans(n: TreeNodeView, active: bool) -> Seq<SpanView> {
    if n.disabled {
        seq![SpanView { text: mark(active) + n.label + n.detail, color: 242, bold: false }]
    } else if n.code {
        seq![SpanView { text: mark(active) + n.label, color: 246, bold: false }]
    } else if n.detail.len() == 0 {
        seq![SpanView { text: mark(active) + n.label, color: node_color_of(n.kind), bold: active }]
    } else {
        seq![
            SpanView { text: mark(active), color: node_color_of(n.kind), bold: active },
            SpanView { text: n.label, color: node_color_of(n.kind), bold: active },
            SpanView {
                text: n.detail,
                color: match n.readiness {
                    Some(r) => status_color_of(r),
                    None => node_color_of(n.kind),
                },
                bold: active,
            },
        ]
    }
}

/// The position of the line under the cursor, if the cursor is on a line.
pub open spec fn active_line(sel: Seq<usize>, cursor: usize) -> Option<usize> {
    if cursor < sel.len() {
        Some(sel[cursor as int])
    } else {
        None
    }
}

/// The spans of one line.
pub fn render_line(n: &TreeNode, active: bool) -> (r: Vec<Span>)
    ensures
        span_views(r@) == line_spans(n@, active),
{
    let mut out: Vec<Span> = Vec::new();
    let pfx = if active {
        "> "
    } else {
        "  "
    };
    if n.disabled {
        let mut text: Vec<char> = Vec::new();
        push_str(&mut text, pfx);
        push_str(&mut text, n.label.as_str());
        push_str(&mut text, n.detail.as_str());
        out.push(Span { text: string_of(text.as_slice()), color: 242, bold: false });
    } else if n.code {
        let mut text: Vec<char> = Vec::new();
        push_str(&mut text, pfx);
        push_str(&mut text, n.label.as_str());
        out.push(Span { text: string_of(text.as_slice()), color: 246, bold: false });
    } else if n.detail.as_str().is_empty() {
        let mut text: Vec<char> = Vec::new();
        push_str(&mut text, pfx);
        push_str(&mut text, n.label.as_str());
        out.push(
            Span { text: string_of(text.as_slice()), color: node_color(&n.kind), bold: active },
        );
    } else {
        let c = node_color(&n.kind);
        out.push(Span { text: pfx.to_owned(), color: c, bold: active });
        out.push(Span { text: n.label.clone(), color: c, bold: active });
        let detail_color = match n.readiness {
            Some(r) => status_color(r),
            None => c,
        };
        out.push(Span { text: n.detail.clone(), color: detail_color, bold: active });
    }
    assert(span_views(out@) =~= line_spans(n@, active));
    out
}

/// The spans of every line of the tree; the line under the cursor is
/// marked.
pub fn render_tree(nodes: &[TreeNode], cursor: usize, sel: &[usize]) -> (r: Vec<Vec<Span>>)
    ensures
        r@.len() == nodes@.len(),
        forall|i: int|
            0 <= i < r@.len() ==> span_views((#[trigger] r@[i])@) == line_spans(
                nodes@[i]@,
                active_line(sel@, cursor) == Some(i as usize),
            ),
{
    let active: Option<usize> = if cursor < sel.len() {
        Some(sel[cursor])
    } else {
        None
    };
    let mut out: Vec<Vec<Span>> = Vec::new();
    let mut i: usize = 0;
    while i < nodes.len()
        invariant
            i <= nodes.len(),
            active == active_line(sel@, cursor),
            out@.len() == i,
            forall|k: int|
                0 <= k < i ==> span_views((#[trigger] out@[k])@) == line_spans(
                    nodes@[k]@,
                    active_line(sel@, cursor) == Some(k as usize),
                ),
        decreases nodes.len() - i,
    {
        let here = match active {
            Some(a) => a == i,
            None => false,
        };
        out.push(render_line(&nodes[i], here));
        i += 1;
    }
    out
}

} // verus!
