//! Accelerator specifications and the runtimes that can drive them.
use vstd::prelude::*;
use vstd::utf8::encode_utf8;
use crate::text::{
    chars_of, contains, ends_with, has_sub, has_suffix, is_word, lowercase_of, push_str,
    same_chars, string_of,
};

verus! {

/// One whole, in the unit of the efficiency coefficients (parts per million).
pub const EFF_ONE: u32 = 1_000_000;

/// Inference runtime.
#[derive(Debug, Clone, Copy, PartialEq, Eq, Structural)]
pub enum Runtime {
    /// The universal baseline engine: every device carries coefficients for it.
    LlamaCpp,
    /// The native engine of unified-memory devices.
    Mlx,
}

impl Runtime {
    /// The display name of the runtime.
    pub open spec fn name(self) -> Seq<char> {
        match self {
            Runtime::LlamaCpp => "llama.cpp"@,
            Runtime::Mlx => "mlx"@,
        }
    }

    /// The display name of the runtime.
    pub fn to_string(&self) -> (r: String)
        ensures
            r@ == self.name(),
    {
        match self {
            Runtime::LlamaCpp => "llama.cpp".to_owned(),
            Runtime::Mlx => "mlx".to_owned(),
        }
    }
}

/// One accelerator of the device catalog.
#[derive(Debug)]
pub struct GpuSpec {
    /// Display name.
    pub name: String,
    /// Vendor tag.
    pub vendor: String,
    /// Microarchitecture tag.
    pub arch: String,
    /// Memory capacity, in megabytes.
    pub vram_mb: u64,
    /// Memory bandwidth, in megabytes per second.
    pub mem_bw_mb_s: u64,
    /// FP16 compute throughput, in gigaflops.
    pub fp16_gflops: u64,
    /// Thermal design power, in watts.
    pub tdp_w: u32,
    /// Street price, in dollars.
    pub street_usd: Option<u32>,
    /// Share of the peak bandwidth that the baseline runtime reaches while
    /// decoding, in parts per million.
    pub llamacpp_decode_eff: u32,
    /// Share of the peak compute that the baseline runtime reaches during
    /// prefill, in parts per million.
    pub llamacpp_prefill_eff: u32,
    /// Decode efficiency of the native runtime, where the device supports it.
    pub mlx_decode_eff: Option<u32>,
    /// Prefill efficiency of the native runtime, where the device supports it.
    pub mlx_prefill_eff: Option<u32>,
}

impl Clone for GpuSpec {
    fn clone(&self) -> (r: Self)
        ensures
            r == *self,
    {
        GpuSpec {
            name: self.name.clone(),
            vendor: self.vendor.clone(),
            arch: self.arch.clone(),
            vram_mb: self.vram_mb,
            mem_bw_mb_s: self.mem_bw_mb_s,
            fp16_gflops: self.fp16_gflops,
            tdp_w: self.tdp_w,
            street_usd: self.street_usd,
            llamacpp_decode_eff: self.llamacpp_decode_eff,
            llamacpp_prefill_eff: self.llamacpp_prefill_eff,
            mlx_decode_eff: self.mlx_decode_eff,
            mlx_prefill_eff: self.mlx_prefill_eff,
        }
    }
}

/// A numeric field of a device entry.
#[derive(Debug, Clone, Copy, PartialEq, Eq, Structural)]
pub enum SpecField {
    Vram,
    Bandwidth,
    Compute,
    Power,
    LlamaCppDecode,
    LlamaCppPrefill,
    MlxDecode,
    MlxPrefill,
}

/// The way in which a device entry breaks the catalog's invariant.
#[derive(Debug, Clone, Copy, PartialEq, Eq, Structural)]
pub enum Defect {
    /// A capacity, bandwidth, compute or power figure is zero.
    NonPositive(SpecField),
    /// An efficiency coefficient lies outside of (0, 1].
    EfficiencyOutOfRange(SpecField),
}

/// An efficiency coefficient in (0, 1].
pub open spec fn eff_in_range(e: u32) -> bool {
    0 < e && e <= EFF_ONE
}

impl GpuSpec {
    /// The invariant of a catalog entry: positive capacity, bandwidth, compute
    /// and power, and every efficiency coefficient in (0, 1].
    pub open spec fn valid(&self) -> bool {
        &&& self.vram_mb > 0
        &&& self.mem_bw_mb_s > 0
        &&& self.fp16_gflops > 0
        &&& self.tdp_w > 0
        &&& eff_in_range(self.llamacpp_decode_eff)
        &&& eff_in_range(self.llamacpp_prefill_eff)
        &&& (self.mlx_decode_eff matches Some(e) ==> eff_in_range(e))
        &&& (self.mlx_prefill_eff matches Some(e) ==> eff_in_range(e))
    }

    /// The first field, in declaration order, that breaks the invariant.
    pub open spec fn defect(&self) -> Option<Defect> {
        if self.vram_mb == 0 {
            Some(Defect::NonPositive(SpecField::Vram))
        } else if self.mem_bw_mb_s == 0 {
            Some(Defect::NonPositive(SpecField::Bandwidth))
        } else if self.fp16_gflops == 0 {
            Some(Defect::NonPositive(SpecField::Compute))
        } else if self.tdp_w == 0 {
            Some(Defect::NonPositive(SpecField::Power))
        } else if !eff_in_range(self.llamacpp_decode_eff) {
            Some(Defect::EfficiencyOutOfRange(SpecField::LlamaCppDecode))
        } else if !eff_in_range(self.llamacpp_prefill_eff) {
            Some(Defect::EfficiencyOutOfRange(SpecField::LlamaCppPrefill))
        } else if self.mlx_decode_eff is Some && !eff_in_range(self.mlx_decode_eff->0) {
            Some(Defect::EfficiencyOutOfRange(SpecField::MlxDecode))
        } else if self.mlx_prefill_eff is Some && !eff_in_range(self.mlx_prefill_eff->0) {
            Some(Defect::EfficiencyOutOfRange(SpecField::MlxPrefill))
        } else {
            None
        }
    }

    /// The runtimes that the device supports.
    pub open spec fn runtimes(&self) -> Seq<Runtime> {
        if self.mlx_decode_eff is Some {
            seq![Runtime::Mlx, Runtime::LlamaCpp]
        } else {
            seq![Runtime::LlamaCpp]
        }
    }

    /// The decode efficiency under `rt`; the baseline's where the device
    /// carries none for `rt`.
    pub open spec fn decode_eff_of(&self, rt: Runtime) -> u32 {
        match rt {
            Runtime::LlamaCpp => self.llamacpp_decode_eff,
            Runtime::Mlx => match self.mlx_decode_eff {
                Some(e) => e,
                None => self.llamacpp_decode_eff,
            },
        }
    }

    /// The prefill efficiency under `rt`; the baseline's where the device
    /// carries none for `rt`.
    pub open spec fn prefill_eff_of(&self, rt: Runtime) -> u32 {
        match rt {
            Runtime::LlamaCpp => self.llamacpp_prefill_eff,
            Runtime::Mlx => match self.mlx_prefill_eff {
                Some(e) => e,
                None => self.llamacpp_prefill_eff,
            },
        }
    }

    /// A valid entry has no defect, and an entry without defect is valid.
    pub proof fn lemma_valid_iff_no_defect(&self)
        ensures
            self.valid() <==> self.defect() is None,
    {
    }

    /// The efficiency coefficients of a valid entry lie in (0, 1], whatever
    /// the runtime.
    pub proof fn lemma_valid_efficiencies(&self, rt: Runtime)
        requires
            self.valid(),
        ensures
            eff_in_range(self.decode_eff_of(rt)),
            eff_in_range(self.prefill_eff_of(rt)),
    {
    }

    /// Checks the invariant of a catalog entry.
    pub fn validate(&self) -> (r: Result<(), Defect>)
        ensures
            r is Ok <==> self.valid(),
            r matches Err(d) ==> self.defect() == Some(d),
    {
        if self.vram_mb == 0 {
            return Err(Defect::NonPositive(SpecField::Vram));
        }
        if self.mem_bw_mb_s == 0 {
            return Err(Defect::NonPositive(SpecField::Bandwidth));
        }
        if self.fp16_gflops == 0 {
            return Err(Defect::NonPositive(SpecField::Compute));
        }
        if self.tdp_w == 0 {
            return Err(Defect::NonPositive(SpecField::Power));
        }
        if !eff_ok(self.llamacpp_decode_eff) {
            return Err(Defect::EfficiencyOutOfRange(SpecField::LlamaCppDecode));
        }
        if !eff_ok(self.llamacpp_prefill_eff) {
            return Err(Defect::EfficiencyOutOfRange(SpecField::LlamaCppPrefill));
        }
        if let Some(e) = self.mlx_decode_eff {
            if !eff_ok(e) {
                return Err(Defect::EfficiencyOutOfRange(SpecField::MlxDecode));
            }
        }
        if let Some(e) = self.mlx_prefill_eff {
            if !eff_ok(e) {
                return Err(Defect::EfficiencyOutOfRange(SpecField::MlxPrefill));
            }
        }
        Ok(())
    }

    /// Which runtimes are available for this device: the native one first,
    /// where the device supports it, and the baseline always last.
    pub fn available_runtimes(&self) -> (rts: Vec<Runtime>)
        ensures
            rts@ == self.runtimes(),
    {
        let mut rts: Vec<Runtime> = Vec::new();
        if self.mlx_decode_eff.is_some() {
            rts.push(Runtime::Mlx);
        }
        rts.push(Runtime::LlamaCpp);
        assert(rts@ =~= self.runtimes());
        rts
    }

    /// Decode efficiency under `rt`, in parts per million.
    pub fn decode_eff(&self, rt: Runtime) -> (e: u32)
        ensures
            e == self.decode_eff_of(rt),
    {
        match rt {
            Runtime::LlamaCpp => self.llamacpp_decode_eff,
            Runtime::Mlx => match self.mlx_decode_eff {
                Some(e) => e,
                None => self.llamacpp_decode_eff,
            },
        }
    }

    /// Prefill efficiency under `rt`, in parts per million.
    pub fn prefill_eff(&self, rt: Runtime) -> (e: u32)
        ensures
            e == self.prefill_eff_of(rt),
    {
        match rt {
            Runtime::LlamaCpp => self.llamacpp_prefill_eff,
            Runtime::Mlx => match self.mlx_prefill_eff {
                Some(e) => e,
                None => self.llamacpp_prefill_eff,
            },
        }
    }
}

/// Whether an efficiency coefficient lies in (0, 1].
pub fn eff_ok(e: u32) -> (r: bool)
    ensures
        r == eff_in_range(e),
{
    0 < e && e <= EFF_ONE
}

/// A text with every hyphen and space replaced by an underscore.
pub open spec fn fold_separators(s: Seq<char>) -> Seq<char> {
    Seq::new(
        s.len(),
        |i: int|
            if s[i] == '-' || s[i] == ' ' {
                '_'
            } else {
                s[i]
            },
    )
}

/// A text without its underscores.
pub open spec fn strip_separators(s: Seq<char>) -> Seq<char>
    decreases s.len(),
{
    if s.len() == 0 {
        s
    } else if s.last() == '_' {
        strip_separators(s.drop_last())
    } else {
        strip_separators(s.drop_last()).push(s.last())
    }
}

/// The length of a text in UTF-8, by which candidate keys are ranked.
pub open spec fn byte_len(s: Seq<char>) -> nat {
    encode_utf8(s).len()
}

/// The ways in which a key can answer a query, in the order in which they
/// are tried: the key is the query; it ends with the query; it contains the
/// query; it contains the query once the separators are taken out of both.
pub open spec fn stage_match(stage: int, key: Seq<char>, query: Seq<char>) -> bool {
    if stage == 0 {
        key == query
    } else if stage == 1 {
        ends_with(key, query)
    } else if stage == 2 {
        contains(key, query)
    } else {
        contains(strip_separators(key), strip_separators(query))
    }
}

/// Among the first `n` keys, the position of the shortest one that answers
/// the query at the given stage; of several shortest, the first.
pub open spec fn pick_upto(keys: Seq<Seq<char>>, query: Seq<char>, stage: int, n: int) -> Option<
    int,
>
    decreases n,
{
    if n <= 0 {
        None
    } else {
        let prev = pick_upto(keys, query, stage, n - 1);
        if !stage_match(stage, keys[n - 1], query) {
            prev
        } else {
            match prev {
                None => Some(n - 1),
                Some(p) => if byte_len(keys[n - 1]) < byte_len(keys[p]) {
                    Some(n - 1)
                } else {
                    Some(p)
                },
            }
        }
    }
}

/// The position of the entry that a query in comparison form resolves to:
/// the pick of the first stage at which any key answers.
pub open spec fn resolve(keys: Seq<Seq<char>>, query: Seq<char>) -> Option<int> {
    let n = keys.len() as int;
    if pick_upto(keys, query, 0, n) is Some {
        pick_upto(keys, query, 0, n)
    } else if pick_upto(keys, query, 1, n) is Some {
        pick_upto(keys, query, 1, n)
    } else if pick_upto(keys, query, 2, n) is Some {
        pick_upto(keys, query, 2, n)
    } else {
        pick_upto(keys, query, 3, n)
    }
}

/// The keys of a catalog, in its order.
pub open spec fn keys_of(gpus: Seq<(String, GpuSpec)>) -> Seq<Seq<char>> {
    Seq::new(gpus.len(), |i: int| gpus[i].0@)
}

/// The entry that a query in lower case resolves to.
pub open spec fn resolved_entry(gpus: Seq<(String, GpuSpec)>, lower: Seq<char>) -> Option<
    (String, GpuSpec),
> {
    match resolve(keys_of(gpus), fold_separators(lower)) {
        Some(i) => Some(gpus[i]),
        None => None,
    }
}

/// What [`pick_upto`] names answers the query, no answering key among the
/// first `n` is shorter, and none of the same length stands before it; where
/// it names none, no key among the first `n` answers.
pub proof fn lemma_pick_upto(keys: Seq<Seq<char>>, query: Seq<char>, stage: int, n: int)
    requires
        0 <= n <= keys.len(),
    ensures
        match pick_upto(keys, query, stage, n) {
            Some(p) => {
                &&& 0 <= p < n
                &&& stage_match(stage, keys[p], query)
                &&& forall|j: int|
                    0 <= j < n && stage_match(stage, #[trigger] keys[j], query) ==> byte_len(
                        keys[p],
                    ) <= byte_len(keys[j])
                &&& forall|j: int|
                    0 <= j < p && stage_match(stage, #[trigger] keys[j], query) ==> byte_len(
                        keys[p],
                    ) < byte_len(keys[j])
            },
            None => forall|j: int| 0 <= j < n ==> !stage_match(stage, #[trigger] keys[j], query),
        },
    decreases n,
{
    if n > 0 {
        lemma_pick_upto(keys, query, stage, n - 1);
    }
}

/// A query that is a key of the catalog resolves to the first entry under
/// that key.
pub proof fn lemma_exact_key_wins(keys: Seq<Seq<char>>, query: Seq<char>, i: int)
    requires
        0 <= i < keys.len(),
        keys[i] == query,
        forall|j: int| 0 <= j < i ==> keys[j] != query,
    ensures
        resolve(keys, query) == Some(i),
{
    lemma_pick_upto(keys, query, 0, keys.len() as int);
    let p = pick_upto(keys, query, 0, keys.len() as int);
    assert(stage_match(0, keys[i], query));
    assert(p is Some);
    assert(keys[p->0] == query);
    if p->0 > i {
        assert(stage_match(0, keys[i], query));
        assert(byte_len(keys[p->0]) < byte_len(keys[i]));
    }
}

/// Replaces every hyphen and space by an underscore.
pub fn fold_separator_chars(s: &[char]) -> (r: Vec<char>)
    ensures
        r@ == fold_separators(s@),
{
    let mut r: Vec<char> = Vec::new();
    let mut i: usize = 0;
    while i < s.len()
        invariant
            i <= s.len(),
            r@.len() == i,
            forall|j: int| 0 <= j < i ==> r@[j] == fold_separators(s@)[j],
        decreases s.len() - i,
    {
        let c = s[i];
        if c == '-' || c == ' ' {
            r.push('_');
        } else {
            r.push(c);
        }
        i += 1;
    }
    assert(r@ =~= fold_separators(s@));
    r
}

/// Takes the underscores out of a text.
pub fn strip_separator_chars(s: &[char]) -> (r: Vec<char>)
    ensures
        r@ == strip_separators(s@),
{
    let mut r: Vec<char> = Vec::new();
    let mut i: usize = 0;
    while i < s.len()
        invariant
            i <= s.len(),
            r@ == strip_separators(s@.take(i as int)),
        decreases s.len() - i,
    {
        assert(s@.take(i + 1).drop_last() == s@.take(i as int));
        if s[i] != '_' {
            r.push(s[i]);
        }
        i += 1;
    }
    assert(s@.take(s.len() as int) == s@);
    r
}

/// Whether a key answers a query at the given stage.
fn answers(stage: u8, key: &[char], query: &[char], compact: &[char]) -> (r: bool)
    requires
        compact@ == strip_separators(query@),
    ensures
        r == stage_match(stage as int, key@, query@),
{
    if stage == 0 {
        same_chars(key, query)
    } else if stage == 1 {
        has_suffix(key, query)
    } else if stage == 2 {
        has_sub(key, query)
    } else {
        let bare = strip_separator_chars(key);
        has_sub(bare.as_slice(), compact)
    }
}

/// The pick of one stage over the whole catalog.
fn pick(gpus: &[(String, GpuSpec)], stage: u8, query: &[char], compact: &[char]) -> (r: Option<
    usize,
>)
    requires
        compact@ == strip_separators(query@),
    ensures
        match r {
            Some(p) => pick_upto(keys_of(gpus@), query@, stage as int, gpus.len() as int) == Some(
                p as int,
            ) && p < gpus.len(),
            None => pick_upto(keys_of(gpus@), query@, stage as int, gpus.len() as int) is None,
        },
{
    let mut best: Option<usize> = None;
    let mut best_len: usize = 0;
    let mut i: usize = 0;
    while i < gpus.len()
        invariant
            i <= gpus.len(),
            compact@ == strip_separators(query@),
            match best {
                Some(p) => pick_upto(keys_of(gpus@), query@, stage as int, i as int) == Some(
                    p as int,
                ) && p < i && best_len == byte_len(gpus@[p as int].0@),
                None => pick_upto(keys_of(gpus@), query@, stage as int, i as int) is None,
            },
        decreases gpus.len() - i,
    {
        let key = chars_of(gpus[i].0.as_str());
        assert(keys_of(gpus@)[i as int] == key@);
        if answers(stage, key.as_slice(), query, compact) {
            let len = gpus[i].0.as_str().as_bytes().len();
            match best {
                None => {
                    best = Some(i);
                    best_len = len;
                },
                Some(p) => {
                    assert(keys_of(gpus@)[p as int] == gpus@[p as int].0@);
                    if len < best_len {
                        best = Some(i);
                        best_len = len;
                    }
                },
            }
        }
        i += 1;
    }
    best
}

/// Resolves a query that is already in lower case: hyphens and spaces are
/// folded to underscores, and the four stages are tried in turn.
pub fn find_gpu_lower(gpus: &[(String, GpuSpec)], lower: &str) -> (r: Option<(String, GpuSpec)>)
    ensures
        r == resolved_entry(gpus@, lower@),
{
    let lower_chars = chars_of(lower);
    let query = fold_separator_chars(lower_chars.as_slice());
    let compact = strip_separator_chars(query.as_slice());
    let mut stage: u8 = 0;
    while stage < 4
        invariant
            stage <= 4,
            query@ == fold_separators(lower@),
            compact@ == strip_separators(query@),
            forall|t: int|
                0 <= t < stage ==> pick_upto(keys_of(gpus@), query@, t, gpus.len() as int) is None,
        decreases 4 - stage,
    {
        if let Some(p) = pick(gpus, stage, query.as_slice(), compact.as_slice()) {
            let key = gpus[p].0.clone();
            let spec = gpus[p].1.clone();
            assert(resolve(keys_of(gpus@), query@) == Some(p as int));
            return Some((key, spec));
        }
        stage += 1;
    }
    proof {
        let n = gpus.len() as int;
        assert(keys_of(gpus@).len() == n);
        assert(pick_upto(keys_of(gpus@), query@, 0, n) is None);
        assert(pick_upto(keys_of(gpus@), query@, 1, n) is None);
        assert(pick_upto(keys_of(gpus@), query@, 2, n) is None);
        assert(pick_upto(keys_of(gpus@), query@, 3, n) is None);
    }
    None
}

/// Finds a device by free text such as "4090", "rtx4090", "m4-max" or
/// "h100". The query is put in lower case, hyphens and spaces are folded to
/// underscores, and a key is looked for that is the query, else ends with
/// it, else contains it, else contains it once the separators are taken out
/// of both. Of several candidates at one stage the shortest key wins, and of
/// several shortest the first in the catalog.
pub fn find_gpu(gpus: &[(String, GpuSpec)], input: &str) -> (r: Option<(String, GpuSpec)>)
    ensures
        r == resolved_entry(gpus@, lowercase_of(input@)),
{
    let lower = input.to_lowercase();
    find_gpu_lower(gpus, lower.as_str())
}

/// Why a catalog is refused: the entry under `key` breaks the invariant of
/// the catalog.
#[derive(Debug)]
pub struct CatalogError {
    /// The key of the entry.
    pub key: String,
    /// What is wrong with the entry.
    pub defect: Defect,
}

/// The name of a numeric field.
pub open spec fn field_name(f: SpecField) -> Seq<char> {
    match f {
        SpecField::Vram => "vram_mb"@,
        SpecField::Bandwidth => "mem_bw_mb_s"@,
        SpecField::Compute => "fp16_gflops"@,
        SpecField::Power => "tdp_w"@,
        SpecField::LlamaCppDecode => "llamacpp_decode_eff"@,
        SpecField::LlamaCppPrefill => "llamacpp_prefill_eff"@,
        SpecField::MlxDecode => "mlx_decode_eff"@,
        SpecField::MlxPrefill => "mlx_prefill_eff"@,
    }
}

/// What is wrong with a field.
pub open spec fn defect_text(d: Defect) -> Seq<char> {
    match d {
        Defect::NonPositive(f) => field_name(f) + " must be positive"@,
        Defect::EfficiencyOutOfRange(f) => field_name(f) + " must be above 0 and at most 1"@,
    }
}

/// The name of a numeric field.
pub fn field_label(f: SpecField) -> (r: &'static str)
    ensures
        r@ == field_name(f),
{
    match f {
        SpecField::Vram => "vram_mb",
        SpecField::Bandwidth => "mem_bw_mb_s",
        SpecField::Compute => "fp16_gflops",
        SpecField::Power => "tdp_w",
        SpecField::LlamaCppDecode => "llamacpp_decode_eff",
        SpecField::LlamaCppPrefill => "llamacpp_prefill_eff",
        SpecField::MlxDecode => "mlx_decode_eff",
        SpecField::MlxPrefill => "mlx_prefill_eff",
    }
}

impl CatalogError {
    /// The message of the error.
    pub open spec fn message(&self) -> Seq<char> {
        "bad catalog: "@ + self.key@ + ": "@ + defect_text(self.defect)
    }

    /// The message of the error.
    pub fn to_string(&self) -> (r: String)
        ensures
            r@ == self.message(),
    {
        let mut out: Vec<char> = Vec::new();
        push_str(&mut out, "bad catalog: ");
        push_str(&mut out, self.key.as_str());
        push_str(&mut out, ": ");
        match self.defect {
            Defect::NonPositive(f) => {
                push_str(&mut out, field_label(f));
                push_str(&mut out, " must be positive");
            },
            Defect::EfficiencyOutOfRange(f) => {
                push_str(&mut out, field_label(f));
                push_str(&mut out, " must be above 0 and at most 1");
            },
        }
        assert(out@ =~= self.message());
        string_of(out.as_slice())
    }
}

/// The position, from `from` on, of the first entry that breaks the
/// invariant.
pub open spec fn first_invalid(gpus: Seq<(String, GpuSpec)>, from: int) -> Option<int>
    decreases gpus.len() - from,
{
    if from < 0 || from >= gpus.len() {
        None
    } else if !gpus[from].1.valid() {
        Some(from)
    } else {
        first_invalid(gpus, from + 1)
    }
}

/// Every entry of the catalog keeps the invariant.
pub open spec fn catalog_valid(gpus: Seq<(String, GpuSpec)>) -> bool {
    forall|i: int| 0 <= i < gpus.len() ==> (#[trigger] gpus[i]).1.valid()
}

/// No entry is named as invalid exactly when every entry is valid, and the
/// entry that is named is the first invalid one.
pub proof fn lemma_first_invalid(gpus: Seq<(String, GpuSpec)>, from: int)
    requires
        0 <= from,
    ensures
        match first_invalid(gpus, from) {
            Some(i) => from <= i < gpus.len() && !gpus[i].1.valid() && forall|j: int|
                from <= j < i ==> (#[trigger] gpus[j]).1.valid(),
            None => forall|j: int| from <= j < gpus.len() ==> (#[trigger] gpus[j]).1.valid(),
        },
    decreases gpus.len() - from,
{
    if from < gpus.len() && gpus[from].1.valid() {
        lemma_first_invalid(gpus, from + 1);
    }
}

/// Checks a device catalog: every entry must have positive capacity,
/// bandwidth, compute and power, and efficiency coefficients above 0 and at
/// most 1. The error names the first entry that fails and the first of its
/// fields that is wrong.
pub fn validate_hardware(gpus: &[(String, GpuSpec)]) -> (r: Result<(), CatalogError>)
    ensures
        r is Ok <==> catalog_valid(gpus@),
        match r {
            Ok(_) => first_invalid(gpus@, 0) is None,
            Err(e) => first_invalid(gpus@, 0) is Some && e == (CatalogError {
                key: gpus@[first_invalid(gpus@, 0)->0].0,
                defect: gpus@[first_invalid(gpus@, 0)->0].1.defect()->0,
            }),
        },
{
    proof {
        lemma_first_invalid(gpus@, 0);
    }
    let mut i: usize = 0;
    while i < gpus.len()
        invariant
            i <= gpus.len(),
            first_invalid(gpus@, 0) == first_invalid(gpus@, i as int),
        decreases gpus.len() - i,
    {
        match gpus[i].1.validate() {
            Ok(_) => {},
            Err(defect) => {
                return Err(CatalogError { key: gpus[i].0.clone(), defect });
            },
        }
        i += 1;
    }
    Ok(())
}

/// The keys of the devices that a model's page shows by default.
pub open spec fn default_display_keys() -> Seq<Seq<char>> {
    seq!["rtx_4090"@, "rtx_5090"@, "m4_pro_48"@, "m4_max_128"@, "a100_pcie_80_gb"@]
}

/// Whether a device is among those that a model's page shows by default.
pub fn is_default_display_gpu(key: &str) -> (r: bool)
    ensures
        r == default_display_keys().contains(key@),
{
    let k = chars_of(key);
    let r = is_word(k.as_slice(), "rtx_4090") || is_word(k.as_slice(), "rtx_5090") || is_word(
        k.as_slice(),
        "m4_pro_48",
    ) || is_word(k.as_slice(), "m4_max_128") || is_word(k.as_slice(), "a100_pcie_80_gb");
    proof {
        let keys = default_display_keys();
        if r {
            assert(keys[0] == "rtx_4090"@);
            assert(keys[1] == "rtx_5090"@);
            assert(keys[2] == "m4_pro_48"@);
            assert(keys[3] == "m4_max_128"@);
            assert(keys[4] == "a100_pcie_80_gb"@);
        } else {
            assert forall|i: int| 0 <= i < keys.len() implies keys[i] != key@ by {}
        }
    }
    r
}

} // verus!
