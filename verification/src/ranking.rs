//! Ways to run a model, ranked by what a million output tokens cost.
use vstd::prelude::*;
use crate::cloud::CloudOffering;
use crate::estimate::{
    best_level, best_quant, best_quant_multi_gpu, decode_rate, estimate_of, prefill_rate, sat_div,
    Estimate, Quant,
};
use crate::hardware::{keys_of, GpuSpec, Runtime};
use crate::order::{
    ascending, insert_by, lemma_insert_position, lemma_sort_by, lemma_sort_by_push, sort_by,
};
use crate::reference::RefModel;

verus! {

/// Share of the thermal design power that a device draws under load, in
/// percent.
pub const LOAD_PCT: u64 = 80;

/// Price of a kilowatt-hour, in millionths of a dollar.
pub const KWH_PRICE: u64 = 120_000;

/// Decode speed from which a model runs comfortably, in thousandths of a
/// token per second.
pub const FAST_DECODE: u64 = 30_000;

/// What a million output tokens cost, in millionths of a dollar, at a price
/// per hour in millionths of a dollar and a speed in thousandths of a token
/// per second: the price of an hour over the tokens of an hour, times a
/// million. A speed of zero gives the largest value.
pub open spec fn cost_of(price_hr: int, mtok_s: int) -> int {
    sat_div(price_hr * 2_500_000, 9 * mtok_s)
}

/// Effective cost of a million output tokens at a price per hour and a
/// decode speed.
pub fn cost_per_m(price_hr: u64, mtok_s: u64) -> (r: u64)
    ensures
        r == cost_of(price_hr as int, mtok_s as int),
{
    if mtok_s == 0 {
        return u64::MAX;
    }
    let num: u128 = (price_hr as u128) * 2_500_000;
    let den: u128 = (mtok_s as u128) * 9;
    let q: u128 = num / den;
    if q > u64::MAX as u128 {
        u64::MAX
    } else {
        q as u64
    }
}

/// The first position from `from` on at which `key` stands among `keys`.
pub open spec fn key_position(keys: Seq<Seq<char>>, key: Seq<char>, from: int) -> Option<int>
    decreases keys.len() - from,
{
    if from < 0 || from >= keys.len() {
        None
    } else if keys[from] == key {
        Some(from)
    } else {
        key_position(keys, key, from + 1)
    }
}

/// The position of the first catalog entry under the given key.
pub fn find_key(gpus: &[(String, GpuSpec)], key: &String) -> (r: Option<usize>)
    ensures
        match r {
            Some(i) => key_position(keys_of(gpus@), key@, 0) == Some(i as int) && i < gpus.len(),
            None => key_position(keys_of(gpus@), key@, 0) is None,
        },
{
    let mut i: usize = 0;
    while i < gpus.len()
        invariant
            i <= gpus.len(),
            key_position(keys_of(gpus@), key@, 0) == key_position(keys_of(gpus@), key@, i as int),
        decreases gpus.len() - i,
    {
        assert(keys_of(gpus@)[i as int] == gpus@[i as int].0@);
        if gpus[i].0 == *key {
            return Some(i);
        }
        i += 1;
    }
    None
}

/// A cloud offering with what it achieves for a model.
#[derive(Debug)]
pub struct CloudRow {
    /// Display name of the offering.
    pub name: String,
    /// Name of the vendor.
    pub provider: String,
    /// Number of accelerators.
    pub gpu_count: u32,
    /// Price of the whole configuration for one hour, in millionths of a
    /// dollar.
    pub total_hr: u64,
    /// Quantization at which the model runs.
    pub quant: Quant,
    /// Decode speed, in thousandths of a token per second.
    pub mtok_s: u64,
    /// Cost of a million output tokens, in millionths of a dollar.
    pub eff_cost: u64,
}

/// What a [`CloudRow`] states.
pub struct CloudRowView {
    pub name: Seq<char>,
    pub provider: Seq<char>,
    pub gpu_count: u32,
    pub total_hr: int,
    pub quant: Quant,
    pub mtok_s: int,
    pub eff_cost: int,
}

impl View for CloudRow {
    type V = CloudRowView;

    open spec fn view(&self) -> CloudRowView {
        CloudRowView {
            name: self.name@,
            provider: self.provider@,
            gpu_count: self.gpu_count,
            total_hr: self.total_hr as int,
            quant: self.quant,
            mtok_s: self.mtok_s as int,
            eff_cost: self.eff_cost as int,
        }
    }
}

/// What a sequence of cloud rows states.
pub open spec fn cloud_views(rows: Seq<CloudRow>) -> Seq<CloudRowView> {
    Seq::new(rows.len(), |i: int| rows[i]@)
}

/// The cost by which cloud rows are ranked.
pub open spec fn cloud_cost() -> spec_fn(CloudRowView) -> int {
    |r: CloudRowView| r.eff_cost
}

/// The number of accelerators that an offering is estimated with: its
/// count, and one where the count is zero.
pub open spec fn estimated_count(o: CloudOffering) -> u32 {
    if o.gpu_count > 1 {
        o.gpu_count
    } else {
        1
    }
}

/// The price of a whole configuration for one hour, capped at the largest
/// amount.
pub open spec fn total_price(o: CloudOffering) -> int {
    if o.price_hr * o.gpu_count > u64::MAX {
        u64::MAX as int
    } else {
        o.price_hr * o.gpu_count
    }
}

/// The row of an offering: none where its device is not in the catalog,
/// where the model does not fit, or where the decode speed is zero.
pub open spec fn cloud_row(o: CloudOffering, gpus: Seq<(String, GpuSpec)>, params: u64) -> Option<
    CloudRowView,
> {
    match key_position(keys_of(gpus), o.gpu@, 0) {
        None => None,
        Some(i) => match best_level(gpus[i].1, params, estimated_count(o)) {
            None => None,
            Some(q) => {
                let speed = decode_rate(
                    gpus[i].1,
                    params,
                    q,
                    Runtime::LlamaCpp,
                    estimated_count(o),
                );
                if speed <= 0 {
                    None
                } else {
                    Some(
                        CloudRowView {
                            name: o.name@,
                            provider: o.provider@,
                            gpu_count: o.gpu_count,
                            total_hr: total_price(o),
                            quant: q,
                            mtok_s: speed,
                            eff_cost: cost_of(total_price(o), speed),
                        },
                    )
                }
            },
        },
    }
}

/// The rows of the offerings that have one, in the order of the catalog.
pub open spec fn cloud_rows(
    offerings: Seq<(String, CloudOffering)>,
    gpus: Seq<(String, GpuSpec)>,
    params: u64,
) -> Seq<CloudRowView>
    decreases offerings.len(),
{
    if offerings.len() == 0 {
        Seq::empty()
    } else {
        let rest = cloud_rows(offerings.drop_last(), gpus, params);
        match cloud_row(offerings.last().1, gpus, params) {
            Some(r) => rest.push(r),
            None => rest,
        }
    }
}

/// What an optional cloud row states.
pub open spec fn cloud_view_of(r: Option<CloudRow>) -> Option<CloudRowView> {
    match r {
        Some(x) => Some(x@),
        None => None,
    }
}

/// The row of one offering.
pub fn cloud_row_for(o: &CloudOffering, gpus: &[(String, GpuSpec)], params: u64) -> (r: Option<
    CloudRow,
>)
    ensures
        cloud_view_of(r) == cloud_row(*o, gpus@, params),
{
    let i = match find_key(gpus, &o.gpu) {
        Some(i) => i,
        None => {
            return None;
        },
    };
    let gpu = &gpus[i].1;
    let best = if o.gpu_count > 1 {
        best_quant_multi_gpu(gpu, params, Runtime::LlamaCpp, o.gpu_count)
    } else {
        best_quant(gpu, params, Runtime::LlamaCpp)
    };
    match best {
        Some((q, est)) => {
            let speed: u64 = match est.decode_mtok_s {
                Some(d) => d,
                None => 0,
            };
            if speed == 0 {
                return None;
            }
            assert(o.price_hr * o.gpu_count <= u128::MAX && o.price_hr * o.gpu_count >= 0)
                by (nonlinear_arith)
                requires
                    0 <= o.price_hr <= u64::MAX,
                    0 <= o.gpu_count <= u32::MAX,
            ;
            let wide: u128 = (o.price_hr as u128) * (o.gpu_count as u128);
            let total_hr: u64 = if wide > u64::MAX as u128 {
                u64::MAX
            } else {
                wide as u64
            };
            Some(
                CloudRow {
                    name: o.name.clone(),
                    provider: o.provider.clone(),
                    gpu_count: o.gpu_count,
                    total_hr,
                    quant: q,
                    mtok_s: speed,
                    eff_cost: cost_per_m(total_hr, speed),
                },
            )
        },
        None => None,
    }
}

/// Puts a row into a ranking, behind the rows that cost no more.
fn insert_cloud_row(out: &mut Vec<CloudRow>, row: CloudRow)
    ensures
        cloud_views(final(out)@) == insert_by(cloud_views(old(out)@), row@, cloud_cost()),
{
    let mut k: usize = out.len();
    while k > 0 && out[k - 1].eff_cost > row.eff_cost
        invariant
            out@ == old(out)@,
            k <= out.len(),
            forall|j: int| k <= j < out.len() ==> out@[j].eff_cost > row.eff_cost,
        decreases k,
    {
        k -= 1;
    }
    proof {
        let before = cloud_views(out@);
        assert forall|j: int| k <= j < before.len() implies cloud_cost()(before[j]) > cloud_cost()(
            row@,
        ) by {
            assert(before[j] == out@[j]@);
        }
        if k > 0 {
            assert(before[k - 1] == out@[k - 1]@);
        }
        lemma_insert_position(before, row@, cloud_cost(), k as int);
        assert(cloud_views(out@.insert(k as int, row)) =~= before.insert(k as int, row@));
    }
    out.insert(k, row);
}

/// Ranks the cloud offerings for a model of `params` parameters by what a
/// million output tokens cost at full use. Each offering is estimated on its
/// device under the baseline runtime, scaled by its number of accelerators,
/// at the first quantization that fits. Offerings whose device is not in the
/// catalog, on which the model does not fit, or whose decode speed is zero
/// are left out. Offerings of equal cost keep the order of the catalog.
pub fn rank_cloud_offerings(
    offerings: &[(String, CloudOffering)],
    gpus: &[(String, GpuSpec)],
    params: u64,
) -> (r: Vec<CloudRow>)
    ensures
        cloud_views(r@) == sort_by(cloud_rows(offerings@, gpus@, params), cloud_cost()),
        ascending(cloud_views(r@), cloud_cost()),
        cloud_views(r@).to_multiset() == cloud_rows(offerings@, gpus@, params).to_multiset(),
{
    proof {
        lemma_sort_by(cloud_rows(offerings@, gpus@, params), cloud_cost());
    }
    let mut out: Vec<CloudRow> = Vec::new();
    let mut i: usize = 0;
    assert(cloud_views(out@) =~= Seq::<CloudRowView>::empty());
    assert(offerings@.take(0) =~= Seq::<(String, CloudOffering)>::empty());
    while i < offerings.len()
        invariant
            i <= offerings.len(),
            cloud_views(out@) == sort_by(
                cloud_rows(offerings@.take(i as int), gpus@, params),
                cloud_cost(),
            ),
        decreases offerings.len() - i,
    {
        proof {
            assert(offerings@.take(i + 1).drop_last() == offerings@.take(i as int));
            assert(offerings@.take(i + 1).last() == offerings@[i as int]);
        }
        let ghost rest = cloud_rows(offerings@.take(i as int), gpus@, params);
        if let Some(row) = cloud_row_for(&offerings[i].1, gpus, params) {
            proof {
                lemma_sort_by_push(rest, row@, cloud_cost());
            }
            insert_cloud_row(&mut out, row);
        }
        i += 1;
    }
    assert(offerings@.take(offerings@.len() as int) == offerings@);
    out
}

/// A local device with what it achieves for a model.
#[derive(Debug)]
pub struct LocalRow {
    /// Display name of the device.
    pub name: String,
    /// Street price of the device, in dollars.
    pub street: Option<u32>,
    /// Quantization at which the model runs.
    pub quant: Quant,
    /// Decode speed under the device's fastest runtime, in thousandths of a
    /// token per second.
    pub mtok_s: u64,
    /// Cost of the electricity for a million output tokens, in millionths of
    /// a dollar.
    pub eff_cost: u64,
    /// Thousands of output tokens after which the device has paid for
    /// itself against the cheapest hosted alternative.
    pub payback_ktok: Option<u64>,
}

/// What a [`LocalRow`] states.
pub struct LocalRowView {
    pub name: Seq<char>,
    pub street: Option<u32>,
    pub quant: Quant,
    pub mtok_s: int,
    pub eff_cost: int,
    pub payback_ktok: Option<int>,
}

impl View for LocalRow {
    type V = LocalRowView;

    open spec fn view(&self) -> LocalRowView {
        LocalRowView {
            name: self.name@,
            street: self.street,
            quant: self.quant,
            mtok_s: self.mtok_s as int,
            eff_cost: self.eff_cost as int,
            payback_ktok: match self.payback_ktok {
                Some(p) => Some(p as int),
                None => None,
            },
        }
    }
}

impl Clone for LocalRow {
    fn clone(&self) -> (r: Self)
        ensures
            r == *self,
    {
        LocalRow {
            name: self.name.clone(),
            street: self.street,
            quant: self.quant,
            mtok_s: self.mtok_s,
            eff_cost: self.eff_cost,
            payback_ktok: self.payback_ktok,
        }
    }
}

/// What a sequence of local rows states.
pub open spec fn local_views(rows: Seq<LocalRow>) -> Seq<LocalRowView> {
    Seq::new(rows.len(), |i: int| rows[i]@)
}

/// The cost by which local rows are ranked.
pub open spec fn local_cost() -> spec_fn(LocalRowView) -> int {
    |r: LocalRowView| r.eff_cost
}

/// What the electricity for one hour under load costs, in millionths of a
/// dollar: the power in kilowatts, times the share drawn, times the price of
/// a kilowatt-hour.
pub open spec fn power_cost_hr(tdp_w: u32) -> int {
    tdp_w * LOAD_PCT * KWH_PRICE / 100_000
}

/// Thousands of output tokens after which a device bought at the street
/// price has paid for itself: the price over what a token saves against the
/// cheapest hosted price. There is no such point where either price is
/// unknown or the device is not strictly cheaper per token.
pub open spec fn payback_of(street: Option<u32>, api: Option<u64>, eff_cost: int) -> Option<int> {
    match (street, api) {
        (Some(usd), Some(a)) => if eff_cost < a {
            Some(usd * 1_000_000_000 / (a - eff_cost))
        } else {
            None
        },
        _ => None,
    }
}

/// The row that a device proposes under one runtime: none where the model
/// does not fit or the decode speed is zero.
pub open spec fn local_candidate(g: GpuSpec, rt: Runtime, params: u64, api: Option<u64>) -> Option<
    LocalRowView,
> {
    match best_level(g, params, 1) {
        None => None,
        Some(q) => {
            let speed = decode_rate(g, params, q, rt, 1);
            if speed <= 0 {
                None
            } else {
                Some(
                    LocalRowView {
                        name: g.name@,
                        street: g.street_usd,
                        quant: q,
                        mtok_s: speed,
                        eff_cost: cost_of(power_cost_hr(g.tdp_w), speed),
                        payback_ktok: payback_of(
                            g.street_usd,
                            api,
                            cost_of(power_cost_hr(g.tdp_w), speed),
                        ),
                    },
                )
            }
        },
    }
}

/// The first position from `from` on of a row with the given device name.
pub open spec fn name_position(rows: Seq<LocalRowView>, name: Seq<char>, from: int) -> Option<int>
    decreases rows.len() - from,
{
    if from < 0 || from >= rows.len() {
        None
    } else if rows[from].name == name {
        Some(from)
    } else {
        name_position(rows, name, from + 1)
    }
}

/// The rows with a proposed row taken in. Where a row of the same device
/// name exists, it keeps its name and street price and takes the figures of
/// the proposed row if that one decodes strictly faster; else the proposed row
/// is added at the end.
pub open spec fn merge_row(rows: Seq<LocalRowView>, c: Option<LocalRowView>) -> Seq<LocalRowView> {
    match c {
        None => rows,
        Some(c) => match name_position(rows, c.name, 0) {
            None => rows.push(c),
            Some(i) => if c.mtok_s > rows[i].mtok_s {
                rows.update(
                    i,
                    LocalRowView {
                        name: rows[i].name,
                        street: rows[i].street,
                        quant: c.quant,
                        mtok_s: c.mtok_s,
                        eff_cost: c.eff_cost,
                        payback_ktok: c.payback_ktok,
                    },
                )
            } else {
                rows
            },
        },
    }
}

/// The rows with what a device proposes under each of its runtimes taken
/// in.
pub open spec fn merge_device(rows: Seq<LocalRowView>, g: GpuSpec, params: u64, api: Option<u64>)
    -> Seq<LocalRowView> {
    let first = merge_row(rows, local_candidate(g, g.runtimes()[0], params, api));
    if g.runtimes().len() > 1 {
        merge_row(first, local_candidate(g, g.runtimes()[1], params, api))
    } else {
        first
    }
}

/// One row for each device name of the catalog on which the model runs, in
/// the order in which the names first appear.
pub open spec fn local_rows(gpus: Seq<(String, GpuSpec)>, params: u64, api: Option<u64>) -> Seq<
    LocalRowView,
>
    decreases gpus.len(),
{
    if gpus.len() == 0 {
        Seq::empty()
    } else {
        merge_device(local_rows(gpus.drop_last(), params, api), gpus.last().1, params, api)
    }
}

/// What an hour of electricity under load costs, in millionths of a dollar.
pub fn electricity_per_hour(tdp_w: u32) -> (r: u64)
    ensures
        r == power_cost_hr(tdp_w),
{
    (tdp_w as u64) * LOAD_PCT * KWH_PRICE / 100_000
}

/// Thousands of output tokens after which a device has paid for itself.
pub fn payback(street: Option<u32>, api: Option<u64>, eff_cost: u64) -> (r: Option<u64>)
    ensures
        match r {
            Some(p) => payback_of(street, api, eff_cost as int) == Some(p as int),
            None => payback_of(street, api, eff_cost as int) is None,
        },
{
    match (street, api) {
        (Some(usd), Some(a)) => {
            if eff_cost < a {
                let saving: u64 = a - eff_cost;
                let total: u64 = (usd as u64) * 1_000_000_000;
                assert(total / saving <= total) by (nonlinear_arith)
                    requires
                        saving >= 1,
                        total >= 0,
                ;
                Some(total / saving)
            } else {
                None
            }
        },
        _ => None,
    }
}

/// Takes into the rows what a device proposes under one runtime.
#[verifier::loop_isolation(false)]
fn merge_candidate(
    rows: &mut Vec<LocalRow>,
    gpu: &GpuSpec,
    rt: Runtime,
    params: u64,
    api: Option<u64>,
)
    ensures
        local_views(final(rows)@) == merge_row(
            local_views(old(rows)@),
            local_candidate(*gpu, rt, params, api),
        ),
{
    let (q, est) = match best_quant(gpu, params, rt) {
        Some(found) => found,
        None => {
            return ;
        },
    };
    let speed: u64 = match est.decode_mtok_s {
        Some(d) => d,
        None => 0,
    };
    if speed == 0 {
        return ;
    }
    let eff_cost = cost_per_m(electricity_per_hour(gpu.tdp_w), speed);
    let payback_ktok = payback(gpu.street_usd, api, eff_cost);
    let ghost before = local_views(rows@);
    let ghost cand = local_candidate(*gpu, rt, params, api)->0;
    assert(local_candidate(*gpu, rt, params, api) is Some);
    let mut i: usize = 0;
    while i < rows.len()
        invariant
            i <= rows.len(),
            rows@ == old(rows)@,
            before == local_views(rows@),
            name_position(before, gpu.name@, 0) == name_position(before, gpu.name@, i as int),
        decreases rows.len() - i,
    {
        assert(before[i as int] == rows@[i as int]@);
        if rows[i].name == gpu.name {
            assert(name_position(before, cand.name, i as int) == Some(i as int));
            if speed > rows[i].mtok_s {
                let name = rows[i].name.clone();
                let street = rows[i].street;
                rows.set(i, LocalRow { name, street, quant: q, mtok_s: speed, eff_cost, payback_ktok });
                assert(local_views(rows@) =~= merge_row(before, Some(cand)));
            }
            return ;
        }
        i += 1;
    }
    rows.push(
        LocalRow {
            name: gpu.name.clone(),
            street: gpu.street_usd,
            quant: q,
            mtok_s: speed,
            eff_cost,
            payback_ktok,
        },
    );
    assert(local_views(rows@) =~= merge_row(before, Some(cand)));
}

/// Puts a row into a ranking, behind the rows that cost no more.
fn insert_local_row(out: &mut Vec<LocalRow>, row: LocalRow)
    ensures
        local_views(final(out)@) == insert_by(local_views(old(out)@), row@, local_cost()),
{
    let mut k: usize = out.len();
    while k > 0 && out[k - 1].eff_cost > row.eff_cost
        invariant
            out@ == old(out)@,
            k <= out.len(),
            forall|j: int| k <= j < out.len() ==> out@[j].eff_cost > row.eff_cost,
        decreases k,
    {
        k -= 1;
    }
    proof {
        let before = local_views(out@);
        assert forall|j: int| k <= j < before.len() implies local_cost()(before[j]) > local_cost()(
            row@,
        ) by {
            assert(before[j] == out@[j]@);
        }
        if k > 0 {
            assert(before[k - 1] == out@[k - 1]@);
        }
        lemma_insert_position(before, row@, local_cost(), k as int);
        assert(local_views(out@.insert(k as int, row)) =~= before.insert(k as int, row@));
    }
    out.insert(k, row);
}

/// Ranks the devices of the catalog for a model of `params` parameters by
/// what the electricity for a million output tokens costs. Each device is
/// estimated under each of its runtimes at the first quantization that fits,
/// and devices of one name share a row that holds the figures of the fastest
/// decode. `cheapest_api` is the lowest hosted price of a million output
/// tokens, where one is known: against it the payback of a device with a
/// street price is reckoned. Rows of equal cost keep the order in which their
/// names first appear in the catalog.
pub fn rank_local_devices(gpus: &[(String, GpuSpec)], params: u64, cheapest_api: Option<u64>) -> (r:
    Vec<LocalRow>)
    ensures
        local_views(r@) == sort_by(local_rows(gpus@, params, cheapest_api), local_cost()),
        ascending(local_views(r@), local_cost()),
        local_views(r@).to_multiset() == local_rows(gpus@, params, cheapest_api).to_multiset(),
{
    proof {
        lemma_sort_by(local_rows(gpus@, params, cheapest_api), local_cost());
    }
    let mut rows: Vec<LocalRow> = Vec::new();
    let mut i: usize = 0;
    assert(local_views(rows@) =~= Seq::<LocalRowView>::empty());
    assert(gpus@.take(0) =~= Seq::<(String, GpuSpec)>::empty());
    while i < gpus.len()
        invariant
            i <= gpus.len(),
            local_views(rows@) == local_rows(gpus@.take(i as int), params, cheapest_api),
        decreases gpus.len() - i,
    {
        proof {
            assert(gpus@.take(i + 1).drop_last() == gpus@.take(i as int));
            assert(gpus@.take(i + 1).last() == gpus@[i as int]);
        }
        let gpu = &gpus[i].1;
        let rts = gpu.available_runtimes();
        merge_candidate(&mut rows, gpu, rts[0], params, cheapest_api);
        if rts.len() > 1 {
            merge_candidate(&mut rows, gpu, rts[1], params, cheapest_api);
        }
        i += 1;
    }
    assert(gpus@.take(gpus@.len() as int) == gpus@);
    let mut out: Vec<LocalRow> = Vec::new();
    let mut j: usize = 0;
    let ghost all = local_views(rows@);
    assert(local_views(out@) =~= Seq::<LocalRowView>::empty());
    assert(all.take(0) =~= Seq::<LocalRowView>::empty());
    while j < rows.len()
        invariant
            j <= rows.len(),
            all == local_views(rows@),
            local_views(out@) == sort_by(all.take(j as int), local_cost()),
        decreases rows.len() - j,
    {
        proof {
            assert(all.take(j + 1) =~= all.take(j as int).push(rows@[j as int]@));
            lemma_sort_by_push(all.take(j as int), rows@[j as int]@, local_cost());
        }
        insert_local_row(&mut out, rows[j].clone());
        j += 1;
    }
    assert(all.take(all.len() as int) == all);
    out
}

/// How well a device runs a model.
#[derive(Debug, Clone, Copy, PartialEq, Eq, Structural)]
pub enum Tier {
    /// The model fits and decodes at the fast-decode threshold or above.
    Comfortable,
    /// The model fits and decodes below the threshold.
    Tight,
    /// The model does not fit at any quantization.
    WontRun,
}

/// The tier of a model of `params` parameters on a device under a runtime,
/// for the fast-decode threshold `fast`.
pub open spec fn tier_of(g: GpuSpec, params: u64, rt: Runtime, fast: u64) -> Tier {
    match best_level(g, params, 1) {
        None => Tier::WontRun,
        Some(q) => if decode_rate(g, params, q, rt, 1) >= fast {
            Tier::Comfortable
        } else {
            Tier::Tight
        },
    }
}

/// A model that runs on a device, with its figures.
#[derive(Debug)]
pub struct EvalRow {
    /// Short name of the model.
    pub short: String,
    /// Quantization at which it runs.
    pub quant: Quant,
    /// Decode speed, in thousandths of a token per second.
    pub decode: Option<u64>,
    /// Prefill speed, in thousandths of a token per second.
    pub prefill: Option<u64>,
}

/// What an [`EvalRow`] states.
pub struct EvalRowView {
    pub short: Seq<char>,
    pub quant: Quant,
    pub decode: Option<int>,
    pub prefill: Option<int>,
}

impl View for EvalRow {
    type V = EvalRowView;

    open spec fn view(&self) -> EvalRowView {
        EvalRowView {
            short: self.short@,
            quant: self.quant,
            decode: match self.decode {
                Some(d) => Some(d as int),
                None => None,
            },
            prefill: match self.prefill {
                Some(p) => Some(p as int),
                None => None,
            },
        }
    }
}

/// The reference models sorted into tiers.
#[derive(Debug)]
pub struct Tiers {
    pub comfortable: Vec<EvalRow>,
    pub tight: Vec<EvalRow>,
    pub wont_run: Vec<String>,
}

/// What a sequence of evaluated rows states.
pub open spec fn eval_views(rows: Seq<EvalRow>) -> Seq<EvalRowView> {
    Seq::new(rows.len(), |i: int| rows[i]@)
}

/// The texts of a sequence of strings.
pub open spec fn texts(names: Seq<String>) -> Seq<Seq<char>> {
    Seq::new(names.len(), |i: int| names[i]@)
}

/// The row of a model that fits at the level `q`.
pub open spec fn eval_row(g: GpuSpec, m: RefModel, q: Quant, rt: Runtime) -> EvalRowView {
    EvalRowView {
        short: m.short@,
        quant: q,
        decode: Some(decode_rate(g, m.params, q, rt, 1)),
        prefill: Some(prefill_rate(g, m.params, rt, 1)),
    }
}

/// The rows of the models of one tier, in the order of the list. The tier
/// is one of those in which the model runs.
pub open spec fn rows_of_tier(g: GpuSpec, models: Seq<RefModel>, rt: Runtime, fast: u64, tier: Tier)
    -> Seq<EvalRowView>
    decreases models.len(),
{
    if models.len() == 0 {
        Seq::empty()
    } else {
        let rest = rows_of_tier(g, models.drop_last(), rt, fast, tier);
        let m = models.last();
        if tier_of(g, m.params, rt, fast) == tier && best_level(g, m.params, 1) is Some {
            rest.push(eval_row(g, m, best_level(g, m.params, 1)->0, rt))
        } else {
            rest
        }
    }
}

/// The short names of the models that do not run, in the order of the list.
pub open spec fn names_wont_run(g: GpuSpec, models: Seq<RefModel>) -> Seq<Seq<char>>
    decreases models.len(),
{
    if models.len() == 0 {
        Seq::empty()
    } else {
        let rest = names_wont_run(g, models.drop_last());
        if best_level(g, models.last().params, 1) is None {
            rest.push(models.last().short@)
        } else {
            rest
        }
    }
}

/// The tiers are those of the models under the runtime `rt` for the
/// threshold `fast`.
pub open spec fn tiers_of(t: Tiers, g: GpuSpec, models: Seq<RefModel>, rt: Runtime, fast: u64)
    -> bool {
    &&& eval_views(t.comfortable@) == rows_of_tier(g, models, rt, fast, Tier::Comfortable)
    &&& eval_views(t.tight@) == rows_of_tier(g, models, rt, fast, Tier::Tight)
    &&& texts(t.wont_run@) == names_wont_run(g, models)
}

/// Sorts models into tiers for one runtime: comfortable where the model
/// fits and decodes at `fast_decode` or above, tight where it fits and
/// decodes below that, and not running where it does not fit.
pub fn classify_for_runtime(gpu: &GpuSpec, models: &[RefModel], rt: Runtime, fast_decode: u64) -> (t:
    Tiers)
    ensures
        tiers_of(t, *gpu, models@, rt, fast_decode),
{
    let mut comfortable: Vec<EvalRow> = Vec::new();
    let mut tight: Vec<EvalRow> = Vec::new();
    let mut wont_run: Vec<String> = Vec::new();
    let mut i: usize = 0;
    assert(models@.take(0) =~= Seq::<RefModel>::empty());
    assert(eval_views(comfortable@) =~= Seq::<EvalRowView>::empty());
    assert(eval_views(tight@) =~= Seq::<EvalRowView>::empty());
    assert(texts(wont_run@) =~= Seq::<Seq<char>>::empty());
    while i < models.len()
        invariant
            i <= models.len(),
            eval_views(comfortable@) == rows_of_tier(
                *gpu,
                models@.take(i as int),
                rt,
                fast_decode,
                Tier::Comfortable,
            ),
            eval_views(tight@) == rows_of_tier(
                *gpu,
                models@.take(i as int),
                rt,
                fast_decode,
                Tier::Tight,
            ),
            texts(wont_run@) == names_wont_run(*gpu, models@.take(i as int)),
        decreases models.len() - i,
    {
        proof {
            assert(models@.take(i + 1).drop_last() == models@.take(i as int));
            assert(models@.take(i + 1).last() == models@[i as int]);
        }
        let m = &models[i];
        match best_quant(gpu, m.params, rt) {
            Some((q, est)) => {
                let fast = match est.decode_mtok_s {
                    Some(d) => d >= fast_decode,
                    None => false,
                };
                let row = EvalRow {
                    short: m.short.to_owned(),
                    quant: q,
                    decode: est.decode_mtok_s,
                    prefill: est.prefill_mtok_s,
                };
                assert(row@ == eval_row(*gpu, *m, q, rt));
                if fast {
                    let ghost before = eval_views(comfortable@);
                    comfortable.push(row);
                    assert(eval_views(comfortable@) =~= before.push(eval_row(*gpu, *m, q, rt)));
                } else {
                    let ghost before = eval_views(tight@);
                    tight.push(row);
                    assert(eval_views(tight@) =~= before.push(eval_row(*gpu, *m, q, rt)));
                }
            },
            None => {
                let ghost before = texts(wont_run@);
                wont_run.push(m.short.to_owned());
                assert(texts(wont_run@) =~= before.push(m.short@));
            },
        }
        i += 1;
    }
    assert(models@.take(models@.len() as int) == models@);
    Tiers { comfortable, tight, wont_run }
}

/// Sorts the reference models into tiers for each runtime that the device
/// supports, in the order in which the device offers them.
pub fn classify_reference_set(gpu: &GpuSpec, models: &[RefModel], fast_decode: u64) -> (r: Vec<
    (Runtime, Tiers),
>)
    ensures
        r@.len() == gpu.runtimes().len(),
        forall|k: int|
            0 <= k < r@.len() ==> (#[trigger] r@[k]).0 == gpu.runtimes()[k] && tiers_of(
                r@[k].1,
                *gpu,
                models@,
                gpu.runtimes()[k],
                fast_decode,
            ),
{
    let rts = gpu.available_runtimes();
    let mut out: Vec<(Runtime, Tiers)> = Vec::new();
    let mut k: usize = 0;
    while k < rts.len()
        invariant
            k <= rts.len(),
            rts@ == gpu.runtimes(),
            out@.len() == k,
            forall|j: int|
                0 <= j < k ==> (#[trigger] out@[j]).0 == gpu.runtimes()[j] && tiers_of(
                    out@[j].1,
                    *gpu,
                    models@,
                    gpu.runtimes()[j],
                    fast_decode,
                ),
        decreases rts.len() - k,
    {
        let tiers = classify_for_runtime(gpu, models, rts[k], fast_decode);
        out.push((rts[k], tiers));
        k += 1;
    }
    out
}

/// The runtime under which a device decodes a model fastest: the first of
/// its runtimes unless the second is strictly faster. None where the model
/// does not fit.
pub open spec fn best_runtime(g: GpuSpec, params: u64) -> Option<Runtime> {
    match best_level(g, params, 1) {
        None => None,
        Some(q) => if g.runtimes().len() > 1 && decode_rate(g, params, q, g.runtimes()[1], 1)
            > decode_rate(g, params, q, g.runtimes()[0], 1) {
            Some(g.runtimes()[1])
        } else {
            Some(g.runtimes()[0])
        },
    }
}

/// The estimate of a model on a device under the runtime that decodes it
/// fastest.
pub fn best_runtime_estimate(gpu: &GpuSpec, params: u64) -> (r: Option<(Runtime, Quant, Estimate)>)
    ensures
        match r {
            Some((rt, q, est)) => {
                &&& best_runtime(*gpu, params) == Some(rt)
                &&& best_level(*gpu, params, 1) == Some(q)
                &&& est@ == estimate_of(*gpu, params, q, rt, 1)
            },
            None => best_runtime(*gpu, params) is None,
        },
{
    let rts = gpu.available_runtimes();
    let first = best_quant(gpu, params, rts[0]);
    match first {
        None => None,
        Some((q, est)) => {
            if rts.len() > 1 {
                if let Some((q2, est2)) = best_quant(gpu, params, rts[1]) {
                    let d1: u64 = match est.decode_mtok_s {
                        Some(d) => d,
                        None => 0,
                    };
                    let d2: u64 = match est2.decode_mtok_s {
                        Some(d) => d,
                        None => 0,
                    };
                    if d2 > d1 {
                        return Some((rts[1], q2, est2));
                    }
                }
            }
            Some((rts[0], q, est))
        },
    }
}

/// How many cloud rows a comparison shows.
pub const CLOUD_ROWS_SHOWN: usize = 10;

/// How many local rows a comparison shows.
pub const LOCAL_ROWS_SHOWN: usize = 8;

/// What a sequence of references to cloud rows states.
pub open spec fn cloud_ref_views(rows: Seq<&CloudRow>) -> Seq<CloudRowView> {
    Seq::new(rows.len(), |i: int| rows[i]@)
}

/// What a sequence of references to local rows states.
pub open spec fn local_ref_views(rows: Seq<&LocalRow>) -> Seq<LocalRowView> {
    Seq::new(rows.len(), |i: int| rows[i]@)
}

/// The first `limit` rows, or all where there are fewer.
pub open spec fn first_rows<T>(rows: Seq<T>, limit: nat) -> Seq<T> {
    if rows.len() <= limit {
        rows
    } else {
        rows.take(limit as int)
    }
}

/// The first `limit` of the rows that have a street price, in their order.
pub open spec fn first_priced(rows: Seq<LocalRowView>, limit: nat) -> Seq<LocalRowView>
    decreases rows.len(),
{
    if rows.len() == 0 {
        Seq::empty()
    } else {
        let rest = first_priced(rows.drop_last(), limit);
        if rows.last().street is Some && rest.len() < limit {
            rest.push(rows.last())
        } else {
            rest
        }
    }
}

/// The rows that [`first_priced`] keeps have a street price, and they are
/// no more than the limit.
pub proof fn lemma_first_priced(rows: Seq<LocalRowView>, limit: nat)
    ensures
        first_priced(rows, limit).len() <= limit,
        first_priced(rows, limit).len() <= rows.len(),
        forall|i: int|
            0 <= i < first_priced(rows, limit).len() ==> (#[trigger] first_priced(
                rows,
                limit,
            )[i]).street is Some,
    decreases rows.len(),
{
    if rows.len() > 0 {
        lemma_first_priced(rows.drop_last(), limit);
    }
}

/// The cloud rows that a comparison shows: the first ten of the ranking.
pub fn shown_cloud_rows(rows: &[CloudRow]) -> (r: Vec<&CloudRow>)
    ensures
        cloud_ref_views(r@) == first_rows(cloud_views(rows@), CLOUD_ROWS_SHOWN as nat),
{
    let mut out: Vec<&CloudRow> = Vec::new();
    let mut i: usize = 0;
    while i < rows.len() && i < CLOUD_ROWS_SHOWN
        invariant
            i <= rows.len(),
            i <= CLOUD_ROWS_SHOWN,
            out@.len() == i,
            forall|k: int| 0 <= k < i ==> (#[trigger] out@[k])@ == rows@[k]@,
        decreases rows.len() - i,
    {
        out.push(&rows[i]);
        i += 1;
    }
    assert(cloud_ref_views(out@) =~= first_rows(cloud_views(rows@), CLOUD_ROWS_SHOWN as nat));
    out
}

/// The local rows that a comparison shows: of the devices that have a
/// street price, the first eight of the ranking.
pub fn shown_local_rows(rows: &[LocalRow]) -> (r: Vec<&LocalRow>)
    ensures
        local_ref_views(r@) == first_priced(local_views(rows@), LOCAL_ROWS_SHOWN as nat),
{
    let ghost all = local_views(rows@);
    let mut out: Vec<&LocalRow> = Vec::new();
    let mut i: usize = 0;
    assert(all.take(0) =~= Seq::<LocalRowView>::empty());
    assert(local_ref_views(out@) =~= Seq::<LocalRowView>::empty());
    while i < rows.len()
        invariant
            i <= rows.len(),
            all == local_views(rows@),
            local_ref_views(out@) == first_priced(all.take(i as int), LOCAL_ROWS_SHOWN as nat),
        decreases rows.len() - i,
    {
        proof {
            assert(all.take(i + 1).drop_last() =~= all.take(i as int));
            assert(all.take(i + 1).last() == rows@[i as int]@);
        }
        if rows[i].street.is_some() && out.len() < LOCAL_ROWS_SHOWN {
            let ghost before = local_ref_views(out@);
            out.push(&rows[i]);
            assert(local_ref_views(out@) =~= before.push(rows@[i as int]@));
        }
        i += 1;
    }
    assert(all.take(all.len() as int) == all);
    out
}

} // verus!
