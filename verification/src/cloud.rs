//! Rentable cloud configurations.
use vstd::prelude::*;

verus! {

/// A cloud rental offering: a number of accelerators of one kind at an
/// hourly price.
#[derive(Debug)]
pub struct CloudOffering {
    /// Display name.
    pub name: String,
    /// Name of the vendor.
    pub provider: String,
    /// Key of the accelerator in the device catalog. The reference is not
    /// checked when the catalog is loaded.
    pub gpu: String,
    /// Number of accelerators.
    pub gpu_count: u32,
    /// On-demand price of one accelerator for one hour, in millionths of a
    /// dollar.
    pub price_hr: u64,
    /// Spot price of one accelerator for one hour, where there is one.
    pub spot_hr: Option<u64>,
    /// Interconnect between the accelerators, such as "nvlink" or "pcie".
    pub interconnect: Option<String>,
    /// Regions in which the offering can be had.
    pub region: Vec<String>,
    /// Where the offering is listed.
    pub url: String,
}

/// What a [`CloudOffering`] states.
pub struct CloudOfferingView {
    pub name: Seq<char>,
    pub provider: Seq<char>,
    pub gpu: Seq<char>,
    pub gpu_count: u32,
    pub price_hr: u64,
    pub spot_hr: Option<u64>,
    pub interconnect: Option<Seq<char>>,
    pub region: Seq<Seq<char>>,
    pub url: Seq<char>,
}

impl View for CloudOffering {
    type V = CloudOfferingView;

    open spec fn view(&self) -> CloudOfferingView {
        CloudOfferingView {
            name: self.name@,
            provider: self.provider@,
            gpu: self.gpu@,
            gpu_count: self.gpu_count,
            price_hr: self.price_hr,
            spot_hr: self.spot_hr,
            interconnect: match self.interconnect {
                Some(i) => Some(i@),
                None => None,
            },
            region: Seq::new(self.region@.len(), |i: int| self.region@[i]@),
            url: self.url@,
        }
    }
}

impl Clone for CloudOffering {
    fn clone(&self) -> (r: Self)
        ensures
            r@ == self@,
    {
        let mut region: Vec<String> = Vec::new();
        let mut i: usize = 0;
        while i < self.region.len()
            invariant
                i <= self.region.len(),
                region@.len() == i,
                forall|k: int| 0 <= k < i ==> (#[trigger] region@[k])@ == self.region@[k]@,
            decreases self.region.len() - i,
        {
            region.push(self.region[i].clone());
            i += 1;
        }
        let r = CloudOffering {
            name: self.name.clone(),
            provider: self.provider.clone(),
            gpu: self.gpu.clone(),
            gpu_count: self.gpu_count,
            price_hr: self.price_hr,
            spot_hr: self.spot_hr,
            interconnect: match &self.interconnect {
                Some(i) => Some(i.clone()),
                None => None,
            },
            region,
            url: self.url.clone(),
        };
        assert(r@.region =~= self@.region);
        r
    }
}

} // verus!
