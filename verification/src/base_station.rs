//! Fixed-schema view of a lookup result for base-station databases.

use vstd::prelude::*;

use crate::text::spec_field;

verus! {

/// The base-station record fields, positionally assigned from a lookup
/// result; fields past the end of the result are empty.
pub struct BaseStationInfo {
    pub country_name: String,
    pub region_name: String,
    pub city_name: String,
    pub owner_domain: String,
    pub isp_domain: String,
    pub base_station: String,
}

impl BaseStationInfo {
    /// Assigns the first six result fields positionally; a missing trailing
    /// field becomes the empty string, never an error.
    pub fn from_fields(v: &Vec<String>) -> (r: Self)
        ensures
            r.country_name@ == spec_field(v.deep_view(), 0),
            r.region_name@ == spec_field(v.deep_view(), 1),
            r.city_name@ == spec_field(v.deep_view(), 2),
            r.owner_domain@ == spec_field(v.deep_view(), 3),
            r.isp_domain@ == spec_field(v.deep_view(), 4),
            r.base_station@ == spec_field(v.deep_view(), 5),
    {
        BaseStationInfo {
            country_name: field_or_empty(v, 0),
            region_name: field_or_empty(v, 1),
            city_name: field_or_empty(v, 2),
            owner_domain: field_or_empty(v, 3),
            isp_domain: field_or_empty(v, 4),
            base_station: field_or_empty(v, 5),
        }
    }
}

/// Field `k` of `v` as an owned string, or the empty string when `v` is too
/// short.
pub fn field_or_empty(v: &Vec<String>, k: usize) -> (r: String)
    ensures
        r@ == spec_field(v.deep_view(), k as int),
{
    if k < v.len() {
        v[k].clone()
    } else {
        String::new()
    }
}

} // verus!
