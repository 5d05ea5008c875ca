//! Fixed-schema view of a lookup result for data-center (IDC) databases.

use vstd::prelude::*;

use crate::base_station::field_or_empty;
use crate::text::spec_field;

verus! {

/// The IDC record fields, positionally assigned from a lookup result; fields
/// past the end of the result are empty.
pub struct IdcInfo {
    pub country_name: String,
    pub region_name: String,
    pub city_name: String,
    pub owner_domain: String,
    pub isp_domain: String,
    pub idc: String,
}

impl IdcInfo {
    /// Assigns the first six result fields positionally; a missing trailing
    /// field becomes the empty string, never an error.
    pub fn from_fields(v: &Vec<String>) -> (r: Self)
        ensures
            r.country_name@ == spec_field(v.deep_view(), 0),
            r.region_name@ == spec_field(v.deep_view(), 1),
            r.city_name@ == spec_field(v.deep_view(), 2),
            r.owner_domain@ == spec_field(v.deep_view(), 3),
            r.isp_domain@ == spec_field(v.deep_view(), 4),
            r.idc@ == spec_field(v.deep_view(), 5),
    {
        IdcInfo {
            country_name: field_or_empty(v, 0),
            region_name: field_or_empty(v, 1),
            city_name: field_or_empty(v, 2),
            owner_domain: field_or_empty(v, 3),
            isp_domain: field_or_empty(v, 4),
            idc: field_or_empty(v, 5),
        }
    }
}

} // verus!
