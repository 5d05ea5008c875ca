//! Fixed-schema view of a lookup result for district-level databases.

use vstd::prelude::*;

use crate::base_station::field_or_empty;
use crate::text::spec_field;

verus! {

/// The district-level record fields, positionally assigned from a lookup
/// result; fields past the end of the result are empty.
pub struct DistrictInfo {
    pub country_name: String,
    pub region_name: String,
    pub city_name: String,
    pub district_name: String,
    pub china_admin_code: String,
    pub covering_radius: String,
    pub latitude: String,
    pub longitude: String,
}

impl DistrictInfo {
    /// Assigns the first eight result fields positionally; a missing trailing
    /// field becomes the empty string, never an error.
    pub fn from_fields(v: &Vec<String>) -> (r: Self)
        ensures
            r.country_name@ == spec_field(v.deep_view(), 0),
            r.region_name@ == spec_field(v.deep_view(), 1),
            r.city_name@ == spec_field(v.deep_view(), 2),
            r.district_name@ == spec_field(v.deep_view(), 3),
            r.china_admin_code@ == spec_field(v.deep_view(), 4),
            r.covering_radius@ == spec_field(v.deep_view(), 5),
            r.latitude@ == spec_field(v.deep_view(), 6),
            r.longitude@ == spec_field(v.deep_view(), 7),
    {
        DistrictInfo {
            country_name: field_or_empty(v, 0),
            region_name: field_or_empty(v, 1),
            city_name: field_or_empty(v, 2),
            district_name: field_or_empty(v, 3),
            china_admin_code: field_or_empty(v, 4),
            covering_radius: field_or_empty(v, 5),
            latitude: field_or_empty(v, 6),
            longitude: field_or_empty(v, 7),
        }
    }
}

} // verus!
