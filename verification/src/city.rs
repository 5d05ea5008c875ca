//! Fixed-schema view of a lookup result for city-level databases.

use vstd::prelude::*;

use crate::base_station::field_or_empty;
use crate::text::spec_field;

verus! {

/// The city-level record fields, positionally assigned from a lookup result;
/// fields past the end of the result are empty.
pub struct CityInfo {
    pub country_name: String,
    pub region_name: String,
    pub city_name: String,
    pub owner_domain: String,
    pub isp_domain: String,
    pub latitude: String,
    pub longitude: String,
    pub timezone: String,
    pub utc_offset: String,
    pub china_admin_code: String,
    pub idd_code: String,
    pub country_code: String,
    pub continent_code: String,
}

impl CityInfo {
    /// Assigns the first thirteen result fields positionally; a missing
    /// trailing field becomes the empty string, never an error.
    pub fn from_fields(v: &Vec<String>) -> (r: Self)
        ensures
            r.country_name@ == spec_field(v.deep_view(), 0),
            r.region_name@ == spec_field(v.deep_view(), 1),
            r.city_name@ == spec_field(v.deep_view(), 2),
            r.owner_domain@ == spec_field(v.deep_view(), 3),
            r.isp_domain@ == spec_field(v.deep_view(), 4),
            r.latitude@ == spec_field(v.deep_view(), 5),
            r.longitude@ == spec_field(v.deep_view(), 6),
            r.timezone@ == spec_field(v.deep_view(), 7),
            r.utc_offset@ == spec_field(v.deep_view(), 8),
            r.china_admin_code@ == spec_field(v.deep_view(), 9),
            r.idd_code@ == spec_field(v.deep_view(), 10),
            r.country_code@ == spec_field(v.deep_view(), 11),
            r.continent_code@ == spec_field(v.deep_view(), 12),
    {
        CityInfo {
            country_name: field_or_empty(v, 0),
            region_name: field_or_empty(v, 1),
            city_name: field_or_empty(v, 2),
            owner_domain: field_or_empty(v, 3),
            isp_domain: field_or_empty(v, 4),
            latitude: field_or_empty(v, 5),
            longitude: field_or_empty(v, 6),
            timezone: field_or_empty(v, 7),
            utc_offset: field_or_empty(v, 8),
            china_admin_code: field_or_empty(v, 9),
            idd_code: field_or_empty(v, 10),
            country_code: field_or_empty(v, 11),
            continent_code: field_or_empty(v, 12),
        }
    }
}

} // verus!
