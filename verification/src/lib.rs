//! Read-only decoder and lookup engine for a compact binary IP-geolocation
//! database: a length-prefixed metadata header, a binary radix trie keyed by
//! address bits, and a trailing area of length-prefixed, tab-delimited UTF-8
//! records.

pub mod base_station;
pub mod bytes;
pub mod city;
pub mod district;
pub mod err;
pub mod idc;
pub mod ip;
pub mod json;
pub mod laws;
pub mod meta;
pub mod reader;
pub mod text;

pub use base_station::BaseStationInfo;
pub use city::CityInfo;
pub use district::DistrictInfo;
pub use err::Error;
pub use idc::IdcInfo;
pub use meta::Meta;
pub use reader::Reader;
