//! Geo-aware variant storage: resolves an IP address to a country code and
//! keeps country-qualified variants of named resources, with a deterministic
//! fallback to the default variant.

use vstd::prelude::*;

mod geo;
mod ip;
mod store;

pub use geo::CountryPair;
pub use geo::CountryRecord;
pub use geo::GeoRecord;
pub use geo::IpFinder;
pub use geo::ParsedIp;
pub use geo::city_of;
pub use geo::long_name_of;
pub use geo::parse_ip;
pub use geo::record_of;
pub use geo::short_name_of;
pub use ip::parse_ipv4;
pub use store::ImageStore;
pub use store::StoreError;
pub use store::check_name;
pub use store::check_qualifier;
pub use store::make_key;

verus! {

/// The surrounding service; construction only, the transport loop lives
/// outside the library.
pub struct App {}

impl App {
    pub fn new() -> (r: App) {
        App {}
    }
}

} // verus!
