//! Country resolution: translates a textual IP literal into a country
//! identification, backed by an immutable geolocation database loaded once
//! at startup.
//!
//! The database handle is read-only after load and lookups take a shared
//! reference, so concurrent callers need no lock at all.

use vstd::prelude::*;

use crate::ip::parse_ipv4;
use crate::ip::ipv4_num;
use crate::ip::valid_ipv4;

verus! {

/// The result of one lookup: a long country name and a short country code,
/// both absent when the address is unmapped or the literal is invalid.
#[derive(Clone, Debug)]
pub struct CountryRecord {
    pub long_name: Option<String>,
    pub short_name: Option<String>,
}

/// A country as the database reports it: both names together.
#[derive(Clone, Debug)]
pub struct CountryPair {
    pub long_name: String,
    pub short_name: String,
}

/// What one database lookup returned: a country, if the address range is
/// mapped to one, and a city, if the database edition carries cities.
#[derive(Clone, Debug)]
pub struct GeoRecord {
    pub country: Option<CountryPair>,
    pub city: Option<String>,
}

/// A parsed IP literal in numeric form, network byte order.
#[derive(Clone, Copy, Debug, PartialEq, Eq, Structural)]
pub enum ParsedIp {
    V4(u32),
    V6(u128),
}

/// The loaded geolocation database; opaque here.
/// Relies on ip2location::DB: a read-only, memory-mapped BIN database.
#[verifier::external_type_specification]
#[verifier::external_body]
pub struct ExDb(ip2location::DB);

/// A numeric IP address as the lookup expects it; opaque here.
/// Relies on core::net::IpAddr being a plain value type.
#[verifier::external_type_specification]
#[verifier::external_body]
pub struct ExIpAddr(core::net::IpAddr);

/// What the standard IPv6 parser accepts and returns; it depends on the
/// characters of the literal alone.
pub uninterp spec fn ipv6_of(s: Seq<char>) -> Option<u128>;

/// Relies on core::net::Ipv6Addr's `FromStr`: parses the textual IPv6
/// forms, a function of the literal's characters alone; a failed parse
/// becomes `None`.
#[verifier::external_body]
fn parse_ipv6(s: &str) -> (r: Option<u128>)
    ensures
        r == ipv6_of(s@),
{
    match s.parse::<core::net::Ipv6Addr>() {
        Ok(a) => Some(u128::from(a)),
        Err(_) => None,
    }
}

/// Relies on core::net::Ipv4Addr::from(u32): the address with the given
/// 32-bit value in network order.
#[verifier::external_body]
fn ip_from_v4(a: u32) -> (r: core::net::IpAddr) {
    core::net::IpAddr::V4(core::net::Ipv4Addr::from(a))
}

/// Relies on core::net::Ipv6Addr::from(u128): the address with the given
/// 128-bit value in network order.
#[verifier::external_body]
fn ip_from_v6(a: u128) -> (r: core::net::IpAddr) {
    core::net::IpAddr::V6(core::net::Ipv6Addr::from(a))
}

/// Relies on ip2location::DB::from_file: memory-maps and validates the
/// database file; any load error becomes `None`.
#[verifier::external_body]
fn db_from_file(path: &str) -> (r: Option<ip2location::DB>) {
    match ip2location::DB::from_file(path) {
        Ok(db) => Some(db),
        Err(_) => None,
    }
}

/// Relies on ip2location::DB::ip_lookup: reads the loaded, immutable
/// database through a shared reference; the matched record's country and
/// city strings are copied out, a proxy-database record or a lookup error
/// becomes `None`.
#[verifier::external_body]
fn db_lookup(db: &ip2location::DB, ip: core::net::IpAddr) -> (r: Option<GeoRecord>) {
    match db.ip_lookup(ip) {
        Ok(ip2location::Record::LocationDb(rec)) => Some(GeoRecord {
            country: match rec.country {
                Some(c) => Some(CountryPair {
                    long_name: c.long_name.into_owned(),
                    short_name: c.short_name.into_owned(),
                }),
                None => None,
            },
            city: match rec.city { Some(c) => Some(c.into_owned()), None => None },
        }),
        Ok(ip2location::Record::ProxyDb(_)) => None,
        Err(_) => None,
    }
}

/// How a literal is parsed: IPv4 dotted-quad first, the IPv6 forms
/// otherwise.
pub open spec fn spec_parse_ip(s: Seq<char>) -> Option<ParsedIp> {
    if valid_ipv4(s) {
        Some(ParsedIp::V4(ipv4_num(s) as u32))
    } else {
        match ipv6_of(s) {
            Some(n) => Some(ParsedIp::V6(n)),
            None => None,
        }
    }
}

/// A syntactically valid IP literal: one that parses.
pub open spec fn valid_ip_literal(s: Seq<char>) -> bool {
    spec_parse_ip(s) is Some
}

/// Parses an IP literal, IPv4 or IPv6.
pub fn parse_ip(s: &str) -> (r: Option<ParsedIp>)
    ensures
        r == spec_parse_ip(s@),
{
    match parse_ipv4(s) {
        Some(v) => Some(ParsedIp::V4(v)),
        None => match parse_ipv6(s) {
            Some(n) => Some(ParsedIp::V6(n)),
            None => None,
        },
    }
}

/// The country record a lookup outcome stands for: both fields from the
/// matched country, both absent on a miss.
pub open spec fn spec_record_of(rec: Option<GeoRecord>) -> CountryRecord {
    match rec {
        Some(g) => match g.country {
            Some(p) => CountryRecord {
                long_name: Some(p.long_name),
                short_name: Some(p.short_name),
            },
            None => CountryRecord { long_name: None, short_name: None },
        },
        None => CountryRecord { long_name: None, short_name: None },
    }
}

/// The long country name a lookup outcome yields, with the documented
/// default "Unknown" when there is none.
pub open spec fn spec_long_name_of(rec: Option<GeoRecord>) -> Seq<char> {
    match rec {
        Some(g) => match g.country {
            Some(p) => p.long_name@,
            None => "Unknown"@,
        },
        None => "Unknown"@,
    }
}

/// The short country code a lookup outcome yields, with the documented
/// default "US" when there is none.
pub open spec fn spec_short_name_of(rec: Option<GeoRecord>) -> Seq<char> {
    match rec {
        Some(g) => match g.country {
            Some(p) => p.short_name@,
            None => "US"@,
        },
        None => "US"@,
    }
}

/// The city a lookup outcome yields, with the documented default
/// "Unknown" when there is none.
pub open spec fn spec_city_of(rec: Option<GeoRecord>) -> Seq<char> {
    match rec {
        Some(g) => match g.city {
            Some(c) => c@,
            None => "Unknown"@,
        },
        None => "Unknown"@,
    }
}

/// Turns a lookup outcome into the country record it stands for.
pub fn record_of(rec: &Option<GeoRecord>) -> (r: CountryRecord)
    ensures
        r == spec_record_of(*rec),
{
    match rec {
        Some(g) => match &g.country {
            Some(p) => CountryRecord {
                long_name: Some(p.long_name.clone()),
                short_name: Some(p.short_name.clone()),
            },
            None => CountryRecord { long_name: None, short_name: None },
        },
        None => CountryRecord { long_name: None, short_name: None },
    }
}

/// The long country name of a lookup outcome, or "Unknown".
pub fn long_name_of(rec: &Option<GeoRecord>) -> (r: String)
    ensures
        r@ == spec_long_name_of(*rec),
{
    match rec {
        Some(g) => match &g.country {
            Some(p) => p.long_name.clone(),
            None => "Unknown".to_owned(),
        },
        None => "Unknown".to_owned(),
    }
}

/// The short country code of a lookup outcome, or "US".
pub fn short_name_of(rec: &Option<GeoRecord>) -> (r: String)
    ensures
        r@ == spec_short_name_of(*rec),
{
    match rec {
        Some(g) => match &g.country {
            Some(p) => p.short_name.clone(),
            None => "US".to_owned(),
        },
        None => "US".to_owned(),
    }
}

/// The city of a lookup outcome, or "Unknown".
pub fn city_of(rec: &Option<GeoRecord>) -> (r: String)
    ensures
        r@ == spec_city_of(*rec),
{
    match rec {
        Some(g) => match &g.city {
            Some(c) => c.clone(),
            None => "Unknown".to_owned(),
        },
        None => "Unknown".to_owned(),
    }
}

/// The short-code convenience view agrees with the full record: it returns
/// the record's short code whenever one is present, and the documented
/// default "US" exactly when the record has none.
pub proof fn lemma_short_name_consistent(rec: Option<GeoRecord>)
    ensures
        match spec_record_of(rec).short_name {
            Some(s) => spec_short_name_of(rec) == s@,
            None => spec_short_name_of(rec) == "US"@,
        },
{
}

/// The long-name convenience view agrees with the full record: it returns
/// the record's long name whenever one is present, and the documented
/// default "Unknown" exactly when the record has none.
pub proof fn lemma_long_name_consistent(rec: Option<GeoRecord>)
    ensures
        match spec_record_of(rec).long_name {
            Some(s) => spec_long_name_of(rec) == s@,
            None => spec_long_name_of(rec) == "Unknown"@,
        },
{
}

/// Resolves IP literals to countries against a loaded geolocation
/// database. Loaded once; lookups are concurrent, read-only and lock-free.
pub struct IpFinder {
    db: ip2location::DB,
}

impl IpFinder {
    /// Loads the geolocation database from the given file path. `None` is
    /// the fatal initialization failure: a missing or malformed database
    /// file, on which the process must not start serving.
    pub fn new(path: &str) -> (r: Option<IpFinder>) {
        match db_from_file(path) {
            Some(db) => Some(IpFinder { db }),
            None => None,
        }
    }

    /// Looks a parsed address up in the database.
    fn lookup_parsed(&self, a: ParsedIp) -> (r: Option<GeoRecord>) {
        match a {
            ParsedIp::V4(n) => db_lookup(&self.db, ip_from_v4(n)),
            ParsedIp::V6(n) => db_lookup(&self.db, ip_from_v6(n)),
        }
    }

    /// Resolves a textual IP literal to a country record. An invalid
    /// literal, or an address the database does not map, yields a record
    /// with both fields absent — never a fault.
    pub fn resolve(&self, ip: &str) -> (r: CountryRecord)
        ensures
            !valid_ip_literal(ip@) ==> r.long_name is None && r.short_name is None,
            r.long_name is Some <==> r.short_name is Some,
    {
        match parse_ip(ip) {
            Some(a) => {
                let rec = self.lookup_parsed(a);
                record_of(&rec)
            },
            None => CountryRecord { long_name: None, short_name: None },
        }
    }

    /// The long country name for a literal, with the documented default
    /// "Unknown" on an invalid literal or an unmapped address.
    pub fn find_country(&self, ip: &str) -> (r: Option<String>)
        ensures
            r is Some,
            match r {
                Some(s) => !valid_ip_literal(ip@) ==> s@ == "Unknown"@,
                None => false,
            },
    {
        match parse_ip(ip) {
            Some(a) => {
                let rec = self.lookup_parsed(a);
                Some(long_name_of(&rec))
            },
            None => Some("Unknown".to_owned()),
        }
    }

    /// The short country code for a literal, with the documented default
    /// "US" on an invalid literal or an unmapped address.
    pub fn find_country_short(&self, ip: &str) -> (r: Option<String>)
        ensures
            r is Some,
            match r {
                Some(s) => !valid_ip_literal(ip@) ==> s@ == "US"@,
                None => false,
            },
    {
        match parse_ip(ip) {
            Some(a) => {
                let rec = self.lookup_parsed(a);
                Some(short_name_of(&rec))
            },
            None => Some("US".to_owned()),
        }
    }

    /// The city for a literal, with the documented default "Unknown" on an
    /// invalid literal or an unmapped address.
    pub fn find_city(&self, ip: &str) -> (r: Option<String>)
        ensures
            r is Some,
            match r {
                Some(s) => !valid_ip_literal(ip@) ==> s@ == "Unknown"@,
                None => false,
            },
    {
        match parse_ip(ip) {
            Some(a) => {
                let rec = self.lookup_parsed(a);
                Some(city_of(&rec))
            },
            None => Some("Unknown".to_owned()),
        }
    }
}

} // verus!
