use geostore::CountryPair;
use geostore::GeoRecord;
use geostore::IpFinder;
use geostore::ParsedIp;
use geostore::city_of;
use geostore::long_name_of;
use geostore::parse_ip;
use geostore::parse_ipv4;
use geostore::record_of;
use geostore::short_name_of;

fn sample_hit() -> Option<GeoRecord> {
    Some(GeoRecord {
        country: Some(CountryPair {
            long_name: "United States of America".to_string(),
            short_name: "US".to_string(),
        }),
        city: Some("Mountain View".to_string()),
    })
}

fn unmapped_hit() -> Option<GeoRecord> {
    Some(GeoRecord { country: None, city: None })
}

#[test]
fn ipv4_literals_parse_to_network_order_values() {
    assert_eq!(parse_ipv4("8.8.8.8"), Some(0x08080808));
    assert_eq!(parse_ipv4("1.2.3.4"), Some(16909060));
    assert_eq!(parse_ipv4("0.0.0.0"), Some(0));
    assert_eq!(parse_ipv4("255.255.255.255"), Some(u32::MAX));
    assert_eq!(parse_ipv4("127.0.0.1"), Some(0x7f000001));
}

#[test]
fn bad_ipv4_literals_are_rejected() {
    assert_eq!(parse_ipv4(""), None);
    assert_eq!(parse_ipv4("1.2.3"), None);
    assert_eq!(parse_ipv4("1.2.3.4.5"), None);
    assert_eq!(parse_ipv4("256.1.1.1"), None);
    assert_eq!(parse_ipv4("01.2.3.4"), None); // leading zero
    assert_eq!(parse_ipv4("1..2.3"), None);
    assert_eq!(parse_ipv4("1.2.3.4."), None);
    assert_eq!(parse_ipv4(".1.2.3.4"), None);
    assert_eq!(parse_ipv4("a.b.c.d"), None);
    assert_eq!(parse_ipv4("1.2.3.1000"), None);
    assert_eq!(parse_ipv4("8 .8.8.8"), None);
}

#[test]
fn ip_literals_parse_v4_and_v6() {
    assert_eq!(parse_ip("8.8.8.8"), Some(ParsedIp::V4(0x08080808)));
    assert_eq!(parse_ip("::1"), Some(ParsedIp::V6(1)));
    assert_eq!(parse_ip("2001:db8::"), Some(ParsedIp::V6(0x2001_0db8 << 96)));
    assert_eq!(
        parse_ip("::ffff:1.2.3.4"),
        Some(ParsedIp::V6(0xffff_0102_0304))
    );
    assert_eq!(parse_ip("zzz"), None);
    assert_eq!(parse_ip("1.2.3.400"), None);
    assert_eq!(parse_ip(""), None);
}

#[test]
fn lookup_hit_maps_to_country_record() {
    let rec = record_of(&sample_hit());
    assert_eq!(rec.long_name.as_deref(), Some("United States of America"));
    assert_eq!(rec.short_name.as_deref(), Some("US"));
}

#[test]
fn lookup_miss_leaves_fields_absent() {
    let rec = record_of(&None);
    assert!(rec.long_name.is_none());
    assert!(rec.short_name.is_none());
    let rec = record_of(&unmapped_hit());
    assert!(rec.long_name.is_none());
    assert!(rec.short_name.is_none());
}

#[test]
fn defaults_apply_when_lookup_yields_nothing() {
    assert_eq!(long_name_of(&None).as_str(), "Unknown");
    assert_eq!(short_name_of(&None).as_str(), "US");
    assert_eq!(city_of(&None).as_str(), "Unknown");
    assert_eq!(long_name_of(&unmapped_hit()).as_str(), "Unknown");
    assert_eq!(short_name_of(&unmapped_hit()).as_str(), "US");
    assert_eq!(city_of(&unmapped_hit()).as_str(), "Unknown");
}

#[test]
fn lookup_values_pass_through() {
    assert_eq!(long_name_of(&sample_hit()).as_str(), "United States of America");
    assert_eq!(short_name_of(&sample_hit()).as_str(), "US");
    assert_eq!(city_of(&sample_hit()).as_str(), "Mountain View");
}

#[test]
fn missing_database_file_fails_initialization() {
    assert!(IpFinder::new("no-such-database.BIN").is_none());
}
