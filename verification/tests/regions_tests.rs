use fleet_control::regions::{Africa, Asia, Australia, Europe, NorthAmerica, Region, SouthAmerica};
use fleet_control::models;
use fleet_control::strutil::{str_eq, u64_to_string};

fn all_known_regions() -> Vec<Region> {
    vec![
        Region::Asia(Asia::Tokyo),
        Region::Asia(Asia::Osaka),
        Region::Asia(Asia::Seoul),
        Region::Asia(Asia::Singapore),
        Region::Asia(Asia::Mumbai),
        Region::Asia(Asia::TelAviv),
        Region::Asia(Asia::Bangalore),
        Region::Asia(Asia::Delhi),
        Region::Australia(Australia::Sydney),
        Region::Australia(Australia::Melbourne),
        Region::Europe(Europe::Amsterdam),
        Region::Europe(Europe::London),
        Region::Europe(Europe::Frankfurt),
        Region::Europe(Europe::Paris),
        Region::Europe(Europe::Warsaw),
        Region::Europe(Europe::Madrid),
        Region::Europe(Europe::Stockholm),
        Region::NorthAmerica(NorthAmerica::NewJersey),
        Region::NorthAmerica(NorthAmerica::Chicago),
        Region::NorthAmerica(NorthAmerica::Dallas),
        Region::NorthAmerica(NorthAmerica::Seattle),
        Region::NorthAmerica(NorthAmerica::LosAngeles),
        Region::NorthAmerica(NorthAmerica::Atlanta),
        Region::NorthAmerica(NorthAmerica::SiliconValley),
        Region::NorthAmerica(NorthAmerica::Toronto),
        Region::NorthAmerica(NorthAmerica::Miami),
        Region::NorthAmerica(NorthAmerica::MexicoCity),
        Region::NorthAmerica(NorthAmerica::Honolulu),
        Region::SouthAmerica(SouthAmerica::SaoPaulo),
        Region::SouthAmerica(SouthAmerica::Santiago),
        Region::Africa(Africa::Johannesburg),
    ]
}

#[test]
fn every_known_region_round_trips_through_its_code() {
    for r in all_known_regions() {
        let code = r.code();
        assert_eq!(code.len(), 3);
        let back = Region::from_code(&code).unwrap();
        assert_eq!(back, r);
    }
}

#[test]
fn known_codes_round_trip_through_their_region() {
    for code in [
        "nrt", "itm", "icn", "sgp", "bom", "tlv", "blr", "del", "syd", "mel", "ams", "lhr",
        "fra", "cdg", "waw", "mad", "sto", "ewr", "ord", "dfw", "sea", "lax", "atl", "sjc",
        "yto", "mia", "mex", "hnl", "sao", "scl", "jnb",
    ] {
        let region = Region::from_code(code).unwrap();
        assert_ne!(region, Region::Unknown);
        assert_eq!(region.code(), code);
    }
}

#[test]
fn specific_codes() {
    assert_eq!(Region::Europe(Europe::Frankfurt).code(), "fra");
    assert_eq!(Region::NorthAmerica(NorthAmerica::NewJersey).code(), "ewr");
    assert_eq!(Region::from_code("fra").unwrap(), Region::Europe(Europe::Frankfurt));
}

#[test]
fn unknown_codes_are_refused() {
    assert!(Region::from_code("zzz").is_err());
    assert!(Region::from_code("").is_err());
    assert!(Region::from_code("frankfurt").is_err());
    // The literal word "unknown" maps to the Unknown variant.
    assert_eq!(Region::from_code("unknown").unwrap(), Region::Unknown);
    assert_eq!(Region::Unknown.code(), "Unknown");
}

#[test]
fn region_names_round_trip() {
    for r in all_known_regions() {
        let name = r.name();
        assert_eq!(Region::parse_name(name).unwrap(), r);
    }
    assert_eq!(Region::NorthAmerica(NorthAmerica::NewJersey).name(), "New Jersey");
    assert_eq!(Region::parse_name("Tel Aviv").unwrap(), Region::Asia(Asia::TelAviv));
    assert!(Region::parse_name("Atlantis").is_err());
    // The Unknown variant renders but has no parseable name.
    assert_eq!(Region::Unknown.name(), "Unknown");
    assert!(Region::parse_name("Unknown").is_err());
}

#[test]
fn canonical_tokens_round_trip() {
    for r in [models::Region::Frankfurt, models::Region::NewYork] {
        let token = r.token();
        assert_eq!(models::Region::parse_token(token).unwrap(), r);
    }
    assert!(models::Region::parse_token("Atlantis").is_err());
    assert_eq!(models::RegionParseError.message(), "could not parse region");
}

#[test]
fn decimal_rendering() {
    assert_eq!(u64_to_string(0), "0");
    assert_eq!(u64_to_string(42), "42");
    assert_eq!(u64_to_string(10_000), "10000");
    assert_eq!(u64_to_string(u64::MAX), "18446744073709551615");
}

#[test]
fn string_equality_helper() {
    assert!(str_eq("abc", "abc"));
    assert!(!str_eq("abc", "abd"));
    assert!(!str_eq("abc", "abcd"));
    assert!(str_eq("", ""));
}
