use svckit::geo::get_i18n_name;
use svckit::geo::geo_error_of;
use svckit::geo::languages;
use svckit::geo::lookup;
use svckit::geo::db_order_swapped;
use svckit::geo::CityPart;
use svckit::geo::CityRecord;
use svckit::geo::CountryRecord;
use svckit::geo::DbFail;
use svckit::geo::GeoError;
use svckit::geo::NameTable;
use svckit::geo::SubdivisionRecord;
use svckit::ip::is_local;
use svckit::ip::is_public_ip;
use svckit::ip::parse_ip;
use svckit::ip::ClientIP;
use svckit::ip::IpAddr;
use svckit::locale::Locales;

fn finland_names() -> NameTable {
    NameTable(vec![
        (String::from("de"), String::from("Finnland")),
        (String::from("en"), String::from("Finland")),
        (String::from("es"), String::from("Finlandia")),
        (String::from("fr"), String::from("Finlande")),
        (String::from("ja"), String::from("フィンランド共和国")),
        (String::from("pt-BR"), String::from("Finlândia")),
        (String::from("ru"), String::from("Финляндия")),
        (String::from("zh-CN"), String::from("芬兰")),
    ])
}

#[test]
fn test_get_i18n_name() {
    let names = finland_names();
    let locales = Locales::from_header("en;q=0.1, zh-CN; q=0.8, ja; q=0.2");
    let result = get_i18n_name(Some(&names), "", &locales).unwrap();
    assert_eq!("芬兰", result.0);
    assert_eq!("zh-CN", result.1);
    let en = Locales::from_header("en");
    let result = get_i18n_name(Some(&names), "", &en).unwrap();
    assert_eq!("Finland", result.0);
    assert_eq!("en", result.1);
    let result = get_i18n_name(Some(&names), "ru", &en).unwrap();
    assert_eq!("Финляндия", result.0);
    assert_eq!("ru", result.1);
}

#[test]
fn i18n_name_errors() {
    let names = finland_names();
    let bad = Locales::from_header("xx, yy-ZZ");
    assert_eq!(get_i18n_name(Some(&names), "", &bad), Err(GeoError::BadLang));
    let en = Locales::from_header("en");
    assert_eq!(get_i18n_name(None, "", &en), Err(GeoError::Internal));
}

#[test]
fn test_is_local() {
    // ipv4
    assert!(!is_local(&parse_ip("11.0.0.1").unwrap()));
    assert!(is_local(&parse_ip("10.1.2.3").unwrap()));
    assert!(!is_local(&parse_ip("172.15.2.3").unwrap()));
    assert!(is_local(&parse_ip("172.16.2.3").unwrap()));
    assert!(is_local(&parse_ip("172.31.2.3").unwrap()));
    assert!(!is_local(&parse_ip("172.32.2.3").unwrap()));
    // ipv6
    assert!(is_local(
        &parse_ip("fdc8:bf8b:e62c:abcd:1111:2222:3333:4444").unwrap()
    ));
    assert!(is_public_ip(&parse_ip("2001:4860:4860::8888").unwrap()));
}

#[test]
fn more_locality() {
    for s in ["192.168.0.9", "127.0.0.1", "169.254.1.1", "255.255.255.255", "0.0.0.0"] {
        assert!(is_local(&parse_ip(s).unwrap()), "{s}");
    }
    for s in ["8.8.8.8", "192.169.0.1", "169.255.0.1"] {
        assert!(is_public_ip(&parse_ip(s).unwrap()), "{s}");
    }
    // multicast: global scope is public, other scopes local
    assert!(is_public_ip(&parse_ip("ff0e::1").unwrap()));
    assert!(is_local(&parse_ip("ff02::1").unwrap()));
    // loopback, unspecified, link local, site local, documentation
    for s in ["::1", "::", "fe80::1", "fec0::1", "2001:db8::1"] {
        assert!(is_local(&parse_ip(s).unwrap()), "{s}");
    }
}

#[test]
fn test_parse_ip() {
    let ipv4 = parse_ip("10.4.9.2").unwrap();
    let ipv6 = parse_ip("fe80::f26e:97f7:b38b:c890").unwrap();
    assert!(matches!(ipv4, IpAddr::V4(10, 4, 9, 2)));
    assert!(matches!(ipv6, IpAddr::V6(0xfe80, 0, 0, 0, 0xf26e, 0x97f7, 0xb38b, 0xc890)));
    assert_eq!(parse_ip("invalid-ip"), None);
    assert_eq!(parse_ip("1.2.3"), None);
    assert_eq!(parse_ip("1.2.3.256"), None);
    assert_eq!(parse_ip("01.2.3.4"), None);
    assert_eq!(
        parse_ip("1:2:3:4:5:6:7:8"),
        Some(IpAddr::V6(1, 2, 3, 4, 5, 6, 7, 8))
    );
    assert_eq!(parse_ip("1:2:3:4:5:6:7"), None);
    assert_eq!(parse_ip("1:2:3:4:5:6:7:8:9"), None);
    assert_eq!(parse_ip("1:::2"), None);
    assert_eq!(
        parse_ip("::ffff:1.2.3.4"),
        Some(IpAddr::V6(0, 0, 0, 0, 0, 0xffff, 0x0102, 0x0304))
    );
}

#[test]
fn test_client_ip() {
    let peer = parse_ip("127.0.0.1");
    let xff = vec![String::from("127.0.0.1, invalid-ip, 10.2.8.0, 11.3.100.201")];
    let result = ClientIP::from_request(peer, &Vec::new(), &xff);
    assert_eq!(result.unwrap().ip(), parse_ip("11.3.100.201").unwrap());
}

#[test]
fn client_ip_order() {
    // a public peer wins outright
    let peer = parse_ip("8.8.8.8");
    let cf = vec![String::from("9.9.9.9")];
    let r = ClientIP::from_request(peer, &cf, &Vec::new()).unwrap();
    assert_eq!(r.ip(), parse_ip("8.8.8.8").unwrap());
    // a local peer defers to cf-connecting-ip before x-forwarded-for
    let peer = parse_ip("10.0.0.1");
    let xff = vec![String::from("7.7.7.7")];
    let r = ClientIP::from_request(peer, &cf, &xff).unwrap();
    assert_eq!(r.ip(), parse_ip("9.9.9.9").unwrap());
    // with nothing public anywhere, the local peer is kept
    let r = ClientIP::from_request(peer, &Vec::new(), &Vec::new()).unwrap();
    assert_eq!(r.ip(), parse_ip("10.0.0.1").unwrap());
    // and with no peer at all, nothing
    assert!(ClientIP::from_request(None, &Vec::new(), &Vec::new()).is_none());
}

#[test]
fn lookup_assembles_response() {
    let record = CityRecord {
        country: Some(CountryRecord {
            iso_code: Some(String::from("FI")),
            names: Some(finland_names()),
        }),
        city: Some(CityPart {
            geoname_id: Some(632453),
            names: Some(NameTable(vec![(
                String::from("zh-CN"),
                String::from("赫尔辛基"),
            )])),
        }),
        subdivisions: Some(vec![
            SubdivisionRecord {
                iso_code: Some(String::from("18")),
                names: Some(NameTable(vec![(String::from("zh-CN"), String::from("新地区"))])),
            },
            SubdivisionRecord {
                iso_code: Some(String::from("19")),
                names: Some(NameTable(vec![(String::from("xx"), String::from("nope"))])),
            },
        ]),
    };
    let locales = Locales::from_header("en;q=0.1, zh-CN; q=0.8, ja; q=0.2");
    let r = lookup(&record, Some(String::from("Example Org")), &locales).unwrap();
    assert_eq!(r.locale, "zh-CN");
    assert_eq!(r.as_org.as_deref(), Some("Example Org"));
    let country = r.country.unwrap();
    assert_eq!(country.iso_code.as_deref(), Some("FI"));
    assert_eq!(country.name.as_deref(), Some("芬兰"));
    let city = r.city.unwrap();
    assert_eq!(city.name.as_deref(), Some("赫尔辛基"));
    assert_eq!(city.id, Some(632453));
    // the unresolvable subdivision is left out
    let subs = r.subdivisions.unwrap();
    assert_eq!(subs.len(), 1);
    assert_eq!(subs[0].name.as_deref(), Some("新地区"));
    assert_eq!(subs[0].iso_code.as_deref(), Some("18"));
}

#[test]
fn lookup_country_error_propagates() {
    let record = CityRecord {
        country: Some(CountryRecord {
            iso_code: None,
            names: Some(finland_names()),
        }),
        city: None,
        subdivisions: None,
    };
    let locales = Locales::from_header("xx");
    assert!(matches!(
        lookup(&record, None, &locales),
        Err(GeoError::BadLang)
    ));
    let no_names = CityRecord {
        country: Some(CountryRecord { iso_code: None, names: None }),
        city: None,
        subdivisions: None,
    };
    assert!(matches!(
        lookup(&no_names, None, &locales),
        Err(GeoError::Internal)
    ));
}

#[test]
fn languages_lists_country_keys() {
    let record = CityRecord {
        country: Some(CountryRecord {
            iso_code: Some(String::from("FI")),
            names: Some(finland_names()),
        }),
        city: None,
        subdivisions: None,
    };
    let langs = languages(&record).unwrap();
    assert_eq!(
        langs,
        vec!["de", "en", "es", "fr", "ja", "pt-BR", "ru", "zh-CN"]
    );
    let empty = CityRecord { country: None, city: None, subdivisions: None };
    assert_eq!(languages(&empty).unwrap_err(), GeoError::NotFound);
}

#[test]
fn error_mapping() {
    assert_eq!(geo_error_of(DbFail::AddressNotFound), GeoError::NotFound);
    assert_eq!(geo_error_of(DbFail::InvalidNetwork), GeoError::NotFound);
    assert_eq!(geo_error_of(DbFail::Other), GeoError::Internal);
    assert_eq!(GeoError::NotFound.status_code(), 404);
    assert_eq!(GeoError::BadLang.status_code(), 400);
    assert_eq!(GeoError::Internal.status_code(), 500);
    assert_eq!(GeoError::NotFound.message(), "ip address location not found");
    assert_eq!(GeoError::BadLang.message(), "invalid language code");
    assert_eq!(GeoError::Internal.message(), "internal database error");
    assert!(db_order_swapped("GeoLite2-ASN"));
    assert!(!db_order_swapped("GeoLite2-City"));
}
