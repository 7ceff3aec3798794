use svckit::accept::Accept;
use svckit::locale::parse_locale;
use svckit::locale::Locale;
use svckit::locale::Locales;
use svckit::mime::Mime;
use svckit::mime::SubType;
use svckit::mime::SubType as S;
use svckit::mime::Type;

#[test]
fn accept_it_works() {
    assert!(true);
}

#[test]
fn mime_from() {
    let m = Mime::from("application/xml");
    assert_eq!(m.typ, Type::Application);
    assert_eq!(m.sub, SubType::Xml);
    assert!(m.matches_str("*/*"));
    assert!(m.matches_str("application/*"));
    assert!(m.matches_str("*/xml"));
    let any = Mime::any();
    assert!(any.matches_str("application/yaml"));
    assert!(any.matches_str("application/*"));
    assert!(any.matches_str("*/json"));
    assert!(any.matches_str("*/*"));
}

#[test]
fn type_validity() {
    let mut m = Mime::from("application/xml");
    assert!(m.valid());
    m = Mime::default();
    assert!(!m.valid());
    for s in [
        "audio/json",
        "image/zip",
        "text/ogg",
        "video/png",
        "audio/x-bzip",
    ] {
        assert!(!Mime::from(s).valid());
    }
    for s in [
        "*/*",
        "application/*",
        "audio/mp4",
        "application/ogg",
        "video/ogg",
        "audio/ogg",
        "*/x-bzip",
    ] {
        assert!(Mime::from(s).valid());
    }
}

#[test]
fn can() {
    for s in [S::Mpeg, S::Ogg, S::Mp4, S::Webm] {
        for t in [Type::Audio, Type::Video] {
            assert!(s.valid_type(t));
        }
    }
    for s in [S::Ogg, S::Mp4] {
        for t in [Type::Audio, Type::Video, Type::Application] {
            assert!(s.valid_type(t));
        }
    }
    assert!(S::Ogg.valid_type(Type::Audio));
}

#[test]
fn mime_emit_round_trip() {
    for s in ["application/json", "text/html", "image/webp", "audio/ogg", "*/*"] {
        let m = Mime::from(s);
        assert!(m.valid());
        let emitted = m.to_str();
        let again = Mime::from(emitted.as_str());
        assert!(again.matches(&m));
        assert_eq!(again.typ, m.typ);
        assert_eq!(again.sub, m.sub);
    }
}

#[test]
fn multi_value() {
    // Weights are thousandths of the header's q-values.
    let value = "text/html, application/xhtml+xml, application/xml;q=0.9, image/webp, */*;q=0.8";
    let values = Accept::from(value).0;
    assert_eq!(values.len(), 5);
    assert_eq!(values[0].mime.typ, Type::Text);
    assert_eq!(values[0].mime.sub, SubType::Html);
    assert_eq!(values[0].q, 1000);
    assert_eq!(values[1].mime.typ, Type::Application);
    assert_eq!(values[1].mime.sub, SubType::Xhtml);
    assert_eq!(values[1].q, 1000);
    assert_eq!(values[2].mime.typ, Type::Image);
    assert_eq!(values[2].mime.sub, SubType::Webp);
    assert_eq!(values[2].q, 1000);
    assert_eq!(values[3].mime.typ, Type::Application);
    assert_eq!(values[3].mime.sub, SubType::Xml);
    assert_eq!(values[3].q, 900);
    assert_eq!(values[4].mime.typ, Type::Any);
    assert_eq!(values[4].mime.sub, SubType::Any);
    assert_eq!(values[4].q, 800);
}

#[test]
fn accept_sorted_non_increasing() {
    let a = Accept::from("a/b;q=0.1, text/html;q=0.5, application/json, image/png;q=0.999");
    let mut prev = u32::MAX;
    for i in 0..a.len() {
        let item = a.get(i);
        assert!(item.q <= prev);
        prev = item.q;
    }
}

#[test]
fn accept_has() {
    let a = Accept::from("application/json;q=0.5, text/plain");
    assert!(a.has(Mime::from("application/json")));
    assert!(a.has(Mime::from("text/plain")));
    assert!(!a.has(Mime::from("text/html")));
    assert!(a.has(Mime::any()));
}

#[test]
fn accept_drops_unknown() {
    let a = Accept::from("no-such/thing, text/html");
    assert_eq!(a.len(), 1);
    assert_eq!(a.get(0).mime.sub, SubType::Html);
}

#[test]
fn accept_bad_q_defaults() {
    let a = Accept::from("text/html;q=abc");
    assert_eq!(a.len(), 1);
    assert_eq!(a.get(0).q, 1000);
}

#[test]
fn test_parse_locale() {
    let mut l = parse_locale("en-US");
    assert_eq!(l.name, "en");
    assert_eq!(l.region, "US");
    assert_eq!(l.q, 1000);

    l = parse_locale("en-GB; q=0.5");
    assert_eq!(l.name, "en");
    assert_eq!(l.region, "GB");
    assert_eq!(l.q, 500);

    l = parse_locale("en-GB ;q=0.8");
    assert_eq!(l.name, "en");
    assert_eq!(l.region, "GB");
    assert_eq!(l.q, 800);

    l = parse_locale("en-GB-1998;q=0.7");
    assert_eq!(l.name, "en");
    assert_eq!(l.region, "GB-1998");
    assert_eq!(l.q, 700);

    l = parse_locale("ja");
    assert_eq!(l.name, "ja");
    assert_eq!(l.region, "");
    assert_eq!(l.q, 1000);
}

#[test]
fn test_locale_full_name() {
    let l = parse_locale("zh-CN");
    assert_eq!("zh", l.name);
    assert_eq!("CN", l.region);
    assert!(l.has_region());
    assert_eq!("zh-CN", l.full_name());
    let l = parse_locale("en");
    assert_eq!("en", l.full_name());
}

#[test]
fn locales_sorted_by_weight() {
    let locs = Locales::from_header("en-GB; q=0.3, en-US ; q=0.9, en ;q=0.4");
    assert_eq!(locs.len(), 3);
    let a = locs.get(0);
    assert_eq!(a.name, "en");
    assert_eq!(a.region, "US");
    assert_eq!(a.q, 900);
    let b = locs.get(1);
    assert_eq!(b.name, "en");
    assert_eq!(b.region, "");
    assert_eq!(b.q, 400);
    let c = locs.get(2);
    assert_eq!(c.name, "en");
    assert_eq!(c.region, "GB");
    assert_eq!(c.q, 300);
}

#[test]
fn locales_from_request_rules() {
    let lang = String::from("fr");
    let header = String::from("de, en;q=0.5");
    let with_lang = Locales::from_request(Some(&lang), Some(&header));
    assert_eq!(with_lang.len(), 1);
    assert_eq!(with_lang.get(0).name, "fr");
    assert_eq!(with_lang.get(0).q, 1000);

    let with_header = Locales::from_request(None, Some(&header));
    assert_eq!(with_header.len(), 2);
    assert_eq!(with_header.get(0).name, "de");

    let neither = Locales::from_request(None, None);
    assert_eq!(neither.len(), 1);
    assert_eq!(neither.get(0).name, "en");
}

#[test]
fn locale_to_string() {
    assert_eq!(parse_locale("en-US;q=0.9").to_string(), "en-US;q=0.9");
    assert_eq!(parse_locale("ja").to_string(), "ja;q=1");
    assert_eq!(parse_locale("de;q=0.25").to_string(), "de;q=0.25");
    assert_eq!(parse_locale("fr;q=0.500").to_string(), "fr;q=0.5");
}

#[test]
fn locale_struct_shape() {
    let l = Locale {
        name: String::from("pt"),
        region: String::from("BR"),
        q: 250,
    };
    assert_eq!(l.full_name(), "pt-BR");
}
