use rand::SeedableRng;
use rand_hc::Hc128Rng;
use svckit::link::new_key;
use svckit::link::CreateRequest;
use svckit::link::DEFAULT_EXPIRATION;
use svckit::link::Kv;
use svckit::link::Link;
use svckit::link::LinkError;
use svckit::link::Store;
use svckit::nanoid::calc_id_size;
use svckit::nanoid::gen_str_id;

#[test]
fn link_test() {}

#[test]
fn main_test() {}

#[test]
fn test_probs() {
    // targets as powers of ten: 1e-9, 1e-6, 1e-12
    assert_eq!(10, calc_id_size(10_000, 9));
    assert_eq!(7, calc_id_size(1_000, 6));
    assert_eq!(13, calc_id_size(100_000, 12));
    assert_eq!(3, calc_id_size(1, 9));
}

#[test]
fn id_size_grows() {
    let mut prev = 0;
    for n in [1u64, 10, 100, 10_000, 1_000_000, 100_000_000] {
        let c = calc_id_size(n, 9);
        assert!(c >= 3);
        assert!(c >= prev);
        prev = c;
    }
}

#[test]
fn test_gen_id() {
    let mut rng = Hc128Rng::seed_from_u64(11);
    assert_eq!("Qevg0z9ws_T", gen_str_id(11, &mut rng));
    assert_eq!("2M0CDE0c7jsHPy", gen_str_id(14, &mut rng));
    assert_eq!(
        "Qj-ZDcmtPwkANcXs8_dm6Rm9nPtJZ0DWlrKN4IHTXrUj_CXvUrGjIP16nga8FtwW",
        gen_str_id(64, &mut rng)
    );
}

#[test]
fn test_new_key() {
    assert_eq!(new_key("link", "abc"), "link:abc");
    assert_eq!(new_key("meta", "count"), "meta:count");
}

fn test_store() -> Store {
    Store::new(
        String::from("localhost"),
        Kv::new(),
        Hc128Rng::seed_from_u64(7),
    )
}

#[test]
fn create_get_del_round_trip() {
    let mut store = test_store();
    let req = CreateRequest {
        url: String::from("https://example.com"),
        expires: None,
        access_limit: None,
    };
    let id = store.create(&req).unwrap();
    assert!(id.len() >= 3);
    let link = store.get(&id).unwrap();
    assert_eq!(link.url, "https://example.com");
    assert!(link.accesses.is_none());
    store.del(&id).unwrap();
    assert_eq!(store.get(&id).unwrap_err(), LinkError::NotFound);
    assert_eq!(store.del(&id).unwrap_err(), LinkError::NotFound);
}

#[test]
fn create_rejects_bad_url() {
    let mut store = test_store();
    let req = CreateRequest {
        url: String::from("not a url"),
        expires: None,
        access_limit: None,
    };
    assert_eq!(store.create(&req).unwrap_err(), LinkError::BadRequest);
}

#[test]
fn create_rejects_self_link() {
    let mut store = test_store();
    let req = CreateRequest {
        url: String::from("https://localhost/some/path"),
        expires: None,
        access_limit: None,
    };
    assert_eq!(store.create(&req).unwrap_err(), LinkError::Conflict);
}

#[test]
fn create_stores_requested_ttl() {
    let mut store = test_store();
    let req = CreateRequest {
        url: String::from("https://example.com"),
        expires: None,
        access_limit: None,
    };
    store.create(&req).unwrap();
    assert_eq!(store.kv.entries[0].ttl, DEFAULT_EXPIRATION);
    assert_eq!(DEFAULT_EXPIRATION, 604_800);
    let req = CreateRequest {
        url: String::from("https://example.com/later"),
        expires: Some(90),
        access_limit: None,
    };
    store.create(&req).unwrap();
    assert_eq!(store.kv.entries[1].ttl, 90);
}

#[test]
fn create_stores_access_limit() {
    let mut store = test_store();
    let req = CreateRequest {
        url: String::from("https://example.org"),
        expires: Some(60),
        access_limit: Some(4),
    };
    let id = store.create(&req).unwrap();
    let link = store.get(&id).unwrap();
    assert_eq!(link.accesses, Some(4));
}

#[test]
fn list_returns_stored_links() {
    let mut store = test_store();
    for url in ["https://example.com/a", "https://example.com/b"] {
        let req = CreateRequest {
            url: String::from(url),
            expires: None,
            access_limit: None,
        };
        store.create(&req).unwrap();
    }
    let infos = store.list();
    assert_eq!(infos.len(), 2);
    for info in &infos {
        assert!(info.key.starts_with("link:"));
        assert!(info.link.url.starts_with("https://example.com/"));
        assert!(info.expires.is_none());
    }
}

#[test]
fn counter_moves_with_create_and_del() {
    let mut store = test_store();
    assert_eq!(store.kv.count, 0);
    let req = CreateRequest {
        url: String::from("https://example.net"),
        expires: None,
        access_limit: None,
    };
    let id = store.create(&req).unwrap();
    assert_eq!(store.kv.count, 1);
    store.del(&id).unwrap();
    assert_eq!(store.kv.count, 0);
}

#[test]
fn kv_set_nx_semantics() {
    let mut kv = Kv::new();
    let wrote = kv.set_nx_ex(
        String::from("link:x"),
        Link { url: String::from("https://a"), accesses: None },
        60,
    );
    assert!(wrote);
    let again = kv.set_nx_ex(
        String::from("link:x"),
        Link { url: String::from("https://b"), accesses: None },
        60,
    );
    assert!(!again);
    assert_eq!(kv.get("link:x").unwrap().url, "https://a");
    assert!(kv.del("link:x"));
    assert!(!kv.del("link:x"));
}

#[test]
fn link_error_surface() {
    assert_eq!(LinkError::BadRequest.status_code(), 400);
    assert_eq!(LinkError::Conflict.status_code(), 409);
    assert_eq!(LinkError::NotFound.status_code(), 404);
    assert_eq!(LinkError::Internal.status_code(), 500);
    assert_eq!(LinkError::Conflict.message(), "cannot self link");
}
