use filehost::errors::ServiceError;
use filehost::files::FileStore;
use filehost::identity::{resolve_identity, strip_bearer, user_from_config, Config, UserConfig};
use filehost::media::{extension_for, kind_of, parse_media_type, MediaType, UploadKind};
use filehost::names::generate_name;
use filehost::service::{build_filename, deletion_url, storage_path};
use filehost::store::RecordStore;
use filehost::text::{i16_dec_string, u32_dec_string};

fn user(name: &str, id: i16, token: &str, urls: &[&str]) -> UserConfig {
    UserConfig {
        name: name.to_string(),
        id,
        token: token.to_string(),
        response_urls: urls.iter().map(|u| u.to_string()).collect(),
    }
}

#[test]
fn parse_splits_top_and_sub() {
    let mt = parse_media_type("image/png").expect("should parse");
    assert_eq!(mt.top, "image");
    assert_eq!(mt.sub, "png");
}

#[test]
fn parse_discards_parameters() {
    let mt = parse_media_type("text/html; charset=utf-8").expect("should parse");
    assert_eq!(mt.top, "text");
    assert_eq!(mt.sub, "html");
}

#[test]
fn parse_rejects_malformed_types() {
    assert!(parse_media_type("png").is_none());
    assert!(parse_media_type("/png").is_none());
    assert!(parse_media_type("image/").is_none());
    assert!(parse_media_type("").is_none());
    assert!(parse_media_type("image/;charset").is_none());
}

#[test]
fn kind_follows_top_level_type() {
    let image = MediaType { top: "image".to_string(), sub: "png".to_string() };
    let audio = MediaType { top: "audio".to_string(), sub: "flac".to_string() };
    let other = MediaType { top: "application".to_string(), sub: "pdf".to_string() };
    assert_eq!(kind_of(&image), UploadKind::Image);
    assert_eq!(kind_of(&audio), UploadKind::Audio);
    assert_eq!(kind_of(&other), UploadKind::Generic);
}

#[test]
fn audio_mp4_resolves_to_m4a() {
    let mt = MediaType { top: "audio".to_string(), sub: "mp4".to_string() };
    assert_eq!(extension_for(&mt), "m4a");
}

#[test]
fn unknown_type_resolves_to_unknown() {
    let mt = MediaType { top: "application".to_string(), sub: "x-nonesuch".to_string() };
    assert_eq!(extension_for(&mt), "unknown");
}

#[test]
fn registered_extensions_resolve() {
    let png = MediaType { top: "image".to_string(), sub: "png".to_string() };
    assert_eq!(extension_for(&png), "png");
    let video = MediaType { top: "video".to_string(), sub: "mp4".to_string() };
    assert_eq!(extension_for(&video), "mp4");
}

#[test]
fn generated_names_are_alphanumeric_and_sized() {
    let n = generate_name();
    assert_eq!(n.chars().count(), 20);
    assert!(n.chars().all(|c| c.is_ascii_alphanumeric()));
}

#[test]
fn generated_names_differ_across_draws() {
    let a = generate_name();
    let b = generate_name();
    assert_ne!(a, b);
}

#[test]
fn strip_bearer_removes_one_prefix() {
    assert_eq!(strip_bearer("Bearer abc"), "abc");
    assert_eq!(strip_bearer("abc"), "abc");
    assert_eq!(strip_bearer("Bearer "), "");
    assert_eq!(strip_bearer("Bearer Bearer x"), "Bearer x");
}

#[test]
fn resolver_finds_the_token_owner() {
    let config = Config {
        users: vec![
            user("ana", 1, "SECRET-REDACTED", &["https://a.example/"]),
            user("bo", 2, "other-token", &["https://b.example/"]),
        ],
    };
    let header = "Bearer other-token".to_string();
    let u = resolve_identity(&config, Some(&header)).expect("valid token must resolve");
    assert_eq!(u.id, 2);
    assert_eq!(u.name, "bo");
    assert_eq!(u.save_base_path, "/etc/uploaded/bo");
}

#[test]
fn resolver_rejects_unknown_tokens() {
    let config = Config { users: vec![user("ana", 1, "tok-a", &["https://a.example/"])] };
    let header = "Bearer nope".to_string();
    match resolve_identity(&config, Some(&header)) {
        Err(ServiceError::Unauthenticated) => {},
        _ => panic!("unknown token must be rejected"),
    }
}

#[test]
fn resolver_rejects_missing_header() {
    let config = Config { users: vec![user("ana", 1, "tok-a", &["https://a.example/"])] };
    match resolve_identity(&config, None) {
        Err(ServiceError::Unauthenticated) => {},
        _ => panic!("missing header must be rejected"),
    }
}

#[test]
fn validate_accepts_distinct_users() {
    let config = Config {
        users: vec![
            user("ana", 1, "tok-a", &["https://a.example/"]),
            user("bo", 2, "tok-b", &["https://b.example/"]),
        ],
    };
    assert!(config.validate());
}

#[test]
fn validate_rejects_duplicate_ids_tokens_and_empty_pools() {
    let dup_id = Config {
        users: vec![user("ana", 1, "tok-a", &["https://a.example/"]), user("bo", 1, "tok-b", &[
            "https://b.example/",
        ])],
    };
    assert!(!dup_id.validate());
    let dup_token = Config {
        users: vec![user("ana", 1, "tok", &["https://a.example/"]), user("bo", 2, "tok", &[
            "https://b.example/",
        ])],
    };
    assert!(!dup_token.validate());
    let empty_pool = Config { users: vec![user("ana", 1, "tok-a", &[])] };
    assert!(!empty_pool.validate());
}

#[test]
fn user_from_config_derives_storage_root() {
    let c = user("carol", 9, "tok", &["https://c.example/"]);
    let u = user_from_config(&c);
    assert_eq!(u.save_base_path, "/etc/uploaded/carol");
    assert_eq!(u.id, 9);
    assert_eq!(u.token, "tok");
}

#[test]
fn decimal_renderings_are_exact() {
    assert_eq!(u32_dec_string(0), "0");
    assert_eq!(u32_dec_string(12345), "12345");
    assert_eq!(i16_dec_string(-7), "-7");
    assert_eq!(i16_dec_string(i16::MIN), "-32768");
    assert_eq!(i16_dec_string(204), "204");
}

#[test]
fn url_and_path_builders_are_exact() {
    assert_eq!(
        deletion_url(&"abcXYZ".to_string(), 7),
        "https://upload.umbra-is.gay/delete/abcXYZ?user_id=7"
    );
    assert_eq!(build_filename(&"stem".to_string(), &"png".to_string()), "stem.png");
    let root = "/etc/uploaded/ana".to_string();
    let f = "stem.png".to_string();
    assert_eq!(storage_path(&root, UploadKind::Image, &f), "/etc/uploaded/ana/images/stem.png");
    assert_eq!(storage_path(&root, UploadKind::Audio, &f), "/etc/uploaded/ana/audio/stem.png");
    assert_eq!(storage_path(&root, UploadKind::Generic, &f), "/etc/uploaded/ana/stem.png");
}

#[test]
fn store_insert_then_remove_returns_filename() {
    let mut store = RecordStore::new();
    store
        .insert(3, "f.png".to_string(), "ticket-1".to_string(), None, None)
        .expect("fresh insert succeeds");
    let f = store
        .remove_by_ticket_and_owner(&"ticket-1".to_string(), 3)
        .expect("matching removal succeeds");
    assert_eq!(f, "f.png");
}

#[test]
fn store_remove_twice_succeeds_once() {
    let mut store = RecordStore::new();
    store.insert(3, "f.png".to_string(), "t".to_string(), None, None).unwrap();
    assert!(store.remove_by_ticket_and_owner(&"t".to_string(), 3).is_ok());
    match store.remove_by_ticket_and_owner(&"t".to_string(), 3) {
        Err(ServiceError::NotFound) => {},
        _ => panic!("second removal must miss"),
    }
}

#[test]
fn store_wrong_owner_misses_and_keeps_row() {
    let mut store = RecordStore::new();
    store.insert(3, "f.png".to_string(), "t".to_string(), None, None).unwrap();
    match store.remove_by_ticket_and_owner(&"t".to_string(), 4) {
        Err(ServiceError::NotFound) => {},
        _ => panic!("wrong owner must miss"),
    }
    assert_eq!(store.rows.len(), 1);
    assert!(store.remove_by_ticket_and_owner(&"t".to_string(), 3).is_ok());
}

#[test]
fn store_refuses_duplicate_ticket() {
    let mut store = RecordStore::new();
    store.insert(3, "a.png".to_string(), "t".to_string(), None, None).unwrap();
    match store.insert(4, "b.png".to_string(), "t".to_string(), None, None) {
        Err(ServiceError::StorageUnavailable) => {},
        _ => panic!("duplicate ticket must be refused"),
    }
    assert_eq!(store.rows.len(), 1);
}

#[test]
fn file_store_add_remove_contains() {
    let mut fs = FileStore::new();
    let p = "/etc/uploaded/ana/images/x.png".to_string();
    assert!(!fs.contains(&p));
    fs.add(p.clone());
    assert!(fs.contains(&p));
    fs.add(p.clone());
    assert_eq!(fs.paths.len(), 1);
    assert!(fs.remove(&p));
    assert!(!fs.contains(&p));
    assert!(!fs.remove(&p));
}
