use filehost::errors::ServiceError;
use filehost::identity::{Config, UserConfig};
use filehost::service::{Service, UploadResponse};

fn one_user_config() -> Config {
    Config {
        users: vec![UserConfig {
            name: "ana".to_string(),
            id: 5,
            token: "tok-ana".to_string(),
            response_urls: vec!["https://img.example/".to_string()],
        }],
    }
}

fn ticket_of(resp: &UploadResponse) -> String {
    let rest = resp
        .delete_url
        .strip_prefix("https://upload.umbra-is.gay/delete/")
        .expect("deletion URL starts with the fixed base");
    let (ticket, query) = rest.split_once('?').expect("deletion URL carries a query");
    assert!(query.starts_with("user_id="));
    ticket.to_string()
}

fn upload_png(service: &mut Service, size: u64) -> UploadResponse {
    let header = "Bearer tok-ana".to_string();
    let content_type = "image/png".to_string();
    service
        .handle_upload(Some(&header), Some(&content_type), size, None, None)
        .expect("a valid upload succeeds")
}

#[test]
fn image_round_trip_removes_row_and_file() {
    let mut service = Service::new(one_user_config());
    let resp = upload_png(&mut service, 1234);
    assert_eq!(resp.size, 1234);
    assert_eq!(resp.content_type, "image/png");
    assert!(resp.url.starts_with("https://img.example/"));
    assert!(resp.url.ends_with(".png"));
    assert_eq!(service.store.rows.len(), 1);
    let stored_path = &service.files.paths[0];
    assert!(stored_path.starts_with("/etc/uploaded/ana/images/"));
    let ticket = ticket_of(&resp);
    assert_eq!(service.handle_delete(&ticket, 5), Ok(()));
    assert_eq!(service.store.rows.len(), 0);
    assert_eq!(service.files.paths.len(), 0);
}

#[test]
fn delete_twice_succeeds_once() {
    let mut service = Service::new(one_user_config());
    let resp = upload_png(&mut service, 10);
    let ticket = ticket_of(&resp);
    assert_eq!(service.handle_delete(&ticket, 5), Ok(()));
    assert_eq!(service.handle_delete(&ticket, 5), Err(ServiceError::NotFound));
    assert_eq!(service.handle_delete(&ticket, 5), Err(ServiceError::NotFound));
}

#[test]
fn wrong_owner_delete_misses_and_keeps_everything() {
    let mut service = Service::new(one_user_config());
    let resp = upload_png(&mut service, 10);
    let ticket = ticket_of(&resp);
    assert_eq!(service.handle_delete(&ticket, 6), Err(ServiceError::NotFound));
    assert_eq!(service.store.rows.len(), 1);
    assert_eq!(service.files.paths.len(), 1);
    assert_eq!(service.handle_delete(&ticket, 5), Ok(()));
}

#[test]
fn missing_header_rejected_before_any_insert() {
    let mut service = Service::new(one_user_config());
    let content_type = "image/png".to_string();
    match service.handle_upload(None, Some(&content_type), 10, None, None) {
        Err(ServiceError::Unauthenticated) => {},
        _ => panic!("missing header must be rejected"),
    }
    assert_eq!(service.store.rows.len(), 0);
    assert_eq!(service.files.paths.len(), 0);
}

#[test]
fn unknown_token_rejected_before_any_insert() {
    let mut service = Service::new(one_user_config());
    let header = "Bearer wrong".to_string();
    let content_type = "image/png".to_string();
    match service.handle_upload(Some(&header), Some(&content_type), 10, None, None) {
        Err(ServiceError::Unauthenticated) => {},
        _ => panic!("unknown token must be rejected"),
    }
    assert_eq!(service.store.rows.len(), 0);
}

#[test]
fn missing_or_malformed_content_type_rejected() {
    let mut service = Service::new(one_user_config());
    let header = "Bearer tok-ana".to_string();
    match service.handle_upload(Some(&header), None, 10, None, None) {
        Err(ServiceError::InvalidUpload) => {},
        _ => panic!("missing content type must be rejected"),
    }
    let bad = "not-a-media-type".to_string();
    match service.handle_upload(Some(&header), Some(&bad), 10, None, None) {
        Err(ServiceError::InvalidUpload) => {},
        _ => panic!("malformed content type must be rejected"),
    }
    assert_eq!(service.store.rows.len(), 0);
}

#[test]
fn stem_and_ticket_are_separate_draws() {
    let mut service = Service::new(one_user_config());
    let resp = upload_png(&mut service, 10);
    let filename = resp.url.strip_prefix("https://img.example/").expect("pool base prefixes url");
    let stem = filename.strip_suffix(".png").expect("png extension");
    let ticket = ticket_of(&resp);
    assert_eq!(stem.chars().count(), 20);
    assert_eq!(ticket.chars().count(), 20);
    assert_ne!(stem, ticket);
}

#[test]
fn audio_upload_uses_fixed_host_and_echoes_metadata() {
    let mut service = Service::new(one_user_config());
    let header = "Bearer tok-ana".to_string();
    let content_type = "audio/flac".to_string();
    let resp = service
        .handle_upload(
            Some(&header),
            Some(&content_type),
            77,
            Some("a title".to_string()),
            Some("an author".to_string()),
        )
        .expect("a valid audio upload succeeds");
    assert!(resp.url.starts_with("https://audio.saikoro.moe/"));
    assert!(resp.url.ends_with(".flac"));
    assert_eq!(resp.size, 77);
    assert_eq!(resp.title.as_deref(), Some("a title"));
    assert_eq!(resp.author.as_deref(), Some("an author"));
    assert_eq!(resp.content_type, "audio/flac");
    let stored_path = &service.files.paths[0];
    assert!(stored_path.starts_with("/etc/uploaded/ana/audio/"));
}

#[test]
fn audio_delete_removes_row_but_reports_file_inconsistency() {
    // Deletion only ever targets the images directory, so deleting an audio
    // upload consumes the row and answers a storage inconsistency for the
    // file that is not there.
    let mut service = Service::new(one_user_config());
    let header = "Bearer tok-ana".to_string();
    let content_type = "audio/flac".to_string();
    let resp = service
        .handle_upload(Some(&header), Some(&content_type), 1, None, None)
        .expect("a valid audio upload succeeds");
    let ticket = ticket_of(&resp);
    assert_eq!(service.handle_delete(&ticket, 5), Err(ServiceError::StorageUnavailable));
    assert_eq!(service.store.rows.len(), 0);
    assert_eq!(service.files.paths.len(), 1);
}

#[test]
fn generic_upload_lands_under_the_root() {
    let mut service = Service::new(one_user_config());
    let header = "Bearer tok-ana".to_string();
    let content_type = "application/x-nonesuch".to_string();
    let resp = service
        .handle_upload(Some(&header), Some(&content_type), 3, None, None)
        .expect("an unknown content type is still accepted");
    assert!(resp.url.ends_with(".unknown"));
    assert_eq!(resp.title, None);
    let stored_path = &service.files.paths[0];
    assert!(stored_path.starts_with("/etc/uploaded/ana/"));
    assert!(!stored_path.contains("/images/"));
    assert!(!stored_path.contains("/audio/"));
}

#[test]
fn concurrent_style_deletions_one_winner() {
    // Serialized deletions for the same ticket, as the store's atomic
    // find-and-delete serializes concurrent ones: exactly one succeeds.
    let mut service = Service::new(one_user_config());
    let resp = upload_png(&mut service, 10);
    let ticket = ticket_of(&resp);
    let mut successes = 0;
    for _ in 0..5 {
        if service.handle_delete(&ticket, 5) == Ok(()) {
            successes += 1;
        }
    }
    assert_eq!(successes, 1);
}
