use cloudsync::delta::{get_drive_delta, DriveItem};
use cloudsync::onedrive::{get_oauth_url, token_from_response, valid_grant_type};
use cloudsync::{fresh_reset, token_expired, urlencode, Account, SyncService, Token};

#[test]
fn urlencode_escapes_spaces() {
    assert_eq!(urlencode("a b c"), "a%20b%20c");
    assert_eq!(urlencode("nospace"), "nospace");
    assert_eq!(urlencode(""), "");
    assert_eq!(urlencode(" "), "%20");
    assert_eq!(urlencode("ä ö"), "ä%20ö");
}

#[test]
fn oauth_url_is_the_authorize_endpoint() {
    let url = get_oauth_url();
    assert!(url.starts_with("https://login.microsoftonline.com/common/oauth2/v2.0/authorize?"));
    assert_eq!(
        url,
        "https://login.microsoftonline.com/common/oauth2/v2.0/authorize?client_id=3dceca68-abd4-46a1-9e72-9dda8a80d9c1&response_type=code&redirect_uri=https://login.microsoftonline.com/common/oauth2/nativeclient&scope=User.Read%20Files.ReadWrite.All%20offline_access"
    );
}

#[test]
fn grant_types() {
    assert!(valid_grant_type("authorization_code"));
    assert!(valid_grant_type("refresh_token"));
    assert!(!valid_grant_type("password"));
    assert!(!valid_grant_type(""));
}

#[test]
fn token_validity_window() {
    let t = token_from_response("acc".to_string(), "ref".to_string(), 3600, 1000);
    assert_eq!(t.access_token, "acc");
    assert_eq!(t.refresh_token, "ref");
    assert_eq!(t.valid_till, 4600);
    // The lifetime is clamped rather than wrapped.
    let t = token_from_response("a".to_string(), "r".to_string(), u64::MAX, 10);
    assert_eq!(t.valid_till, u64::MAX);
    assert!(!token_expired(&t, u64::MAX));
    let t = token_from_response("a".to_string(), "r".to_string(), 10, 100);
    assert!(!token_expired(&t, 110), "not expired at the boundary");
    assert!(token_expired(&t, 111));
}

#[test]
fn fresh_reset_clears_cutoff_and_attributes() {
    let mut attributes = std::collections::HashMap::new();
    attributes.insert("delta_link".to_string(), "cursor".to_string());
    let mut account = Account {
        service: SyncService::Onedrive,
        token: Token {
            access_token: "a".to_string(),
            refresh_token: "r".to_string(),
            valid_till: 5,
        },
        last_synced: 123,
        attributes,
    };
    fresh_reset(&mut account);
    assert_eq!(account.last_synced, 0);
    assert!(account.attributes.is_empty());
    assert_eq!(account.token.access_token, "a");
}

fn item(
    id: &str,
    name: Option<&str>,
    parent: Option<&str>,
    ts: Option<&str>,
    folder: bool,
    deleted: bool,
) -> DriveItem {
    DriveItem {
        id: id.to_string(),
        name: name.map(|s| s.to_string()),
        parent_path: parent.map(|s| s.to_string()),
        last_modified: ts.map(|s| s.to_string()),
        is_folder: folder,
        is_deleted: deleted,
    }
}

#[test]
fn drive_delta_maps_files_and_filters_the_rest() {
    let items = vec![
        // A folder: filtered out.
        item("f1", Some("docs"), Some("/drive/root:"), Some("2023-08-06T13:23:00Z"), true, false),
        // A file directly under the root.
        item("i1", Some("a.txt"), Some("/drive/root:"), Some("2023-08-06T13:23:00Z"), false, false),
        // A file in a subfolder.
        item(
            "i2",
            Some("b.txt"),
            Some("/drive/root:/sub/dir"),
            Some("2023-08-06T13:23:00.093Z"),
            false,
            false,
        ),
        // A deleted item without a parent path.
        item("i3", Some("c.txt"), None, Some("2023-08-06T13:23:00Z"), false, true),
        // No name, empty name, no timestamp, malformed timestamp, short
        // parent: all filtered out.
        item("x1", None, Some("/drive/root:"), Some("2023-08-06T13:23:00Z"), false, false),
        item("x2", Some(""), Some("/drive/root:"), Some("2023-08-06T13:23:00Z"), false, false),
        item("x3", Some("d.txt"), Some("/drive/root:"), None, false, false),
        item("x4", Some("e.txt"), Some("/drive/root:"), Some("yesterday"), false, false),
        item("x5", Some("f.txt"), Some("/root:"), Some("2023-08-06T13:23:00Z"), false, false),
    ];
    let deltas = get_drive_delta(&items);
    assert_eq!(deltas.len(), 3);
    assert_eq!(deltas[0].cloud_id, "i1");
    assert_eq!(deltas[0].file_path, "/a.txt");
    assert_eq!(deltas[0].last_modified, 1691328180);
    assert!(matches!(deltas[0].delta_type, cloudsync::DriveDeltaType::CreatedOrModified));
    assert_eq!(deltas[1].cloud_id, "i2");
    assert_eq!(deltas[1].file_path, "/sub/dir/b.txt");
    assert_eq!(deltas[1].last_modified, 1691328180);
    assert_eq!(deltas[2].cloud_id, "i3");
    assert_eq!(deltas[2].file_path, "/c.txt");
    assert!(matches!(deltas[2].delta_type, cloudsync::DriveDeltaType::Deleted));
}
