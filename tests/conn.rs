use navicon::conn::{
    auth_params, auth_token, check_response, endpoint_url, fetch_request, new_salt, salt_of, ConnectionError,
    ConnectionErrorType, SUBSONIC_API_VERSION, SUBSONIC_CLIENT_NAME,
};
use navicon::library::cache::LibraryCache;
use navicon::library::{Fetch, Library, LibraryItemKey};
use navicon::subsonic::{self, SubsonicData, SubsonicResponse};

fn error_payload(code: usize, message: Option<&str>) -> subsonic::Error {
    subsonic::Error {
        code,
        message: message.map(|m| m.to_string()),
    }
}

#[test]
fn connection_error_codes() {
    let cases = [
        (0, ConnectionErrorType::Generic),
        (10, ConnectionErrorType::MissingParameter),
        (20, ConnectionErrorType::IncompatibleClient),
        (30, ConnectionErrorType::IncompatibleServer),
        (40, ConnectionErrorType::WrongCredentials),
        (50, ConnectionErrorType::NotAuthorized),
        (70, ConnectionErrorType::NotFound),
        (60, ConnectionErrorType::Other(60)),
        (41, ConnectionErrorType::Other(41)),
    ];
    for (code, want) in cases {
        let e = ConnectionError::from(&error_payload(code, Some("bad")));
        assert_eq!(e.code, want);
        assert_eq!(e.msg.as_deref(), Some("bad"));
    }
    let e = ConnectionError::from(&error_payload(40, None));
    assert_eq!(e.code, ConnectionErrorType::WrongCredentials);
    assert_eq!(e.msg, None);
}

#[test]
fn check_response_turns_error_payload_into_error() {
    let resp = SubsonicResponse {
        status: "failed".to_string(),
        version: "1.16.1".to_string(),
        data: Some(SubsonicData::Error(error_payload(70, Some("not found")))),
    };
    match check_response(resp) {
        Err(e) => {
            assert_eq!(e.code, ConnectionErrorType::NotFound);
            assert_eq!(e.msg.as_deref(), Some("not found"));
        }
        Ok(_) => panic!("an error payload is an error"),
    }
    let resp = SubsonicResponse {
        status: "ok".to_string(),
        version: "1.16.1".to_string(),
        data: Some(SubsonicData::License(subsonic::License {
            valid: true,
            email: None,
            license_expires: None,
        })),
    };
    let ok = check_response(resp).unwrap();
    assert!(matches!(ok.data, Some(SubsonicData::License(l)) if l.valid));
}

#[test]
fn response_status() {
    let mut resp = SubsonicResponse {
        status: "ok".to_string(),
        version: "1.16.1".to_string(),
        data: None,
    };
    assert!(resp.is_ok());
    resp.status = "failed".to_string();
    assert!(!resp.is_ok());
    resp.status = "o".to_string();
    assert!(!resp.is_ok());
    resp.status = "ok ".to_string();
    assert!(!resp.is_ok());
}

#[test]
fn auth_token_is_md5_of_password_and_salt() {
    assert_eq!(auth_token("sesame", "c19b2d"), "26719a1196d2a940705a59634eb18eab");
    assert_eq!(auth_token("", ""), "d41d8cd98f00b204e9800998ecf8427e");
}

#[test]
fn auth_params_in_order() {
    let params = auth_params("alice", "sesame", "c19b2d");
    let want = vec![
        ("v", SUBSONIC_API_VERSION),
        ("c", SUBSONIC_CLIENT_NAME),
        ("u", "alice"),
        ("s", "c19b2d"),
        ("t", "26719a1196d2a940705a59634eb18eab"),
    ];
    assert_eq!(params.len(), want.len());
    for ((name, value), (want_name, want_value)) in params.iter().zip(want) {
        assert_eq!(name, want_name);
        assert_eq!(value, want_value);
    }
    assert_eq!(SUBSONIC_API_VERSION, "1.16.1");
    assert_eq!(SUBSONIC_CLIENT_NAME, "navicon");
}

#[test]
fn endpoint_url_joins_base_and_endpoint() {
    assert_eq!(
        endpoint_url("https://music.example", "getArtists"),
        "https://music.example/rest/getArtists"
    );
}

#[test]
fn salt_is_lower_case_hex() {
    for _ in 0..20 {
        let s = new_salt();
        assert!(!s.is_empty() && s.len() <= 16);
        assert!(s.chars().all(|c| c.is_ascii_digit() || ('a'..='f').contains(&c)));
        assert!(s == "0" || !s.starts_with('0'));
    }
}

#[test]
fn cache_ingests_root_indexes() {
    let mut cache = LibraryCache::new();
    assert!(cache.get_children(&LibraryItemKey::Root).is_none());
    let page = SubsonicResponse {
        status: "ok".to_string(),
        version: "1.16.1".to_string(),
        data: Some(SubsonicData::Artists(subsonic::Artists {
            index: vec![],
            ignored_articles: String::new(),
        })),
    };
    cache.update_root(page);
    assert!(matches!(cache.get_children(&LibraryItemKey::Root), Some(v) if v.is_empty()));
    let lib = Library::new();
    assert!(lib.cached_children(&LibraryItemKey::Root).is_none());
}

#[test]
fn fetch_request_names_endpoint_and_id() {
    let (endpoint, params) = fetch_request(&Fetch::Artists);
    assert_eq!(endpoint, "getArtists");
    assert!(params.is_empty());
    let (endpoint, params) = fetch_request(&Fetch::Artist("A1".to_string()));
    assert_eq!(endpoint, "getArtist");
    assert_eq!(params, vec![("id".to_string(), "A1".to_string())]);
    let (endpoint, params) = fetch_request(&Fetch::Album("AL1".to_string()));
    assert_eq!(endpoint, "getAlbum");
    assert_eq!(params, vec![("id".to_string(), "AL1".to_string())]);
}

#[test]
fn salt_of_writes_hex() {
    assert_eq!(salt_of(0), "0");
    assert_eq!(salt_of(255), "ff");
    assert_eq!(salt_of(0xc19b2d), "c19b2d");
    assert_eq!(salt_of(u64::MAX), "ffffffffffffffff");
}
