use audiod::connect::{credential_source, forwards_source, redirect_uri, CredentialSource};

#[test]
fn cached_credentials_come_first() {
    assert_eq!(credential_source(true, Some("tok".into())), CredentialSource::Cached);
    assert_eq!(credential_source(true, None), CredentialSource::Cached);
}

#[test]
fn token_before_oauth() {
    assert_eq!(
        credential_source(false, Some("tok".into())),
        CredentialSource::AccessToken("tok".into())
    );
    assert_eq!(credential_source(false, None), CredentialSource::OAuth);
}

#[test]
fn redirect_uri_on_server_port() {
    assert_eq!(redirect_uri(8080), "http://127.0.0.1:8080/login");
}

#[test]
fn redirect_uri_edge_ports() {
    assert_eq!(redirect_uri(0), "http://127.0.0.1:0/login");
    assert_eq!(redirect_uri(9), "http://127.0.0.1:9/login");
    assert_eq!(redirect_uri(10), "http://127.0.0.1:10/login");
    assert_eq!(redirect_uri(65535), "http://127.0.0.1:65535/login");
}

#[test]
fn only_spotify_is_forwarded() {
    assert!(forwards_source("Spotify"));
    assert!(!forwards_source("spotify"));
    assert!(!forwards_source("Bluetooth"));
    assert!(!forwards_source(""));
}
