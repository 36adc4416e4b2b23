use std::time::Duration;

use graphql_gateway::auth::{basic_verdict, AuthError, Jwks, JwksDecoder, RemoteJwks};
use graphql_gateway::blueprint;
use graphql_gateway::script::{callback_arguments, FETCH};
use headers::authorization::Basic;
use headers::{Authorization, HeaderMapExt};
use htpasswd_verify::Htpasswd;
use reqwest::header::HeaderMap;

// testuser1:password123
// testuser2:mypassword
// testuser3:abc123
const HTPASSWD_TEST: &str = "
testuser1:$apr1$e3dp9qh2$fFIfHU9bilvVZBl8TxKzL/
testuser2:$2y$10$wJ/mZDURcAOBIrswCAKFsO0Nk7BpHmWl/XuhF7lNm3gBAFH3ofsuu
testuser3:{SHA}Y2fEjdGT1W6nsLqtJbGUVeUp9e4=
";

fn create_basic_auth_request(username: &str, password: &str) -> HeaderMap {
    let mut headers = HeaderMap::new();
    headers.typed_insert(Authorization::basic(username, password));
    headers
}

fn validate(verifier: &Htpasswd<'static>, headers: &HeaderMap) -> Result<(), AuthError> {
    let header = headers.typed_get::<Authorization<Basic>>();
    basic_verdict(header.map(|h| verifier.check(h.username(), h.password())))
}

#[test]
fn verify_passwords() {
    let provider = blueprint::BasicProvider { htpasswd: HTPASSWD_TEST.to_owned() };
    let verifier = Htpasswd::new_owned(&provider.htpasswd);

    let validation = validate(&verifier, &HeaderMap::new()).err();
    assert_eq!(validation, Some(AuthError::Missing));

    let validation = validate(&verifier, &create_basic_auth_request("testuser1", "wrong-password")).err();
    assert_eq!(validation, Some(AuthError::Invalid));

    let validation = validate(&verifier, &create_basic_auth_request("testuser1", "password123"));
    assert!(validation.is_ok());

    let validation = validate(&verifier, &create_basic_auth_request("testuser2", "mypassword"));
    assert!(validation.is_ok());

    let validation = validate(&verifier, &create_basic_auth_request("testuser3", "abc123"));
    assert!(validation.is_ok());
}

#[test]
fn every_verdict_has_its_answer() {
    assert_eq!(basic_verdict(None), Err(AuthError::Missing));
    assert_eq!(basic_verdict(Some(false)), Err(AuthError::Invalid));
    assert_eq!(basic_verdict(Some(true)), Ok(()));
}

#[test]
fn the_decoder_follows_the_configuration() {
    let local = blueprint::JwtProvider {
        jwks: blueprint::Jwks::Local("{\"keys\":[]}".to_string()),
        optional_kid: true,
    };
    assert_eq!(
        JwksDecoder::new(&local),
        JwksDecoder::Local(Jwks { set: "{\"keys\":[]}".to_string(), optional_kid: true })
    );
    let remote = blueprint::JwtProvider {
        jwks: blueprint::Jwks::Remote {
            url: "https://keys.example/jwks.json".to_string(),
            max_age: Duration::from_secs(60),
        },
        optional_kid: false,
    };
    assert_eq!(
        JwksDecoder::new(&remote),
        JwksDecoder::Remote(RemoteJwks {
            url: "https://keys.example/jwks.json".to_string(),
            max_age: Duration::from_secs(60),
            optional_kid: false,
        })
    );
    assert!(!Jwks::new("x".to_string()).optional_kid);
    assert!(RemoteJwks::new("u".to_string(), Duration::from_secs(1)).optional_kid(true).optional_kid);
}

#[test]
fn a_script_is_called_back_error_first() {
    assert_eq!(callback_arguments(Ok::<u16, String>(200)), (None, Some(200)));
    assert_eq!(
        callback_arguments(Err::<u16, String>("connection refused".to_string())),
        (Some("connection refused".to_string()), None)
    );
    assert_eq!(FETCH, "__fetch__");
}
