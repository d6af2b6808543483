use cleopatra::auth::{
    algorithm_named, authorize, bearer_token, key_material, key_source, parse_algorithm, verdict,
    Algorithm, AuthError, AuthStep,
};
use cleopatra::config::AuthConfig;

fn auth(algorithm: Option<&str>, secret_path: Option<&str>) -> AuthConfig {
    AuthConfig {
        enabled: true,
        secret_path: secret_path.map(|s| s.to_string()),
        algorithm: algorithm.map(|s| s.to_string()),
    }
}

#[test]
fn the_three_algorithms_are_read_in_any_case() {
    assert_eq!(parse_algorithm("HS256"), Ok(Algorithm::HS256));
    assert_eq!(parse_algorithm("rs256"), Ok(Algorithm::RS256));
    assert_eq!(parse_algorithm("Es256"), Ok(Algorithm::ES256));
}

#[test]
fn another_algorithm_is_refused_as_it_was_written() {
    assert_eq!(parse_algorithm("hs512"), Err("Unsupported algorithm: hs512".to_string()));
    assert_eq!(parse_algorithm(""), Err("Unsupported algorithm: ".to_string()));
}

#[test]
fn an_upper_case_name_is_matched_letter_for_letter() {
    assert_eq!(algorithm_named("HS256"), Some(Algorithm::HS256));
    assert_eq!(algorithm_named("hs256"), None);
    assert_eq!(algorithm_named("HS256 "), None);
}

#[test]
fn the_key_source_needs_algorithm_and_path() {
    assert_eq!(
        key_source(&auth(None, Some("k"))).expect_err("no algorithm"),
        "Auth algorithm is required when auth is enabled"
    );
    assert_eq!(
        key_source(&auth(None, None)).expect_err("nothing"),
        "Auth algorithm is required when auth is enabled"
    );
    assert_eq!(
        key_source(&auth(Some("HS256"), None)).expect_err("no path"),
        "Auth secret_path is required when auth is enabled"
    );
    assert_eq!(
        key_source(&auth(Some("none"), Some("k"))).expect_err("no such algorithm"),
        "Unsupported algorithm: none"
    );
    let source = key_source(&auth(Some("es256"), Some("/etc/key.pem"))).expect("complete");
    assert_eq!(source.algorithm, Algorithm::ES256);
    assert_eq!(source.secret_path, "/etc/key.pem");
}

#[test]
fn the_key_is_used_without_the_white_space_around_it() {
    assert_eq!(key_material("  secret\n"), "secret");
    assert_eq!(key_material("se cret"), "se cret");
}

#[test]
fn a_request_without_the_header_is_turned_away() {
    assert_eq!(bearer_token(None), Err(AuthError::MissingHeader));
    assert_eq!(AuthError::MissingHeader.message(), "Missing Authorization header");
}

#[test]
fn a_header_without_the_scheme_is_turned_away() {
    assert_eq!(bearer_token(Some("Basic abc")), Err(AuthError::InvalidFormat));
    assert_eq!(bearer_token(Some("bearer abc")), Err(AuthError::InvalidFormat));
    assert_eq!(bearer_token(Some("Bearer")), Err(AuthError::InvalidFormat));
    assert_eq!(bearer_token(Some("")), Err(AuthError::InvalidFormat));
    assert_eq!(AuthError::InvalidFormat.message(), "Invalid authorization header format");
}

#[test]
fn the_token_follows_the_scheme() {
    assert_eq!(bearer_token(Some("Bearer abc.def.ghi")), Ok("abc.def.ghi".to_string()));
    assert_eq!(bearer_token(Some("Bearer   abc  ")), Ok("abc".to_string()));
    assert_eq!(bearer_token(Some("Bearer ")), Ok("".to_string()));
}

#[test]
fn the_scheme_is_taken_once() {
    assert_eq!(bearer_token(Some("Bearer Bearer abc")), Ok("Bearer abc".to_string()));
    assert_eq!(bearer_token(Some("Bearer Bearerabc")), Ok("Bearerabc".to_string()));
    assert_eq!(bearer_token(Some("Bearer Bearer ")), Ok("Bearer".to_string()));
    match authorize(true, Some("Bearer Bearer X")) {
        AuthStep::Verify(token) => assert_eq!(token, "Bearer X"),
        other => panic!("expected a token, got {:?}", other),
    }
}

#[test]
fn without_a_verifier_every_request_passes() {
    assert!(matches!(authorize(false, None), AuthStep::Admit));
    assert!(matches!(authorize(false, Some("Basic abc")), AuthStep::Admit));
}

#[test]
fn with_a_verifier_the_token_is_to_be_verified() {
    match authorize(true, Some("Bearer tok")) {
        AuthStep::Verify(token) => assert_eq!(token, "tok"),
        other => panic!("expected a token, got {:?}", other),
    }
    assert!(matches!(authorize(true, None), AuthStep::Reject(AuthError::MissingHeader)));
    assert!(matches!(authorize(true, Some("tok")), AuthStep::Reject(AuthError::InvalidFormat)));
}

#[test]
fn a_token_that_does_not_verify_is_turned_away() {
    assert_eq!(verdict(true), Ok(()));
    assert_eq!(verdict(false), Err(AuthError::InvalidToken));
    assert_eq!(AuthError::InvalidToken.message(), "Invalid or expired token");
}
